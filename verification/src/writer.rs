//! Where bytes can be written to.

use vstd::prelude::*;

verus! {

/// The error of an input or output operation of the standard library. Its
/// contents are not looked at here.
#[verifier::external_type_specification]
#[verifier::external_body]
pub struct ExIoError(std::io::Error);

/// A sink for bytes.
pub trait Write {
    /// Writes some bytes of `buf`, from its start, and says how many; or
    /// fails with the error of the device.
    fn write(&mut self, buf: &[u8]) -> Result<usize, std::io::Error>;
}

} // verus!
