//! Text in a frame of asterisks.

use vstd::prelude::*;
use vstd::string::*;

verus! {

/// `n` copies of the character `c`.
pub open spec fn run_of(c: char, n: nat) -> Seq<char> {
    Seq::new(n, |i: int| c)
}

/// A string of `n` copies of `unit`, which holds the one character `c`.
fn repeat(unit: &str, n: usize, Ghost(c): Ghost<char>) -> (s: String)
    requires
        unit@ == seq![c],
    ensures
        s@ == run_of(c, n as nat),
{
    let mut s = String::new();
    let mut i: usize = 0;
    assert(s@ =~= run_of(c, 0));
    while i < n
        invariant
            0 <= i <= n,
            unit@ == seq![c],
            s@ == run_of(c, i as nat),
        decreases n - i,
    {
        s.append(unit);
        i += 1;
        assert(s@ =~= run_of(c, i as nat));
    }
    s
}

/// The five lines of the frame round a text of `width` bytes.
pub open spec fn framed(text: Seq<char>, width: nat) -> Seq<Seq<char>> {
    seq![
        run_of('*', width + 4),
        seq!['*'] + run_of(' ', width + 2) + seq!['*'],
        seq!['*', ' '] + text + seq![' ', '*'],
        seq!['*'] + run_of(' ', width + 2) + seq!['*'],
        run_of('*', width + 4),
    ]
}

/// The lines that show `text` in a frame of asterisks: a full line, an empty
/// one, the text, an empty one, a full line. The frame is as wide as the
/// text has bytes, and four more.
pub fn outline(text: &str) -> (lines: Vec<String>)
    requires
        crate::text::byte_len(text@) + 4 <= usize::MAX,
    ensures
        lines@.len() == 5,
        forall|i: int|
            0 <= i < 5 ==> (#[trigger] lines@[i])@ == framed(
                text@,
                crate::text::byte_len(text@),
            )[i],
{
    proof {
        reveal_strlit("*");
        reveal_strlit(" ");
        reveal_strlit("* ");
        reveal_strlit(" *");
        assert("*"@ =~= seq!['*']);
        assert(" "@ =~= seq![' ']);
        assert("* "@ =~= seq!['*', ' ']);
        assert(" *"@ =~= seq![' ', '*']);
    }
    let len: usize = text.as_bytes().len();
    let full = repeat("*", len + 4, Ghost('*'));
    let mut empty = String::from_str("*");
    let blanks = repeat(" ", len + 2, Ghost(' '));
    empty.append(blanks.as_str());
    empty.append("*");
    let mut middle = String::from_str("* ");
    middle.append(text);
    middle.append(" *");
    let mut lines: Vec<String> = Vec::new();
    lines.push(full.clone());
    lines.push(empty.clone());
    lines.push(middle);
    lines.push(empty);
    lines.push(full);
    lines
}

} // verus!
