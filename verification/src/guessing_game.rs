//! A number-guessing game: the secret, what counts as a guess, and the
//! answer to each line that the player types.

use vstd::prelude::*;

verus! {

/// A guess that is known to lie between 1 and 100.
pub struct Guess {
    value: i32,
}

impl Guess {
    /// The number that was guessed.
    pub closed spec fn view(&self) -> int {
        self.value as int
    }

    /// The guesses that exist: 1 to 100.
    #[verifier::type_invariant]
    spec fn in_range(&self) -> bool {
        1 <= self.value <= 100
    }

    /// Makes a guess of a number between 1 and 100.
    pub fn new(value: i32) -> (guess: Guess)
        requires
            1 <= value <= 100,
        ensures
            guess@ == value,
    {
        Guess { value }
    }

    /// The number that was guessed, which lies between 1 and 100.
    pub fn value(&self) -> (value: i32)
        ensures
            value == self@,
            1 <= value <= 100,
    {
        proof {
            use_type_invariant(self);
        }
        self.value
    }
}

/// How a guess compares with the secret.
#[derive(Clone, Copy, Debug, PartialEq, Eq, Structural)]
pub enum Verdict {
    TooSmall,
    TooBig,
    Correct,
}

/// What the game answers to one line of input.
#[derive(Clone, Copy, Debug, PartialEq, Eq, Structural)]
pub enum Reply {
    /// The line is no number that could be a guess: the player is asked
    /// again.
    Invalid,
    /// The line is a guess, and this is how it compares. The game ends with
    /// the correct one.
    Guessed(Verdict),
}

/// The verdict on `guess` when the secret is `secret`.
pub open spec fn spec_judge(guess: u8, secret: u8) -> Verdict {
    if guess < secret {
        Verdict::TooSmall
    } else if guess > secret {
        Verdict::TooBig
    } else {
        Verdict::Correct
    }
}

/// Compares a guess with the secret.
pub fn judge(guess: u8, secret: u8) -> (v: Verdict)
    ensures
        v == spec_judge(guess, secret),
{
    if guess < secret {
        Verdict::TooSmall
    } else if guess > secret {
        Verdict::TooBig
    } else {
        Verdict::Correct
    }
}

/// The reply to a line that was read as `parsed`.
pub open spec fn spec_reply(parsed: Option<u8>, secret: u8) -> Reply {
    match parsed {
        Some(guess) => Reply::Guessed(spec_judge(guess, secret)),
        None => Reply::Invalid,
    }
}

/// The reply to a line that was read as `parsed`: `None` stands for a line
/// that is no number.
pub fn reply_to(parsed: Option<u8>, secret: u8) -> (r: Reply)
    ensures
        r == spec_reply(parsed, secret),
{
    match parsed {
        Some(guess) => Reply::Guessed(judge(guess, secret)),
        None => Reply::Invalid,
    }
}

/// What `str::trim` makes of a string.
pub uninterp spec fn spec_trim(s: Seq<char>) -> Seq<char>;

/// What `str::parse::<u8>` reads from a string: the number, or `None` where
/// it reports an error.
pub uninterp spec fn spec_parse_u8(s: Seq<char>) -> Option<u8>;

/// `str::trim`: the string without the white space at its two ends. The
/// contract only names the result.
#[verifier::external_body]
fn trim(s: &str) -> (t: &str)
    ensures
        t@ == spec_trim(s@),
{
    s.trim()
}

/// `str::parse::<u8>`, with the error dropped. The contract only names the
/// result.
#[verifier::external_body]
fn parse_u8(s: &str) -> (n: Option<u8>)
    ensures
        n == spec_parse_u8(s@),
{
    s.parse::<u8>().ok()
}

/// Reads a line as a guess: the number that is left when the white space at
/// both ends is taken off.
pub fn parse_guess(line: &str) -> (n: Option<u8>)
    ensures
        n == spec_parse_u8(spec_trim(line@)),
{
    parse_u8(trim(line))
}

/// Answers one line of input.
pub fn answer(line: &str, secret: u8) -> (r: Reply)
    ensures
        r == spec_reply(spec_parse_u8(spec_trim(line@)), secret),
{
    reply_to(parse_guess(line), secret)
}

/// `Rng::gen_range` on `rand::thread_rng()` with the inclusive range from
/// `low` to `high`: some number of that range. Which one is not known.
#[verifier::external_body]
fn random_between(low: u8, high: u8) -> (n: u8)
    requires
        low <= high,
    ensures
        low <= n <= high,
{
    rand::Rng::gen_range(&mut rand::thread_rng(), low..=high)
}

/// Draws the secret of a game: a number between 1 and 10.
pub fn pick_secret() -> (secret: u8)
    ensures
        1 <= secret <= 10,
{
    random_between(1, 10)
}

} // verus!
