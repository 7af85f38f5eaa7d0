//! Small helpers on strings: the first word, the longer of two, lengths.

use vstd::prelude::*;
use vstd::string::*;

verus! {

/// The place of the first blank in `s`, or the length of `s` if it holds
/// none.
pub open spec fn first_blank(s: Seq<char>) -> nat
    decreases s.len(),
{
    if s.len() == 0 || s[0] == ' ' {
        0
    } else {
        1 + first_blank(s.drop_first())
    }
}

/// `k` is the place of the first blank as soon as no blank stands before it
/// and it is a blank itself or the end.
pub proof fn lemma_first_blank_is(s: Seq<char>, k: int)
    requires
        0 <= k <= s.len(),
        forall|i: int| 0 <= i < k ==> s[i] != ' ',
        k < s.len() ==> s[k] == ' ',
    ensures
        first_blank(s) == k,
    decreases s.len(),
{
    if k > 0 {
        let t = s.drop_first();
        assert forall|i: int| 0 <= i < k - 1 implies t[i] != ' ' by {
            assert(t[i] == s[i + 1]);
        }
        if k < s.len() {
            assert(t[k - 1] == s[k]);
        }
        lemma_first_blank_is(t, k - 1);
    }
}

/// The first word of `s`: what stands before its first blank, or all of it
/// if it holds no blank.
pub fn first_word(s: &str) -> (word: &str)
    ensures
        word@ == s@.take(first_blank(s@) as int),
{
    let n: usize = s.unicode_len();
    let mut i: usize = 0;
    while i < n
        invariant
            0 <= i <= n,
            n == s@.len(),
            forall|j: int| 0 <= j < i ==> s@[j] != ' ',
        decreases n - i,
    {
        if s.get_char(i) == ' ' {
            proof {
                lemma_first_blank_is(s@, i as int);
            }
            return s.substring_char(0, i);
        }
        i += 1;
    }
    proof {
        lemma_first_blank_is(s@, n as int);
        assert(s@.take(n as int) =~= s@);
    }
    s
}

/// The number of bytes that a string takes in UTF-8.
pub open spec fn byte_len(s: Seq<char>) -> nat {
    vstd::utf8::encode_utf8(s).len()
}

/// The longer of two strings by the number of their bytes; the second one if
/// they are equally long.
pub fn longest<'a>(x: &'a str, y: &'a str) -> (r: &'a str)
    ensures
        r == (if byte_len(x@) > byte_len(y@) {
            x
        } else {
            y
        }),
{
    if x.as_bytes().len() > y.as_bytes().len() {
        x
    } else {
        y
    }
}

/// A part of a text that is kept for its importance.
pub struct ImportantExcerpt<'a> {
    pub part: &'a str,
}

impl<'a> ImportantExcerpt<'a> {
    /// The level of importance, which is 3 for every excerpt.
    pub fn level(&self) -> (l: u8)
        ensures
            l == 3,
    {
        3
    }

    /// The excerpt itself, whatever is announced.
    pub fn announce(&self, announcement: &str) -> (part: &str)
        ensures
            part == self.part,
    {
        self.part
    }
}

/// The length of a string in bytes.
pub fn calculate_length(s: &String) -> (n: usize)
    ensures
        n == byte_len(s@),
{
    s.as_str().as_bytes().len()
}

/// Appends the letter o to a string and gives the new length in bytes.
pub fn mod_and_calculate_length(s: &mut String) -> (n: usize)
    ensures
        final(s)@ == old(s)@ + "o"@,
        n == byte_len(final(s)@),
{
    s.append("o");
    s.as_str().as_bytes().len()
}

} // verus!
