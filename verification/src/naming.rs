//! Names that a type gives itself and names that a role gives it, and a list
//! of strings written out in brackets.

use vstd::prelude::*;
use vstd::string::*;

verus! {

/// A kind of animal.
pub trait Animal {
    /// What the young of the kind are called.
    spec fn young() -> Seq<char>;

    /// What the young of the kind are called.
    fn baby_name() -> (name: String)
        ensures
            name@ == Self::young(),
    ;
}

/// The dog.
pub struct Dog;

impl Dog {
    /// What this dog calls its young: spot.
    pub fn baby_name() -> (name: String)
        ensures
            name@ == "spot"@,
    {
        String::from_str("spot")
    }
}

impl Animal for Dog {
    open spec fn young() -> Seq<char> {
        "puppy"@
    }

    fn baby_name() -> (name: String) {
        String::from_str("puppy")
    }
}

/// The strings of `v` as sequences of characters.
pub open spec fn texts(v: Seq<String>) -> Seq<Seq<char>> {
    Seq::new(v.len(), |i: int| v[i]@)
}

/// The items of `items` in a row, with a comma and a blank between each two.
pub open spec fn joined(items: Seq<Seq<char>>) -> Seq<char>
    decreases items.len(),
{
    if items.len() == 0 {
        Seq::empty()
    } else if items.len() == 1 {
        items[0]
    } else {
        joined(items.drop_last()) + seq![',', ' '] + items.last()
    }
}

/// A list of strings that can be written out.
pub struct Wrapper(pub Vec<String>);

impl Wrapper {
    /// The list in brackets, its items separated by a comma and a blank.
    pub fn to_text(&self) -> (text: String)
        ensures
            text@ == seq!['['] + joined(texts(self.0@)) + seq![']'],
    {
        proof {
            reveal_strlit("[");
            reveal_strlit("]");
            reveal_strlit(", ");
            assert("["@ =~= seq!['[']);
            assert("]"@ =~= seq![']']);
            assert(", "@ =~= seq![',', ' ']);
        }
        let n: usize = self.0.len();
        let mut text = String::from_str("[");
        let mut i: usize = 0;
        assert(text@ =~= seq!['['] + joined(texts(self.0@).take(0)));
        while i < n
            invariant
                0 <= i <= n,
                n == self.0@.len(),
                ", "@ == seq![',', ' '],
                text@ == seq!['['] + joined(texts(self.0@).take(i as int)),
            decreases n - i,
        {
            proof {
                let next = texts(self.0@).take(i as int + 1);
                assert(next.drop_last() =~= texts(self.0@).take(i as int));
                assert(next.last() == self.0@[i as int]@);
                if i == 0 {
                    assert(next[0] == self.0@[0]@);
                    assert(joined(texts(self.0@).take(0)) =~= Seq::<char>::empty());
                }
            }
            if i > 0 {
                text.append(", ");
            }
            text.append(self.0[i].as_str());
            i += 1;
            assert(text@ =~= seq!['['] + joined(texts(self.0@).take(i as int)));
        }
        proof {
            assert(texts(self.0@).take(n as int) =~= texts(self.0@));
        }
        text.append("]");
        text
    }
}

} // verus!
