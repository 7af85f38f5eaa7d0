//! Shoes, picked by size.

use vstd::prelude::*;

verus! {

/// A shoe.
#[derive(PartialEq, Debug)]
pub struct Shoe {
    pub size: u32,
    pub style: String,
}

/// The shoes of `shoes` that have the size `shoe_size`, in their order.
pub open spec fn of_size(shoes: Seq<Shoe>, shoe_size: u32) -> Seq<Shoe>
    decreases shoes.len(),
{
    if shoes.len() == 0 {
        shoes
    } else if shoes.last().size == shoe_size {
        of_size(shoes.drop_last(), shoe_size).push(shoes.last())
    } else {
        of_size(shoes.drop_last(), shoe_size)
    }
}

/// Keeps the shoes of the size `shoe_size`, in the order in which they came.
pub fn shoes_in_size(shoes: Vec<Shoe>, shoe_size: u32) -> (fitting: Vec<Shoe>)
    ensures
        fitting@ == of_size(shoes@, shoe_size),
{
    let ghost all = shoes@;
    let mut rest = shoes;
    let mut backwards: Vec<Shoe> = Vec::new();
    while rest.len() > 0
        invariant
            of_size(all, shoe_size) == of_size(rest@, shoe_size) + backwards@.reverse(),
        decreases rest@.len(),
    {
        let ghost before = rest@;
        let ghost kept = backwards@;
        let shoe = rest.pop().unwrap();
        assert(rest@ =~= before.drop_last());
        if shoe.size == shoe_size {
            backwards.push(shoe);
            assert(backwards@.reverse() =~= seq![shoe] + kept.reverse());
            assert(of_size(before, shoe_size) + kept.reverse() =~= of_size(rest@, shoe_size)
                + backwards@.reverse());
        }
    }
    let mut fitting: Vec<Shoe> = Vec::new();
    assert(of_size(all, shoe_size) =~= fitting@ + backwards@.reverse());
    while backwards.len() > 0
        invariant
            of_size(all, shoe_size) == fitting@ + backwards@.reverse(),
        decreases backwards@.len(),
    {
        let ghost before = backwards@;
        let ghost found = fitting@;
        let shoe = backwards.pop().unwrap();
        fitting.push(shoe);
        assert(before.reverse() =~= seq![shoe] + backwards@.reverse());
        assert(found + before.reverse() =~= fitting@ + backwards@.reverse());
    }
    assert(fitting@ + backwards@.reverse() =~= fitting@);
    fitting
}

} // verus!
