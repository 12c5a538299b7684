//! Shoes, and picking those of one size.

use vstd::prelude::*;

verus! {

/// A shoe.
#[derive(Debug, PartialEq, Eq)]
pub struct Shoe {
    pub size: u32,
    pub style: String,
}

/// The shoes of size `shoe_size` among `shoes`, in the order in which they
/// stand there.
pub fn shoes_in_size(shoes: Vec<Shoe>, shoe_size: u32) -> (fitting: Vec<Shoe>)
    ensures
        fitting@ == shoes@.filter(|s: Shoe| s.size == shoe_size),
{
    let ghost all = shoes@;
    let ghost fits = |s: Shoe| s.size == shoe_size;
    let mut fitting: Vec<Shoe> = Vec::new();
    for shoe in it: shoes
        invariant
            all == shoes@,
            fits == (|s: Shoe| s.size == shoe_size),
            fitting@ == all.take(it.index() as int).filter(fits),
    {
        proof {
            let i = it.index() as int;
            assert(all.take(i + 1) =~= all.take(i) + seq![shoe]);
            Seq::filter_distributes_over_add(all.take(i), seq![shoe], fits);
            reveal_with_fuel(Seq::filter, 2);
            assert(seq![shoe].drop_last() =~= Seq::<Shoe>::empty());
        }
        if shoe.size == shoe_size {
            fitting.push(shoe);
        }
    }
    assert(all.take(all.len() as int) =~= all);
    fitting
}

} // verus!
