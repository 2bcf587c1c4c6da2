//! Shoes and a size filter over them.

use vstd::prelude::*;

verus! {

/// A shoe with a size and a style name.
#[derive(Debug)]
pub struct Shoe {
    pub size: u32,
    pub style: String,
}

impl PartialEq for Shoe {
    fn eq(&self, other: &Shoe) -> (r: bool) {
        self.size == other.size && self.style == other.style
    }
}

impl vstd::std_specs::cmp::PartialEqSpecImpl for Shoe {
    open spec fn obeys_eq_spec() -> bool {
        true
    }

    open spec fn eq_spec(&self, other: &Shoe) -> bool {
        self.size == other.size && self.style@ == other.style@
    }
}

/// The shoes of the given size among `shoes`, kept in their order.
pub open spec fn in_my_size(shoes: Seq<Shoe>, shoe_size: u32) -> Seq<Shoe>
    decreases shoes.len(),
{
    if shoes.len() == 0 {
        Seq::empty()
    } else {
        let rest = in_my_size(shoes.drop_first(), shoe_size);
        if shoes.first().size == shoe_size {
            seq![shoes.first()] + rest
        } else {
            rest
        }
    }
}

/// Keeps exactly the shoes of the given size, in their original order.
pub fn shoes_in_my_size(shoes: Vec<Shoe>, shoe_size: u32) -> (r: Vec<Shoe>)
    ensures
        r@ == in_my_size(shoes@, shoe_size),
{
    let ghost all = shoes@;
    let mut rest = shoes;
    let mut r: Vec<Shoe> = Vec::new();
    while rest.len() > 0
        invariant
            in_my_size(all, shoe_size) == r@ + in_my_size(rest@, shoe_size),
        decreases rest@.len(),
    {
        let ghost rest0 = rest@;
        let s = rest.remove(0);
        proof {
            assert(rest@ =~= rest0.drop_first());
            assert(rest0.first() == s);
        }
        if s.size == shoe_size {
            r.push(s);
            proof {
                assert(in_my_size(rest0, shoe_size) =~= seq![s] + in_my_size(
                    rest@,
                    shoe_size,
                ));
                assert(in_my_size(all, shoe_size) =~= r@ + in_my_size(rest@, shoe_size));
            }
        } else {
            proof {
                assert(in_my_size(rest0, shoe_size) =~= in_my_size(rest@, shoe_size));
            }
        }
    }
    proof {
        assert(in_my_size(rest@, shoe_size) =~= Seq::<Shoe>::empty());
        assert(in_my_size(all, shoe_size) =~= r@);
    }
    r
}

} // verus!
