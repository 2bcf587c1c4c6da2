//! Small standalone verified utilities over options, strings and ordered
//! slices.

use vstd::prelude::*;
use vstd::slice::slice_index_get;
use vstd::std_specs::cmp::PartialOrdSpec;
use vstd::string::StringSliceAdditionalSpecFns;

verus! {

/// Adds one to the number inside the option, if any.
pub fn plus_one(x: Option<i32>) -> (r: Option<i32>)
    requires
        x is Some ==> x.unwrap() < i32::MAX,
    ensures
        r is Some <==> x is Some,
        x is Some ==> r.unwrap() == x.unwrap() + 1,
{
    match x {
        None => None,
        Some(value) => Some(value + 1),
    }
}

/// The longer of two string slices, measured in bytes; when the lengths
/// tie, the second.
pub fn longest<'a>(x: &'a str, y: &'a str) -> (r: &'a str)
    ensures
        r == if x.spec_bytes().len() > y.spec_bytes().len() {
            x
        } else {
            y
        },
{
    if x.as_bytes().len() > y.as_bytes().len() {
        x
    } else {
        y
    }
}

/// Takes ownership of a string and gives it back unchanged.
pub fn takes_and_gives_back(s: String) -> (r: String)
    ensures
        r == s,
{
    s
}

/// Whether `a` compares strictly greater than `b` under the type's own
/// partial order.
pub open spec fn spec_gt<T: PartialOrd>(a: T, b: T) -> bool {
    a.partial_cmp_spec(&b) == Some(core::cmp::Ordering::Greater)
}

/// An element of the non-empty slice that no element compares strictly
/// greater than, found by a single scan with `>`. The scan is correct for
/// any ordering whose strict `>` is transitive, which the second premise
/// demands.
pub fn largest<T: PartialOrd + Copy>(list: &[T]) -> (r: T)
    requires
        list@.len() >= 1,
        T::obeys_partial_cmp_spec(),
        forall|a: T| !spec_gt(a, a),
        forall|a: T, b: T, c: T|
            #![trigger spec_gt(a, b), spec_gt(b, c)]
            spec_gt(a, b) && spec_gt(b, c) ==> spec_gt(a, c),
    ensures
        exists|i: int| 0 <= i < list@.len() && r == list@[i],
        forall|i: int| 0 <= i < list@.len() ==> !spec_gt(list@[i], r),
{
    let mut biggest: T = *slice_index_get(list, 0);
    let mut idx: usize = 1;
    while idx < list.len()
        invariant
            1 <= idx <= list@.len(),
            T::obeys_partial_cmp_spec(),
            forall|a: T| !spec_gt(a, a),
            forall|a: T, b: T, c: T|
                #![trigger spec_gt(a, b), spec_gt(b, c)]
                spec_gt(a, b) && spec_gt(b, c) ==> spec_gt(a, c),
            exists|i: int| 0 <= i < idx && biggest == list@[i],
            forall|i: int| 0 <= i < idx ==> !spec_gt(list@[i], biggest),
        decreases list@.len() - idx,
    {
        let item: T = *slice_index_get(list, idx);
        if item > biggest {
            proof {
                assert(spec_gt(item, biggest));
                assert forall|i: int| 0 <= i < idx implies !spec_gt(list@[i], item) by {
                    if spec_gt(list@[i], item) {
                        assert(spec_gt(list@[i], biggest));
                        assert(false);
                    }
                }
            }
            biggest = item;
        }
        idx += 1;
    }
    biggest
}

} // verus!
