//! Length-tolerant pairing of two sequences: pairs are produced as long as
//! either side still has elements, the exhausted side yielding nothing. The
//! route matcher's segment comparison follows the same discipline; this is
//! the standalone form.
use vstd::prelude::*;

verus! {

broadcast use vstd::std_specs::vec::group_vec_axioms;

/// The longer of two lengths.
pub open spec fn spec_longest(a: int, b: int) -> int {
    if a >= b {
        a
    } else {
        b
    }
}

/// Pairs the two vectors position by position until both are exhausted: the
/// pair at each position holds that position's element of each side, or
/// nothing for a side that has run out.
pub fn zip_longest<A, B>(a: Vec<A>, b: Vec<B>) -> (r: Vec<(Option<A>, Option<B>)>)
    ensures
        r@.len() == spec_longest(a@.len() as int, b@.len() as int),
        forall|i: int| 0 <= i < r@.len() ==> #[trigger] r@[i] == (
            if i < a@.len() {
                Some(a@[i])
            } else {
                None
            },
            if i < b@.len() {
                Some(b@[i])
            } else {
                None
            },
        ),
{
    let ghost a0 = a@;
    let ghost b0 = b@;
    let mut a = a;
    let mut b = b;
    let alen = a.len();
    let blen = b.len();
    let mut out: Vec<(Option<A>, Option<B>)> = Vec::new();
    let mut i: usize = 0;
    while a.len() > 0 || b.len() > 0
        invariant
            0 <= i,
            alen == a0.len(),
            blen == b0.len(),
            i <= a0.len() || i <= b0.len(),
            a@ =~= a0.subrange(if i <= a0.len() {
                i as int
            } else {
                a0.len() as int
            }, a0.len() as int),
            b@ =~= b0.subrange(if i <= b0.len() {
                i as int
            } else {
                b0.len() as int
            }, b0.len() as int),
            out@.len() == i,
            forall|j: int| 0 <= j < i ==> #[trigger] out@[j] == (
                if j < a0.len() {
                    Some(a0[j])
                } else {
                    None
                },
                if j < b0.len() {
                    Some(b0[j])
                } else {
                    None
                },
            ),
        decreases a@.len() + b@.len(),
    {
        proof {
            if a@.len() > 0 {
                assert(i < a0.len());
            } else {
                assert(i < b0.len());
            }
        }
        let left: Option<A> = if a.len() > 0 {
            Some(a.remove(0))
        } else {
            None
        };
        let right: Option<B> = if b.len() > 0 {
            Some(b.remove(0))
        } else {
            None
        };
        proof {
            if i < a0.len() {
                assert(a0.subrange(i as int, a0.len() as int)[0] == a0[i as int]);
            }
            if i < b0.len() {
                assert(b0.subrange(i as int, b0.len() as int)[0] == b0[i as int]);
            }
        }
        out.push((left, right));
        i = i + 1;
    }
    proof {
        assert(i >= a0.len() && i >= b0.len());
    }
    out
}

} // verus!
