//! Command-line values: an environment setting is written `NAME=value`.
use vstd::prelude::*;

verus! {

/// The index of the first `=` in `s`, or its length where there is none.
pub open spec fn first_eq(s: Seq<u8>) -> int
    decreases s.len(),
{
    if s.len() == 0 {
        0
    } else if s[0] == 61 {
        0
    } else {
        1 + first_eq(s.drop_first())
    }
}

proof fn lemma_first_eq(s: Seq<u8>)
    ensures
        0 <= first_eq(s) <= s.len(),
        first_eq(s) < s.len() ==> s[first_eq(s)] == 61,
        forall|k: int| 0 <= k < first_eq(s) ==> s[k] != 61,
    decreases s.len(),
{
    if s.len() > 0 && s[0] != 61 {
        lemma_first_eq(s.drop_first());
        assert forall|k: int| 0 <= k < first_eq(s) implies s[k] != 61 by {
            if k > 0 {
                assert(s[k] == s.drop_first()[k - 1]);
            }
        }
    }
}

/// The name and value of a `NAME=value` setting: split at the first `=`; without one,
/// the whole is the name and the value is empty.
pub fn env_pair(s: &[u8]) -> (r: (Vec<u8>, Vec<u8>))
    ensures
        r.0@ == s@.take(first_eq(s@)),
        first_eq(s@) < s@.len() ==> r.1@ == s@.skip(first_eq(s@) + 1),
        first_eq(s@) == s@.len() ==> r.1@ == Seq::<u8>::empty(),
{
    proof {
        lemma_first_eq(s@);
    }
    let mut i: usize = 0;
    while i < s.len()
        invariant
            i <= s@.len(),
            i <= first_eq(s@),
            0 <= first_eq(s@) <= s@.len(),
            first_eq(s@) < s@.len() ==> s@[first_eq(s@)] == 61,
            forall|k: int| 0 <= k < first_eq(s@) ==> s@[k] != 61,
        decreases s@.len() - i,
    {
        if s[i] == 61 {
            let name = vstd::slice::slice_to_vec(vstd::slice::slice_subrange(s, 0, i));
            let value = vstd::slice::slice_to_vec(vstd::slice::slice_subrange(s, i + 1, s.len()));
            return (name, value);
        }
        i = i + 1;
    }
    let name = vstd::slice::slice_to_vec(s);
    proof {
        assert(s@.take(first_eq(s@)) =~= s@);
    }
    (name, Vec::new())
}

} // verus!
