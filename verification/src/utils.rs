use vstd::prelude::*;

use crate::types::Color4;

verus! {

/// The exact number of distinct color tuples in `data`: the cardinality
/// of the set of its elements. A hashed or collapsed comparison could
/// under-count on collisions, so the count is taken over whole tuples.
pub open spec fn spec_distinct_colors(data: Seq<Color4>) -> nat {
    data.to_set().len()
}

/// Counts the distinct color tuples of `data` exactly, by first occurrence.
pub fn num_distinct_colors(data: &Vec<Color4>) -> (n: usize)
    ensures
        n == spec_distinct_colors(data@),
        n <= data.len(),
{
    let ghost whole = data@;
    let mut count: usize = 0;
    let mut i: usize = 0;
    proof {
        broadcast use vstd::set::group_set_axioms;
        broadcast use vstd::seq_lib::seq_to_set_is_finite;

        assert(whole.take(0) =~= Seq::<Color4>::empty());
        assert(whole.take(0).to_set() =~= Set::<Color4>::empty());
    }
    while i < data.len()
        invariant
            0 <= i <= data.len(),
            whole == data@,
            count == whole.take(i as int).to_set().len(),
            count <= i,
        decreases data.len() - i,
    {
        let x = data[i];
        let mut seen = false;
        let mut j: usize = 0;
        while j < i
            invariant
                0 <= j <= i,
                i < data.len(),
                whole == data@,
                x == whole[i as int],
                seen == exists|l: int| 0 <= l < j && whole[l] == x,
            decreases i - j,
        {
            if data[j] == x {
                seen = true;
            }
            j = j + 1;
        }
        proof {
            broadcast use vstd::set::group_set_axioms;
            broadcast use vstd::seq_lib::seq_to_set_is_finite;

            let prefix = whole.take(i as int);
            let next = whole.take(i as int + 1);
            assert(next =~= prefix.push(x));
            assert(prefix.push(x).to_set() =~= prefix.to_set().insert(x)) by {
                Seq::lemma_push_to_set_commute(prefix, x);
            }
            assert(seen == prefix.to_set().contains(x)) by {
                if seen {
                    let l = choose|l: int| 0 <= l < i && whole[l] == x;
                    assert(prefix[l] == x);
                    assert(prefix.contains(x));
                }
                if prefix.to_set().contains(x) {
                    assert(prefix.contains(x));
                    let l = choose|l: int| 0 <= l < prefix.len() && prefix[l] == x;
                    assert(whole[l] == x);
                }
            }
            vstd::set::axiom_set_insert_len(prefix.to_set(), x);
        }
        if !seen {
            count = count + 1;
        }
        i = i + 1;
    }
    proof {
        assert(whole.take(data.len() as int) =~= whole);
    }
    count
}

} // verus!
