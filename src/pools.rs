use vstd::prelude::*;
use std::collections::HashSet;

verus! {

broadcast use vstd::std_specs::hash::group_hash_axioms;

/// Whether no key occurs twice in `ids`, as in a pool of primary keys.
pub fn is_key_pool(ids: &Vec<i32>) -> (r: bool)
    ensures
        r == ids@.no_duplicates(),
{
    let mut seen: HashSet<i32> = HashSet::new();
    for i in 0..ids.len()
        invariant
            ids@.subrange(0, i as int).no_duplicates(),
            forall|x: i32| #[trigger] seen@.contains(x) <==> ids@.subrange(0, i as int).contains(x),
    {
        let x = ids[i];
        let ghost prefix = ids@.subrange(0, i as int);
        if seen.contains(&x) {
            proof {
                let j = choose|j: int| 0 <= j < prefix.len() && prefix[j] == x;
                assert(ids@[j] == ids@[i as int]);
            }
            return false;
        }
        seen.insert(x);
        proof {
            let next = ids@.subrange(0, i + 1);
            assert(next == prefix.push(x));
            assert forall|y: i32| #[trigger] seen@.contains(y) <==> next.contains(y) by {
                if next.contains(y) && y != x {
                    let j = choose|j: int| 0 <= j < next.len() && next[j] == y;
                    assert(prefix[j] == y);
                }
                if prefix.contains(y) {
                    let j = choose|j: int| 0 <= j < prefix.len() && prefix[j] == y;
                    assert(next[j] == y);
                }
                if y == x {
                    assert(next[i as int] == x);
                }
            }
            assert forall|a: int, b: int| 0 <= a < next.len() && 0 <= b < next.len() && a != b implies next[a] != next[b] by {
                if a < i && b < i {
                    assert(next[a] == prefix[a] && next[b] == prefix[b]);
                } else if a < i {
                    assert(prefix.contains(next[a]));
                } else if b < i {
                    assert(prefix.contains(next[b]));
                }
            }
        }
    }
    assert(ids@.subrange(0, ids@.len() as int) == ids@);
    true
}

} // verus!
