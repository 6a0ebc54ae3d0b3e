//! Types that more than one module needs.

use vstd::hash_set::StringHashSet;
use vstd::prelude::*;

use crate::text::texts;

verus! {

/// A set of origins. Origins are compared as they are written.
pub type OriginSet = StringHashSet;

/// The set of the origins in `values`.
pub fn to_origin_set(values: &Vec<String>) -> (r: OriginSet)
    ensures
        r@ == texts(values@).to_set(),
{
    let mut set = StringHashSet::new();
    let mut i: usize = 0;
    proof {
        assert(texts(values@).take(0).to_set() =~= Set::<Seq<char>>::empty());
    }
    while i < values.len()
        invariant
            i <= values@.len(),
            set@ == texts(values@).take(i as int).to_set(),
        decreases values@.len() - i,
    {
        set.insert(values[i].clone());
        proof {
            let all = texts(values@);
            let now = all.take(i as int);
            let next = all.take(i + 1);
            assert(next =~= now.push(values@[i as int]@));
            assert forall|x: Seq<char>| #[trigger] next.to_set().contains(x) <==> now.to_set().insert(
                values@[i as int]@,
            ).contains(x) by {
                if now.contains(x) {
                    let k = choose|k: int| 0 <= k < now.len() && now[k] == x;
                    assert(next[k] == x);
                }
                if x == values@[i as int]@ {
                    assert(next[i as int] == x);
                }
            }
            assert(next.to_set() =~= now.to_set().insert(values@[i as int]@));
        }
        i += 1;
    }
    proof {
        assert(texts(values@).take(i as int) =~= texts(values@));
    }
    set
}

} // verus!
