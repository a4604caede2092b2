//! Choosing among the files of a directory: those whose path matches a regex, and the most
//! recent of them.
use vstd::prelude::*;

use crate::pattern::{re_is_match, Re};

verus! {

/// Helpers on the files of a directory.
pub struct Util;

/// Whether `i` is the position of the last of the largest values.
pub open spec fn is_last_max(times: Seq<u64>, i: int) -> bool {
    &&& 0 <= i < times.len()
    &&& forall|j: int| 0 <= j < times.len() ==> #[trigger] times[j] <= times[i]
    &&& forall|j: int| i < j < times.len() ==> #[trigger] times[j] < times[i]
}

impl Util {
    /// The paths which match a regex, in order.
    pub fn matching(paths: &[String], re: &Re) -> (r: Vec<String>)
        ensures
            r@.map_values(|s: String| s@) == paths@.map_values(|s: String| s@).filter(
                |p: Seq<char>| re_is_match(re@, p),
            ),
    {
        let ghost pv = paths@.map_values(|s: String| s@);
        let mut r: Vec<String> = Vec::new();
        let mut i: usize = 0;
        assert(pv.take(0) =~= Seq::<Seq<char>>::empty());
        proof {
            reveal(Seq::filter);
        }
        while i < paths.len()
            invariant
                i <= paths@.len(),
                pv == paths@.map_values(|s: String| s@),
                r@.map_values(|s: String| s@) == pv.take(i as int).filter(|p: Seq<char>| re_is_match(re@, p)),
            decreases paths@.len() - i,
        {
            let ghost before = r@;
            proof {
                reveal(Seq::filter);
            }
            assert(pv.take(i + 1).drop_last() =~= pv.take(i as int));
            assert(pv.take(i + 1).last() == paths@[i as int]@);
            if re.is_match(paths[i].as_str()) {
                r.push(paths[i].clone());
                assert(r@.map_values(|s: String| s@) =~= before.map_values(|s: String| s@).push(
                    paths@[i as int]@,
                ));
            }
            i = i + 1;
        }
        assert(pv.take(paths@.len() as int) =~= pv);
        r
    }

    /// The position of the most recent file, given the creation time of each: the last of the
    /// most recent ones, as `Iterator::max_by_key` picks it; `None` for no file.
    pub fn most_recent(times: &[u64]) -> (r: Option<usize>)
        ensures
            times@.len() == 0 ==> r is None,
            times@.len() > 0 ==> (r matches Some(i) && is_last_max(times@, i as int)),
    {
        if times.len() == 0 {
            return None;
        }
        let mut best: usize = 0;
        let mut i: usize = 1;
        while i < times.len()
            invariant
                1 <= i <= times@.len(),
                best < i,
                forall|j: int| 0 <= j < i ==> #[trigger] times@[j] <= times@[best as int],
                forall|j: int| best < j < i ==> #[trigger] times@[j] < times@[best as int],
            decreases times@.len() - i,
        {
            if times[i] >= times[best] {
                best = i;
            }
            i = i + 1;
        }
        Some(best)
    }
}

} // verus!
