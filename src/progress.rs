//! Contiguous-completion watermark of a seed-range scan.
use vstd::prelude::*;
use std::collections::HashSet;

verus! {

broadcast use vstd::std_specs::hash::group_hash_axioms;

/// A progress notification is sent each time the watermark has advanced by
/// at least this many seeds.
pub const PROGRESS_BATCH: i64 = 1000;

/// `e` ends the run of seeds of `pending` that starts at `from`: every seed of
/// `[from, e)` is in `pending`, and `e` is not.
pub open spec fn ends_run(pending: Set<i32>, from: int, e: int) -> bool {
    &&& from <= e
    &&& forall|x: i32| from <= x < e ==> #[trigger] pending.contains(x)
    &&& !pending.contains(e as i32)
}

/// State shared by the workers of a scan: the last notified watermark
/// (`progress_start`), the watermark (`progress_end`, lowest seed not yet
/// completed), the seeds completed above it, and the number of running
/// workers.
pub struct FindState {
    pub progress_start: i32,
    pub progress_end: i32,
    pub pending_seeds: HashSet<i32>,
    pub running: i32,
}

impl FindState {
    /// Records that `seed` is completed, advances the watermark over the run
    /// of completed seeds that this closes, and returns the range to notify
    /// when the watermark has moved by a whole batch since the last
    /// notification.
    pub fn add(&mut self, seed: i32) -> (r: Option<(i32, i32)>)
        requires
            seed < i32::MAX,
            forall|x: i32| #[trigger] old(self).pending_seeds@.contains(x) ==> x < i32::MAX,
        ensures
            final(self).running == old(self).running,
            forall|x: i32| #[trigger] final(self).pending_seeds@.contains(x) ==> x < i32::MAX,
            old(self).progress_end == seed ==> {
                &&& ends_run(old(self).pending_seeds@, seed + 1, final(self).progress_end as int)
                &&& final(self).pending_seeds@ == old(self).pending_seeds@.filter(
                    |x: i32| !(seed < x < final(self).progress_end),
                )
                &&& if final(self).progress_end >= old(self).progress_start as int + PROGRESS_BATCH {
                    &&& r == Some((old(self).progress_start, final(self).progress_end))
                    &&& final(self).progress_start == final(self).progress_end
                } else {
                    &&& r.is_none()
                    &&& final(self).progress_start == old(self).progress_start
                }
            },
            old(self).progress_end != seed ==> {
                &&& r.is_none()
                &&& final(self).pending_seeds@ == old(self).pending_seeds@.insert(seed)
                &&& final(self).progress_end == old(self).progress_end
                &&& final(self).progress_start == old(self).progress_start
            },
    {
        if self.progress_end == seed {
            let ghost before = self.pending_seeds@;
            let mut e: i32 = seed + 1;
            loop
                invariant
                    seed < e <= i32::MAX,
                    forall|x: i32| seed < x < e ==> #[trigger] before.contains(x),
                    self.pending_seeds@ == before.filter(|x: i32| !(seed < x < e)),
                    forall|x: i32| #[trigger] before.contains(x) ==> x < i32::MAX,
                    self.running == old(self).running,
                    self.progress_start == old(self).progress_start,
                ensures
                    seed < e <= i32::MAX,
                    forall|x: i32| seed < x < e ==> #[trigger] before.contains(x),
                    !before.contains(e),
                    self.pending_seeds@ == before.filter(|x: i32| !(seed < x < e)),
                    forall|x: i32| #[trigger] before.contains(x) ==> x < i32::MAX,
                    self.running == old(self).running,
                    self.progress_start == old(self).progress_start,
                decreases i32::MAX - e,
            {
                let removed = self.pending_seeds.remove(&e);
                if !removed {
                    assert(!before.contains(e)) by {
                        if before.contains(e) {
                            assert(before.filter(|x: i32| !(seed < x < e)).contains(e));
                        }
                    }
                    break;
                }
                proof {
                    assert(before.contains(e));
                    assert(self.pending_seeds@ =~= before.filter(|x: i32| !(seed < x < e + 1)));
                }
                e = e + 1;
            }
            self.progress_end = e;
            if e as i64 >= self.progress_start as i64 + PROGRESS_BATCH {
                let start = self.progress_start;
                self.progress_start = e;
                Some((start, e))
            } else {
                None
            }
        } else {
            self.pending_seeds.insert(seed);
            None
        }
    }
}

} // verus!
