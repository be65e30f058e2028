use vstd::prelude::*;

verus! {

/// Progress of one scan: units finished, units in all, and the unit most
/// recently started.
///
/// `completed` counts units that have returned, so it reaches `total` exactly
/// when every unit has finished. `total` is fixed once the children of the
/// root are known.
pub struct ScanProgress {
    pub completed: usize,
    pub total: usize,
    pub current_path: String,
}

impl ScanProgress {
    /// The counters never pass the total.
    pub open spec fn wf(&self) -> bool {
        self.completed <= self.total
    }

    /// Progress before the children of the root are known.
    pub fn new() -> (r: ScanProgress)
        ensures
            r.completed == 0,
            r.total == 0,
            r.current_path@ == Seq::<char>::empty(),
            r.wf(),
    {
        ScanProgress { completed: 0, total: 0, current_path: String::new() }
    }

    /// Fixes the number of units; done once, before any unit starts.
    pub fn set_total(&mut self, n: usize)
        requires
            old(self).completed == 0,
        ensures
            final(self).total == n,
            final(self).completed == 0,
            final(self).current_path == old(self).current_path,
            final(self).wf(),
    {
        self.total = n;
    }

    /// Records that the unit for `path` has begun.
    pub fn mark_started(&mut self, path: String)
        ensures
            final(self).current_path == path,
            final(self).completed == old(self).completed,
            final(self).total == old(self).total,
    {
        self.current_path = path;
    }

    /// Records that one unit has returned; the count stops at the total.
    pub fn mark_finished(&mut self)
        ensures
            final(self).completed == if old(self).completed < old(self).total {
                old(self).completed + 1
            } else {
                old(self).completed as int
            },
            final(self).completed >= old(self).completed,
            final(self).total == old(self).total,
            final(self).current_path == old(self).current_path,
            old(self).wf() ==> final(self).wf(),
    {
        if self.completed < self.total {
            self.completed = self.completed + 1;
        }
    }

    /// A copy of the three fields as they stand.
    pub fn snapshot(&self) -> (r: ScanProgress)
        ensures
            r == *self,
    {
        ScanProgress {
            completed: self.completed,
            total: self.total,
            current_path: self.current_path.clone(),
        }
    }
}

} // verus!
