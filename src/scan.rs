use vstd::prelude::*;
use crate::folder::{FolderInfo, sort_by_size_desc, sort_desc, sorted_desc, lemma_sort_desc};
use crate::progress::ScanProgress;
use crate::walk::DirEntryInfo;

verus! {

/// Why a scan could not start.
#[derive(Debug, PartialEq, Eq, Structural)]
pub enum ScanError {
    /// The root does not exist or is not a directory.
    InvalidRoot,
}

/// Where one unit of work (one child of the root) stands.
#[derive(Debug, Clone, Copy, PartialEq, Eq, Structural)]
pub enum UnitState {
    /// Not returned yet.
    Pending,
    /// Returned without a size: the child is left out of the result.
    Failed,
    /// Returned with the best-effort byte size of the child's subtree.
    Sized(u64),
}

/// The state that a unit takes on when it returns with `outcome`.
pub open spec fn state_of(outcome: Option<u64>) -> UnitState {
    match outcome {
        Some(n) => UnitState::Sized(n),
        None => UnitState::Failed,
    }
}

/// The finished ranking of one scan.
pub struct ScanResult {
    /// The children that returned a size, largest first; children of equal
    /// size keep the order in which the root listed them.
    pub entries: Vec<FolderInfo>,
    pub elapsed_micros: u64,
    pub scanned_root: String,
}

impl ScanResult {
    /// A field-for-field copy.
    pub fn copy(&self) -> (r: ScanResult)
        ensures
            r.entries@ == self.entries@,
            r.elapsed_micros == self.elapsed_micros,
            r.scanned_root == self.scanned_root,
    {
        let mut entries: Vec<FolderInfo> = Vec::new();
        let mut k: usize = 0;
        while k < self.entries.len()
            invariant
                k <= self.entries.len(),
                entries@ == self.entries@.take(k as int),
            decreases self.entries.len() - k,
        {
            entries.push(self.entries[k].clone());
            k = k + 1;
            proof {
                assert(entries@ =~= self.entries@.take(k as int));
            }
        }
        proof {
            assert(entries@ =~= self.entries@);
        }
        ScanResult {
            entries,
            elapsed_micros: self.elapsed_micros,
            scanned_root: self.scanned_root.clone(),
        }
    }
}

/// The paths of the directories among the first `n` entries, in listing order.
pub open spec fn dir_paths_upto(es: Seq<DirEntryInfo>, n: int) -> Seq<String>
    decreases n,
{
    if n <= 0 {
        Seq::empty()
    } else if es[n - 1].is_dir {
        dir_paths_upto(es, n - 1).push(es[n - 1].path)
    } else {
        dir_paths_upto(es, n - 1)
    }
}

pub open spec fn dir_paths(es: Seq<DirEntryInfo>) -> Seq<String> {
    dir_paths_upto(es, es.len() as int)
}

/// How many of the first `n` units have returned.
pub open spec fn returned_upto(units: Seq<UnitState>, n: int) -> int
    decreases n,
{
    if n <= 0 {
        0
    } else {
        returned_upto(units, n - 1) + if units[n - 1] == UnitState::Pending {
            0int
        } else {
            1int
        }
    }
}

pub open spec fn all_returned(units: Seq<UnitState>) -> bool {
    forall|i: int| 0 <= i < units.len() ==> #[trigger] units[i] != UnitState::Pending
}

/// The children among the first `n` that returned a size, in listing order.
pub open spec fn successes_upto(children: Seq<String>, units: Seq<UnitState>, n: int) -> Seq<FolderInfo>
    decreases n,
{
    if n <= 0 {
        Seq::empty()
    } else {
        let prev = successes_upto(children, units, n - 1);
        match units[n - 1] {
            UnitState::Sized(size) => prev.push(FolderInfo { path: children[n - 1], size }),
            _ => prev,
        }
    }
}

pub open spec fn successes(children: Seq<String>, units: Seq<UnitState>) -> Seq<FolderInfo> {
    successes_upto(children, units, children.len() as int)
}

/// The ranking owed once every unit has returned.
pub open spec fn ranking(children: Seq<String>, units: Seq<UnitState>) -> Seq<FolderInfo> {
    sort_desc(successes(children, units))
}

proof fn lemma_returned_bounds(units: Seq<UnitState>, n: int)
    requires
        0 <= n <= units.len(),
    ensures
        0 <= returned_upto(units, n) <= n,
        returned_upto(units, n) == n <==> forall|i: int| 0 <= i < n ==> #[trigger] units[i] != UnitState::Pending,
    decreases n,
{
    if n > 0 {
        lemma_returned_bounds(units, n - 1);
    }
}

proof fn lemma_returned_none(units: Seq<UnitState>, n: int)
    requires
        0 <= n <= units.len(),
        forall|i: int| 0 <= i < n ==> #[trigger] units[i] == UnitState::Pending,
    ensures
        returned_upto(units, n) == 0,
    decreases n,
{
    if n > 0 {
        lemma_returned_none(units, n - 1);
    }
}

proof fn lemma_returned_update(units: Seq<UnitState>, i: int, s: UnitState, n: int)
    requires
        0 <= i < units.len(),
        0 <= n <= units.len(),
        units[i] == UnitState::Pending,
        s != UnitState::Pending,
    ensures
        returned_upto(units.update(i, s), n) == returned_upto(units, n) + if i < n {
            1int
        } else {
            0int
        },
    decreases n,
{
    if n > 0 {
        lemma_returned_update(units, i, s, n - 1);
    }
}

/// The entries of a published ranking; empty where none is published.
pub open spec fn entries_of(p: Option<(Seq<FolderInfo>, u64, String)>) -> Seq<FolderInfo> {
    match p {
        Some(t) => t.0,
        None => Seq::empty(),
    }
}

/// The caller's view of one scan: progress, per-child outcomes, and a result
/// that is written once, after every unit has returned, and never changed.
pub struct ScanHandle {
    root: String,
    max_results: usize,
    enumerated: bool,
    children: Vec<String>,
    units: Vec<UnitState>,
    progress: ScanProgress,
    result: Option<ScanResult>,
}

impl ScanHandle {
    pub closed spec fn root_path(&self) -> String {
        self.root
    }

    pub closed spec fn max_results_hint(&self) -> usize {
        self.max_results
    }

    /// Whether the children of the root are known.
    pub closed spec fn is_enumerated(&self) -> bool {
        self.enumerated
    }

    /// The root's subdirectories, in listing order: one unit of work each.
    pub closed spec fn child_paths(&self) -> Seq<String> {
        self.children@
    }

    pub closed spec fn unit_states(&self) -> Seq<UnitState> {
        self.units@
    }

    pub closed spec fn progress_state(&self) -> ScanProgress {
        self.progress
    }

    /// The published ranking, if any: (entries, elapsed microseconds, root).
    pub closed spec fn published(&self) -> Option<(Seq<FolderInfo>, u64, String)> {
        match self.result {
            Some(r) => Some((r.entries@, r.elapsed_micros, r.scanned_root)),
            None => None,
        }
    }

    pub closed spec fn wf(&self) -> bool {
        &&& self.units@.len() == self.children@.len()
        &&& self.progress.wf()
        &&& self.progress.total == self.children@.len()
        &&& self.progress.completed == returned_upto(self.units@, self.units@.len() as int)
        &&& !self.enumerated ==> self.children@.len() == 0
        &&& self.result is Some ==> {
            &&& self.enumerated
            &&& all_returned(self.units@)
            &&& self.result->0.entries@ == ranking(self.children@, self.units@)
            &&& self.result->0.scanned_root == self.root
        }
    }

    /// Starts a scan of `root`; `root_is_dir` says whether it exists and is a
    /// directory. `max_results` is kept as a display hint and drops no data.
    pub fn start(root: String, root_is_dir: bool, max_results: usize) -> (r: Result<ScanHandle, ScanError>)
        ensures
            r is Err <==> !root_is_dir,
            r is Err ==> r == Err::<ScanHandle, ScanError>(ScanError::InvalidRoot),
            r matches Ok(h) ==> {
                &&& h.wf()
                &&& h.root_path() == root
                &&& h.max_results_hint() == max_results
                &&& !h.is_enumerated()
                &&& h.published() is None
                &&& h.progress_state().completed == 0
                &&& h.progress_state().total == 0
            },
    {
        if !root_is_dir {
            return Err(ScanError::InvalidRoot);
        }
        Ok(ScanHandle {
            root,
            max_results,
            enumerated: false,
            children: Vec::new(),
            units: Vec::new(),
            progress: ScanProgress::new(),
            result: None,
        })
    }

    /// Takes the listing of the root (`None` where it could not be read, which
    /// leaves no children) and fixes the units: one per subdirectory, in
    /// listing order. Files directly under the root are not ranked.
    pub fn begin(&mut self, listing: Option<Vec<DirEntryInfo>>)
        requires
            old(self).wf(),
            !old(self).is_enumerated(),
        ensures
            final(self).wf(),
            final(self).is_enumerated(),
            final(self).child_paths() == match listing {
                Some(es) => dir_paths(es@),
                None => Seq::<String>::empty(),
            },
            final(self).unit_states() == Seq::new(final(self).child_paths().len(), |i: int| UnitState::Pending),
            final(self).progress_state().total == final(self).child_paths().len(),
            final(self).progress_state().completed == 0,
            final(self).progress_state().completed == old(self).progress_state().completed,
            final(self).published() is None,
            final(self).root_path() == old(self).root_path(),
            final(self).max_results_hint() == old(self).max_results_hint(),
    {
        let mut children: Vec<String> = Vec::new();
        let mut units: Vec<UnitState> = Vec::new();
        match listing {
            Some(es) => {
                let mut k: usize = 0;
                while k < es.len()
                    invariant
                        k <= es.len(),
                        children@ == dir_paths_upto(es@, k as int),
                        units@ == Seq::new(children@.len(), |i: int| UnitState::Pending),
                    decreases es.len() - k,
                {
                    if es[k].is_dir {
                        children.push(es[k].path.clone());
                        units.push(UnitState::Pending);
                        proof {
                            assert(units@ =~= Seq::new(children@.len(), |i: int| UnitState::Pending));
                        }
                    }
                    k = k + 1;
                }
            },
            None => {
                proof {
                    assert(units@ =~= Seq::new(children@.len(), |i: int| UnitState::Pending));
                }
            },
        }
        proof {
            lemma_returned_none(units@, units@.len() as int);
        }
        self.progress.set_total(children.len());
        self.children = children;
        self.units = units;
        self.enumerated = true;
    }

    /// Records that unit `i` has begun; only the current path changes.
    pub fn mark_started(&mut self, i: usize)
        requires
            old(self).wf(),
            i < old(self).child_paths().len(),
        ensures
            final(self).wf(),
            final(self).progress_state().current_path == old(self).child_paths()[i as int],
            final(self).progress_state().completed == old(self).progress_state().completed,
            final(self).progress_state().total == old(self).progress_state().total,
            final(self).child_paths() == old(self).child_paths(),
            final(self).unit_states() == old(self).unit_states(),
            final(self).published() == old(self).published(),
            final(self).is_enumerated() == old(self).is_enumerated(),
            final(self).root_path() == old(self).root_path(),
            final(self).max_results_hint() == old(self).max_results_hint(),
    {
        let p = self.children[i].clone();
        self.progress.mark_started(p);
    }

    /// Records that unit `i` has returned, with the size of its subtree or
    /// `None` where the subtree could not be read.
    pub fn unit_returned(&mut self, i: usize, outcome: Option<u64>)
        requires
            old(self).wf(),
            i < old(self).child_paths().len(),
            old(self).unit_states()[i as int] == UnitState::Pending,
        ensures
            final(self).wf(),
            final(self).unit_states() == old(self).unit_states().update(i as int, state_of(outcome)),
            final(self).progress_state().completed == old(self).progress_state().completed + 1,
            final(self).progress_state().total == old(self).progress_state().total,
            final(self).progress_state().current_path == old(self).progress_state().current_path,
            final(self).child_paths() == old(self).child_paths(),
            final(self).published() is None,
            final(self).is_enumerated() == old(self).is_enumerated(),
            final(self).root_path() == old(self).root_path(),
            final(self).max_results_hint() == old(self).max_results_hint(),
    {
        let s = match outcome {
            Some(n) => UnitState::Sized(n),
            None => UnitState::Failed,
        };
        proof {
            let u = self.units@;
            let n = u.len() as int;
            lemma_returned_update(u, i as int, s, n);
            lemma_returned_bounds(u.update(i as int, s), n);
            lemma_returned_bounds(u, n);
            assert(!all_returned(u));
        }
        self.units.set(i, s);
        self.progress.mark_finished();
    }

    /// Whether the children are known and every unit has returned.
    pub fn all_units_returned(&self) -> (r: bool)
        requires
            self.wf(),
        ensures
            r == (self.is_enumerated() && all_returned(self.unit_states())),
    {
        if !self.enumerated {
            return false;
        }
        let mut k: usize = 0;
        while k < self.units.len()
            invariant
                k <= self.units.len(),
                forall|j: int| 0 <= j < k ==> #[trigger] self.units@[j] != UnitState::Pending,
            decreases self.units.len() - k,
        {
            match self.units[k] {
                UnitState::Pending => {
                    return false;
                },
                _ => {},
            }
            k = k + 1;
        }
        true
    }

    /// Publishes the ranking, once, after every unit has returned; returns
    /// whether it did. Otherwise the handle is left as it was.
    pub fn publish(&mut self, elapsed_micros: u64) -> (r: bool)
        requires
            old(self).wf(),
        ensures
            final(self).wf(),
            r == (old(self).is_enumerated() && all_returned(old(self).unit_states())
                && old(self).published() is None),
            r ==> final(self).published() == Some((
                ranking(old(self).child_paths(), old(self).unit_states()),
                elapsed_micros,
                old(self).root_path(),
            )),
            !r ==> final(self).published() == old(self).published(),
            final(self).progress_state() == old(self).progress_state(),
            final(self).child_paths() == old(self).child_paths(),
            final(self).unit_states() == old(self).unit_states(),
            final(self).is_enumerated() == old(self).is_enumerated(),
            final(self).root_path() == old(self).root_path(),
            final(self).max_results_hint() == old(self).max_results_hint(),
    {
        if self.result.is_some() || !self.all_units_returned() {
            return false;
        }
        let mut found: Vec<FolderInfo> = Vec::new();
        let mut k: usize = 0;
        while k < self.units.len()
            invariant
                self.units@.len() == self.children@.len(),
                k <= self.units.len(),
                found@ == successes_upto(self.children@, self.units@, k as int),
            decreases self.units.len() - k,
        {
            match self.units[k] {
                UnitState::Sized(size) => {
                    found.push(FolderInfo { path: self.children[k].clone(), size });
                },
                _ => {},
            }
            k = k + 1;
        }
        let entries = sort_by_size_desc(found);
        self.result = Some(ScanResult { entries, elapsed_micros, scanned_root: self.root.clone() });
        true
    }

    /// A consistent copy of the progress counters.
    pub fn progress(&self) -> (r: ScanProgress)
        ensures
            r == self.progress_state(),
    {
        self.progress.snapshot()
    }

    /// Whether the result has been published.
    pub fn is_done(&self) -> (r: bool)
        ensures
            r == self.published() is Some,
    {
        self.result.is_some()
    }

    /// A copy of the published result, or `None` while the scan runs.
    pub fn result(&self) -> (r: Option<ScanResult>)
        ensures
            r is None <==> self.published() is None,
            r matches Some(res) ==> self.published() == Some((res.entries@, res.elapsed_micros, res.scanned_root)),
    {
        match &self.result {
            Some(res) => Some(res.copy()),
            None => None,
        }
    }

    /// The root this scan ranks.
    pub fn root(&self) -> (r: &String)
        ensures
            *r == self.root_path(),
    {
        &self.root
    }

    /// How many entries the caller means to display; a hint only.
    pub fn max_results(&self) -> (r: usize)
        ensures
            r == self.max_results_hint(),
    {
        self.max_results
    }
}

/// In every state of a scan, the finished count never passes the total and
/// equals the number of units that have returned.
pub proof fn lemma_progress_bounded(h: ScanHandle)
    requires
        h.wf(),
    ensures
        h.progress_state().completed <= h.progress_state().total,
        h.progress_state().total == h.child_paths().len(),
        h.progress_state().completed == returned_upto(h.unit_states(), h.unit_states().len() as int),
{
}

/// A published ranking is ordered by size, largest first.
pub proof fn lemma_published_sorted(h: ScanHandle)
    requires
        h.wf(),
        h.published() is Some,
    ensures
        sorted_desc(entries_of(h.published())),
        forall|i: int| 0 <= i < entries_of(h.published()).len() - 1
            ==> #[trigger] entries_of(h.published())[i].size >= entries_of(h.published())[i + 1].size,
{
    lemma_sort_desc(successes(h.children@, h.units@));
}

/// Once the scan is done, every unit has returned, the finished count has
/// reached the total, and the ranking holds every child that returned a size.
pub proof fn lemma_done_is_complete(h: ScanHandle)
    requires
        h.wf(),
        h.published() is Some,
    ensures
        h.is_enumerated(),
        all_returned(h.unit_states()),
        h.progress_state().completed == h.progress_state().total,
        entries_of(h.published()) == ranking(h.child_paths(), h.unit_states()),
        entries_of(h.published()).to_multiset() == successes(h.child_paths(), h.unit_states()).to_multiset(),
{
    lemma_returned_bounds(h.units@, h.units@.len() as int);
    lemma_sort_desc(successes(h.children@, h.units@));
}

/// Two finished scans that saw the same children return the same sizes rank
/// them identically, whatever their elapsed times.
pub proof fn lemma_same_outcomes_same_ranking(a: ScanHandle, b: ScanHandle)
    requires
        a.wf(),
        b.wf(),
        a.published() is Some,
        b.published() is Some,
        a.child_paths() == b.child_paths(),
        a.unit_states() == b.unit_states(),
    ensures
        entries_of(a.published()) == entries_of(b.published()),
{
}

} // verus!
