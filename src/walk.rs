use vstd::prelude::*;

verus! {

/// How deep below the top of a subtree the walk descends. A directory below
/// this depth is not listed and contributes nothing.
pub const MAX_DEPTH: usize = 4096;

/// One entry of a directory listing, as read without following links.
///
/// `is_dir` is true only for a real directory: a symbolic link or junction is a
/// leaf that counts with its own reported size. `size` is `None` where the
/// entry's metadata could not be read; such an entry counts as zero bytes.
pub struct DirEntryInfo {
    pub path: String,
    pub is_dir: bool,
    pub size: Option<u64>,
}

/// The bytes an entry adds on its own: nothing for a directory or an entry
/// whose size is unknown.
pub open spec fn entry_bytes(e: DirEntryInfo) -> int {
    if e.is_dir {
        0
    } else {
        match e.size {
            Some(n) => n as int,
            None => 0,
        }
    }
}

/// The bytes of the first `n` entries of a listing.
pub open spec fn file_bytes_upto(es: Seq<DirEntryInfo>, n: int) -> int
    decreases n,
{
    if n <= 0 {
        0
    } else {
        file_bytes_upto(es, n - 1) + entry_bytes(es[n - 1])
    }
}

pub open spec fn file_bytes(es: Seq<DirEntryInfo>) -> int {
    file_bytes_upto(es, es.len() as int)
}

/// The directories among the first `n` entries, in listing order, each tagged
/// with `depth`.
pub open spec fn child_dirs_upto(es: Seq<DirEntryInfo>, n: int, depth: usize) -> Seq<(String, usize)>
    decreases n,
{
    if n <= 0 {
        Seq::empty()
    } else if es[n - 1].is_dir {
        child_dirs_upto(es, n - 1, depth).push((es[n - 1].path, depth))
    } else {
        child_dirs_upto(es, n - 1, depth)
    }
}

pub open spec fn child_dirs(es: Seq<DirEntryInfo>, depth: usize) -> Seq<(String, usize)> {
    child_dirs_upto(es, es.len() as int, depth)
}

/// `a + b` cut at the largest `u64`.
pub open spec fn sat_add(a: int, b: int) -> int {
    if a + b > u64::MAX {
        u64::MAX as int
    } else {
        a + b
    }
}

/// Best-effort byte size of one subtree, walked with an explicit stack.
///
/// The caller lists the directory that `current_dir` names and hands the
/// listing to `record_listing`, until no directory is left. A directory that
/// cannot be listed contributes nothing, except the top of the subtree, whose
/// failure makes the whole walk fail.
pub struct SizeAccumulator {
    pending: Vec<(String, usize)>,
    total: u64,
    failed: bool,
}

impl SizeAccumulator {
    /// Directories still to list, each with its depth; the last is next.
    pub closed spec fn pending(&self) -> Seq<(String, usize)> {
        self.pending@
    }

    /// Bytes counted so far.
    pub closed spec fn total(&self) -> u64 {
        self.total
    }

    /// Whether the top of the subtree could not be listed.
    pub closed spec fn failed(&self) -> bool {
        self.failed
    }

    pub closed spec fn wf(&self) -> bool {
        forall|i: int| 0 <= i < self.pending@.len() ==> #[trigger] self.pending@[i].1 <= MAX_DEPTH
    }

    /// A walk of the subtree at `root`, with nothing listed yet.
    pub fn new(root: String) -> (r: SizeAccumulator)
        ensures
            r.wf(),
            r.pending() == seq![(root, 0usize)],
            r.total() == 0,
            !r.failed(),
    {
        let mut pending: Vec<(String, usize)> = Vec::new();
        pending.push((root, 0));
        SizeAccumulator { pending, total: 0, failed: false }
    }

    /// The directory to list next, if any is left.
    pub fn current_dir(&self) -> (r: Option<String>)
        ensures
            self.pending().len() == 0 ==> r.is_none(),
            self.pending().len() > 0 ==> r == Some(self.pending().last().0),
    {
        if self.pending.len() == 0 {
            None
        } else {
            Some(self.pending[self.pending.len() - 1].0.clone())
        }
    }

    /// Whether every directory of the subtree has been dealt with.
    pub fn is_finished(&self) -> (r: bool)
        ensures
            r == (self.pending().len() == 0),
    {
        self.pending.len() == 0
    }

    /// Takes the listing of `current_dir`, or `None` where it could not be read.
    pub fn record_listing(&mut self, listing: Option<Vec<DirEntryInfo>>)
        requires
            old(self).wf(),
            old(self).pending().len() > 0,
        ensures
            final(self).wf(),
            ({
                let top = old(self).pending().last();
                let rest = old(self).pending().drop_last();
                match listing {
                    None => if top.1 == 0 {
                        final(self).failed() && final(self).pending().len() == 0
                            && final(self).total() == old(self).total()
                    } else {
                        final(self).failed() == old(self).failed()
                            && final(self).pending() == rest
                            && final(self).total() == old(self).total()
                    },
                    Some(es) => final(self).failed() == old(self).failed()
                        && final(self).total() == sat_add(old(self).total() as int, file_bytes(es@))
                        && final(self).pending() == if top.1 < MAX_DEPTH {
                            rest + child_dirs(es@, (top.1 + 1) as usize)
                        } else {
                            rest
                        },
                }
            }),
    {
        let top = self.pending.pop();
        let depth: usize = match top {
            Some(t) => t.1,
            None => 0,
        };
        match listing {
            None => {
                if depth == 0 {
                    self.failed = true;
                    self.pending.clear();
                }
            },
            Some(es) => {
                let ghost rest = self.pending@;
                let ghost t0 = self.total as int;
                let n = es.len();
                let mut k: usize = 0;
                while k < n
                    invariant
                        n == es.len(),
                        k <= n,
                        depth <= MAX_DEPTH,
                        self.failed == old(self).failed,
                        self.total == sat_add(t0, file_bytes_upto(es@, k as int)),
                        self.pending@ == if depth < MAX_DEPTH {
                            rest + child_dirs_upto(es@, k as int, (depth + 1) as usize)
                        } else {
                            rest
                        },
                        forall|i: int| 0 <= i < self.pending@.len() ==> #[trigger] self.pending@[i].1 <= MAX_DEPTH,
                    decreases n - k,
                {
                    if es[k].is_dir {
                        if depth < MAX_DEPTH {
                            self.pending.push((es[k].path.clone(), depth + 1));
                        }
                    } else {
                        match es[k].size {
                            Some(sz) => {
                                self.total = self.total.saturating_add(sz);
                            },
                            None => {},
                        }
                    }
                    k = k + 1;
                }
            },
        }
    }

    /// Stops the walk early, as for a cancelled scan: nothing is left to list
    /// and the outcome is `None`.
    pub fn abandon(&mut self)
        ensures
            final(self).wf(),
            final(self).pending().len() == 0,
            final(self).failed(),
            final(self).total() == old(self).total(),
    {
        self.pending.clear();
        self.failed = true;
    }

    /// `None` where the top of the subtree could not be listed, else the bytes
    /// counted.
    pub fn outcome(&self) -> (r: Option<u64>)
        ensures
            r == if self.failed() {
                None
            } else {
                Some(self.total())
            },
    {
        if self.failed {
            None
        } else {
            Some(self.total)
        }
    }
}

} // verus!
