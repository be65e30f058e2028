//! Disk-usage aggregation: ranks the immediate subdirectories of a root by the
//! total byte size of their subtrees, with progress that an observer can poll.
//!
//! The library holds every decision of a scan as verified state: the subtree
//! size walk, the progress counters, the per-child outcomes and the write-once
//! result. The caller performs the directory listings and the parallel dispatch.

pub mod folder;
pub mod progress;
pub mod walk;
pub mod scan;

pub use folder::{FolderInfo, sort_by_size_desc};
pub use progress::ScanProgress;
pub use walk::{DirEntryInfo, SizeAccumulator, MAX_DEPTH};
pub use scan::{ScanError, ScanHandle, ScanResult, UnitState};
