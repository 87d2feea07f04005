//! Offloads files from a slow tree onto a fast store, leaving symbolic links
//! behind and escrowing each file's content under a key derived from its path.
//!
//! The library decides; the caller performs. Scanning classifies entries that
//! a directory walk reported, and the offload and restore machines turn the
//! outcome of each filesystem or escrow operation into the next operation.

pub mod action;
pub mod escrow;
pub mod key;
pub mod model;
pub mod offload;
pub mod restore;
pub mod scan;
pub mod sweep;

pub use action::{Action, Event, Outcome};
pub use escrow::escape_newlines;
pub use key::{file_key, join_path, MAX_KEYED_PATH_LEN};
pub use offload::{Offload, OffloadStage};
pub use restore::{Restore, RestoreStage};
pub use scan::{classify, get_files_at_path, get_links_at_path, EntryClass, Node, NodeKind};
pub use sweep::{eat_files, summarize, Job, JobKind, SweepReport};
