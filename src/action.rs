use vstd::prelude::*;
use crate::scan::NodeKind;

verus! {

/// How the handling of one file ended.
#[derive(Clone, Copy, Debug, PartialEq, Eq, Structural)]
pub enum Outcome {
    /// Escrowed, relocated, and replaced by a link.
    Offloaded,
    /// Relocated and replaced by a link, but its content is not in escrow.
    OffloadedWithoutEscrow,
    /// The destination directory could not be created; the file is untouched.
    DestinationUnavailable,
    /// The source is already a symbolic link: it was offloaded before, and
    /// nothing is touched.
    SkippedAlreadyLinked,
    /// The source was not there as a plain file, or could not be moved to
    /// the destination.
    RelocateFailed,
    /// The file was moved, but no link stands at its original path.
    LinkFailed,
    /// The relocated copy was written again from escrow.
    Restored,
    /// Escrow held nothing that could be fetched for the key.
    FetchFailed,
    /// The fetched content could not be written to the destination.
    WriteFailed,
}

/// An operation that the caller is to perform on the filesystem or the
/// escrow store, and report back as an `Event`.
#[derive(Debug)]
pub enum Action {
    /// Report what kind of node stands at `path`, without following a link.
    Inspect { path: String },
    /// Read all bytes of the file at `path`.
    ReadFile { path: String },
    /// Store `content` in escrow under `key`, replacing what was there.
    Escrow { key: String, content: Vec<u8> },
    /// Create the directory `path` and its missing parents.
    CreateDirAll { path: String },
    /// Rename `from` to `to`.
    Rename { from: String, to: String },
    /// Create a symbolic link at `link` that points to `target`.
    Symlink { target: String, link: String },
    /// Fetch the escrowed content stored under `key`.
    Fetch { key: String },
    /// Create or truncate the file at `path` and write `content` to it.
    WriteFile { path: String, content: Vec<u8> },
    /// Nothing is left to do.
    Finish { outcome: Outcome },
}

/// What the caller reports after performing an `Action`.
#[derive(Debug)]
pub enum Event {
    /// The operation succeeded.
    Done,
    /// The operation succeeded and produced these bytes (a read or a fetch).
    Data(Vec<u8>),
    /// The inspected node is of this kind.
    Kind(NodeKind),
    /// The operation failed.
    Failed,
}

/// An `Action` with its strings and bytes as sequences.
pub enum ActionView {
    Inspect(Seq<char>),
    ReadFile(Seq<char>),
    Escrow(Seq<char>, Seq<u8>),
    CreateDirAll(Seq<char>),
    Rename(Seq<char>, Seq<char>),
    Symlink(Seq<char>, Seq<char>),
    Fetch(Seq<char>),
    WriteFile(Seq<char>, Seq<u8>),
    Finish(Outcome),
}

/// An `Event` with its bytes as a sequence.
pub enum EventView {
    Done,
    Data(Seq<u8>),
    Kind(NodeKind),
    Failed,
}

impl View for Action {
    type V = ActionView;

    open spec fn view(&self) -> ActionView {
        match self {
            Action::Inspect { path } => ActionView::Inspect(path@),
            Action::ReadFile { path } => ActionView::ReadFile(path@),
            Action::Escrow { key, content } => ActionView::Escrow(key@, content@),
            Action::CreateDirAll { path } => ActionView::CreateDirAll(path@),
            Action::Rename { from, to } => ActionView::Rename(from@, to@),
            Action::Symlink { target, link } => ActionView::Symlink(target@, link@),
            Action::Fetch { key } => ActionView::Fetch(key@),
            Action::WriteFile { path, content } => ActionView::WriteFile(path@, content@),
            Action::Finish { outcome } => ActionView::Finish(*outcome),
        }
    }
}

impl View for Event {
    type V = EventView;

    open spec fn view(&self) -> EventView {
        match self {
            Event::Done => EventView::Done,
            Event::Data(bytes) => EventView::Data(bytes@),
            Event::Kind(kind) => EventView::Kind(*kind),
            Event::Failed => EventView::Failed,
        }
    }
}

} // verus!
