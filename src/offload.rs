use vstd::prelude::*;
use crate::action::{Action, ActionView, Event, EventView, Outcome};
use crate::escrow::{escape_newlines, escaped};
use crate::scan::NodeKind;
use crate::key::{file_key, file_key_spec, join_path, join_spec, MAX_KEYED_PATH_LEN};

verus! {

/// Where an offload stands.
#[derive(Clone, Copy, Debug, PartialEq, Eq, Structural)]
pub enum OffloadStage {
    /// The kind of the node at the source is being checked.
    Inspecting,
    /// The source is being read for escrow.
    Reading,
    /// Its content is being escrowed.
    Escrowing,
    /// The destination directory is being created.
    Preparing,
    /// The source is being renamed to its relocated path.
    Relocating,
    /// A link is being created at the source path.
    Linking,
    Finished(Outcome),
}

/// The offload of one plain file: escrow its content under the key of its
/// path, move it under the destination by that key, and put a symbolic link
/// to the moved file where it stood.
///
/// Only a plain file is offloaded: a source that is already a link was
/// offloaded before and is skipped, so that a second run never moves the link
/// over the relocated file. A failed read or escrow does not stop the offload;
/// a failure to create the destination, to rename or to link ends it.
#[derive(Debug)]
pub struct Offload {
    pub source: String,
    pub destination: String,
    pub key: String,
    pub target: String,
    pub stage: OffloadStage,
    pub escrowed: bool,
}

pub struct OffloadView {
    pub source: Seq<char>,
    pub destination: Seq<char>,
    pub key: Seq<char>,
    pub target: Seq<char>,
    pub stage: OffloadStage,
    pub escrowed: bool,
}

impl View for Offload {
    type V = OffloadView;

    open spec fn view(&self) -> OffloadView {
        OffloadView {
            source: self.source@,
            destination: self.destination@,
            key: self.key@,
            target: self.target@,
            stage: self.stage,
            escrowed: self.escrowed,
        }
    }
}

/// An offload of `source` into `destination` that has not begun.
pub open spec fn offload_start(source: Seq<char>, destination: Seq<char>) -> OffloadView {
    OffloadView {
        source,
        destination,
        key: file_key_spec(source),
        target: join_spec(destination, file_key_spec(source)),
        stage: OffloadStage::Inspecting,
        escrowed: false,
    }
}

pub open spec fn with_stage(m: OffloadView, stage: OffloadStage, escrowed: bool) -> OffloadView {
    OffloadView { stage, escrowed, ..m }
}

/// The outcome of an offload whose link was created.
pub open spec fn linked_outcome(escrowed: bool) -> Outcome {
    if escrowed {
        Outcome::Offloaded
    } else {
        Outcome::OffloadedWithoutEscrow
    }
}

/// The next state of an offload and its next action, once `e` is reported.
pub open spec fn offload_step(m: OffloadView, e: EventView) -> (OffloadView, ActionView) {
    match m.stage {
        OffloadStage::Inspecting => match e {
            EventView::Kind(NodeKind::Regular) => (
                with_stage(m, OffloadStage::Reading, m.escrowed),
                ActionView::ReadFile(m.source),
            ),
            EventView::Kind(NodeKind::Symlink) => (
                with_stage(m, OffloadStage::Finished(Outcome::SkippedAlreadyLinked), m.escrowed),
                ActionView::Finish(Outcome::SkippedAlreadyLinked),
            ),
            _ => (
                with_stage(m, OffloadStage::Finished(Outcome::RelocateFailed), m.escrowed),
                ActionView::Finish(Outcome::RelocateFailed),
            ),
        },
        OffloadStage::Reading => match e {
            EventView::Data(c) => (
                with_stage(m, OffloadStage::Escrowing, false),
                ActionView::Escrow(m.key, escaped(c)),
            ),
            _ => (
                with_stage(m, OffloadStage::Preparing, false),
                ActionView::CreateDirAll(m.destination),
            ),
        },
        OffloadStage::Escrowing => (
            with_stage(m, OffloadStage::Preparing, !(e is Failed)),
            ActionView::CreateDirAll(m.destination),
        ),
        OffloadStage::Preparing => if e is Failed {
            (
                with_stage(m, OffloadStage::Finished(Outcome::DestinationUnavailable), m.escrowed),
                ActionView::Finish(Outcome::DestinationUnavailable),
            )
        } else {
            (
                with_stage(m, OffloadStage::Relocating, m.escrowed),
                ActionView::Rename(m.source, m.target),
            )
        },
        OffloadStage::Relocating => if e is Failed {
            (
                with_stage(m, OffloadStage::Finished(Outcome::RelocateFailed), m.escrowed),
                ActionView::Finish(Outcome::RelocateFailed),
            )
        } else {
            (
                with_stage(m, OffloadStage::Linking, m.escrowed),
                ActionView::Symlink(m.target, m.source),
            )
        },
        OffloadStage::Linking => if e is Failed {
            (
                with_stage(m, OffloadStage::Finished(Outcome::LinkFailed), m.escrowed),
                ActionView::Finish(Outcome::LinkFailed),
            )
        } else {
            (
                with_stage(m, OffloadStage::Finished(linked_outcome(m.escrowed)), m.escrowed),
                ActionView::Finish(linked_outcome(m.escrowed)),
            )
        },
        OffloadStage::Finished(o) => (m, ActionView::Finish(o)),
    }
}

impl Offload {
    /// Begins the offload of the plain file `source` into the directory
    /// `destination`; the first action inspects the node at `source`.
    pub fn begin(source: &str, destination: &str) -> (r: (Offload, Action))
        requires
            source@.len() <= MAX_KEYED_PATH_LEN,
        ensures
            r.0@ == offload_start(source@, destination@),
            r.1@ == ActionView::Inspect(source@),
    {
        let key = file_key(source);
        let target = join_path(destination, key.as_str());
        let m = Offload {
            source: String::from_str(source),
            destination: String::from_str(destination),
            key,
            target,
            stage: OffloadStage::Inspecting,
            escrowed: false,
        };
        (m, Action::Inspect { path: String::from_str(source) })
    }

    /// Takes in what the last action gave and returns the next action.
    pub fn advance(&mut self, event: Event) -> (a: Action)
        ensures
            (final(self)@, a@) == offload_step(old(self)@, event@),
    {
        match self.stage {
            OffloadStage::Inspecting => match event {
                Event::Kind(NodeKind::Regular) => {
                    self.stage = OffloadStage::Reading;
                    Action::ReadFile { path: self.source.clone() }
                },
                Event::Kind(NodeKind::Symlink) => {
                    self.stage = OffloadStage::Finished(Outcome::SkippedAlreadyLinked);
                    Action::Finish { outcome: Outcome::SkippedAlreadyLinked }
                },
                _ => {
                    self.stage = OffloadStage::Finished(Outcome::RelocateFailed);
                    Action::Finish { outcome: Outcome::RelocateFailed }
                },
            },
            OffloadStage::Reading => match event {
                Event::Data(content) => {
                    self.stage = OffloadStage::Escrowing;
                    self.escrowed = false;
                    Action::Escrow { key: self.key.clone(), content: escape_newlines(&content) }
                },
                _ => {
                    self.stage = OffloadStage::Preparing;
                    self.escrowed = false;
                    Action::CreateDirAll { path: self.destination.clone() }
                },
            },
            OffloadStage::Escrowing => {
                self.stage = OffloadStage::Preparing;
                self.escrowed = !matches!(event, Event::Failed);
                Action::CreateDirAll { path: self.destination.clone() }
            },
            OffloadStage::Preparing => {
                if matches!(event, Event::Failed) {
                    self.stage = OffloadStage::Finished(Outcome::DestinationUnavailable);
                    Action::Finish { outcome: Outcome::DestinationUnavailable }
                } else {
                    self.stage = OffloadStage::Relocating;
                    Action::Rename { from: self.source.clone(), to: self.target.clone() }
                }
            },
            OffloadStage::Relocating => {
                if matches!(event, Event::Failed) {
                    self.stage = OffloadStage::Finished(Outcome::RelocateFailed);
                    Action::Finish { outcome: Outcome::RelocateFailed }
                } else {
                    self.stage = OffloadStage::Linking;
                    Action::Symlink { target: self.target.clone(), link: self.source.clone() }
                }
            },
            OffloadStage::Linking => {
                if matches!(event, Event::Failed) {
                    self.stage = OffloadStage::Finished(Outcome::LinkFailed);
                    Action::Finish { outcome: Outcome::LinkFailed }
                } else {
                    let outcome = if self.escrowed {
                        Outcome::Offloaded
                    } else {
                        Outcome::OffloadedWithoutEscrow
                    };
                    self.stage = OffloadStage::Finished(outcome);
                    Action::Finish { outcome }
                }
            },
            OffloadStage::Finished(outcome) => Action::Finish { outcome },
        }
    }
}

} // verus!
