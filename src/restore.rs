use vstd::prelude::*;
use crate::action::{Action, ActionView, Event, EventView, Outcome};
use crate::key::{file_key, file_key_spec, join_path, join_spec, MAX_KEYED_PATH_LEN};

verus! {

/// Where a restore stands.
#[derive(Clone, Copy, Debug, PartialEq, Eq, Structural)]
pub enum RestoreStage {
    /// The escrowed content is being fetched.
    Fetching,
    /// It is being written to the relocated path.
    Writing,
    Finished(Outcome),
}

/// The restore of the relocated copy of one linked file: fetch the content
/// escrowed under the key of the link's own path, and write it under the
/// destination by that key. The link itself is left as it is.
#[derive(Debug)]
pub struct Restore {
    pub link: String,
    pub destination: String,
    pub key: String,
    pub target: String,
    pub stage: RestoreStage,
}

pub struct RestoreView {
    pub link: Seq<char>,
    pub destination: Seq<char>,
    pub key: Seq<char>,
    pub target: Seq<char>,
    pub stage: RestoreStage,
}

impl View for Restore {
    type V = RestoreView;

    open spec fn view(&self) -> RestoreView {
        RestoreView {
            link: self.link@,
            destination: self.destination@,
            key: self.key@,
            target: self.target@,
            stage: self.stage,
        }
    }
}

/// A restore for the link at `link` into `destination` that has not begun.
pub open spec fn restore_start(link: Seq<char>, destination: Seq<char>) -> RestoreView {
    RestoreView {
        link,
        destination,
        key: file_key_spec(link),
        target: join_spec(destination, file_key_spec(link)),
        stage: RestoreStage::Fetching,
    }
}

/// The next state of a restore and its next action, once `e` is reported.
pub open spec fn restore_step(m: RestoreView, e: EventView) -> (RestoreView, ActionView) {
    match m.stage {
        RestoreStage::Fetching => match e {
            EventView::Data(c) => (
                RestoreView { stage: RestoreStage::Writing, ..m },
                ActionView::WriteFile(m.target, c),
            ),
            _ => (
                RestoreView { stage: RestoreStage::Finished(Outcome::FetchFailed), ..m },
                ActionView::Finish(Outcome::FetchFailed),
            ),
        },
        RestoreStage::Writing => if e is Failed {
            (
                RestoreView { stage: RestoreStage::Finished(Outcome::WriteFailed), ..m },
                ActionView::Finish(Outcome::WriteFailed),
            )
        } else {
            (
                RestoreView { stage: RestoreStage::Finished(Outcome::Restored), ..m },
                ActionView::Finish(Outcome::Restored),
            )
        },
        RestoreStage::Finished(o) => (m, ActionView::Finish(o)),
    }
}

impl Restore {
    /// Begins the restore for the link at `link` into the directory
    /// `destination`; the first action fetches from escrow.
    pub fn begin(link: &str, destination: &str) -> (r: (Restore, Action))
        requires
            link@.len() <= MAX_KEYED_PATH_LEN,
        ensures
            r.0@ == restore_start(link@, destination@),
            r.1@ == ActionView::Fetch(file_key_spec(link@)),
    {
        let key = file_key(link);
        let target = join_path(destination, key.as_str());
        let fetch = Action::Fetch { key: key.clone() };
        let m = Restore {
            link: String::from_str(link),
            destination: String::from_str(destination),
            key,
            target,
            stage: RestoreStage::Fetching,
        };
        (m, fetch)
    }

    /// Takes in what the last action gave and returns the next action.
    pub fn advance(&mut self, event: Event) -> (a: Action)
        ensures
            (final(self)@, a@) == restore_step(old(self)@, event@),
    {
        match self.stage {
            RestoreStage::Fetching => match event {
                Event::Data(content) => {
                    self.stage = RestoreStage::Writing;
                    Action::WriteFile { path: self.target.clone(), content }
                },
                _ => {
                    self.stage = RestoreStage::Finished(Outcome::FetchFailed);
                    Action::Finish { outcome: Outcome::FetchFailed }
                },
            },
            RestoreStage::Writing => {
                let outcome = if matches!(event, Event::Failed) {
                    Outcome::WriteFailed
                } else {
                    Outcome::Restored
                };
                self.stage = RestoreStage::Finished(outcome);
                Action::Finish { outcome }
            },
            RestoreStage::Finished(outcome) => Action::Finish { outcome },
        }
    }
}

} // verus!
