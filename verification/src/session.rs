//! Experiment sessions: where a session keeps its state, outside the candidate it observes.
use vstd::prelude::*;
use crate::paths::{join, path_join};
use crate::policy::{is_path_within, path_within};
use crate::text::push_str;

verus! {

broadcast use vstd::string::group_string_axioms;

/// A session's identity, the candidate it observes and its own state directory.
#[derive(Clone, Debug)]
pub struct ExperimentSession {
    pub id: String,
    pub candidate_workspace: String,
    pub state_dir: String,
}

/// The files of a session's state directory.
#[derive(Clone, Debug)]
pub struct ExperimentPaths {
    pub config: String,
    pub events: String,
    pub timeline: String,
    pub artifacts: String,
}

/// Why a session could not be created.
#[derive(Clone, Copy, Debug, PartialEq, Eq, Structural)]
pub enum SessionError {
    /// The state root lies inside the candidate workspace.
    StateInsideCandidate,
}

impl SessionError {
    /// The human-readable description of the error.
    pub open spec fn text(&self) -> Seq<char> {
        "experiment state must be outside the candidate workspace"@
    }

    /// Renders the description of the error.
    pub fn message(&self) -> (r: String)
        ensures
            r@ == self.text(),
    {
        let mut s = String::new();
        push_str(&mut s, "experiment state must be outside the candidate workspace");
        s
    }
}

impl ExperimentSession {
    /// A session with identity `id` over a canonical candidate directory, keeping its
    /// state in `<state_root>/<id>`; refused when the canonical state root lies inside
    /// the candidate.
    pub fn from_canonical(id: &str, candidate_workspace: &str, state_root: &str) -> (r: Result<
        Self,
        SessionError,
    >)
        ensures
            path_within(state_root@, candidate_workspace@) ==> r == Err::<Self, SessionError>(
                SessionError::StateInsideCandidate,
            ),
            !path_within(state_root@, candidate_workspace@) ==> (r matches Ok(s) && s.id@ == id@
                && s.candidate_workspace@ == candidate_workspace@ && s.state_dir@ == path_join(
                state_root@,
                id@,
            )),
    {
        if is_path_within(state_root, candidate_workspace) {
            return Err(SessionError::StateInsideCandidate);
        }
        let mut i = String::new();
        push_str(&mut i, id);
        let mut c = String::new();
        push_str(&mut c, candidate_workspace);
        Ok(ExperimentSession { id: i, candidate_workspace: c, state_dir: join(state_root, id) })
    }

    /// The files of the session's state directory.
    pub fn paths(&self) -> (r: ExperimentPaths)
        ensures
            r.config@ == path_join(self.state_dir@, "session.json"@),
            r.events@ == path_join(self.state_dir@, "events.jsonl"@),
            r.timeline@ == path_join(self.state_dir@, "timeline.sqlite3"@),
            r.artifacts@ == path_join(self.state_dir@, "artifacts"@),
    {
        let d = self.state_dir.as_str();
        ExperimentPaths {
            config: join(d, "session.json"),
            events: join(d, "events.jsonl"),
            timeline: join(d, "timeline.sqlite3"),
            artifacts: join(d, "artifacts"),
        }
    }
}

} // verus!
