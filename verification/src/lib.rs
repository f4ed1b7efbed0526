//! Decision logic of the OpenClaw installer: how external programs are
//! invoked, how their output is read, and how an audit report becomes a score.
//!
//! Nothing here starts a process or reads the environment. Each operation is
//! a pair: a function that plans the invocation, and a function that reads
//! what the process left behind.

use vstd::prelude::*;

pub mod commands;
pub mod config;
pub mod install;
pub mod json;
pub mod run;
pub mod security;
pub mod text;

pub use commands::{
    check_node, check_openclaw, ensure_path, get_config_path, get_config_value, get_last_audit,
    install_node, install_openclaw, run_security_audit, run_security_fix, set_config_value,
};
use security::{audit_outcome, AuditResult, AuditResultView};
use run::ProcessOutput;

verus! {

/// The state of a session: the result of the last audit that succeeded, if any.
#[derive(Debug, PartialEq, Eq)]
pub struct AppState {
    pub last_audit: Option<AuditResult>,
}

impl View for AppState {
    type V = Option<AuditResultView>;

    open spec fn view(&self) -> Option<AuditResultView> {
        match self.last_audit {
            Some(result) => Some(result@),
            None => None,
        }
    }
}

impl AppState {
    /// Whether the stored result, if any, is well formed.
    pub open spec fn well_formed(&self) -> bool {
        self@ matches Some(result) ==> result.well_formed()
    }

    /// The state at the start of a session: no audit yet.
    pub fn new() -> (state: Self)
        ensures
            state@ is None,
            state.well_formed(),
    {
        AppState { last_audit: None }
    }
}

/// A command that ran in a session, with the outcome of its process.
pub enum SessionEvent {
    /// The audit ran.
    Audit(Result<ProcessOutput, String>),
    /// The fix ran.
    Fix(Result<ProcessOutput, String>),
}

impl SessionEvent {
    /// The result that the event stores: that of an audit that succeeded.
    pub open spec fn stored(self) -> Option<AuditResultView> {
        match self {
            SessionEvent::Audit(outcome) => match audit_outcome(outcome) {
                Ok(result) => Some(result),
                Err(_) => None,
            },
            SessionEvent::Fix(_) => None,
        }
    }
}

/// The stored result after an event: the new one where the event stores
/// one, else the one from before.
pub open spec fn last_after(
    before: Option<AuditResultView>,
    event: SessionEvent,
) -> Option<AuditResultView> {
    match event.stored() {
        Some(result) => Some(result),
        None => before,
    }
}

/// The stored result after a run of events from the start of a session.
pub open spec fn last_after_all(events: Seq<SessionEvent>) -> Option<AuditResultView>
    decreases events.len(),
{
    if events.len() == 0 {
        None
    } else {
        last_after(last_after_all(events.drop_last()), events.last())
    }
}

/// The stored result is that of the most recent audit that succeeded, and
/// there is none before the first such audit: an audit that fails and a fix,
/// whatever its outcome, leave it as it was.
pub proof fn lemma_last_audit_is_most_recent_success(events: Seq<SessionEvent>)
    ensures
        match last_after_all(events) {
            None => forall|i: int| 0 <= i < events.len() ==> (#[trigger] events[i]).stored() is None,
            Some(result) => exists|i: int|
                0 <= i < events.len() && (#[trigger] events[i]).stored() == Some(result) && forall|
                    j: int,
                | i < j < events.len() ==> (#[trigger] events[j]).stored() is None,
        },
    decreases events.len(),
{
    if events.len() > 0 {
        let earlier = events.drop_last();
        lemma_last_audit_is_most_recent_success(earlier);
        let last = events.len() - 1;
        match events.last().stored() {
            Some(result) => {
                assert(events[last].stored() == Some(result));
            },
            None => {
                match last_after_all(earlier) {
                    None => {
                        assert forall|i: int| 0 <= i < events.len() implies (
                        #[trigger] events[i]).stored() is None by {
                            if i < last {
                                assert(earlier[i] == events[i]);
                            }
                        }
                    },
                    Some(result) => {
                        let i = choose|i: int|
                            0 <= i < earlier.len() && (#[trigger] earlier[i]).stored() == Some(result)
                                && forall|j: int|
                                i < j < earlier.len() ==> (#[trigger] earlier[j]).stored() is None;
                        assert(events[i] == earlier[i]);
                        assert forall|j: int| i < j < events.len() implies (
                        #[trigger] events[j]).stored() is None by {
                            if j < last {
                                assert(earlier[j] == events[j]);
                            }
                        }
                    },
                }
            },
        }
    }
}

} // verus!
