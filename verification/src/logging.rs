//! Which log events the driver shows.
use vstd::prelude::*;
use crate::text::{contains_text, text_contains};

verus! {

/// Severity of a log event.
#[derive(Clone, Copy, Debug, PartialEq, Eq, Structural)]
pub enum TraceLevel {
    Trace,
    Debug,
    Info,
    Warn,
    Error,
}

/// An event is shown unless it comes from the Raft or HTTP libraries or is a
/// trace-level event.
pub open spec fn shown(source_module: Option<Seq<char>>, level: TraceLevel) -> bool {
    &&& match source_module {
        Some(mp) => !contains_text(mp, "async_raft"@) && !contains_text(mp, "hyper"@),
        None => true,
    }
    &&& level != TraceLevel::Trace
}

/// Whether an event of `level` from the module `source_module` is shown.
pub fn keep_event(source_module: Option<&str>, level: TraceLevel) -> (r: bool)
    ensures
        r == shown(
            match source_module {
                Some(mp) => Some(mp@),
                None => None,
            },
            level,
        ),
{
    match source_module {
        Some(mp) => {
            if text_contains(mp, "async_raft") {
                return false;
            }
            if text_contains(mp, "hyper") {
                return false;
            }
        },
        None => {},
    }
    level != TraceLevel::Trace
}

/// Every event above trace level is shown unless its module path names the
/// Raft or HTTP library: an event without a module path, or from a module
/// whose path contains neither `async_raft` nor `hyper`, is shown at debug,
/// info, warn and error level alike.
pub proof fn lemma_plain_events_shown(source_module: Option<Seq<char>>, level: TraceLevel)
    requires
        level != TraceLevel::Trace,
        source_module matches Some(mp) ==> !contains_text(mp, "async_raft"@) && !contains_text(
            mp,
            "hyper"@,
        ),
    ensures
        shown(source_module, level),
{
}

/// Trace-level events are never shown.
pub proof fn lemma_trace_hidden(source_module: Option<Seq<char>>)
    ensures
        !shown(source_module, TraceLevel::Trace),
{
}

/// Events from a module path containing `async_raft` are never shown.
pub proof fn lemma_raft_hidden(mp: Seq<char>, level: TraceLevel)
    requires
        contains_text(mp, "async_raft"@),
    ensures
        !shown(Some(mp), level),
{
}

/// Events from a module path containing `hyper` are never shown.
pub proof fn lemma_hyper_hidden(mp: Seq<char>, level: TraceLevel)
    requires
        contains_text(mp, "hyper"@),
    ensures
        !shown(Some(mp), level),
{
}

} // verus!
