//! What the adapter does with each message its worker posts.
use vstd::prelude::*;

use crate::text::str_eq;

verus! {

/// The messages a worker posts to the adapter, by their `type` field.
#[derive(Clone, Copy, PartialEq, Eq, Structural, Debug)]
pub enum WorkerEvent {
    /// `debug`: an instrumented binary is ready; a DWARF back end is
    /// attached, then the handshake may send `initialized`.
    Debug,
    /// `python_debug`: the Python bridge is ready; a Python back end is
    /// attached, then the handshake may send `initialized`.
    PythonDebug,
    /// `paused`: the back end builds the `stopped` event.
    Paused,
    /// `stop`: the program ended; `terminated` is sent.
    Stop,
    /// Anything else is ignored.
    Other,
}

/// The event a worker message of type `t` is.
pub open spec fn worker_event(t: Seq<char>) -> WorkerEvent {
    if t == "debug"@ {
        WorkerEvent::Debug
    } else if t == "python_debug"@ {
        WorkerEvent::PythonDebug
    } else if t == "paused"@ {
        WorkerEvent::Paused
    } else if t == "stop"@ {
        WorkerEvent::Stop
    } else {
        WorkerEvent::Other
    }
}

/// Classifies a worker message by its `type` field (`""` when it has
/// none).
pub fn classify_worker_message(t: &str) -> (r: WorkerEvent)
    ensures
        r == worker_event(t@),
{
    if str_eq(t, "debug") {
        WorkerEvent::Debug
    } else if str_eq(t, "python_debug") {
        WorkerEvent::PythonDebug
    } else if str_eq(t, "paused") {
        WorkerEvent::Paused
    } else if str_eq(t, "stop") {
        WorkerEvent::Stop
    } else {
        WorkerEvent::Other
    }
}

} // verus!
