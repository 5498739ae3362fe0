//! The decision behind the filesystem watcher: which event kinds trigger a
//! reload. Observing the directory tree happens outside this crate; events
//! arrive here as plain values.

use vstd::prelude::*;

verus! {

/// The kind of one filesystem event, as far as reloading cares.
#[derive(Clone, Copy, Debug, PartialEq, Eq, Structural)]
pub enum WatchEventKind {
    Create,
    Modify,
    Remove,
    /// An event of unspecified kind.
    Any,
    /// Anything else (access notifications and the like).
    Other,
}

/// One normalized watcher event.
pub enum WatchEvent {
    /// A filesystem event with its arrival time, Unix milliseconds.
    FileEvent { kind: WatchEventKind, timestamp_ms: u64 },
    /// An error reported by the underlying watcher; watching goes on.
    Error { message: String },
}

/// Whether an event kind triggers a reload: creations, modifications,
/// removals and unspecified events do, access-style events do not.
pub fn should_reload(kind: &WatchEventKind) -> (r: bool)
    ensures
        r == (kind is Create || kind is Modify || kind is Remove || kind is Any),
{
    match kind {
        WatchEventKind::Create => true,
        WatchEventKind::Modify => true,
        WatchEventKind::Remove => true,
        WatchEventKind::Any => true,
        WatchEventKind::Other => false,
    }
}

} // verus!
