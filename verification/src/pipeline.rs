//! The event loop's decision: route each decoded event to the trainer or
//! the detector per the configured mode.
//!
//! The surrounding loop (waiting on the ring buffer, resolving the pid's
//! executable path, delivering alerts, handling shutdown) is unverified
//! plumbing; it hands this function plain values and performs the returned
//! alert's delivery without blocking.

use vstd::prelude::*;
use crate::agent::{agent, detect_outcome, Alert, AlertState};
use crate::event::RustEvent;
use crate::identity::register_path;
use crate::model::{behaviors_of, programs_of, stored_count, StoreError};
use crate::train::{event_key, event_skipped, programs_preserved, trained};

verus! {

/// The two operating modes: training grows the baseline and never alerts;
/// agent (detection) reads the baseline and alerts on unmatched behavior.
#[derive(Debug, Clone, Copy, PartialEq, Eq, Structural)]
pub enum Mode {
    Train,
    Agent,
}

/// Handles one decoded event in the configured mode.
///
/// In training mode the event's behavior count rises by one (under its
/// registered identity) and no alert ever comes back. In agent mode the
/// baseline is only read, and an unknown behavior goes through the
/// suppression policy. In both modes an event without a resolved path, or
/// a zero-address bind or connect, leaves the store and the counter
/// untouched; a store error is confined to this one event.
pub fn handle_event(
    mode: Mode,
    conn: &mut rusqlite::Connection,
    event: &RustEvent,
    exe_path: Option<&str>,
    state: &mut AlertState,
) -> (r: Result<Option<Alert>, StoreError>)
    requires
        old(state).suspicious_event_count < u32::MAX,
    ensures
        mode is Train ==> *final(state) == *old(state),
        mode is Train ==> (r matches Ok(alert) ==> alert is None),
        mode is Agent ==> behaviors_of(*final(conn)) == behaviors_of(*old(conn)),
        exe_path is None || event_skipped(event@) ==> r is Ok && programs_of(*final(conn))
            == programs_of(*old(conn)) && behaviors_of(*final(conn)) == behaviors_of(*old(conn))
            && *final(state) == *old(state),
        mode is Train && r is Ok && !event_skipped(event@) ==> (exe_path matches Some(p)
            ==> trained(
            programs_of(*old(conn)),
            behaviors_of(*old(conn)),
            programs_of(*final(conn)),
            behaviors_of(*final(conn)),
            event@,
            p@,
        )),
        mode is Agent && r is Ok && !event_skipped(event@) ==> (exe_path matches Some(p)
            ==> programs_of(*final(conn)) == register_path(
            programs_of(*old(conn)),
            p@,
            programs_of(*final(conn))[p@],
        ) && programs_of(*final(conn)).contains_key(p@) && detect_outcome(
            old(state).suspicious_event_count,
            final(state).suspicious_event_count,
            r->Ok_0,
            event@,
            stored_count(
                behaviors_of(*old(conn)),
                event_key(programs_of(*final(conn))[p@], event@),
            ),
        )),
        r is Err ==> (exe_path matches Some(p) ==> programs_preserved(
            programs_of(*old(conn)),
            programs_of(*final(conn)),
            p@,
        )),
        r is Err ==> *final(state) == *old(state),
{
    match mode {
        Mode::Train => {
            match crate::train::train(conn, event, exe_path) {
                Ok(_) => Ok(None),
                Err(e) => Err(e),
            }
        },
        Mode::Agent => agent(conn, event, exe_path, state),
    }
}

} // verus!
