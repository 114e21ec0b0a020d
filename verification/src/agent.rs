//! Detection and rate-limited alerting.
//!
//! A detection step resolves the event's identity, reads the trained count
//! of its behavior key and classifies the event: a positive count is a
//! known behavior and nothing happens; a zero count is unknown and goes to
//! the alerter. The alerter counts every unknown observation in a
//! process-wide running counter and withholds the alert while the counter
//! is still below a fixed threshold; once the counter reaches the
//! threshold, every further unknown observation produces an alert. The
//! policy never resets or re-suppresses; this literal behavior is kept as
//! found, pending product clarification. The alert itself is handed back
//! as a value: delivery is the caller's, so a slow sink can never block
//! event consumption.

use vstd::prelude::*;
use crate::event::{is_zero_ip, EventV, RustBindEvent, RustConnectEvent, RustEvent, RustExecEvent, RustOpenEvent};
use crate::identity::{register_path, resolve_identity, ProgramIdentity};
use crate::model::{behaviors_of, programs_of, stored_count, StoreError};
use crate::syscalls::select_program_count;
use crate::train::{
    event_args, event_key, event_pid, event_skipped, event_syscall, event_target,
    programs_preserved,
};

verus! {

/// Unknown observations are counted, and alerts withheld, up to this value
/// of the running counter: the observation that brings the counter to the
/// threshold is the first one alerted.
pub const ALERT_THRESHOLD: u32 = 10;

/// Process-wide running count of unknown-event observations.
pub struct AlertState {
    pub suspicious_event_count: u32,
}

impl AlertState {
    /// A fresh counter, as at process start.
    pub fn new() -> (r: AlertState)
        ensures
            r.suspicious_event_count == 0,
    {
        AlertState { suspicious_event_count: 0 }
    }
}

/// A structured alert, ready for delivery to the external sink.
#[derive(Debug, Clone)]
pub struct Alert {
    pub pid: u32,
    pub syscall: String,
    pub filename: String,
    pub args: Vec<String>,
    pub suspicious_event_count: u32,
}

/// What one unknown observation does: the counter always rises by one, and
/// the alert is emitted exactly when the risen counter has reached the
/// threshold.
pub open spec fn suppression(c_old: u32, c_new: u32, emitted: bool) -> bool {
    &&& c_new == c_old + 1
    &&& (emitted <==> c_new >= ALERT_THRESHOLD)
}

/// Alert suppression boundary: starting from a fresh counter, the first
/// nine unknown observations are suppressed, and the tenth and every later
/// one produce an alert — the policy stays open once crossed.
pub proof fn lemma_suppression_boundary(c_old: u32, c_new: u32, emitted: bool, n: u32)
    requires
        suppression(c_old, c_new, emitted),
        c_old == n - 1,
        n >= 1,
    ensures
        n < ALERT_THRESHOLD ==> !emitted,
        n >= ALERT_THRESHOLD ==> emitted,
{
}

/// Registers one unknown observation and decides whether to alert.
///
/// The counter rises by one on every invocation regardless of outcome.
/// While the risen counter is below the threshold the observation is
/// suppressed; from the threshold on, each invocation yields an alert
/// carrying the event's fields and the counter value at that moment.
pub fn send_alert(
    state: &mut AlertState,
    syscall: &str,
    pid: u32,
    filename: &str,
    args: &Vec<String>,
) -> (r: Option<Alert>)
    requires
        old(state).suspicious_event_count < u32::MAX,
    ensures
        suppression(
            old(state).suspicious_event_count,
            final(state).suspicious_event_count,
            r is Some,
        ),
        r matches Some(a) ==> a.pid == pid && a.syscall@ == syscall@ && a.filename@ == filename@
            && a.args.deep_view() == args.deep_view() && a.suspicious_event_count
            == final(state).suspicious_event_count,
{
    state.suspicious_event_count = state.suspicious_event_count + 1;
    if state.suspicious_event_count < ALERT_THRESHOLD {
        return None;
    }
    let cloned_args = args.clone();
    proof {
        assert forall|i: int| 0 <= i < args@.len() implies cloned_args@[i] == args@[i] by {
            assert(cloned(args@[i], cloned_args@[i]));
        }
        assert(cloned_args.deep_view() =~= args.deep_view());
    }
    Some(
        Alert {
            pid,
            syscall: String::from_str(syscall),
            filename: String::from_str(filename),
            args: cloned_args,
            suspicious_event_count: state.suspicious_event_count,
        },
    )
}

/// The outcome of one successful detection step on a non-skipped event,
/// given the trained count of its behavior key: a known behavior changes
/// nothing; an unknown one goes through the suppression policy.
pub open spec fn detect_outcome(
    c_old: u32,
    c_new: u32,
    alert: Option<Alert>,
    ev: EventV,
    cnt: nat,
) -> bool {
    if cnt > 0 {
        c_new == c_old && alert is None
    } else {
        &&& suppression(c_old, c_new, alert is Some)
        &&& (alert matches Some(a) ==> a.pid == event_pid(ev) && a.syscall@ == event_syscall(ev)
            && a.filename@ == event_target(ev) && a.args.deep_view() == event_args(ev)
            && a.suspicious_event_count == c_new)
    }
}

/// Detects on one exec event under a resolved identity.
fn agent_exec(
    conn: &rusqlite::Connection,
    identity: &ProgramIdentity,
    event: &RustExecEvent,
    state: &mut AlertState,
) -> (r: Result<Option<Alert>, StoreError>)
    requires
        old(state).suspicious_event_count < u32::MAX,
    ensures
        r matches Ok(alert) ==> detect_outcome(
            old(state).suspicious_event_count,
            final(state).suspicious_event_count,
            alert,
            EventV::Exec(event@),
            stored_count(behaviors_of(*conn), event_key(identity.id, EventV::Exec(event@))),
        ),
        r is Err ==> *final(state) == *old(state),
{
    let res = match select_program_count(conn, identity, "execve", event.filename.as_str(), &event.args) {
        Ok(n) => n,
        Err(e) => {
            return Err(e);
        },
    };
    if res > 0 {
        return Ok(None);
    }
    Ok(send_alert(state, "execve", event.pid, event.filename.as_str(), &event.args))
}

/// Detects on one open event under a resolved identity.
fn agent_open(
    conn: &rusqlite::Connection,
    identity: &ProgramIdentity,
    event: &RustOpenEvent,
    state: &mut AlertState,
) -> (r: Result<Option<Alert>, StoreError>)
    requires
        old(state).suspicious_event_count < u32::MAX,
    ensures
        r matches Ok(alert) ==> detect_outcome(
            old(state).suspicious_event_count,
            final(state).suspicious_event_count,
            alert,
            EventV::Open(event@),
            stored_count(behaviors_of(*conn), event_key(identity.id, EventV::Open(event@))),
        ),
        r is Err ==> *final(state) == *old(state),
{
    let no_args: Vec<String> = Vec::new();
    proof {
        assert(no_args.deep_view() =~= event_args(EventV::Open(event@)));
    }
    let res = match select_program_count(conn, identity, "open", event.filename.as_str(), &no_args) {
        Ok(n) => n,
        Err(e) => {
            return Err(e);
        },
    };
    if res > 0 {
        return Ok(None);
    }
    Ok(send_alert(state, "open", event.pid, event.filename.as_str(), &no_args))
}

/// Detects on one bind event under a resolved identity.
fn agent_bind(
    conn: &rusqlite::Connection,
    identity: &ProgramIdentity,
    event: &RustBindEvent,
    state: &mut AlertState,
) -> (r: Result<Option<Alert>, StoreError>)
    requires
        old(state).suspicious_event_count < u32::MAX,
    ensures
        r matches Ok(alert) ==> detect_outcome(
            old(state).suspicious_event_count,
            final(state).suspicious_event_count,
            alert,
            EventV::Bind(event@),
            stored_count(behaviors_of(*conn), event_key(identity.id, EventV::Bind(event@))),
        ),
        r is Err ==> *final(state) == *old(state),
{
    let target = crate::event::format_ip(&event.ip);
    let no_args: Vec<String> = Vec::new();
    proof {
        assert(no_args.deep_view() =~= event_args(EventV::Bind(event@)));
    }
    let res = match select_program_count(conn, identity, "bind", target.as_str(), &no_args) {
        Ok(n) => n,
        Err(e) => {
            return Err(e);
        },
    };
    if res > 0 {
        return Ok(None);
    }
    Ok(send_alert(state, "bind", event.pid, target.as_str(), &no_args))
}

/// Detects on one connect event under a resolved identity.
fn agent_connect(
    conn: &rusqlite::Connection,
    identity: &ProgramIdentity,
    event: &RustConnectEvent,
    state: &mut AlertState,
) -> (r: Result<Option<Alert>, StoreError>)
    requires
        old(state).suspicious_event_count < u32::MAX,
    ensures
        r matches Ok(alert) ==> detect_outcome(
            old(state).suspicious_event_count,
            final(state).suspicious_event_count,
            alert,
            EventV::Connect(event@),
            stored_count(behaviors_of(*conn), event_key(identity.id, EventV::Connect(event@))),
        ),
        r is Err ==> *final(state) == *old(state),
{
    let target = crate::event::format_ip(&event.ip);
    let no_args: Vec<String> = Vec::new();
    proof {
        assert(no_args.deep_view() =~= event_args(EventV::Connect(event@)));
    }
    let res = match select_program_count(conn, identity, "connect", target.as_str(), &no_args) {
        Ok(n) => n,
        Err(e) => {
            return Err(e);
        },
    };
    if res > 0 {
        return Ok(None);
    }
    Ok(send_alert(state, "connect", event.pid, target.as_str(), &no_args))
}

/// One detection step.
///
/// Detection never touches the behavior table. With no resolved path or a
/// zero-address bind or connect, nothing at all happens. Otherwise the
/// path is registered idempotently, the trained count of the event's key
/// is read under the registered id, and a zero count goes through the
/// suppression policy; the returned alert, if any, is ready for delivery.
/// A store error leaves the counter and every program row intact.
pub fn agent(
    conn: &mut rusqlite::Connection,
    event: &RustEvent,
    exe_path: Option<&str>,
    state: &mut AlertState,
) -> (r: Result<Option<Alert>, StoreError>)
    requires
        old(state).suspicious_event_count < u32::MAX,
    ensures
        behaviors_of(*final(conn)) == behaviors_of(*old(conn)),
        exe_path is None || event_skipped(event@) ==> (r matches Ok(alert) && alert is None
            && programs_of(*final(conn)) == programs_of(*old(conn)) && *final(state)
            == *old(state)),
        r is Ok && !event_skipped(event@) ==> (exe_path matches Some(p) ==> programs_of(
            *final(conn),
        ) == register_path(
            programs_of(*old(conn)),
            p@,
            programs_of(*final(conn))[p@],
        ) && programs_of(*final(conn)).contains_key(p@) && detect_outcome(
            old(state).suspicious_event_count,
            final(state).suspicious_event_count,
            r->Ok_0,
            event@,
            stored_count(
                behaviors_of(*old(conn)),
                event_key(programs_of(*final(conn))[p@], event@),
            ),
        )),
        r is Err ==> *final(state) == *old(state),
        r is Err ==> (exe_path matches Some(p) ==> programs_preserved(
            programs_of(*old(conn)),
            programs_of(*final(conn)),
            p@,
        )),
{
    let path = match exe_path {
        Some(p) => p,
        None => {
            return Ok(None);
        },
    };
    match event {
        RustEvent::Bind(e) => {
            if is_zero_ip(&e.ip) {
                return Ok(None);
            }
        },
        RustEvent::Connect(e) => {
            if is_zero_ip(&e.ip) {
                return Ok(None);
            }
        },
        _ => {},
    }
    let identity = match resolve_identity(conn, path) {
        Ok(i) => i,
        Err(e) => {
            return Err(e);
        },
    };
    match event {
        RustEvent::Exec(e) => agent_exec(conn, &identity, e, state),
        RustEvent::Open(e) => agent_open(conn, &identity, e, state),
        RustEvent::Bind(e) => agent_bind(conn, &identity, e, state),
        RustEvent::Connect(e) => agent_connect(conn, &identity, e, state),
    }
}

} // verus!
