//! Baseline construction: one training observation per decoded event.
//!
//! A training step attributes the event to the identity of its originating
//! executable path and counts the behavior under (identity, syscall,
//! target, argument fingerprint). An event whose process is already gone
//! (no resolved path) is skipped silently, and so is a bind or connect
//! whose address is the all-zero placeholder.

use vstd::prelude::*;
use crate::event::{
    ip_str, is_zero_ip, spec_is_zero_ip, EventV, RustBindEvent, RustConnectEvent, RustEvent,
    RustExecEvent, RustOpenEvent,
};
use crate::identity::{register_path, resolve_identity, ProgramIdentity};
use crate::model::{
    behaviors_of, bump, count_in_range, programs_of, stored_count, BehaviorKey, StoreError,
};
use crate::syscalls::{behavior_key, insert_program};

verus! {

/// The syscall name an event is recorded under.
pub open spec fn event_syscall(ev: EventV) -> Seq<char> {
    match ev {
        EventV::Exec(_) => "execve"@,
        EventV::Open(_) => "open"@,
        EventV::Bind(_) => "bind"@,
        EventV::Connect(_) => "connect"@,
    }
}

/// The behavior target: the filename for exec and open, the dotted-decimal
/// IPv4 address for bind and connect.
pub open spec fn event_target(ev: EventV) -> Seq<char> {
    match ev {
        EventV::Exec(x) => x.filename,
        EventV::Open(x) => x.filename,
        EventV::Bind(x) => ip_str(x.ip),
        EventV::Connect(x) => ip_str(x.ip),
    }
}

/// The argument list an event fingerprints: the real arguments for exec,
/// empty for every other kind.
pub open spec fn event_args(ev: EventV) -> Seq<Seq<char>> {
    match ev {
        EventV::Exec(x) => x.args,
        _ => Seq::empty(),
    }
}

/// The pid the event reports.
pub open spec fn event_pid(ev: EventV) -> u32 {
    match ev {
        EventV::Exec(x) => x.pid,
        EventV::Open(x) => x.pid,
        EventV::Bind(x) => x.pid,
        EventV::Connect(x) => x.pid,
    }
}

/// A bind or connect whose address is the all-zero placeholder carries no
/// real destination: trainer and detector both ignore it entirely.
pub open spec fn event_skipped(ev: EventV) -> bool {
    match ev {
        EventV::Bind(x) => spec_is_zero_ip(x.ip),
        EventV::Connect(x) => spec_is_zero_ip(x.ip),
        _ => false,
    }
}

/// The behavior key of an event under an identity.
pub open spec fn event_key(id: u32, ev: EventV) -> BehaviorKey {
    behavior_key(id, event_syscall(ev), event_target(ev), event_args(ev))
}

/// The store after one successful training step on a non-skipped event:
/// the path is registered (idempotently, under the id now stored for it)
/// and the event's behavior count is one higher.
pub open spec fn trained(
    p_old: Map<Seq<char>, u32>,
    b_old: Map<BehaviorKey, nat>,
    p_new: Map<Seq<char>, u32>,
    b_new: Map<BehaviorKey, nat>,
    ev: EventV,
    path: Seq<char>,
) -> bool {
    &&& p_new.contains_key(path)
    &&& p_new == register_path(p_old, path, p_new[path])
    &&& (count_in_range(stored_count(b_old, event_key(p_new[path], ev))) ==> b_new == bump(
        b_old,
        event_key(p_new[path], ev),
    ))
}

/// What any step may do to the programs table: keep every existing row
/// as it is, and add at most the row for `path`.
pub open spec fn programs_preserved(
    p_old: Map<Seq<char>, u32>,
    p_new: Map<Seq<char>, u32>,
    path: Seq<char>,
) -> bool {
    &&& p_new.dom().subset_of(p_old.dom().insert(path))
    &&& p_old.submap_of(p_new)
}

/// Trains on one exec event under a resolved identity.
fn train_exec(conn: &mut rusqlite::Connection, identity: &ProgramIdentity, event: &RustExecEvent)
    -> (r: Result<(), StoreError>)
    ensures
        programs_of(*final(conn)) == programs_of(*old(conn)),
        r is Ok && count_in_range(
            stored_count(behaviors_of(*old(conn)), event_key(identity.id, EventV::Exec(event@))),
        ) ==> behaviors_of(*final(conn)) == bump(
            behaviors_of(*old(conn)),
            event_key(identity.id, EventV::Exec(event@)),
        ),
{
    match insert_program(conn, identity, "execve", event.filename.as_str(), &event.args) {
        Ok(_) => Ok(()),
        Err(e) => Err(e),
    }
}

/// Trains on one open event under a resolved identity.
fn train_open(conn: &mut rusqlite::Connection, identity: &ProgramIdentity, event: &RustOpenEvent)
    -> (r: Result<(), StoreError>)
    ensures
        programs_of(*final(conn)) == programs_of(*old(conn)),
        r is Ok && count_in_range(
            stored_count(behaviors_of(*old(conn)), event_key(identity.id, EventV::Open(event@))),
        ) ==> behaviors_of(*final(conn)) == bump(
            behaviors_of(*old(conn)),
            event_key(identity.id, EventV::Open(event@)),
        ),
{
    let no_args: Vec<String> = Vec::new();
    proof {
        assert(no_args.deep_view() =~= event_args(EventV::Open(event@)));
    }
    match insert_program(conn, identity, "open", event.filename.as_str(), &no_args) {
        Ok(_) => Ok(()),
        Err(e) => Err(e),
    }
}

/// Trains on one bind event under a resolved identity.
fn train_bind(conn: &mut rusqlite::Connection, identity: &ProgramIdentity, event: &RustBindEvent)
    -> (r: Result<(), StoreError>)
    ensures
        programs_of(*final(conn)) == programs_of(*old(conn)),
        r is Ok && count_in_range(
            stored_count(behaviors_of(*old(conn)), event_key(identity.id, EventV::Bind(event@))),
        ) ==> behaviors_of(*final(conn)) == bump(
            behaviors_of(*old(conn)),
            event_key(identity.id, EventV::Bind(event@)),
        ),
{
    let target = crate::event::format_ip(&event.ip);
    let no_args: Vec<String> = Vec::new();
    proof {
        assert(no_args.deep_view() =~= event_args(EventV::Bind(event@)));
    }
    match insert_program(conn, identity, "bind", target.as_str(), &no_args) {
        Ok(_) => Ok(()),
        Err(e) => Err(e),
    }
}

/// Trains on one connect event under a resolved identity.
fn train_connect(
    conn: &mut rusqlite::Connection,
    identity: &ProgramIdentity,
    event: &RustConnectEvent,
) -> (r: Result<(), StoreError>)
    ensures
        programs_of(*final(conn)) == programs_of(*old(conn)),
        r is Ok && count_in_range(
            stored_count(
                behaviors_of(*old(conn)),
                event_key(identity.id, EventV::Connect(event@)),
            ),
        ) ==> behaviors_of(*final(conn)) == bump(
            behaviors_of(*old(conn)),
            event_key(identity.id, EventV::Connect(event@)),
        ),
{
    let target = crate::event::format_ip(&event.ip);
    let no_args: Vec<String> = Vec::new();
    proof {
        assert(no_args.deep_view() =~= event_args(EventV::Connect(event@)));
    }
    match insert_program(conn, identity, "connect", target.as_str(), &no_args) {
        Ok(_) => Ok(()),
        Err(e) => Err(e),
    }
}

/// One training step.
///
/// With no resolved path (the process is gone) or a zero-address bind or
/// connect, the step succeeds and the store is untouched. Otherwise the
/// path is registered idempotently and the event's behavior count rises by
/// one. A store error abandons this one event: every existing program row
/// survives it.
pub fn train(conn: &mut rusqlite::Connection, event: &RustEvent, exe_path: Option<&str>) -> (r:
    Result<(), StoreError>)
    ensures
        exe_path is None || event_skipped(event@) ==> r is Ok && programs_of(*final(conn))
            == programs_of(*old(conn)) && behaviors_of(*final(conn)) == behaviors_of(*old(conn)),
        r is Ok && !event_skipped(event@) ==> (exe_path matches Some(p) ==> trained(
            programs_of(*old(conn)),
            behaviors_of(*old(conn)),
            programs_of(*final(conn)),
            behaviors_of(*final(conn)),
            event@,
            p@,
        )),
        r is Err ==> exe_path is Some,
        r is Err ==> (exe_path matches Some(p) ==> programs_preserved(
            programs_of(*old(conn)),
            programs_of(*final(conn)),
            p@,
        )),
{
    let path = match exe_path {
        Some(p) => p,
        None => {
            return Ok(());
        },
    };
    match event {
        RustEvent::Bind(e) => {
            if is_zero_ip(&e.ip) {
                return Ok(());
            }
        },
        RustEvent::Connect(e) => {
            if is_zero_ip(&e.ip) {
                return Ok(());
            }
        },
        _ => {},
    }
    let ghost before = programs_of(*conn);
    let identity = match resolve_identity(conn, path) {
        Ok(i) => i,
        Err(e) => {
            return Err(e);
        },
    };
    let r = match event {
        RustEvent::Exec(e) => train_exec(conn, &identity, e),
        RustEvent::Open(e) => train_open(conn, &identity, e),
        RustEvent::Bind(e) => train_bind(conn, &identity, e),
        RustEvent::Connect(e) => train_connect(conn, &identity, e),
    };
    r
}

} // verus!
