//! Durable program identities.
//!
//! A process is attributed to the resolved filesystem path of its own
//! executable image, not to its transient pid. The identity record is
//! created lazily, exactly once per path, by an atomic insert-if-absent.

use vstd::prelude::*;
use crate::model::{behaviors_of, programs_of, query_program_id, upsert_program, StoreError};

verus! {

/// A durable identity: the id assigned to one executable path.
#[derive(Debug, Clone, Copy, PartialEq, Eq, Structural)]
pub struct ProgramIdentity {
    pub id: u32,
}

/// Idempotent registration of a path: a known path keeps its row, an
/// unknown one gains a row with the given id.
pub open spec fn register_path(m: Map<Seq<char>, u32>, path: Seq<char>, id: u32) -> Map<
    Seq<char>,
    u32,
> {
    if m.contains_key(path) {
        m
    } else {
        m.insert(path, id)
    }
}

/// Identity idempotence: registering a path a second time changes nothing
/// and looks up the id the first registration stored; a path has at most
/// one row, whichever registration came first.
pub proof fn lemma_identity_idempotent(m: Map<Seq<char>, u32>, path: Seq<char>, id1: u32, id2: u32)
    ensures
        register_path(register_path(m, path, id1), path, id2) == register_path(m, path, id1),
        register_path(m, path, id1)[path] == if m.contains_key(path) {
            m[path]
        } else {
            id1
        },
        register_path(m, path, id1).dom() =~= m.dom().insert(path),
{
}

/// Maps a resolved executable path to its durable identity, creating the
/// identity row on first sight.
///
/// Registration is an atomic insert-if-absent followed by a lookup, so a
/// path never gains two rows and a known path keeps its id. The behavior
/// table is untouched. On a store error nothing is lost: every prior row
/// survives, and at most the path's own row was added.
pub fn resolve_identity(conn: &mut rusqlite::Connection, exe_path: &str) -> (r: Result<
    ProgramIdentity,
    StoreError,
>)
    ensures
        behaviors_of(*final(conn)) == behaviors_of(*old(conn)),
        r matches Ok(p) ==> programs_of(*final(conn)) == register_path(
            programs_of(*old(conn)),
            exe_path@,
            p.id,
        ),
        r matches Ok(p) ==> programs_of(*final(conn)).contains_key(exe_path@) && programs_of(
            *final(conn),
        )[exe_path@] == p.id,
        r matches Ok(p) ==> (programs_of(*old(conn)).contains_key(exe_path@) ==> p.id
            == programs_of(*old(conn))[exe_path@]),
        r is Err ==> programs_of(*final(conn)).dom().subset_of(
            programs_of(*old(conn)).dom().insert(exe_path@),
        ),
        r is Err ==> programs_of(*old(conn)).submap_of(programs_of(*final(conn))),
{
    let ghost before = programs_of(*conn);
    if let Err(e) = upsert_program(conn, exe_path) {
        return Err(StoreError(e));
    }
    match query_program_id(conn, exe_path) {
        Ok(Some(id)) => {
            proof {
                if before.contains_key(exe_path@) {
                    assert(programs_of(*conn) =~= before);
                } else {
                    assert(programs_of(*conn) =~= before.insert(exe_path@, id));
                }
            }
            Ok(ProgramIdentity { id })
        },
        Ok(None) => {
            // The path was registered just above, so the lookup cannot miss.
            proof {
                assert(programs_of(*conn).dom().contains(exe_path@));
            }
            vstd::pervasive::unreached()
        },
        Err(e) => Err(StoreError(e)),
    }
}

} // verus!
