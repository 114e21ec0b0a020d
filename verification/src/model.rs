//! The persistent store that holds the trained baseline.
//!
//! The store is an embedded relational database with two tables: `programs`
//! maps an executable path to an assigned integer id, and `behaviors` counts
//! observations per (program id, syscall, target, argument fingerprint).
//! Verified code sees the store through two abstraction maps, `programs_of`
//! and `behaviors_of`, and a handful of trusted single-statement operations
//! whose contracts are stated over those maps.

use vstd::prelude::*;

verus! {

#[verifier::external_type_specification]
#[verifier::external_body]
pub struct ExConnection(rusqlite::Connection);

#[verifier::external_type_specification]
#[verifier::external_body]
pub struct ExRusqliteError(rusqlite::Error);

/// Error from the persistent store, carrying the storage engine's own error.
#[derive(Debug)]
pub struct StoreError(pub rusqlite::Error);

/// Key of one behavior record: who did what to what, with which arguments.
#[verifier::ext_equal]
pub ghost struct BehaviorKey {
    pub program_id: u32,
    pub syscall: Seq<char>,
    pub target: Seq<char>,
    pub argv_hash: Seq<char>,
}

/// The rows of the `programs` table, as a map from executable path to its
/// assigned id (the store assigns small consecutive ids; the model carries
/// them as `u32`).
pub uninterp spec fn programs_of(c: rusqlite::Connection) -> Map<Seq<char>, u32>;

/// The rows of the `behaviors` table, as a map from behavior key to the
/// stored count.
pub uninterp spec fn behaviors_of(c: rusqlite::Connection) -> Map<BehaviorKey, nat>;

/// Count stored under a key; zero when the key is absent.
pub open spec fn stored_count(m: Map<BehaviorKey, nat>, k: BehaviorKey) -> nat {
    if m.contains_key(k) {
        m[k]
    } else {
        0
    }
}

/// One training observation: the record is created at one, or incremented.
pub open spec fn bump(m: Map<BehaviorKey, nat>, k: BehaviorKey) -> Map<BehaviorKey, nat> {
    m.insert(k, stored_count(m, k) + 1)
}

/// `n` training observations of the same key.
pub open spec fn bump_n(m: Map<BehaviorKey, nat>, k: BehaviorKey, n: nat) -> Map<
    BehaviorKey,
    nat,
>
    decreases n,
{
    if n == 0 {
        m
    } else {
        bump(bump_n(m, k, (n - 1) as nat), k)
    }
}

/// Counts below this are incremented exactly by the store's 64-bit signed
/// integer column.
pub open spec fn count_in_range(n: nat) -> bool {
    n < 0x7fff_ffff_ffff_ffff
}

/// Training monotonicity: `n` observations of a key raise its stored count
/// by exactly `n`, leave every other key untouched, and a lookup on a store
/// that was never trained returns zero.
pub proof fn lemma_training_monotonic(m: Map<BehaviorKey, nat>, k: BehaviorKey, n: nat)
    ensures
        stored_count(bump_n(m, k, n), k) == stored_count(m, k) + n,
        forall|k2: BehaviorKey| k2 != k ==> stored_count(#[trigger] bump_n(m, k, n), k2)
            == stored_count(m, k2),
        stored_count(Map::<BehaviorKey, nat>::empty(), k) == 0,
    decreases n,
{
    if n > 0 {
        lemma_training_monotonic(m, k, (n - 1) as nat);
        assert forall|k2: BehaviorKey| k2 != k implies stored_count(
            #[trigger] bump_n(m, k, n),
            k2,
        ) == stored_count(m, k2) by {
            assert(stored_count(bump_n(m, k, n), k2) == stored_count(bump_n(m, k, (n - 1) as nat), k2));
        }
    }
}

/// A store with no rows at all.
pub open spec fn store_empty(c: rusqlite::Connection) -> bool {
    programs_of(c) == Map::<Seq<char>, u32>::empty() && behaviors_of(c) == Map::<
        BehaviorKey,
        nat,
    >::empty()
}

/// Relies on rusqlite::Connection::open_in_memory: a fresh in-memory
/// database holds no rows at all.
#[verifier::external_body]
fn connect_in_memory() -> (r: Result<rusqlite::Connection, rusqlite::Error>)
    ensures
        r is Ok ==> store_empty(r->Ok_0),
{
    rusqlite::Connection::open_in_memory()
}

/// Relies on rusqlite::Connection::execute_batch with CREATE TABLE IF NOT
/// EXISTS: creating the two tables adds or removes no row, whether or not
/// they already exist.
#[verifier::external_body]
fn init_schema(conn: &mut rusqlite::Connection) -> (r: Result<(), rusqlite::Error>)
    ensures
        programs_of(*final(conn)) == programs_of(*old(conn)),
        behaviors_of(*final(conn)) == behaviors_of(*old(conn)),
{
    conn.execute_batch(
        "CREATE TABLE IF NOT EXISTS programs (id INTEGER PRIMARY KEY, parent TEXT, UNIQUE(parent));
         CREATE TABLE IF NOT EXISTS behaviors (parent_id INTEGER, filename TEXT, syscall TEXT, argv_hash TEXT, count INTEGER, UNIQUE(parent_id, syscall, filename, argv_hash));",
    )
}

/// Relies on rusqlite::Connection::query_row on the `programs` table: it
/// returns the id stored for the path, or no row when the path is absent.
#[verifier::external_body]
pub(crate) fn query_program_id(conn: &rusqlite::Connection, path: &str) -> (r: Result<
    Option<u32>,
    rusqlite::Error,
>)
    ensures
        r matches Ok(found) ==> (found matches Some(id) ==> programs_of(*conn).contains_key(path@)
            && programs_of(*conn)[path@] == id),
        r matches Ok(found) ==> (found is None ==> !programs_of(*conn).contains_key(path@)),
{
    match conn.query_row("SELECT id FROM programs WHERE parent = ?1", (path,), |row| row.get(0)) {
        Ok(id) => Ok(Some(id)),
        Err(rusqlite::Error::QueryReturnedNoRows) => Ok(None),
        Err(e) => Err(e),
    }
}

/// Relies on rusqlite::Connection::execute with INSERT ... ON CONFLICT DO
/// NOTHING: registers the path if absent (with a fresh id) and touches no
/// other row; a single statement is atomic, so on failure the rows are
/// unchanged.
#[verifier::external_body]
pub(crate) fn upsert_program(conn: &mut rusqlite::Connection, path: &str) -> (r: Result<
    (),
    rusqlite::Error,
>)
    ensures
        behaviors_of(*final(conn)) == behaviors_of(*old(conn)),
        r is Ok ==> programs_of(*final(conn)).dom() =~= programs_of(*old(conn)).dom().insert(
            path@,
        ),
        r is Ok ==> programs_of(*old(conn)).submap_of(programs_of(*final(conn))),
        r is Err ==> programs_of(*final(conn)) == programs_of(*old(conn)),
{
    match conn.execute("INSERT INTO programs(parent) VALUES (?1) ON CONFLICT(parent) DO NOTHING", (path,)) {
        Ok(_) => Ok(()),
        Err(e) => Err(e),
    }
}

/// Relies on rusqlite::Connection::query_row on the `behaviors` table: the
/// count stored under exactly this key, or no row when the key was never
/// trained.
#[verifier::external_body]
pub(crate) fn query_behavior_count(
    conn: &rusqlite::Connection,
    program_id: u32,
    syscall: &str,
    target: &str,
    argv_hash: &str,
) -> (r: Result<u32, rusqlite::Error>)
    ensures
        r matches Ok(n) ==> n as nat == stored_count(
            behaviors_of(*conn),
            (BehaviorKey { program_id, syscall: syscall@, target: target@, argv_hash: argv_hash@ }),
        ),
{
    match conn.query_row(
        "SELECT count FROM behaviors WHERE parent_id = ?1 AND syscall = ?2 AND filename = ?3 AND argv_hash = ?4",
        (program_id, syscall, target, argv_hash),
        |row| row.get(0),
    ) {
        Ok(n) => Ok(n),
        Err(rusqlite::Error::QueryReturnedNoRows) => Ok(0),
        Err(e) => Err(e),
    }
}

/// Relies on rusqlite::Connection::execute with INSERT ... ON CONFLICT DO
/// UPDATE SET count = count + 1: one atomic training observation of the
/// key, exact while the count stays below the store's 64-bit integer
/// maximum; a failed statement changes no row.
#[verifier::external_body]
pub(crate) fn upsert_behavior(
    conn: &mut rusqlite::Connection,
    program_id: u32,
    syscall: &str,
    target: &str,
    argv_hash: &str,
) -> (r: Result<(), rusqlite::Error>)
    ensures
        programs_of(*final(conn)) == programs_of(*old(conn)),
        r is Ok && count_in_range(
            stored_count(
                behaviors_of(*old(conn)),
                (BehaviorKey {
                    program_id,
                    syscall: syscall@,
                    target: target@,
                    argv_hash: argv_hash@,
                }),
            ),
        ) ==> behaviors_of(*final(conn)) == bump(
            behaviors_of(*old(conn)),
            (BehaviorKey { program_id, syscall: syscall@, target: target@, argv_hash: argv_hash@ }),
        ),
        r is Err ==> behaviors_of(*final(conn)) == behaviors_of(*old(conn)),
{
    match conn.execute(
        "INSERT INTO behaviors(parent_id, syscall, filename, argv_hash, count) VALUES (?1, ?2, ?3, ?4, 1) ON CONFLICT(parent_id, syscall, filename, argv_hash) DO UPDATE SET count = count + 1",
        (program_id, syscall, target, argv_hash),
    ) {
        Ok(_) => Ok(()),
        Err(e) => Err(e),
    }
}

/// Opens a fresh in-memory store holding the two tables, both empty.
pub fn open_db_in_memory() -> (r: Result<rusqlite::Connection, StoreError>)
    ensures
        r matches Ok(c) ==> programs_of(c) == Map::<Seq<char>, u32>::empty() && behaviors_of(c)
            == Map::<BehaviorKey, nat>::empty(),
{
    let mut conn = match connect_in_memory() {
        Ok(c) => c,
        Err(e) => {
            return Err(StoreError(e));
        },
    };
    match init_schema(&mut conn) {
        Ok(_) => Ok(conn),
        Err(e) => Err(StoreError(e)),
    }
}

} // verus!
