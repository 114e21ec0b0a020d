//! Argument fingerprints and the two store operations built on them.
//!
//! A behavior's key folds the argument list into a deterministic content
//! digest: the arguments are joined in order with a comma, the joined
//! string's UTF-8 bytes are hashed with SHA-256, and the digest is
//! hex-encoded. Argument normalization (wildcarding paths, numbers, long
//! strings before hashing) is deliberately not done: behaviorally equal
//! invocations that differ in volatile argument content count as distinct
//! behaviors.

use vstd::prelude::*;
use sha2::Digest;
use crate::identity::ProgramIdentity;
use crate::model::{
    behaviors_of, bump, count_in_range, programs_of, query_behavior_count, stored_count,
    upsert_behavior, BehaviorKey, StoreError,
};

verus! {

/// The SHA-256 digest of a byte sequence. The digest itself is far too
/// long to state; it is a pure function of the bytes alone.
pub uninterp spec fn sha256_of(b: Seq<u8>) -> Seq<u8>;

/// Relies on sha2::Sha256 (through the Digest trait): the digest depends
/// on the input bytes alone and is 32 bytes long.
#[verifier::external_body]
fn sha256_digest(b: &Vec<u8>) -> (r: Vec<u8>)
    ensures
        r@ == sha256_of(b@),
        r@.len() == 32,
{
    let mut hasher = sha2::Sha256::new();
    hasher.update(b.as_slice());
    hasher.finalize().to_vec()
}

/// The character for one hexadecimal digit, lowercase.
pub open spec fn hex_digit(d: u8) -> char {
    if d == 0 {
        '0'
    } else if d == 1 {
        '1'
    } else if d == 2 {
        '2'
    } else if d == 3 {
        '3'
    } else if d == 4 {
        '4'
    } else if d == 5 {
        '5'
    } else if d == 6 {
        '6'
    } else if d == 7 {
        '7'
    } else if d == 8 {
        '8'
    } else if d == 9 {
        '9'
    } else if d == 10 {
        'a'
    } else if d == 11 {
        'b'
    } else if d == 12 {
        'c'
    } else if d == 13 {
        'd'
    } else if d == 14 {
        'e'
    } else {
        'f'
    }
}

/// Lowercase hex encoding: two digits per byte, high nibble first.
pub open spec fn hex_of(b: Seq<u8>) -> Seq<char> {
    Seq::new(
        2 * b.len(),
        |i: int|
            if i % 2 == 0 {
                hex_digit(b[i / 2] / 16)
            } else {
                hex_digit(b[i / 2] % 16)
            },
    )
}

/// Relies on hex::encode: two lowercase hex digits per input byte, high
/// nibble first.
#[verifier::external_body]
fn hex_encode(b: &Vec<u8>) -> (r: String)
    ensures
        r@ == hex_of(b@),
{
    hex::encode(b.as_slice())
}

/// The UTF-8 bytes of the arguments joined, in order, with a comma.
pub open spec fn joined_args(args: Seq<Seq<char>>) -> Seq<u8>
    decreases args.len(),
{
    if args.len() == 0 {
        Seq::empty()
    } else if args.len() == 1 {
        vstd::utf8::encode_utf8(args[0])
    } else {
        joined_args(args.drop_last()) + seq![44u8] + vstd::utf8::encode_utf8(args.last())
    }
}

/// Joins the arguments with a comma, as bytes.
fn join_args(argv: &Vec<String>) -> (out: Vec<u8>)
    ensures
        out@ == joined_args(argv.deep_view()),
{
    let ghost all = argv.deep_view();
    let mut out: Vec<u8> = Vec::new();
    let n = argv.len();
    let mut i: usize = 0;
    while i < n
        invariant
            0 <= i <= n,
            n == argv@.len(),
            all == argv.deep_view(),
            out@ == joined_args(all.subrange(0, i as int)),
        decreases n - i,
    {
        if i > 0 {
            out.push(44);
        }
        out.extend_from_slice(argv[i].as_str().as_bytes());
        proof {
            let prefix = all.subrange(0, i + 1);
            assert(prefix.drop_last() =~= all.subrange(0, i as int));
            assert(prefix.last() == argv@[i as int]@);
            assert(prefix[0] == all[0]);
            if i > 0 {
                assert(out@ == joined_args(prefix.drop_last()) + seq![44u8]
                    + vstd::utf8::encode_utf8(prefix.last()));
            }
        }
        i = i + 1;
    }
    proof {
        assert(all.subrange(0, n as int) =~= all);
    }
    out
}

/// The argument fingerprint: lowercase hex of the SHA-256 digest of the
/// comma-joined argument list.
pub open spec fn argv_hash_spec(args: Seq<Seq<char>>) -> Seq<char> {
    hex_of(sha256_of(joined_args(args)))
}

/// Fingerprint determinism: the digest depends on the ordered argument
/// contents alone, so equal argument lists always fingerprint alike.
pub proof fn lemma_fingerprint_deterministic(a: Seq<Seq<char>>, b: Seq<Seq<char>>)
    requires
        a == b,
    ensures
        argv_hash_spec(a) == argv_hash_spec(b),
{
}

/// Computes the argument fingerprint of an ordered argument list.
///
/// Deterministic: the result is a function of the argument contents alone,
/// and the empty list fingerprints the empty string's digest.
pub fn compute_argv_hash(argv: &Vec<String>) -> (r: String)
    ensures
        r@ == argv_hash_spec(argv.deep_view()),
        r@.len() == 64,
{
    let joined = join_args(argv);
    let digest = sha256_digest(&joined);
    hex_encode(&digest)
}

/// The behavior key of one observation.
pub open spec fn behavior_key(
    id: u32,
    syscall: Seq<char>,
    target: Seq<char>,
    args: Seq<Seq<char>>,
) -> BehaviorKey {
    BehaviorKey { program_id: id, syscall, target, argv_hash: argv_hash_spec(args) }
}

/// Records one training observation: the behavior's count is created at 1
/// or incremented by 1, atomically, and the resulting count is returned.
///
/// The `programs` table is untouched. On a store error the behavior was
/// recorded at most once, never more.
pub fn insert_program(
    conn: &mut rusqlite::Connection,
    prog: &ProgramIdentity,
    syscall: &str,
    filename: &str,
    argv: &Vec<String>,
) -> (r: Result<u32, StoreError>)
    ensures
        programs_of(*final(conn)) == programs_of(*old(conn)),
        r is Ok && count_in_range(
            stored_count(
                behaviors_of(*old(conn)),
                behavior_key(prog.id, syscall@, filename@, argv.deep_view()),
            ),
        ) ==> behaviors_of(*final(conn)) == bump(
            behaviors_of(*old(conn)),
            behavior_key(prog.id, syscall@, filename@, argv.deep_view()),
        ) && r->Ok_0 as nat == stored_count(
            behaviors_of(*old(conn)),
            behavior_key(prog.id, syscall@, filename@, argv.deep_view()),
        ) + 1,
        r matches Ok(n) ==> n as nat == stored_count(
            behaviors_of(*final(conn)),
            behavior_key(prog.id, syscall@, filename@, argv.deep_view()),
        ),
        r is Err && count_in_range(
            stored_count(
                behaviors_of(*old(conn)),
                behavior_key(prog.id, syscall@, filename@, argv.deep_view()),
            ),
        ) ==> behaviors_of(*final(conn)) == behaviors_of(*old(conn)) || behaviors_of(*final(conn))
            == bump(
            behaviors_of(*old(conn)),
            behavior_key(prog.id, syscall@, filename@, argv.deep_view()),
        ),
{
    let argv_hash = compute_argv_hash(argv);
    if let Err(e) = upsert_behavior(conn, prog.id, syscall, filename, argv_hash.as_str()) {
        return Err(StoreError(e));
    }
    match query_behavior_count(conn, prog.id, syscall, filename, argv_hash.as_str()) {
        Ok(n) => Ok(n),
        Err(e) => Err(StoreError(e)),
    }
}

/// Reads the trained count of one behavior; a key that was never trained
/// reads as zero.
pub fn select_program_count(
    conn: &rusqlite::Connection,
    prog: &ProgramIdentity,
    syscall: &str,
    filename: &str,
    argv: &Vec<String>,
) -> (r: Result<u32, StoreError>)
    ensures
        r matches Ok(n) ==> n as nat == stored_count(
            behaviors_of(*conn),
            behavior_key(prog.id, syscall@, filename@, argv.deep_view()),
        ),
{
    let argv_hash = compute_argv_hash(argv);
    match query_behavior_count(conn, prog.id, syscall, filename, argv_hash.as_str()) {
        Ok(n) => Ok(n),
        Err(e) => Err(StoreError(e)),
    }
}

} // verus!
