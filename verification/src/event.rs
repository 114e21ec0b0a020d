//! Event records and their decoder.
//!
//! The kernel-side instrumentation writes fixed-layout records into a shared
//! ring buffer; this module turns such a byte record into a typed, owned
//! event. All multi-byte integers in a record are little-endian, string
//! fields are fixed-size zero-terminated buffers, and the leading 4-byte tag
//! selects the record kind.

use vstd::prelude::*;

verus! {

/// Most argument slots an exec record carries.
pub const MAX_ARGS: usize = 16;

/// Size of one argument slot in an exec record.
pub const MAX_ARG_LEN: usize = 96;

/// Size of the filename buffer in an exec or open record.
pub const MAX_PATH_LEN: usize = 256;

/// Total size of an exec record: tag (4) + pid (4) + filename (256)
/// + 16 argument slots of 96 bytes (1536) + argument count (4).
pub const EXEC_RECORD_LEN: usize = 1804;

/// Total size of an open record: tag (4) + pid (4) + filename (256).
pub const OPEN_RECORD_LEN: usize = 264;

/// Total size of a bind or connect record: tag (4) + pid (4) + address (16).
pub const SOCK_RECORD_LEN: usize = 24;

/// Kind of a raw record, as the producer tags it.
#[derive(Debug, Clone, Copy, PartialEq, Eq, Structural)]
pub enum EventType {
    Exec,
    Open,
    Bind,
    Connect,
}

/// The tag value that stands for each record kind at offset 0 of a record.
pub open spec fn spec_event_type_tag(t: EventType) -> u32 {
    match t {
        EventType::Exec => 1,
        EventType::Open => 2,
        EventType::Bind => 3,
        EventType::Connect => 4,
    }
}

/// Raw exec record, as laid out by the producer.
#[derive(Debug, Clone, Copy)]
pub struct ExecEvent {
    pub _type: EventType,
    pub pid: u32,
    pub filename: [u8; 256],
    pub args: [[u8; 96]; 16],
    pub argc: u32,
}

/// Raw open record, as laid out by the producer.
#[derive(Debug, Clone, Copy)]
pub struct OpenEvent {
    pub _type: EventType,
    pub pid: u32,
    pub filename: [u8; 256],
}

/// Raw bind record; only the first 4 address bytes are meaningful (IPv4).
#[derive(Debug, Clone, Copy)]
pub struct BindEvent {
    pub _type: EventType,
    pub pid: u32,
    pub ip: [u8; 16],
}

/// Raw connect record; only the first 4 address bytes are meaningful (IPv4).
#[derive(Debug, Clone, Copy)]
pub struct ConnectEvent {
    pub _type: EventType,
    pub pid: u32,
    pub ip: [u8; 16],
}

/// Decoded exec event with owned fields.
#[derive(Debug, Clone)]
pub struct RustExecEvent {
    pub pid: u32,
    pub filename: String,
    pub args: Vec<String>,
}

/// Decoded open event with owned fields.
#[derive(Debug, Clone)]
pub struct RustOpenEvent {
    pub pid: u32,
    pub filename: String,
}

/// Decoded bind event.
#[derive(Debug, Clone)]
pub struct RustBindEvent {
    pub pid: u32,
    pub ip: [u8; 16],
}

/// Decoded connect event.
#[derive(Debug, Clone)]
pub struct RustConnectEvent {
    pub pid: u32,
    pub ip: [u8; 16],
}

/// A decoded event: one of the four record kinds.
#[derive(Debug, Clone)]
pub enum RustEvent {
    Exec(RustExecEvent),
    Open(RustOpenEvent),
    Bind(RustBindEvent),
    Connect(RustConnectEvent),
}

/// Why a raw record failed to decode.
#[derive(Debug, Clone, Copy, PartialEq, Eq, Structural)]
pub enum DecodeError {
    /// Shorter than the 8 bytes needed for tag and pid.
    TooShort,
    /// The leading tag names no known record kind.
    UnknownKind,
    /// Shorter than the fixed size of the tagged record kind.
    TooShortForKind,
}

/// Mathematical form of an exec event.
#[verifier::ext_equal]
pub ghost struct ExecEventV {
    pub pid: u32,
    pub filename: Seq<char>,
    pub args: Seq<Seq<char>>,
}

/// Mathematical form of an open event.
#[verifier::ext_equal]
pub ghost struct OpenEventV {
    pub pid: u32,
    pub filename: Seq<char>,
}

/// Mathematical form of a bind or connect event.
#[verifier::ext_equal]
pub ghost struct SockEventV {
    pub pid: u32,
    pub ip: Seq<u8>,
}

/// Mathematical form of a decoded event.
#[verifier::ext_equal]
pub ghost enum EventV {
    Exec(ExecEventV),
    Open(OpenEventV),
    Bind(SockEventV),
    Connect(SockEventV),
}

impl View for RustExecEvent {
    type V = ExecEventV;

    open spec fn view(&self) -> ExecEventV {
        ExecEventV { pid: self.pid, filename: self.filename@, args: self.args.deep_view() }
    }
}

impl View for RustOpenEvent {
    type V = OpenEventV;

    open spec fn view(&self) -> OpenEventV {
        OpenEventV { pid: self.pid, filename: self.filename@ }
    }
}

impl View for RustBindEvent {
    type V = SockEventV;

    open spec fn view(&self) -> SockEventV {
        SockEventV { pid: self.pid, ip: self.ip@ }
    }
}

impl View for RustConnectEvent {
    type V = SockEventV;

    open spec fn view(&self) -> SockEventV {
        SockEventV { pid: self.pid, ip: self.ip@ }
    }
}

impl View for RustEvent {
    type V = EventV;

    open spec fn view(&self) -> EventV {
        match self {
            RustEvent::Exec(e) => EventV::Exec(e@),
            RustEvent::Open(e) => EventV::Open(e@),
            RustEvent::Bind(e) => EventV::Bind(e@),
            RustEvent::Connect(e) => EventV::Connect(e@),
        }
    }
}

/// Index of the first zero byte, or the length when none occurs.
pub open spec fn first_nul(b: Seq<u8>) -> int
    decreases b.len(),
{
    if b.len() == 0 {
        0
    } else if b[0] == 0 {
        0
    } else {
        1 + first_nul(b.subrange(1, b.len() as int))
    }
}

pub proof fn lemma_first_nul_bounds(b: Seq<u8>)
    ensures
        0 <= first_nul(b) <= b.len(),
        first_nul(b) < b.len() ==> b[first_nul(b)] == 0,
        forall|j: int| 0 <= j < first_nul(b) ==> b[j] != 0,
    decreases b.len(),
{
    if b.len() > 0 && b[0] != 0 {
        let tail = b.subrange(1, b.len() as int);
        lemma_first_nul_bounds(tail);
        assert forall|j: int| 0 <= j < first_nul(b) implies b[j] != 0 by {
            if j > 0 {
                assert(tail[j - 1] != 0);
            }
        }
    }
}

pub proof fn lemma_first_nul_is(b: Seq<u8>, i: int)
    requires
        0 <= i <= b.len(),
        forall|j: int| 0 <= j < i ==> b[j] != 0,
        i < b.len() ==> b[i] == 0,
    ensures
        first_nul(b) == i,
    decreases b.len(),
{
    if i > 0 {
        let tail = b.subrange(1, b.len() as int);
        assert(forall|j: int| 0 <= j < i - 1 ==> tail[j] == b[j + 1] && b[j + 1] != 0);
        lemma_first_nul_is(tail, i - 1);
    }
}

/// Index of the first zero byte in a slice, or the slice's length.
fn scan_nul(b: &[u8]) -> (i: usize)
    ensures
        i == first_nul(b@),
{
    let n = b.len();
    let mut i: usize = 0;
    while i < n
        invariant
            0 <= i <= n,
            n == b@.len(),
            forall|j: int| 0 <= j < i ==> b@[j] != 0,
        decreases n - i,
    {
        if *vstd::slice::slice_index_get(b, i) == 0 {
            proof {
                lemma_first_nul_is(b@, i as int);
            }
            return i;
        }
        i = i + 1;
    }
    proof {
        lemma_first_nul_is(b@, i as int);
    }
    i
}

/// The characters of a byte sequence when it is valid UTF-8, else nothing:
/// a malformed text field degrades to an empty string rather than failing
/// the whole record.
pub open spec fn str_or_empty(b: Seq<u8>) -> Seq<char> {
    if vstd::utf8::valid_utf8(b) {
        vstd::utf8::decode_utf8(b)
    } else {
        Seq::empty()
    }
}

/// Relies on core::str::from_utf8: it returns the string slice viewing
/// exactly the given bytes when they are valid UTF-8, and an error
/// otherwise.
#[verifier::external_body]
fn utf8_or_empty(b: &[u8]) -> (s: String)
    ensures
        s@ == str_or_empty(b@),
{
    match core::str::from_utf8(b) {
        Ok(s) => s.to_owned(),
        Err(_) => String::new(),
    }
}

/// Text carried by a fixed-size zero-terminated buffer: the bytes before
/// the first zero, decoded as UTF-8, or empty when malformed.
pub open spec fn field_str(b: Seq<u8>) -> Seq<char> {
    str_or_empty(b.subrange(0, first_nul(b)))
}

/// Decodes the zero-terminated text in `raw[off .. off + len]`.
fn read_field_str(raw: &[u8], off: usize, len: usize) -> (s: String)
    requires
        off + len <= raw@.len(),
    ensures
        s@ == field_str(raw@.subrange(off as int, off as int + len as int)),
{
    let _total = raw.len();
    let field = vstd::slice::slice_subrange(raw, off, off + len);
    let n = scan_nul(field);
    proof {
        lemma_first_nul_bounds(field@);
    }
    let prefix = vstd::slice::slice_subrange(field, 0, n);
    utf8_or_empty(prefix)
}

/// Number of argument slots the decoder reads: the record's own count,
/// clamped to the 16 slots a record physically has (the producer already
/// bounds the count at 16; a larger value is malformed and clamped).
pub open spec fn clamped_argc(argc: u32) -> int {
    if argc > 16 {
        16
    } else {
        argc as int
    }
}

/// The arguments carried by the argument region of an exec record.
pub open spec fn exec_args(raw: Seq<u8>, argc: u32) -> Seq<Seq<char>> {
    Seq::new(
        clamped_argc(argc) as nat,
        |i: int| field_str(raw.subrange(264 + 96 * i, 360 + 96 * i)),
    )
}

/// What decoding a raw record yields: the typed event, or the exact reason
/// the record is rejected. A record shorter than 8 bytes cannot even be
/// tagged; a known tag demands that kind's full fixed size.
pub open spec fn decode_spec(raw: Seq<u8>) -> Result<EventV, DecodeError> {
    if raw.len() < 8 {
        Err(DecodeError::TooShort)
    } else {
        let tag = vstd::bytes::spec_u32_from_le_bytes(raw.subrange(0, 4));
        let pid = vstd::bytes::spec_u32_from_le_bytes(raw.subrange(4, 8));
        if tag == spec_event_type_tag(EventType::Exec) {
            if raw.len() < EXEC_RECORD_LEN {
                Err(DecodeError::TooShortForKind)
            } else {
                let argc = vstd::bytes::spec_u32_from_le_bytes(raw.subrange(1800, 1804));
                Ok(
                    EventV::Exec(
                        ExecEventV {
                            pid,
                            filename: field_str(raw.subrange(8, 264)),
                            args: exec_args(raw, argc),
                        },
                    ),
                )
            }
        } else if tag == spec_event_type_tag(EventType::Open) {
            if raw.len() < OPEN_RECORD_LEN {
                Err(DecodeError::TooShortForKind)
            } else {
                Ok(EventV::Open(OpenEventV { pid, filename: field_str(raw.subrange(8, 264)) }))
            }
        } else if tag == spec_event_type_tag(EventType::Bind) {
            if raw.len() < SOCK_RECORD_LEN {
                Err(DecodeError::TooShortForKind)
            } else {
                Ok(EventV::Bind(SockEventV { pid, ip: raw.subrange(8, 24) }))
            }
        } else if tag == spec_event_type_tag(EventType::Connect) {
            if raw.len() < SOCK_RECORD_LEN {
                Err(DecodeError::TooShortForKind)
            } else {
                Ok(EventV::Connect(SockEventV { pid, ip: raw.subrange(8, 24) }))
            }
        } else {
            Err(DecodeError::UnknownKind)
        }
    }
}

/// Copies `raw[off .. off + 16]` into an owned address buffer.
fn read_ip(raw: &[u8], off: usize) -> (ip: [u8; 16])
    requires
        off + 16 <= raw@.len(),
    ensures
        ip@ == raw@.subrange(off as int, off as int + 16),
{
    let total = raw.len();
    let mut ip: [u8; 16] = [0; 16];
    let mut i: usize = 0;
    while i < 16
        invariant
            0 <= i <= 16,
            off + 16 <= total == raw@.len(),
            ip@.len() == 16,
            forall|j: int| 0 <= j < i ==> ip@[j] == raw@[off + j],
        decreases 16 - i,
    {
        ip[i] = *vstd::slice::slice_index_get(raw, off + i);
        i = i + 1;
    }
    proof {
        assert(ip@ =~= raw@.subrange(off as int, off as int + 16));
    }
    ip
}

/// Reads the little-endian `u32` at `raw[off .. off + 4]`.
fn read_u32_le(raw: &[u8], off: usize) -> (x: u32)
    requires
        off + 4 <= raw@.len(),
    ensures
        x == vstd::bytes::spec_u32_from_le_bytes(raw@.subrange(off as int, off as int + 4)),
{
    let _total = raw.len();
    vstd::bytes::u32_from_le_bytes(vstd::slice::slice_subrange(raw, off, off + 4))
}

/// Decodes one raw ring-buffer record into a typed event.
///
/// Succeeds exactly when `decode_spec` does, and returns the event or the
/// error that `decode_spec` names. The decoder never reads outside `raw`:
/// every access is bounds-checked against the record's length.
pub fn extract_event(raw: &[u8]) -> (r: Result<RustEvent, DecodeError>)
    ensures
        r is Ok <==> decode_spec(raw@) is Ok,
        r matches Ok(ev) ==> decode_spec(raw@) == Ok::<EventV, DecodeError>(ev@),
        r matches Err(e) ==> decode_spec(raw@) == Err::<EventV, DecodeError>(e),
{
    if raw.len() < 8 {
        return Err(DecodeError::TooShort);
    }
    let tag = read_u32_le(raw, 0);
    let pid = read_u32_le(raw, 4);
    if tag == 1 {
        if raw.len() < EXEC_RECORD_LEN {
            return Err(DecodeError::TooShortForKind);
        }
        let filename = read_field_str(raw, 8, MAX_PATH_LEN);
        let argc_raw = read_u32_le(raw, 1800);
        let argc: usize = if argc_raw > 16 {
            16
        } else {
            argc_raw as usize
        };
        let ghost all_args = exec_args(raw@, argc_raw);
        let mut args: Vec<String> = Vec::new();
        let mut i: usize = 0;
        while i < argc
            invariant
                0 <= i <= argc,
                argc == clamped_argc(argc_raw),
                raw@.len() >= EXEC_RECORD_LEN,
                all_args == exec_args(raw@, argc_raw),
                args.deep_view() =~= all_args.subrange(0, i as int),
            decreases argc - i,
        {
            let arg = read_field_str(raw, 264 + 96 * i, MAX_ARG_LEN);
            let ghost prev = args.deep_view();
            let ghost prev_seq = args@;
            args.push(arg);
            proof {
                assert(arg@ == all_args[i as int]);
                assert(args@ == prev_seq.push(arg));
                assert(prev.len() == prev_seq.len());
                assert(prev_seq.len() == i);
                assert forall|j: int| 0 <= j < args@.len() implies args.deep_view()[j]
                    == all_args.subrange(0, i + 1)[j] by {
                    assert(args.deep_view()[j] == args@[j].deep_view());
                    if j < i {
                        assert(prev_seq.push(arg)[j] == prev_seq[j]);
                        assert(prev[j] == prev_seq[j].deep_view());
                        assert(prev[j] == all_args.subrange(0, i as int)[j]);
                    } else {
                        assert(prev_seq.push(arg)[j] == arg);
                    }
                }
                assert(args.deep_view() =~= all_args.subrange(0, i + 1));
            }
            i = i + 1;
        }
        proof {
            assert(args.deep_view() =~= all_args);
        }
        Ok(RustEvent::Exec(RustExecEvent { pid, filename, args }))
    } else if tag == 2 {
        if raw.len() < OPEN_RECORD_LEN {
            return Err(DecodeError::TooShortForKind);
        }
        let filename = read_field_str(raw, 8, MAX_PATH_LEN);
        Ok(RustEvent::Open(RustOpenEvent { pid, filename }))
    } else if tag == 3 {
        if raw.len() < SOCK_RECORD_LEN {
            return Err(DecodeError::TooShortForKind);
        }
        let ip = read_ip(raw, 8);
        Ok(RustEvent::Bind(RustBindEvent { pid, ip }))
    } else if tag == 4 {
        if raw.len() < SOCK_RECORD_LEN {
            return Err(DecodeError::TooShortForKind);
        }
        let ip = read_ip(raw, 8);
        Ok(RustEvent::Connect(RustConnectEvent { pid, ip }))
    } else {
        Err(DecodeError::UnknownKind)
    }
}

/// The tags that name a record kind.
pub open spec fn valid_tag(tag: u32) -> bool {
    1 <= tag <= 4
}

/// Truncation safety: an input shorter than 8 bytes is rejected as too
/// short before anything beyond its length is interpreted, and an input
/// with an unrecognized tag is rejected as unknown.
pub proof fn lemma_decode_truncation(raw: Seq<u8>)
    ensures
        raw.len() < 8 ==> decode_spec(raw) == Err::<EventV, DecodeError>(DecodeError::TooShort),
        raw.len() >= 8 && !valid_tag(vstd::bytes::spec_u32_from_le_bytes(raw.subrange(0, 4)))
            ==> decode_spec(raw) == Err::<EventV, DecodeError>(DecodeError::UnknownKind),
{
}

/// An all-zero IPv4 address (in the first 4 bytes of the 16-byte field)
/// stands for "no address" and is ignored by every consumer.
pub open spec fn spec_is_zero_ip(ip: Seq<u8>) -> bool {
    ip[0] == 0 && ip[1] == 0 && ip[2] == 0 && ip[3] == 0
}

/// Whether the address field holds the all-zero placeholder.
pub fn is_zero_ip(ip: &[u8; 16]) -> (r: bool)
    ensures
        r == spec_is_zero_ip(ip@),
{
    ip[0] == 0 && ip[1] == 0 && ip[2] == 0 && ip[3] == 0
}

/// The character for one decimal digit.
pub open spec fn dec_digit(d: u8) -> char {
    if d == 0 {
        '0'
    } else if d == 1 {
        '1'
    } else if d == 2 {
        '2'
    } else if d == 3 {
        '3'
    } else if d == 4 {
        '4'
    } else if d == 5 {
        '5'
    } else if d == 6 {
        '6'
    } else if d == 7 {
        '7'
    } else if d == 8 {
        '8'
    } else {
        '9'
    }
}

/// Decimal representation of a byte, without leading zeros.
pub open spec fn dec_u8(n: u8) -> Seq<char> {
    if n < 10 {
        seq![dec_digit(n)]
    } else if n < 100 {
        seq![dec_digit(n / 10), dec_digit(n % 10)]
    } else {
        seq![dec_digit(n / 100), dec_digit((n / 10) % 10), dec_digit(n % 10)]
    }
}

/// Dotted-decimal text of the first four bytes of an address field.
pub open spec fn ip_str(ip: Seq<u8>) -> Seq<char> {
    dec_u8(ip[0]) + seq!['.'] + dec_u8(ip[1]) + seq!['.'] + dec_u8(ip[2]) + seq!['.'] + dec_u8(
        ip[3],
    )
}

/// One decimal digit as a string slice.
fn digit_str(d: u8) -> (r: &'static str)
    requires
        d < 10,
    ensures
        r@ =~= seq![dec_digit(d)],
{
    if d == 0 {
        proof {
            reveal_strlit("0");
        }
        "0"
    } else if d == 1 {
        proof {
            reveal_strlit("1");
        }
        "1"
    } else if d == 2 {
        proof {
            reveal_strlit("2");
        }
        "2"
    } else if d == 3 {
        proof {
            reveal_strlit("3");
        }
        "3"
    } else if d == 4 {
        proof {
            reveal_strlit("4");
        }
        "4"
    } else if d == 5 {
        proof {
            reveal_strlit("5");
        }
        "5"
    } else if d == 6 {
        proof {
            reveal_strlit("6");
        }
        "6"
    } else if d == 7 {
        proof {
            reveal_strlit("7");
        }
        "7"
    } else if d == 8 {
        proof {
            reveal_strlit("8");
        }
        "8"
    } else {
        proof {
            reveal_strlit("9");
        }
        "9"
    }
}

/// Decimal text of a byte.
fn u8_to_dec(n: u8) -> (s: String)
    ensures
        s@ =~= dec_u8(n),
{
    if n < 10 {
        String::from_str(digit_str(n))
    } else if n < 100 {
        let mut s = String::from_str(digit_str(n / 10));
        s.append(digit_str(n % 10));
        s
    } else {
        let mut s = String::from_str(digit_str(n / 100));
        s.append(digit_str((n / 10) % 10));
        s.append(digit_str(n % 10));
        s
    }
}

/// Formats the IPv4 address in an event's address field as dotted decimal.
pub fn format_ip(ip: &[u8; 16]) -> (s: String)
    ensures
        s@ == ip_str(ip@),
{
    proof {
        reveal_strlit(".");
    }
    let mut s = u8_to_dec(ip[0]);
    s.append(".");
    let d1 = u8_to_dec(ip[1]);
    s.append(d1.as_str());
    s.append(".");
    let d2 = u8_to_dec(ip[2]);
    s.append(d2.as_str());
    s.append(".");
    let d3 = u8_to_dec(ip[3]);
    s.append(d3.as_str());
    proof {
        assert(s@ =~= ip_str(ip@));
    }
    s
}

/// What rustifying a raw exec record yields.
pub open spec fn exec_event_view(e: ExecEvent) -> ExecEventV {
    ExecEventV {
        pid: e.pid,
        filename: field_str(e.filename@),
        args: Seq::new(clamped_argc(e.argc) as nat, |i: int| field_str(e.args@[i]@)),
    }
}

/// Converts a raw exec record into an owned event: the filename and each of
/// the first `argc` argument slots are cut at their first zero byte and
/// decoded as UTF-8 (malformed text degrades to an empty string).
pub fn rustify_exec_event(event: &ExecEvent) -> (r: RustExecEvent)
    ensures
        r@ =~~= exec_event_view(*event),
{
    let filename = read_field_str(vstd::array::array_as_slice(&event.filename), 0, MAX_PATH_LEN);
    proof {
        assert(event.filename@.subrange(0, 256) =~= event.filename@);
    }
    let argc: usize = if event.argc > 16 {
        16
    } else {
        event.argc as usize
    };
    let ghost all_args = exec_event_view(*event).args;
    let mut args: Vec<String> = Vec::new();
    let mut i: usize = 0;
    while i < argc
        invariant
            0 <= i <= argc,
            argc == clamped_argc(event.argc),
            all_args == exec_event_view(*event).args,
            args.deep_view() =~= all_args.subrange(0, i as int),
        decreases argc - i,
    {
        let slot = vstd::array::array_as_slice(vstd::array::array_index_get(&event.args, i));
        let arg = read_field_str(slot, 0, MAX_ARG_LEN);
        proof {
            assert(slot@.subrange(0, 96) =~= event.args@[i as int]@);
        }
        let ghost prev = args.deep_view();
        let ghost prev_seq = args@;
        args.push(arg);
        proof {
            assert(arg@ == all_args[i as int]);
            assert(args@ == prev_seq.push(arg));
            assert(prev.len() == prev_seq.len());
            assert(prev_seq.len() == i);
            assert forall|j: int| 0 <= j < args@.len() implies args.deep_view()[j]
                == all_args.subrange(0, i + 1)[j] by {
                assert(args.deep_view()[j] == args@[j].deep_view());
                if j < i {
                    assert(prev_seq.push(arg)[j] == prev_seq[j]);
                    assert(prev[j] == prev_seq[j].deep_view());
                    assert(prev[j] == all_args.subrange(0, i as int)[j]);
                } else {
                    assert(prev_seq.push(arg)[j] == arg);
                }
            }
            assert(args.deep_view() =~= all_args.subrange(0, i + 1));
        }
        i = i + 1;
    }
    proof {
        assert(args.deep_view() =~= all_args);
    }
    RustExecEvent { pid: event.pid, filename, args }
}

/// What rustifying a raw open record yields.
pub open spec fn open_event_view(e: OpenEvent) -> OpenEventV {
    OpenEventV { pid: e.pid, filename: field_str(e.filename@) }
}

/// Converts a raw open record into an owned event.
pub fn rustify_open_event(event: &OpenEvent) -> (r: RustOpenEvent)
    ensures
        r@ =~~= open_event_view(*event),
{
    let filename = read_field_str(vstd::array::array_as_slice(&event.filename), 0, MAX_PATH_LEN);
    proof {
        assert(event.filename@.subrange(0, 256) =~= event.filename@);
    }
    RustOpenEvent { pid: event.pid, filename }
}

/// Converts a raw bind record into an owned event.
pub fn rustify_bind_event(event: &BindEvent) -> (r: RustBindEvent)
    ensures
        r.pid == event.pid,
        r.ip@ == event.ip@,
{
    RustBindEvent { pid: event.pid, ip: event.ip }
}

/// Converts a raw connect record into an owned event.
pub fn rustify_connect_event(event: &ConnectEvent) -> (r: RustConnectEvent)
    ensures
        r.pid == event.pid,
        r.ip@ == event.ip@,
{
    RustConnectEvent { pid: event.pid, ip: event.ip }
}

/// A run of zero bytes.
pub open spec fn zeros(n: int) -> Seq<u8> {
    Seq::new(n as nat, |i: int| 0u8)
}

/// A string's UTF-8 bytes, zero-padded to a fixed buffer width.
pub open spec fn padded(s: Seq<char>, width: int) -> Seq<u8> {
    vstd::utf8::encode_utf8(s) + zeros(width - vstd::utf8::encode_utf8(s).len())
}

/// Whether a string survives a fixed-width zero-terminated buffer intact:
/// its UTF-8 bytes fit and none of them is zero.
pub open spec fn str_fits(s: Seq<char>, width: int) -> bool {
    &&& vstd::utf8::encode_utf8(s).len() <= width
    &&& forall|i: int|
        0 <= i < vstd::utf8::encode_utf8(s).len() ==> vstd::utf8::encode_utf8(s)[i] != 0
}

/// Lays a string into a fixed-width zero-padded buffer, or reports that it
/// cannot survive one (too long, or an interior zero byte).
fn field_block(s: &str, width: usize) -> (r: Option<Vec<u8>>)
    ensures
        r is Some <==> str_fits(s@, width as int),
        r matches Some(b) ==> b@.len() == width && b@ == padded(s@, width as int) && field_str(b@)
            == s@,
{
    let bytes = s.as_bytes();
    let n = bytes.len();
    proof {
        vstd::utf8::encode_utf8_valid_utf8(s@);
        vstd::utf8::encode_utf8_decode_utf8(s@);
    }
    if n > width {
        return None;
    }
    let z = scan_nul(bytes);
    proof {
        lemma_first_nul_bounds(bytes@);
    }
    if z < n {
        return None;
    }
    let mut out: Vec<u8> = Vec::new();
    out.extend_from_slice(bytes);
    let mut i = n;
    while i < width
        invariant
            n <= i <= width,
            out@.len() == i,
            out@.subrange(0, n as int) =~= bytes@,
            forall|j: int| n <= j < i ==> out@[j] == 0,
        decreases width - i,
    {
        out.push(0);
        i = i + 1;
    }
    proof {
        assert(out@ =~= padded(s@, width as int));
        lemma_first_nul_is(out@, n as int);
        assert(out@.subrange(0, first_nul(out@)) =~= bytes@);
    }
    Some(out)
}

/// Whether an event can be laid back out as a raw record: every string
/// field fits its fixed buffer and the argument count fits its slots. An
/// address field always fits.
pub open spec fn event_encodable(ev: EventV) -> bool {
    match ev {
        EventV::Exec(x) => {
            &&& x.args.len() <= 16
            &&& str_fits(x.filename, 256)
            &&& forall|i: int| 0 <= i < x.args.len() ==> str_fits(#[trigger] x.args[i], 96)
        },
        EventV::Open(x) => str_fits(x.filename, 256),
        EventV::Bind(_) => true,
        EventV::Connect(_) => true,
    }
}

/// The text a fixed-size buffer carries always survives a buffer of the
/// same width: its UTF-8 bytes are the buffer's nul-free prefix.
proof fn lemma_field_str_fits(b: Seq<u8>, width: int)
    requires
        b.len() <= width,
    ensures
        str_fits(field_str(b), width),
{
    lemma_first_nul_bounds(b);
    let prefix = b.subrange(0, first_nul(b));
    if vstd::utf8::valid_utf8(prefix) {
        vstd::utf8::decode_utf8_encode_utf8(prefix);
        assert(vstd::utf8::encode_utf8(field_str(b)) == prefix);
    } else {
        assert(field_str(b) == Seq::<char>::empty());
        assert(vstd::utf8::encode_utf8(Seq::<char>::empty()) =~= Seq::<u8>::empty());
    }
}

/// Round-trip completeness: every event a record decodes to can be laid
/// back out as a record (and then, by `encode_event`'s contract, decodes
/// to the same logical fields again).
pub proof fn lemma_decoded_is_encodable(raw: Seq<u8>)
    ensures
        decode_spec(raw) matches Ok(ev) ==> event_encodable(ev),
{
    if decode_spec(raw) is Ok {
        let tag = vstd::bytes::spec_u32_from_le_bytes(raw.subrange(0, 4));
        if tag == 1 {
            lemma_field_str_fits(raw.subrange(8, 264), 256);
            let argc = vstd::bytes::spec_u32_from_le_bytes(raw.subrange(1800, 1804));
            assert forall|i: int| 0 <= i < clamped_argc(argc) implies str_fits(
                #[trigger] exec_args(raw, argc)[i],
                96,
            ) by {
                lemma_field_str_fits(raw.subrange(264 + 96 * i, 360 + 96 * i), 96);
            }
        } else if tag == 2 {
            lemma_field_str_fits(raw.subrange(8, 264), 256);
        }
    }
}

proof fn lemma_subrange_of_extend(a: Seq<u8>, b: Seq<u8>, lo: int, hi: int)
    requires
        0 <= lo <= hi <= a.len(),
    ensures
        (a + b).subrange(lo, hi) == a.subrange(lo, hi),
{
    assert((a + b).subrange(lo, hi) =~= a.subrange(lo, hi));
}

/// Appends a block to the record under construction.
fn push_block(out: &mut Vec<u8>, block: Vec<u8>)
    ensures
        final(out)@ == old(out)@ + block@,
{
    let mut b = block;
    out.append(&mut b);
}

/// A zero-filled block.
fn zero_block(width: usize) -> (r: Vec<u8>)
    ensures
        r@ =~= zeros(width as int),
{
    let r: Vec<u8> = vec![0u8; width];
    proof {
        assert(r@ =~= zeros(width as int));
    }
    r
}

/// Little-endian bytes of a `u32`, as a block.
fn u32_block(x: u32) -> (r: Vec<u8>)
    ensures
        r@ == vstd::bytes::spec_u32_to_le_bytes(x),
        r@.len() == 4,
        vstd::bytes::spec_u32_from_le_bytes(r@) == x,
{
    proof {
        vstd::bytes::lemma_auto_spec_u32_to_from_le_bytes();
    }
    vstd::bytes::u32_to_le_bytes(x)
}

/// Lays a decoded event back out as a raw record.
///
/// Succeeds exactly when every field survives its fixed-size buffer, and
/// then decoding the produced record yields the given event again: the
/// decode/encode round trip is exact for every event a record can carry.
pub fn encode_event(e: &RustEvent) -> (r: Option<Vec<u8>>)
    ensures
        r is Some <==> event_encodable(e@),
        r matches Some(b) ==> decode_spec(b@) == Ok::<EventV, DecodeError>(e@),
{
    match e {
        RustEvent::Exec(x) => encode_exec(x),
        RustEvent::Open(x) => {
            let fb = match field_block(x.filename.as_str(), MAX_PATH_LEN) {
                Some(b) => b,
                None => {
                    return None;
                },
            };
            let ghost fbs = fb@;
            let mut out = u32_block(2);
            push_block(&mut out, u32_block(x.pid));
            push_block(&mut out, fb);
            proof {
                assert(out@.len() == OPEN_RECORD_LEN);
                assert(out@.subrange(0, 4) =~= vstd::bytes::spec_u32_to_le_bytes(2));
                assert(out@.subrange(4, 8) =~= vstd::bytes::spec_u32_to_le_bytes(x.pid));
                assert(out@.subrange(8, 264) =~= fbs);
                vstd::bytes::lemma_auto_spec_u32_to_from_le_bytes();
                assert(decode_spec(out@) is Ok);
                assert(decode_spec(out@)->Ok_0 =~~= e@);
            }
            Some(out)
        },
        RustEvent::Bind(x) => {
            let mut out = u32_block(3);
            push_block(&mut out, u32_block(x.pid));
            let mut ip: Vec<u8> = Vec::new();
            ip.extend_from_slice(vstd::array::array_as_slice(&x.ip));
            let ghost ips = ip@;
            push_block(&mut out, ip);
            proof {
                assert(out@.len() == SOCK_RECORD_LEN);
                assert(out@.subrange(0, 4) =~= vstd::bytes::spec_u32_to_le_bytes(3));
                assert(out@.subrange(4, 8) =~= vstd::bytes::spec_u32_to_le_bytes(x.pid));
                assert(out@.subrange(8, 24) =~= ips);
                assert(ips =~= x.ip@);
                vstd::bytes::lemma_auto_spec_u32_to_from_le_bytes();
                assert(decode_spec(out@) is Ok);
                assert(decode_spec(out@)->Ok_0 =~~= e@);
            }
            Some(out)
        },
        RustEvent::Connect(x) => {
            let mut out = u32_block(4);
            push_block(&mut out, u32_block(x.pid));
            let mut ip: Vec<u8> = Vec::new();
            ip.extend_from_slice(vstd::array::array_as_slice(&x.ip));
            let ghost ips = ip@;
            push_block(&mut out, ip);
            proof {
                assert(out@.len() == SOCK_RECORD_LEN);
                assert(out@.subrange(0, 4) =~= vstd::bytes::spec_u32_to_le_bytes(4));
                assert(out@.subrange(4, 8) =~= vstd::bytes::spec_u32_to_le_bytes(x.pid));
                assert(out@.subrange(8, 24) =~= ips);
                assert(ips =~= x.ip@);
                vstd::bytes::lemma_auto_spec_u32_to_from_le_bytes();
                assert(decode_spec(out@) is Ok);
                assert(decode_spec(out@)->Ok_0 =~~= e@);
            }
            Some(out)
        },
    }
}

/// Exec-record half of `encode_event`.
fn encode_exec(x: &RustExecEvent) -> (r: Option<Vec<u8>>)
    ensures
        r is Some <==> event_encodable(EventV::Exec(x@)),
        r matches Some(b) ==> decode_spec(b@) == Ok::<EventV, DecodeError>(EventV::Exec(x@)),
{
    let argc = x.args.len();
    if argc > MAX_ARGS {
        return None;
    }
    let fb = match field_block(x.filename.as_str(), MAX_PATH_LEN) {
        Some(b) => b,
        None => {
            return None;
        },
    };
    let ghost fbs = fb@;
    let mut out = u32_block(1);
    push_block(&mut out, u32_block(x.pid));
    push_block(&mut out, fb);
    proof {
        assert(out@.len() == 264);
        assert(out@.subrange(0, 4) =~= vstd::bytes::spec_u32_to_le_bytes(1));
        assert(out@.subrange(4, 8) =~= vstd::bytes::spec_u32_to_le_bytes(x.pid));
        assert(out@.subrange(8, 264) =~= fbs);
    }
    let mut i: usize = 0;
    while i < MAX_ARGS
        invariant
            0 <= i <= 16,
            argc == x.args@.len() <= 16,
            out@.len() == 264 + 96 * i,
            out@.subrange(0, 4) == vstd::bytes::spec_u32_to_le_bytes(1),
            out@.subrange(4, 8) == vstd::bytes::spec_u32_to_le_bytes(x.pid),
            out@.subrange(8, 264) == fbs,
            fbs.len() == 256 && field_str(fbs) == x.filename@,
            forall|j: int|
                0 <= j < i && j < argc ==> field_str(
                    #[trigger] out@.subrange(264 + 96 * j, 360 + 96 * j),
                ) == x.args@[j]@,
            forall|j: int| 0 <= j < i && j < argc ==> str_fits(#[trigger] x@.args[j], 96),
        decreases 16 - i,
    {
        let ghost before = out@;
        if i < argc {
            proof {
                assert(x@.args[i as int] == x.args@[i as int]@);
            }
            let ab = match field_block(x.args[i].as_str(), MAX_ARG_LEN) {
                Some(b) => b,
                None => {
                    proof {
                        assert(!str_fits(x@.args[i as int], 96));
                    }
                    return None;
                },
            };
            let ghost abs = ab@;
            push_block(&mut out, ab);
            proof {
                assert(out@ == before + abs);
                assert(out@.subrange(264 + 96 * i, 360 + 96 * i) =~= abs);
            }
        } else {
            let zb = zero_block(MAX_ARG_LEN);
            push_block(&mut out, zb);
        }
        proof {
            lemma_subrange_of_extend(before, out@.subrange(before.len() as int, out@.len() as int), 0, 4);
            assert(out@ =~= before + out@.subrange(before.len() as int, out@.len() as int));
            lemma_subrange_of_extend(before, out@.subrange(before.len() as int, out@.len() as int), 4, 8);
            lemma_subrange_of_extend(before, out@.subrange(before.len() as int, out@.len() as int), 8, 264);
            assert forall|j: int| 0 <= j < i + 1 && j < argc implies field_str(
                #[trigger] out@.subrange(264 + 96 * j, 360 + 96 * j),
            ) == x.args@[j]@ by {
                if j < i {
                    lemma_subrange_of_extend(
                        before,
                        out@.subrange(before.len() as int, out@.len() as int),
                        264 + 96 * j,
                        360 + 96 * j,
                    );
                }
            }
        }
        i = i + 1;
    }
    let ghost body = out@;
    push_block(&mut out, u32_block(argc as u32));
    proof {
        let tail = out@.subrange(body.len() as int, out@.len() as int);
        assert(out@ =~= body + tail);
        assert(out@.len() == EXEC_RECORD_LEN);
        lemma_subrange_of_extend(body, tail, 0, 4);
        lemma_subrange_of_extend(body, tail, 4, 8);
        lemma_subrange_of_extend(body, tail, 8, 264);
        assert(out@.subrange(1800, 1804) =~= vstd::bytes::spec_u32_to_le_bytes(argc as u32));
        vstd::bytes::lemma_auto_spec_u32_to_from_le_bytes();
        let dec_argc = vstd::bytes::spec_u32_from_le_bytes(out@.subrange(1800, 1804));
        assert(dec_argc == argc as u32);
        assert(clamped_argc(dec_argc) == argc as int);
        assert forall|j: int| 0 <= j < argc implies exec_args(out@, dec_argc)[j] == x.args@[j]@ by {
            lemma_subrange_of_extend(body, tail, 264 + 96 * j, 360 + 96 * j);
            assert(field_str(body.subrange(264 + 96 * j, 360 + 96 * j)) == x.args@[j]@);
        }
        assert(exec_args(out@, dec_argc) =~~= x@.args);
        assert(decode_spec(out@) is Ok);
        assert(decode_spec(out@)->Ok_0 =~~= EventV::Exec(x@));
    }
    Some(out)
}

} // verus!
