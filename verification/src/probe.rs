//! Probes: small exchanges that test a connection.
use crate::bytes::{put_bytes, put_u32, split_bytes, split_u32, Reader};
use crate::frame::framed;
use vstd::prelude::*;
use vstd::string::StringExecFns;

verus! {

/// The longest probe header.
pub const MAX_HEADER: usize = 4096;

/// The most that a probe may transfer.
pub const MAX_TRANSFER: u64 = 268_435_456;

/// The version of the header.
pub const SCHEMA_VERSION: u16 = 1;

/// The longest pause of a slow reader.
pub const MAX_SLOW_DELAY_MS: u32 = 1_000;

/// The most that a slow reader takes at a time.
pub const MAX_SLOW_CHUNK_SIZE: u32 = 32_768;

/// How a probe ended.
#[derive(Clone, Copy, Debug, PartialEq, Eq, Structural)]
pub enum ProbeTerminal {
    Success,
    Oversize,
    Malformed,
    Truncated,
    Timeout,
    Io,
    HashMismatch,
    EofMismatch,
    AdmissionRejected,
}

/// The kind of connection that a probe went over.
#[derive(Clone, Copy, Debug, PartialEq, Eq, Structural)]
pub enum ProbePath {
    Direct,
    Relay,
}

#[derive(Clone, Copy, Debug, PartialEq, Eq, Structural)]
pub enum ProbeMode {
    NonceEcho,
    HalfClose,
    SlowReader,
}

/// What a probe asks for.
#[derive(Clone, Copy, Debug, PartialEq, Eq, Structural)]
pub struct ProbeHeader {
    pub schema_version: u16,
    pub request_id: u64,
    pub mode: ProbeMode,
    pub nonce: u64,
    pub length: u64,
    pub slow_delay_ms: u32,
    pub slow_chunk_size: u32,
}

impl ProbeHeader {
    /// Whether the header is sent back before anything else.
    pub fn is_echoed(&self) -> (r: bool)
        ensures
            r == (self.mode == ProbeMode::NonceEcho),
    {
        self.mode == ProbeMode::NonceEcho
    }
}

/// What came of a probe.
#[derive(Clone, Copy, Debug, PartialEq, Eq, Structural)]
pub struct ProbeAck {
    pub schema_version: u16,
    pub nonce: u64,
    pub request_id: u64,
    pub path: ProbePath,
    pub connection_id_hash: u64,
    pub bytes_read: u64,
    pub bytes_written: u64,
    pub read_hash: u64,
    pub write_hash: u64,
    pub half_close: bool,
    pub terminal: ProbeTerminal,
}

#[derive(Debug, PartialEq, Eq)]
pub enum ProbeError {
    TooLarge,
    Truncated,
    Timeout,
    Invalid(String),
    Io(String),
    HashMismatch,
    EofMismatch,
    AdmissionRejected,
}

/// How a probe with an error ended.
pub open spec fn terminal_of(error: ProbeError) -> ProbeTerminal {
    match error {
        ProbeError::TooLarge => ProbeTerminal::Oversize,
        ProbeError::Truncated => ProbeTerminal::Truncated,
        ProbeError::Timeout => ProbeTerminal::Timeout,
        ProbeError::Invalid(_) => ProbeTerminal::Malformed,
        ProbeError::Io(_) => ProbeTerminal::Io,
        ProbeError::HashMismatch => ProbeTerminal::HashMismatch,
        ProbeError::EofMismatch => ProbeTerminal::EofMismatch,
        ProbeError::AdmissionRejected => ProbeTerminal::AdmissionRejected,
    }
}

impl ProbeError {
    /// How a probe with this error ended.
    pub fn terminal(&self) -> (r: ProbeTerminal)
        ensures
            r == terminal_of(*self),
    {
        match self {
            ProbeError::TooLarge => ProbeTerminal::Oversize,
            ProbeError::Truncated => ProbeTerminal::Truncated,
            ProbeError::Timeout => ProbeTerminal::Timeout,
            ProbeError::Invalid(_) => ProbeTerminal::Malformed,
            ProbeError::Io(_) => ProbeTerminal::Io,
            ProbeError::HashMismatch => ProbeTerminal::HashMismatch,
            ProbeError::EofMismatch => ProbeTerminal::EofMismatch,
            ProbeError::AdmissionRejected => ProbeTerminal::AdmissionRejected,
        }
    }
}

/// What is wrong with a header, if anything.
pub open spec fn header_fault(h: ProbeHeader) -> Option<Seq<char>> {
    let slow = h.mode == ProbeMode::SlowReader;
    if h.schema_version != SCHEMA_VERSION {
        Some("unsupported schema version"@)
    } else if h.length > MAX_TRANSFER {
        Some("length exceeds configured transfer limit"@)
    } else if !slow && (h.slow_delay_ms != 0 || h.slow_chunk_size != 0) {
        Some("slow-reader options require slow_reader mode"@)
    } else if slow && (h.slow_chunk_size == 0 || h.slow_chunk_size > MAX_SLOW_CHUNK_SIZE) {
        Some("invalid slow-reader chunk size"@)
    } else if h.slow_delay_ms > MAX_SLOW_DELAY_MS {
        Some("slow-reader delay exceeds profile cap"@)
    } else if h.mode == ProbeMode::NonceEcho && h.length != 0 {
        Some("nonce-echo length must be zero"@)
    } else {
        None
    }
}

/// Whether a result says that a header is invalid for the given reason.
pub open spec fn says_invalid(r: Result<ProbeHeader, ProbeError>, reason: Seq<char>) -> bool {
    r matches Err(ProbeError::Invalid(message)) && message@ == reason
}

fn invalid(reason: &str) -> (r: Result<ProbeHeader, ProbeError>)
    ensures
        says_invalid(r, reason@),
{
    Err(ProbeError::Invalid(String::from_str(reason)))
}

/// The header in the given bytes. `parsed` is what a parser made of them: the
/// fields, or the reason why there are none.
pub fn decode_header(bytes: &[u8], parsed: Result<ProbeHeader, String>) -> (r: Result<
    ProbeHeader,
    ProbeError,
>)
    ensures
        if bytes@.len() > MAX_HEADER {
            r == Err::<ProbeHeader, ProbeError>(ProbeError::TooLarge)
        } else {
            match parsed {
                Err(reason) => says_invalid(r, reason@),
                Ok(header) => match header_fault(header) {
                    Some(reason) => says_invalid(r, reason),
                    None => r == Ok::<ProbeHeader, ProbeError>(header),
                },
            }
        },
{
    if bytes.len() > MAX_HEADER {
        return Err(ProbeError::TooLarge);
    }
    let header = match parsed {
        Ok(header) => header,
        Err(reason) => return Err(ProbeError::Invalid(reason)),
    };
    let slow = header.mode == ProbeMode::SlowReader;
    if header.schema_version != SCHEMA_VERSION {
        return invalid("unsupported schema version");
    }
    if header.length > MAX_TRANSFER {
        return invalid("length exceeds configured transfer limit");
    }
    if !slow && (header.slow_delay_ms != 0 || header.slow_chunk_size != 0) {
        return invalid("slow-reader options require slow_reader mode");
    }
    if slow && (header.slow_chunk_size == 0 || header.slow_chunk_size > MAX_SLOW_CHUNK_SIZE) {
        return invalid("invalid slow-reader chunk size");
    }
    if header.slow_delay_ms > MAX_SLOW_DELAY_MS {
        return invalid("slow-reader delay exceeds profile cap");
    }
    if header.mode == ProbeMode::NonceEcho && header.length != 0 {
        return invalid("nonce-echo length must be zero");
    }
    Ok(header)
}

/// What becomes of bytes that should start with a frame. Unlike other frames
/// one of a probe may be empty.
pub open spec fn unframed(s: Seq<u8>) -> Result<(Seq<u8>, Seq<u8>), ProbeError> {
    match split_u32(s) {
        None => Err(ProbeError::Truncated),
        Some((n, rest)) => if n > MAX_HEADER {
            Err(ProbeError::TooLarge)
        } else {
            match split_bytes(rest, n as int) {
                Some((body, rest)) => Ok((body, rest)),
                None => Err(ProbeError::Truncated),
            }
        },
    }
}

/// A frame that was written is read back, whatever follows it.
pub proof fn law_frame_round_trip(body: Seq<u8>, rest: Seq<u8>)
    requires
        body.len() <= MAX_HEADER,
    ensures
        unframed(framed(body) + rest) == Ok::<(Seq<u8>, Seq<u8>), ProbeError>((body, rest)),
{
    let n: u32 = body.len() as u32;
    crate::bytes::lemma_add_assoc(crate::bytes::be32(n), body, rest);
    crate::bytes::lemma_split_u32(n, body + rest);
    crate::bytes::lemma_split_bytes(body, rest);
}

/// The length of the body that a frame announces.
pub fn frame_length(announced: u32) -> (r: Result<usize, ProbeError>)
    ensures
        if announced > MAX_HEADER {
            r == Err::<usize, ProbeError>(ProbeError::TooLarge)
        } else {
            r matches Ok(length) && length == announced
        },
{
    let length: usize = announced as usize;
    if length > MAX_HEADER {
        return Err(ProbeError::TooLarge);
    }
    Ok(length)
}

/// Reads a frame.
pub fn read_frame(reader: &mut Reader<'_>) -> (r: Result<Vec<u8>, ProbeError>)
    ensures
        match unframed(old(reader)@) {
            Ok((body, rest)) => r matches Ok(b) && b@ == body && final(reader)@ == rest,
            Err(error) => r == Err::<Vec<u8>, ProbeError>(error),
        },
{
    let announced: u32 = match reader.u32() {
        Some(n) => n,
        None => return Err(ProbeError::Truncated),
    };
    let length: usize = match frame_length(announced) {
        Ok(length) => length,
        Err(error) => return Err(error),
    };
    match reader.take(length) {
        Some(body) => Ok(vstd::slice::slice_to_vec(body)),
        None => Err(ProbeError::Truncated),
    }
}

/// Writes a frame.
pub fn write_frame(out: &mut Vec<u8>, body: &[u8]) -> (r: Result<(), ProbeError>)
    ensures
        if body@.len() > MAX_HEADER {
            r == Err::<(), ProbeError>(ProbeError::TooLarge) && final(out)@ == old(out)@
        } else {
            r is Ok && final(out)@ == old(out)@ + framed(body@)
        },
{
    if body.len() > MAX_HEADER {
        return Err(ProbeError::TooLarge);
    }
    let ghost before = out@;
    put_u32(out, body.len() as u32);
    put_bytes(out, body);
    proof {
        crate::bytes::lemma_add_assoc(before, crate::bytes::be32(body@.len() as u32), body@);
    }
    Ok(())
}

/// The byte at a place of the test pattern.
pub open spec fn pattern_at(offset: int) -> u8 {
    (offset % 251) as u8
}

/// The byte at a place of the test pattern.
pub fn pattern_byte(offset: u64) -> (r: u8)
    ensures
        r == pattern_at(offset as int),
{
    (offset % 251) as u8
}

/// The first value of the hash.
pub const HASH_SEED: u64 = 1469598103934665603;

/// The factor of the hash.
pub const HASH_PRIME: u64 = 1099511628211;

/// A hash with one byte more.
pub open spec fn hash_step(hash: u64, byte: u8) -> u64 {
    (hash ^ (byte as u64)).wrapping_mul(HASH_PRIME)
}

/// The hash of the first bytes of the test pattern.
pub open spec fn hash_of_pattern(length: nat) -> u64
    decreases length,
{
    if length == 0 {
        HASH_SEED
    } else {
        hash_step(hash_of_pattern((length - 1) as nat), pattern_at(length - 1))
    }
}

/// The hash of the first bytes of the test pattern.
pub fn pattern_hash(length: u64) -> (r: u64)
    ensures
        r == hash_of_pattern(length as nat),
{
    let mut hash: u64 = HASH_SEED;
    let mut offset: u64 = 0;
    while offset < length
        invariant
            offset <= length,
            hash == hash_of_pattern(offset as nat),
        decreases length - offset,
    {
        let byte: u8 = pattern_byte(offset);
        hash = (hash ^ (byte as u64)).wrapping_mul(HASH_PRIME);
        offset = offset + 1;
    }
    hash
}

/// How much of the test pattern is written at a time.
pub const BUFFER_SIZE: usize = 32_768;

/// The next piece of the test pattern: what is left from `offset` to `length`,
/// at most one buffer.
pub fn pattern_chunk(offset: u64, length: u64) -> (r: Vec<u8>)
    requires
        offset <= length,
    ensures
        r@.len() == if length - offset < BUFFER_SIZE {
            length - offset
        } else {
            BUFFER_SIZE as int
        },
        forall|i: int| 0 <= i < r@.len() ==> #[trigger] r@[i] == pattern_at(offset + i),
{
    let left: u64 = length - offset;
    let count: usize = if left < BUFFER_SIZE as u64 {
        left as usize
    } else {
        BUFFER_SIZE
    };
    let mut chunk: Vec<u8> = Vec::new();
    let mut i: usize = 0;
    while i < count
        invariant
            i <= count,
            count <= length - offset,
            offset <= length,
            chunk@.len() == i,
            forall|j: int| 0 <= j < i ==> #[trigger] chunk@[j] == pattern_at(offset + j),
        decreases count - i,
    {
        chunk.push(pattern_byte(offset + i as u64));
        i = i + 1;
    }
    chunk
}

/// The pattern repeats itself.
pub proof fn law_pattern_repeats(offset: int)
    requires
        offset >= 0,
    ensures
        pattern_at(offset + 251) == pattern_at(offset),
{
}

/// A header is accepted if it is of the known version, asks for a quarter of a
/// gibibyte at most, and keeps to its mode: only a slow reader has pace, at most a
/// second and a buffer, and an echo has no length. What it is refused for comes in
/// that order.
pub proof fn law_headers_keep_to_their_mode(h: ProbeHeader)
    ensures
        ({
            let slow = h.mode is SlowReader;
            let known = h.schema_version == 1;
            let short = h.length <= 256 * 1024 * 1024;
            let unpaced = h.slow_delay_ms == 0 && h.slow_chunk_size == 0;
            let sized = 1 <= h.slow_chunk_size <= 32 * 1024;
            let fault = header_fault(h);
            &&& !known ==> fault == Some("unsupported schema version"@)
            &&& known && !short ==> fault == Some("length exceeds configured transfer limit"@)
            &&& known && short && !slow && !unpaced ==> fault == Some(
                "slow-reader options require slow_reader mode"@,
            )
            &&& known && short && slow && !sized ==> fault == Some("invalid slow-reader chunk size"@)
            &&& known && short && slow && sized && h.slow_delay_ms > 1000 ==> fault == Some(
                "slow-reader delay exceeds profile cap"@,
            )
            &&& known && short && unpaced && h.mode is NonceEcho && h.length > 0 ==> fault == Some(
                "nonce-echo length must be zero"@,
            )
            &&& fault is None <==> known && short && (slow && sized && h.slow_delay_ms <= 1000 || !slow
                && unpaced && (h.mode is NonceEcho ==> h.length == 0))
        }),
{
}

/// A header longer than four kibibytes is not looked at; any other is what the
/// parser made of it, if it is in order.
pub proof fn law_long_headers_are_refused(
    bytes: &[u8],
    parsed: Result<ProbeHeader, String>,
    r: Result<ProbeHeader, ProbeError>,
)
    requires
        call_ensures(decode_header, (bytes, parsed), r),
    ensures
        r == Err::<ProbeHeader, ProbeError>(ProbeError::TooLarge) <==> bytes@.len() > 4096,
        r is Ok <==> bytes@.len() <= 4096 && parsed is Ok && header_fault(parsed->Ok_0) is None,
        r is Ok ==> r->Ok_0 == parsed->Ok_0,
        bytes@.len() <= 4096 && parsed is Err ==> (r matches Err(ProbeError::Invalid(message)) && message@
            == parsed->Err_0@),
{
}

/// Each error ends a probe in its own way, and none ends it well.
pub proof fn law_errors_end_probes_in_their_own_way(a: ProbeError, b: ProbeError)
    ensures
        terminal_of(a) != ProbeTerminal::Success,
        terminal_of(a) == ProbeTerminal::Oversize <==> a is TooLarge,
        terminal_of(a) == ProbeTerminal::Malformed <==> a is Invalid,
        terminal_of(a) == ProbeTerminal::Truncated <==> a is Truncated,
        terminal_of(a) == ProbeTerminal::Timeout <==> a is Timeout,
        terminal_of(a) == ProbeTerminal::Io <==> a is Io,
        terminal_of(a) == ProbeTerminal::HashMismatch <==> a is HashMismatch,
        terminal_of(a) == ProbeTerminal::EofMismatch <==> a is EofMismatch,
        terminal_of(a) == ProbeTerminal::AdmissionRejected <==> a is AdmissionRejected,
{
}

/// A frame of a probe is read as far as its length goes, which may be zero, unless
/// it is longer than four kibibytes or the bytes end before.
pub proof fn law_probe_frames_are_read_as_announced(s: Seq<u8>)
    ensures
        s.len() < 4 ==> unframed(s) == Err::<(Seq<u8>, Seq<u8>), ProbeError>(ProbeError::Truncated),
        s.len() >= 4 ==> ({
            let n = s[0] * 0x100_0000 + s[1] * 0x1_0000 + s[2] * 0x100 + s[3];
            &&& n > 4096 ==> unframed(s) == Err::<(Seq<u8>, Seq<u8>), ProbeError>(ProbeError::TooLarge)
            &&& n <= 4096 && s.len() < 4 + n ==> unframed(s) == Err::<(Seq<u8>, Seq<u8>), ProbeError>(
                ProbeError::Truncated,
            )
            &&& n <= 4096 && s.len() >= 4 + n ==> unframed(s) == Ok::<(Seq<u8>, Seq<u8>), ProbeError>(
                (s.subrange(4, 4 + n), s.subrange(4 + n, s.len() as int)),
            )
        }),
{
    crate::bytes::law_numbers_are_read_from_the_top(s);
    if s.len() >= 4 {
        let n = s[0] * 0x100_0000 + s[1] * 0x1_0000 + s[2] * 0x100 + s[3];
        let tail = s.subrange(4, s.len() as int);
        if s.len() >= 4 + n {
            assert(tail.subrange(0, n) =~= s.subrange(4, 4 + n));
            assert(tail.subrange(n, tail.len() as int) =~= s.subrange(4 + n, s.len() as int));
        }
    }
}

/// The length that a frame of a probe announces is taken up to four kibibytes.
pub proof fn law_probe_frames_are_bounded(announced: u32, r: Result<usize, ProbeError>)
    requires
        call_ensures(frame_length, (announced,), r),
    ensures
        announced <= 4096 ==> r is Ok && r->Ok_0 == announced,
        announced > 4096 ==> r == Err::<usize, ProbeError>(ProbeError::TooLarge),
{
}

/// The pattern counts from zero to two hundred and fifty and begins again; it is
/// the same in whatever pieces it is written, each a buffer long but the last.
pub proof fn law_the_pattern_counts(offset: u64, length: u64, chunk: Vec<u8>, i: int)
    requires
        offset <= length,
        call_ensures(pattern_chunk, (offset, length), chunk),
    ensures
        chunk@.len() <= 32 * 1024,
        chunk@.len() == 32 * 1024 || chunk@.len() == length - offset,
        0 <= i < chunk@.len() ==> chunk@[i] == (offset + i) % 251,
{
}

/// The hash begins with its seed and takes the bytes of the pattern in one by one:
/// each is mixed in, and the sum is multiplied modulo two to the sixty-fourth.
pub proof fn law_the_hash_takes_every_byte(length: nat)
    ensures
        hash_of_pattern(0) == 0x1465_0fb0_739d_0383,
        hash_of_pattern(length + 1) == ((hash_of_pattern(length) ^ ((length as int % 251) as u8 as u64))
            * 0x100_0000_01b3) % 0x1_0000_0000_0000_0000,
{
    let h = hash_of_pattern(length);
    let b = pattern_at(length as int);
    assert(hash_of_pattern(length + 1) == hash_step(h, b));
}

} // verus!
