//! What a run reports of itself.
use crate::probe::{ProbePath, ProbeTerminal};
use crate::text::same_text;
use vstd::prelude::*;
use vstd::string::StringExecFns;

verus! {

/// The version of the reports.
pub const SCHEMA_VERSION: u16 = 1;

/// What came of a run.
#[derive(Debug, PartialEq, Eq)]
pub struct TerminalResult {
    pub case_id: String,
    pub result: String,
    pub code: String,
    pub setup_duration_ms: u128,
    pub selected_path: Option<ProbePath>,
    pub observed_path: Option<ProbePath>,
    pub connection_id_hash: Option<u64>,
    pub bytes_read: u64,
    pub bytes_written: u64,
    pub read_hash: u64,
    pub write_hash: u64,
    pub half_close: bool,
    pub terminal: ProbeTerminal,
    pub final_connections: usize,
    pub final_pending_opens: usize,
    pub final_workers: usize,
    pub final_tasks: usize,
}

impl TerminalResult {
    /// A result without measurements. One that did not pass counts as a failure
    /// of input and output.
    pub fn simple(case_id: &str, result: &str, code: &str) -> (r: Self)
        ensures
            r.case_id@ == case_id@,
            r.result@ == result@,
            r.code@ == code@,
            r.terminal == if result@ == "passed"@ {
                ProbeTerminal::Success
            } else {
                ProbeTerminal::Io
            },
            r.setup_duration_ms == 0,
            r.selected_path is None,
            r.observed_path is None,
            r.connection_id_hash is None,
            r.bytes_read == 0,
            r.bytes_written == 0,
            r.read_hash == 0,
            r.write_hash == 0,
            !r.half_close,
            r.final_connections == 0,
            r.final_pending_opens == 0,
            r.final_workers == 0,
            r.final_tasks == 0,
    {
        TerminalResult {
            case_id: String::from_str(case_id),
            result: String::from_str(result),
            code: String::from_str(code),
            setup_duration_ms: 0,
            selected_path: None,
            observed_path: None,
            connection_id_hash: None,
            bytes_read: 0,
            bytes_written: 0,
            read_hash: 0,
            write_hash: 0,
            half_close: false,
            terminal: if same_text(result, "passed") {
                ProbeTerminal::Success
            } else {
                ProbeTerminal::Io
            },
            final_connections: 0,
            final_pending_opens: 0,
            final_workers: 0,
            final_tasks: 0,
        }
    }
}

/// The hash of bytes: each byte is added to thirty-one times what came before.
pub open spec fn hash_of_bytes(bytes: Seq<u8>) -> u64
    decreases bytes.len(),
{
    if bytes.len() == 0 {
        0
    } else {
        hash_of_bytes(bytes.drop_last()).wrapping_mul(31).wrapping_add(bytes.last() as u64)
    }
}

/// The hash of bytes.
fn hash_bytes(bytes: &[u8]) -> (r: u64)
    ensures
        r == hash_of_bytes(bytes@),
{
    let ghost all = bytes@;
    let mut hash: u64 = 0;
    let mut i: usize = 0;
    assert(all.take(0) =~= Seq::<u8>::empty());
    while i < bytes.len()
        invariant
            all == bytes@,
            i <= bytes@.len(),
            hash == hash_of_bytes(all.take(i as int)),
        decreases bytes@.len() - i,
    {
        proof {
            let next = all.take(i + 1);
            assert(next.drop_last() =~= all.take(i as int));
            assert(next.last() == all[i as int]);
        }
        hash = hash.wrapping_mul(31).wrapping_add(bytes[i] as u64);
        i = i + 1;
    }
    assert(all.take(i as int) =~= all);
    hash
}

/// The hash of the text by which a value is shown.
pub fn stable_hash(shown: &str) -> (r: u64)
    ensures
        r == hash_of_bytes(vstd::utf8::encode_utf8(shown@)),
{
    hash_bytes(shown.as_bytes())
}

/// A byte as a decimal number.
pub open spec fn decimal(byte: u8) -> Seq<u8> {
    if byte >= 100 {
        seq![(48 + byte / 100) as u8, (48 + byte / 10 % 10) as u8, (48 + byte % 10) as u8]
    } else if byte >= 10 {
        seq![(48 + byte / 10) as u8, (48 + byte % 10) as u8]
    } else {
        seq![(48 + byte) as u8]
    }
}

/// Bytes as decimal numbers with a comma and a space between them.
pub open spec fn listed(bytes: Seq<u8>) -> Seq<u8>
    decreases bytes.len(),
{
    if bytes.len() == 0 {
        Seq::empty()
    } else if bytes.len() == 1 {
        decimal(bytes[0])
    } else {
        listed(bytes.drop_last()) + (seq![44u8, 32u8] + decimal(bytes.last()))
    }
}

/// The hash of a number of sixteen bytes, shown as a list between brackets.
pub open spec fn id_hash(id: Seq<u8>) -> u64 {
    hash_of_bytes(seq![91u8] + listed(id) + seq![93u8])
}

fn put_decimal(out: &mut Vec<u8>, byte: u8)
    ensures
        final(out)@ == old(out)@ + decimal(byte),
{
    if byte >= 100 {
        out.push(48 + byte / 100);
    }
    if byte >= 10 {
        out.push(48 + byte / 10 % 10);
    }
    out.push(48 + byte % 10);
    assert(out@ =~= old(out)@ + decimal(byte));
}

/// The hash of a number of sixteen bytes.
pub fn hash_id(id: &[u8; 16]) -> (r: u64)
    ensures
        r == id_hash(id@),
{
    let ghost all = id@;
    let mut shown: Vec<u8> = Vec::new();
    shown.push(91);
    let mut i: usize = 0;
    assert(all.take(0) =~= Seq::<u8>::empty());
    assert(shown@ =~= seq![91u8] + listed(all.take(0)));
    while i < 16
        invariant
            i <= 16,
            all == id@,
            shown@ == seq![91u8] + listed(all.take(i as int)),
        decreases 16 - i,
    {
        proof {
            let next = all.take(i + 1);
            assert(next.drop_last() =~= all.take(i as int));
            assert(next.last() == all[i as int]);
        }
        if i > 0 {
            shown.push(44);
            shown.push(32);
        }
        put_decimal(&mut shown, id[i]);
        assert(shown@ =~= seq![91u8] + listed(all.take(i + 1)));
        i = i + 1;
    }
    assert(all.take(16) =~= all);
    shown.push(93);
    assert(shown@ =~= seq![91u8] + listed(all) + seq![93u8]);
    hash_bytes(shown.as_slice())
}

/// The side of a tunnel that reports.
#[derive(Clone, Copy, Debug, PartialEq, Eq, Structural)]
pub enum ComponentSide {
    Client,
    Server,
}

/// How a tunnel ended.
#[derive(Clone, Copy, Debug, PartialEq, Eq, Structural)]
pub enum TunnelTerminalClass {
    Complete,
    IdleTimeout,
    Cancelled,
    LocalIo,
    RemoteIo,
}

/// Whether the one result that a run may report has been reported.
pub struct TerminalGate {
    emitted: bool,
}

impl View for TerminalGate {
    type V = bool;

    closed spec fn view(&self) -> bool {
        self.emitted
    }
}

impl TerminalGate {
    /// Nothing has been reported.
    pub fn new() -> (r: Self)
        ensures
            !r@,
    {
        TerminalGate { emitted: false }
    }

    /// Takes the right to report. It is given once.
    pub fn take(&mut self) -> (r: bool)
        ensures
            r == !old(self)@,
            final(self)@,
    {
        let first = !self.emitted;
        self.emitted = true;
        first
    }
}

/// The hash of a text is a number in base thirty-one whose digits are the bytes,
/// as far as sixty-four bits go.
pub proof fn law_hashes_are_built_byte_by_byte(bytes: Seq<u8>, byte: u8)
    ensures
        hash_of_bytes(Seq::empty()) == 0,
        hash_of_bytes(bytes.push(byte)) == (31 * hash_of_bytes(bytes) + byte) % 0x1_0000_0000_0000_0000,
{
    assert(bytes.push(byte).drop_last() =~= bytes);
    let before = hash_of_bytes(bytes);
    let product = before.wrapping_mul(31);
    assert(product == (before * 31) % 0x1_0000_0000_0000_0000);
    assert(product.wrapping_add(byte as u64) == (product + byte) % 0x1_0000_0000_0000_0000);
}

/// Two texts of one byte, and two that differ in their last byte alone, are told
/// apart.
pub proof fn law_hashes_tell_last_bytes_apart(bytes: Seq<u8>, a: u8, b: u8)
    requires
        a != b,
    ensures
        hash_of_bytes(bytes.push(a)) != hash_of_bytes(bytes.push(b)),
{
    law_hashes_are_built_byte_by_byte(bytes, a);
    law_hashes_are_built_byte_by_byte(bytes, b);
}

/// The number that decimal digits show.
pub open spec fn shown_number(digits: Seq<u8>) -> int
    decreases digits.len(),
{
    if digits.len() == 0 {
        0
    } else {
        10 * shown_number(digits.drop_last()) + (digits.last() - 48)
    }
}

/// A byte is shown by the decimal digits of its value, and by no more of them
/// than it needs.
pub proof fn law_bytes_are_shown_in_decimal(byte: u8)
    ensures
        shown_number(decimal(byte)) == byte,
        1 <= decimal(byte).len() <= 3,
        forall|i: int| 0 <= i < decimal(byte).len() ==> 48 <= #[trigger] decimal(byte)[i] <= 57,
        decimal(byte).len() > 1 ==> decimal(byte)[0] != 48,
{
    reveal_with_fuel(shown_number, 4);
    let digits = decimal(byte);
    if byte >= 100 {
        assert(digits.drop_last() =~= seq![digits[0], digits[1]]);
        assert(digits.drop_last().drop_last() =~= seq![digits[0]]);
    } else if byte >= 10 {
        assert(digits.drop_last() =~= seq![digits[0]]);
    }
}

/// A list of bytes shows them one after the other, with a comma and a space
/// between two of them, and a number is hashed as such a list in brackets.
pub proof fn law_numbers_are_hashed_as_lists(bytes: Seq<u8>, byte: u8)
    requires
        bytes.len() > 0,
    ensures
        listed(seq![byte]) == decimal(byte),
        listed(bytes.push(byte)) == listed(bytes) + seq![44u8, 32u8] + decimal(byte),
        id_hash(bytes) == hash_of_bytes(seq![91u8] + listed(bytes) + seq![93u8]),
{
    assert(bytes.push(byte).drop_last() =~= bytes);
    assert(listed(bytes.push(byte)) =~= listed(bytes) + seq![44u8, 32u8] + decimal(byte));
}

/// A result is a success exactly if it is said to have passed, and shows what it
/// was given.
pub proof fn law_results_say_whether_they_passed(case_id: &str, result: &str, code: &str, r: TerminalResult)
    requires
        call_ensures(TerminalResult::simple, (case_id, result, code), r),
    ensures
        r.terminal == ProbeTerminal::Success <==> result@ == "passed"@,
        r.terminal == ProbeTerminal::Io <==> result@ != "passed"@,
        r.case_id@ == case_id@ && r.result@ == result@ && r.code@ == code@,
        r.bytes_read == 0 && r.bytes_written == 0,
{
}

/// The right to report an end is given to the first who takes it, and to nobody
/// after.
pub proof fn law_ends_are_reported_once(
    fresh: TerminalGate,
    gate: &mut TerminalGate,
    first: bool,
    later: &mut TerminalGate,
    second: bool,
)
    requires
        call_ensures(TerminalGate::new, (), fresh),
        call_ensures(TerminalGate::take, (gate,), first),
        call_ensures(TerminalGate::take, (later,), second),
        *old(gate) == fresh,
        *old(later) == *final(gate),
    ensures
        first,
        !second,
        final(later)@,
{
}

} // verus!
