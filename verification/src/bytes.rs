//! Big-endian integers, byte strings and text on the wire.
//!
//! Every message of the protocol is a concatenation of the fields described
//! here. For each kind of field there is a specification of its bytes, a
//! specification of how a field is split off the front of a byte sequence,
//! and the lemma that the second undoes the first whatever bytes follow.
use vstd::prelude::*;
use vstd::slice::slice_subrange;
use vstd::utf8::{decode_utf8, encode_utf8, valid_utf8};

verus! {

broadcast use vstd::seq::group_seq_axioms;

/// The two bytes of `x`, most significant first.
pub open spec fn be16(x: u16) -> Seq<u8> {
    seq![(x / 0x100) as u8, (x % 0x100) as u8]
}

/// The four bytes of `x`, most significant first.
pub open spec fn be32(x: u32) -> Seq<u8> {
    be16((x / 0x1_0000) as u16) + be16((x % 0x1_0000) as u16)
}

/// The eight bytes of `x`, most significant first.
#[verifier::opaque]
pub open spec fn be64(x: u64) -> Seq<u8> {
    be32((x / 0x1_0000_0000) as u32) + be32((x % 0x1_0000_0000) as u32)
}

/// The sixteen bytes of `x`, most significant first.
pub open spec fn be128(x: u128) -> Seq<u8> {
    be64((x / 0x1_0000_0000_0000_0000) as u64) + be64((x % 0x1_0000_0000_0000_0000) as u64)
}

/// The two's complement reading of a signed number.
pub open spec fn twos_complement(x: i64) -> u64 {
    if x >= 0 {
        x as u64
    } else {
        (x + 0x1_0000_0000_0000_0000) as u64
    }
}

/// The eight bytes of a signed number in two's complement.
pub open spec fn be_i64(x: i64) -> Seq<u8> {
    be64(twos_complement(x))
}

/// The number whose big-endian bytes are `s`.
pub open spec fn un16(s: Seq<u8>) -> u16 {
    (s[0] * 0x100 + s[1]) as u16
}

/// The number whose big-endian bytes are `s`.
pub open spec fn un32(s: Seq<u8>) -> u32 {
    (un16(s.subrange(0, 2)) * 0x1_0000 + un16(s.subrange(2, 4))) as u32
}

/// The number whose big-endian bytes are `s`.
#[verifier::opaque]
pub open spec fn un64(s: Seq<u8>) -> u64 {
    (un32(s.subrange(0, 4)) * 0x1_0000_0000 + un32(s.subrange(4, 8))) as u64
}

/// The signed number whose two's complement reading is `u`.
pub open spec fn signed(u: u64) -> i64 {
    if u < 0x8000_0000_0000_0000 {
        u as i64
    } else {
        (u - 0x1_0000_0000_0000_0000) as i64
    }
}

/// `be16` and `un16` undo each other.
pub proof fn lemma_be16(x: u16, s: Seq<u8>)
    ensures
        be16(x).len() == 2,
        un16(be16(x)) == x,
        s.len() == 2 ==> be16(un16(s)) == s,
{
    if s.len() == 2 {
        assert(be16(un16(s)) =~= s);
    }
}

/// `be32` and `un32` undo each other.
pub proof fn lemma_be32(x: u32, s: Seq<u8>)
    ensures
        be32(x).len() == 4,
        un32(be32(x)) == x,
        s.len() == 4 ==> be32(un32(s)) == s,
{
    let hi: u16 = (x / 0x1_0000) as u16;
    let lo: u16 = (x % 0x1_0000) as u16;
    lemma_be16(hi, s.subrange(0, 2));
    lemma_be16(lo, s.subrange(2, 4));
    assert(be32(x).subrange(0, 2) =~= be16(hi));
    assert(be32(x).subrange(2, 4) =~= be16(lo));
    if s.len() == 4 {
        assert(be32(un32(s)) =~= s) by {
            assert(s =~= s.subrange(0, 2) + s.subrange(2, 4));
        }
    }
}

/// A `u64` is its upper and lower half.
proof fn lemma_halves64(x: u64, hi: u32, lo: u32)
    ensures
        (x / 0x1_0000_0000) as u32 * 0x1_0000_0000 + (x % 0x1_0000_0000) as u32 == x,
        ((hi * 0x1_0000_0000 + lo) as u64 / 0x1_0000_0000) as u32 == hi,
        ((hi * 0x1_0000_0000 + lo) as u64 % 0x1_0000_0000) as u32 == lo,
{
}

/// `be64` and `un64` undo each other.
pub proof fn lemma_be64(x: u64, s: Seq<u8>)
    ensures
        be64(x).len() == 8,
        un64(be64(x)) == x,
        s.len() == 8 ==> be64(un64(s)) == s,
{
    reveal(be64);
    reveal(un64);
    lemma_be64_halves((x / 0x1_0000_0000) as u32, (x % 0x1_0000_0000) as u32);
    lemma_halves64(x, 0, 0);
    if s.len() == 8 {
        let hi: u32 = un32(s.subrange(0, 4));
        let lo: u32 = un32(s.subrange(4, 8));
        lemma_halves64(0, hi, lo);
        lemma_be32(0, s.subrange(0, 4));
        lemma_be32(0, s.subrange(4, 8));
        assert(s =~= s.subrange(0, 4) + s.subrange(4, 8));
    }
}

proof fn lemma_be64_halves(hi: u32, lo: u32)
    ensures
        (be32(hi) + be32(lo)).len() == 8,
        un64(be32(hi) + be32(lo)) == (hi * 0x1_0000_0000 + lo) as u64,
{
    reveal(un64);
    lemma_be32(hi, Seq::empty());
    lemma_be32(lo, Seq::empty());
    assert((be32(hi) + be32(lo)).subrange(0, 4) =~= be32(hi));
    assert((be32(hi) + be32(lo)).subrange(4, 8) =~= be32(lo));
}

/// A signed number is recovered from its two's complement and back.
pub proof fn lemma_signed(x: i64, u: u64)
    ensures
        signed(twos_complement(x)) == x,
        twos_complement(signed(u)) == u,
{
}

/// The lengths of the integer fields.
pub proof fn lemma_field_lengths(a: u16, b: u32, c: u64, d: i64)
    ensures
        be16(a).len() == 2,
        be32(b).len() == 4,
        be64(c).len() == 8,
        be_i64(d).len() == 8,
{
    reveal(be64);
}

/// The length of a concatenation of eight parts.
pub proof fn lemma_parts_len(
    a: Seq<u8>,
    b: Seq<u8>,
    c: Seq<u8>,
    d: Seq<u8>,
    e: Seq<u8>,
    f: Seq<u8>,
    g: Seq<u8>,
    h: Seq<u8>,
)
    ensures
        (a + (b + (c + (d + (e + (f + (g + h))))))).len() == a.len() + b.len() + c.len() + d.len()
            + e.len() + f.len() + g.len() + h.len(),
{
}

/// The length of seven parts in a row.
pub proof fn lemma_seven_parts_len(
    a: Seq<u8>,
    b: Seq<u8>,
    c: Seq<u8>,
    d: Seq<u8>,
    e: Seq<u8>,
    f: Seq<u8>,
    g: Seq<u8>,
)
    ensures
        (a + (b + (c + (d + (e + (f + g)))))).len() == a.len() + b.len() + c.len() + d.len() + e.len()
            + f.len() + g.len(),
{
}

/// Concatenation is associative; used to bring a message into the shape
/// "first field, then the rest".
pub broadcast proof fn lemma_add_assoc(a: Seq<u8>, b: Seq<u8>, c: Seq<u8>)
    ensures
        #[trigger] ((a + b) + c) == a + (b + c),
{
    assert((a + b) + c =~= a + (b + c));
}

/// Text preceded by the length of its UTF-8 form as two bytes.
pub open spec fn enc_text(t: Seq<char>) -> Seq<u8> {
    be16(encode_utf8(t).len() as u16) + encode_utf8(t)
}

/// Bytes preceded by their length as two bytes.
pub open spec fn enc_blob(b: Seq<u8>) -> Seq<u8> {
    be16(b.len() as u16) + b
}

/// Bytes preceded by their length as one byte.
pub open spec fn enc_short(b: Seq<u8>) -> Seq<u8> {
    seq![b.len() as u8] + b
}

/// The first `n` bytes and what follows them.
pub open spec fn split_bytes(s: Seq<u8>, n: int) -> Option<(Seq<u8>, Seq<u8>)> {
    if 0 <= n <= s.len() {
        Some((s.subrange(0, n), s.subrange(n, s.len() as int)))
    } else {
        None
    }
}

/// The first byte and what follows it.
pub open spec fn split_u8(s: Seq<u8>) -> Option<(u8, Seq<u8>)> {
    match split_bytes(s, 1) {
        Some((v, rest)) => Some((v[0], rest)),
        None => None,
    }
}

/// A leading `u16` and what follows it.
pub open spec fn split_u16(s: Seq<u8>) -> Option<(u16, Seq<u8>)> {
    match split_bytes(s, 2) {
        Some((v, rest)) => Some((un16(v), rest)),
        None => None,
    }
}

/// A leading `u32` and what follows it.
pub open spec fn split_u32(s: Seq<u8>) -> Option<(u32, Seq<u8>)> {
    match split_bytes(s, 4) {
        Some((v, rest)) => Some((un32(v), rest)),
        None => None,
    }
}

/// A leading `u64` and what follows it.
pub open spec fn split_u64(s: Seq<u8>) -> Option<(u64, Seq<u8>)> {
    match split_bytes(s, 8) {
        Some((v, rest)) => Some((un64(v), rest)),
        None => None,
    }
}

/// A leading `i64` and what follows it.
pub open spec fn split_i64(s: Seq<u8>) -> Option<(i64, Seq<u8>)> {
    match split_u64(s) {
        Some((v, rest)) => Some((signed(v), rest)),
        None => None,
    }
}

/// A leading length-prefixed byte string and what follows it.
pub open spec fn split_blob(s: Seq<u8>) -> Option<(Seq<u8>, Seq<u8>)> {
    match split_u16(s) {
        Some((n, rest)) => split_bytes(rest, n as int),
        None => None,
    }
}

/// A leading byte string with a one-byte length and what follows it.
pub open spec fn split_short(s: Seq<u8>) -> Option<(Seq<u8>, Seq<u8>)> {
    match split_u8(s) {
        Some((n, rest)) => split_bytes(rest, n as int),
        None => None,
    }
}

/// A leading length-prefixed text and what follows it.
pub open spec fn split_text(s: Seq<u8>) -> Option<(Seq<char>, Seq<u8>)> {
    match split_blob(s) {
        Some((b, rest)) => if valid_utf8(b) {
            Some((decode_utf8(b), rest))
        } else {
            None
        },
        None => None,
    }
}

pub proof fn lemma_split_bytes(a: Seq<u8>, rest: Seq<u8>)
    ensures
        split_bytes(a + rest, a.len() as int) == Some((a, rest)),
{
    assert((a + rest).subrange(0, a.len() as int) =~= a);
    assert((a + rest).subrange(a.len() as int, (a + rest).len() as int) =~= rest);
}

pub proof fn lemma_join_bytes(s: Seq<u8>, n: int)
    ensures
        split_bytes(s, n) matches Some((a, rest)) ==> s == a + rest && a.len() == n,
{
    if 0 <= n <= s.len() {
        assert(s =~= s.subrange(0, n) + s.subrange(n, s.len() as int));
    }
}

/// Where two joined sequences are equal and their first parts equally long,
/// the parts are equal.
pub proof fn lemma_same_parts(a: Seq<u8>, x: Seq<u8>, b: Seq<u8>, y: Seq<u8>)
    requires
        a.len() == b.len(),
        a + x == b + y,
    ensures
        a == b,
        x == y,
{
    lemma_split_bytes(a, x);
    lemma_split_bytes(b, y);
}

pub proof fn lemma_split_u8(x: u8, rest: Seq<u8>)
    ensures
        split_u8(seq![x] + rest) == Some((x, rest)),
{
    lemma_split_bytes(seq![x], rest);
}

pub proof fn lemma_join_u8(s: Seq<u8>)
    ensures
        split_u8(s) matches Some((x, rest)) ==> s == seq![x] + rest,
{
    lemma_join_bytes(s, 1);
    if s.len() >= 1 {
        assert(s.subrange(0, 1) =~= seq![s.subrange(0, 1)[0]]);
    }
}

pub proof fn lemma_split_u16(x: u16, rest: Seq<u8>)
    ensures
        split_u16(be16(x) + rest) == Some((x, rest)),
{
    lemma_be16(x, be16(x));
    lemma_split_bytes(be16(x), rest);
}

pub proof fn lemma_join_u16(s: Seq<u8>)
    ensures
        split_u16(s) matches Some((x, rest)) ==> s == be16(x) + rest,
{
    lemma_join_bytes(s, 2);
    if s.len() >= 2 {
        lemma_be16(0, s.subrange(0, 2));
    }
}

pub proof fn lemma_split_u32(x: u32, rest: Seq<u8>)
    ensures
        split_u32(be32(x) + rest) == Some((x, rest)),
{
    lemma_be32(x, be32(x));
    lemma_split_bytes(be32(x), rest);
}

pub proof fn lemma_join_u32(s: Seq<u8>)
    ensures
        split_u32(s) matches Some((x, rest)) ==> s == be32(x) + rest,
{
    lemma_join_bytes(s, 4);
    if s.len() >= 4 {
        lemma_be32(0, s.subrange(0, 4));
    }
}

pub proof fn lemma_split_u64(x: u64, rest: Seq<u8>)
    ensures
        split_u64(be64(x) + rest) == Some((x, rest)),
{
    lemma_be64(x, be64(x));
    lemma_split_bytes(be64(x), rest);
}

pub proof fn lemma_join_u64(s: Seq<u8>)
    ensures
        split_u64(s) matches Some((x, rest)) ==> s == be64(x) + rest,
{
    lemma_join_bytes(s, 8);
    if s.len() >= 8 {
        lemma_be64(0, s.subrange(0, 8));
    }
}

pub proof fn lemma_split_i64(x: i64, rest: Seq<u8>)
    ensures
        split_i64(be_i64(x) + rest) == Some((x, rest)),
{
    lemma_signed(x, 0);
    lemma_split_u64(twos_complement(x), rest);
}

pub proof fn lemma_join_i64(s: Seq<u8>)
    ensures
        split_i64(s) matches Some((x, rest)) ==> s == be_i64(x) + rest,
{
    lemma_join_u64(s);
    if let Some((u, _)) = split_u64(s) {
        lemma_signed(0, u);
    }
}

pub proof fn lemma_split_blob(b: Seq<u8>, rest: Seq<u8>)
    requires
        b.len() <= u16::MAX,
    ensures
        split_blob(enc_blob(b) + rest) == Some((b, rest)),
{
    lemma_add_assoc(be16(b.len() as u16), b, rest);
    lemma_split_u16(b.len() as u16, b + rest);
    lemma_split_bytes(b, rest);
}

pub proof fn lemma_join_blob(s: Seq<u8>)
    ensures
        split_blob(s) matches Some((b, rest)) ==> s == enc_blob(b) + rest && b.len() <= u16::MAX,
{
    lemma_join_u16(s);
    if let Some((n, tail)) = split_u16(s) {
        lemma_join_bytes(tail, n as int);
        if let Some((b, rest)) = split_bytes(tail, n as int) {
            lemma_add_assoc(be16(n), b, rest);
        }
    }
}

pub proof fn lemma_split_short(b: Seq<u8>, rest: Seq<u8>)
    requires
        b.len() <= u8::MAX,
    ensures
        split_short(enc_short(b) + rest) == Some((b, rest)),
{
    lemma_add_assoc(seq![b.len() as u8], b, rest);
    lemma_split_u8(b.len() as u8, b + rest);
    lemma_split_bytes(b, rest);
}

pub proof fn lemma_join_short(s: Seq<u8>)
    ensures
        split_short(s) matches Some((b, rest)) ==> s == enc_short(b) + rest && b.len() <= u8::MAX,
{
    lemma_join_u8(s);
    if let Some((n, tail)) = split_u8(s) {
        lemma_join_bytes(tail, n as int);
        if let Some((b, rest)) = split_bytes(tail, n as int) {
            lemma_add_assoc(seq![n], b, rest);
        }
    }
}

pub proof fn lemma_split_text(t: Seq<char>, rest: Seq<u8>)
    requires
        encode_utf8(t).len() <= u16::MAX,
    ensures
        split_text(enc_text(t) + rest) == Some((t, rest)),
{
    broadcast use vstd::utf8::group_utf8_lib;

    lemma_split_blob(encode_utf8(t), rest);
}

pub proof fn lemma_join_text(s: Seq<u8>)
    ensures
        split_text(s) matches Some((t, rest)) ==> s == enc_text(t) + rest
            && encode_utf8(t).len() <= u16::MAX,
{
    broadcast use vstd::utf8::group_utf8_lib;

    lemma_join_blob(s);
}

/// The text whose UTF-8 form is `bytes`; `None` if they are not UTF-8.
///
/// Calls `String::from_utf8`, which is documented to fail exactly on byte
/// vectors that are not valid UTF-8 and otherwise to keep the bytes.
#[verifier::external_body]
pub(crate) fn text_from_utf8(bytes: Vec<u8>) -> (r: Option<String>)
    ensures
        r is Some <==> valid_utf8(bytes@),
        r matches Some(s) ==> s@ == decode_utf8(bytes@),
{
    String::from_utf8(bytes).ok()
}

/// Appends the bytes of a slice.
pub fn put_bytes(out: &mut Vec<u8>, bytes: &[u8])
    ensures
        final(out)@ == old(out)@ + bytes@,
{
    let ghost before = out@;
    out.extend_from_slice(bytes);
    assert(out@ =~= before + bytes@);
}

/// Appends one byte.
pub fn put_u8(out: &mut Vec<u8>, x: u8)
    ensures
        final(out)@ == old(out)@ + seq![x],
{
    let ghost before = out@;
    out.push(x);
    assert(out@ =~= before + seq![x]);
}

/// Appends a `u16`, most significant byte first.
pub fn put_u16(out: &mut Vec<u8>, x: u16)
    ensures
        final(out)@ == old(out)@ + be16(x),
{
    let ghost before = out@;
    out.push((x / 0x100) as u8);
    out.push((x % 0x100) as u8);
    assert(out@ =~= before + be16(x));
}

/// Appends a `u32`, most significant byte first.
pub fn put_u32(out: &mut Vec<u8>, x: u32)
    ensures
        final(out)@ == old(out)@ + be32(x),
{
    let ghost before = out@;
    put_u16(out, (x / 0x1_0000) as u16);
    put_u16(out, (x % 0x1_0000) as u16);
    assert(out@ =~= before + be32(x));
}

/// Appends a `u64`, most significant byte first.
pub fn put_u64(out: &mut Vec<u8>, x: u64)
    ensures
        final(out)@ == old(out)@ + be64(x),
{
    let ghost before = out@;
    put_u32(out, (x / 0x1_0000_0000) as u32);
    put_u32(out, (x % 0x1_0000_0000) as u32);
    proof {
        reveal(be64);
        assert(out@ =~= before + be64(x));
    }
}

/// Appends an `i64` in two's complement, most significant byte first.
pub fn put_i64(out: &mut Vec<u8>, x: i64)
    ensures
        final(out)@ == old(out)@ + be_i64(x),
{
    let u: u64 = if x >= 0 {
        x as u64
    } else {
        (x as i128 + 0x1_0000_0000_0000_0000) as u64
    };
    put_u64(out, u);
}

/// Appends length-prefixed bytes.
pub fn put_blob(out: &mut Vec<u8>, bytes: &[u8])
    requires
        bytes@.len() <= u16::MAX,
    ensures
        final(out)@ == old(out)@ + enc_blob(bytes@),
{
    let ghost before = out@;
    put_u16(out, bytes.len() as u16);
    put_bytes(out, bytes);
    proof {
        lemma_add_assoc(before, be16(bytes@.len() as u16), bytes@);
    }
}

/// Appends bytes with a one-byte length.
pub fn put_short(out: &mut Vec<u8>, bytes: &[u8])
    requires
        bytes@.len() <= u8::MAX,
    ensures
        final(out)@ == old(out)@ + enc_short(bytes@),
{
    let ghost before = out@;
    put_u8(out, bytes.len() as u8);
    put_bytes(out, bytes);
    proof {
        lemma_add_assoc(before, seq![bytes@.len() as u8], bytes@);
    }
}

/// Appends length-prefixed text.
pub fn put_text(out: &mut Vec<u8>, text: &str)
    requires
        encode_utf8(text@).len() <= u16::MAX,
    ensures
        final(out)@ == old(out)@ + enc_text(text@),
{
    put_blob(out, text.as_bytes());
}

/// A cursor over received bytes. Its view is what is still to be read.
pub struct Reader<'a> {
    buf: &'a [u8],
    pos: usize,
}

impl<'a> View for Reader<'a> {
    type V = Seq<u8>;

    closed spec fn view(&self) -> Seq<u8> {
        self.buf@.subrange(self.pos as int, self.buf@.len() as int)
    }
}

impl<'a> Reader<'a> {
    #[verifier::type_invariant]
    spec fn within(self) -> bool {
        self.pos <= self.buf@.len()
    }

    /// A cursor at the start of `buf`.
    pub fn new(buf: &'a [u8]) -> (r: Self)
        ensures
            r@ == buf@,
    {
        let r = Reader { buf, pos: 0 };
        assert(r@ =~= buf@);
        r
    }

    /// Whether everything has been read.
    pub fn at_end(&self) -> (r: bool)
        ensures
            r == (self@.len() == 0),
    {
        proof {
            use_type_invariant(self);
        }
        self.pos == self.buf.len()
    }

    /// Reads `n` bytes. Nothing is read where fewer are left.
    pub fn take(&mut self, n: usize) -> (r: Option<&'a [u8]>)
        ensures
            match split_bytes(old(self)@, n as int) {
                Some((v, rest)) => r matches Some(x) && x@ == v && final(self)@ == rest,
                None => r is None && final(self)@ == old(self)@,
            },
    {
        proof {
            use_type_invariant(&*self);
        }
        if n > self.buf.len() - self.pos {
            return None;
        }
        let start: usize = self.pos;
        let end: usize = start + n;
        let value = slice_subrange(self.buf, start, end);
        self.pos = end;
        proof {
            let full = self.buf@.subrange(start as int, self.buf@.len() as int);
            assert(value@ =~= full.subrange(0, n as int));
            assert(self@ =~= full.subrange(n as int, full.len() as int));
        }
        Some(value)
    }

    /// Reads one byte.
    pub fn u8(&mut self) -> (r: Option<u8>)
        ensures
            match split_u8(old(self)@) {
                Some((v, rest)) => r == Some(v) && final(self)@ == rest,
                None => r is None,
            },
    {
        match self.take(1) {
            Some(v) => Some(v[0]),
            None => None,
        }
    }

    /// Reads a big-endian `u16`.
    pub fn u16(&mut self) -> (r: Option<u16>)
        ensures
            match split_u16(old(self)@) {
                Some((v, rest)) => r == Some(v) && final(self)@ == rest,
                None => r is None,
            },
    {
        match self.take(2) {
            Some(v) => Some(v[0] as u16 * 0x100 + v[1] as u16),
            None => None,
        }
    }

    /// Reads a big-endian `u32`.
    pub fn u32(&mut self) -> (r: Option<u32>)
        ensures
            match split_u32(old(self)@) {
                Some((v, rest)) => r == Some(v) && final(self)@ == rest,
                None => r is None,
            },
    {
        match self.take(4) {
            Some(v) => {
                let hi: u32 = v[0] as u32 * 0x100 + v[1] as u32;
                let lo: u32 = v[2] as u32 * 0x100 + v[3] as u32;
                Some(hi * 0x1_0000 + lo)
            },
            None => None,
        }
    }

    /// Reads a big-endian `u64`.
    pub fn u64(&mut self) -> (r: Option<u64>)
        ensures
            match split_u64(old(self)@) {
                Some((v, rest)) => r == Some(v) && final(self)@ == rest,
                None => r is None,
            },
    {
        reveal(un64);
        match self.take(8) {
            Some(v) => {
                let a: u64 = v[0] as u64 * 0x100 + v[1] as u64;
                let b: u64 = v[2] as u64 * 0x100 + v[3] as u64;
                let c: u64 = v[4] as u64 * 0x100 + v[5] as u64;
                let d: u64 = v[6] as u64 * 0x100 + v[7] as u64;
                let hi: u64 = a * 0x1_0000 + b;
                let lo: u64 = c * 0x1_0000 + d;
                Some(hi * 0x1_0000_0000 + lo)
            },
            None => None,
        }
    }

    /// Reads a big-endian `i64`.
    pub fn i64(&mut self) -> (r: Option<i64>)
        ensures
            match split_i64(old(self)@) {
                Some((v, rest)) => r == Some(v) && final(self)@ == rest,
                None => r is None,
            },
    {
        match self.u64() {
            Some(u) => {
                let x: i64 = if u < 0x8000_0000_0000_0000 {
                    u as i64
                } else {
                    (u as i128 - 0x1_0000_0000_0000_0000) as i64
                };
                Some(x)
            },
            None => None,
        }
    }

    /// Reads `N` bytes into an array.
    pub fn array<const N: usize>(&mut self) -> (r: Option<[u8; N]>)
        ensures
            match split_bytes(old(self)@, N as int) {
                Some((v, rest)) => r matches Some(x) && x@ == v && final(self)@ == rest,
                None => r is None,
            },
    {
        match self.take(N) {
            Some(v) => Some(to_array(v)),
            None => None,
        }
    }

    /// Reads a length-prefixed byte string.
    pub fn blob(&mut self) -> (r: Option<&'a [u8]>)
        ensures
            match split_blob(old(self)@) {
                Some((v, rest)) => r matches Some(x) && x@ == v && final(self)@ == rest,
                None => r is None,
            },
    {
        match self.u16() {
            Some(n) => self.take(n as usize),
            None => None,
        }
    }

    /// Reads a byte string with a one-byte length.
    pub fn short(&mut self) -> (r: Option<&'a [u8]>)
        ensures
            match split_short(old(self)@) {
                Some((v, rest)) => r matches Some(x) && x@ == v && final(self)@ == rest,
                None => r is None,
            },
    {
        match self.u8() {
            Some(n) => self.take(n as usize),
            None => None,
        }
    }

    /// Reads length-prefixed text.
    pub fn text(&mut self) -> (r: Option<String>)
        ensures
            match split_text(old(self)@) {
                Some((v, rest)) => r matches Some(x) && x@ == v && final(self)@ == rest,
                None => r is None,
            },
    {
        match self.blob() {
            Some(b) => text_from_utf8(vstd::slice::slice_to_vec(b)),
            None => None,
        }
    }
}

/// The bytes of a slice as an array of the same length.
pub fn to_array<const N: usize>(bytes: &[u8]) -> (r: [u8; N])
    requires
        bytes@.len() == N,
    ensures
        r@ == bytes@,
{
    let mut out: [u8; N] = [0u8; N];
    let mut i: usize = 0;
    while i < N
        invariant
            i <= N,
            bytes@.len() == N,
            forall|j: int| 0 <= j < i ==> out@[j] == bytes@[j],
        decreases N - i,
    {
        out[i] = bytes[i];
        i = i + 1;
    }
    assert(out@ =~= bytes@);
    out
}

/// Whether two byte slices hold the same bytes.
pub fn same_bytes(a: &[u8], b: &[u8]) -> (r: bool)
    ensures
        r == (a@ == b@),
{
    if a.len() != b.len() {
        return false;
    }
    let mut i: usize = 0;
    while i < a.len()
        invariant
            i <= a@.len(),
            a@.len() == b@.len(),
            forall|j: int| 0 <= j < i ==> a@[j] == b@[j],
        decreases a@.len() - i,
    {
        if a[i] != b[i] {
            return false;
        }
        i = i + 1;
    }
    assert(a@ =~= b@);
    true
}

/// Whether two byte arrays are equal.
pub fn same_array<const N: usize>(a: &[u8; N], b: &[u8; N]) -> (r: bool)
    ensures
        r == (*a == *b),
{
    let r = same_bytes(a, b);
    proof {
        if a@ == b@ {
            assert forall|i: int| 0 <= i < N implies a[i] == b[i] by {
                assert(a@[i] == b@[i]);
            }
            assert(*a =~= *b);
        }
    }
    r
}

/// An array is determined by its bytes.
pub proof fn lemma_array_view<const N: usize>(a: [u8; N], b: [u8; N])
    requires
        a@ == b@,
    ensures
        a == b,
{
    assert forall|i: int| 0 <= i < N implies a[i] == b[i] by {
        assert(a@[i] == b@[i]);
    }
    assert(a =~= b);
}

/// The sixteen big-endian bytes of a number.
pub fn be_bytes_128(x: u128) -> (r: [u8; 16])
    ensures
        r@ == be128(x),
{
    let mut out: Vec<u8> = Vec::new();
    put_u64(&mut out, (x / 0x1_0000_0000_0000_0000) as u64);
    put_u64(&mut out, (x % 0x1_0000_0000_0000_0000) as u64);
    proof {
        lemma_be64((x / 0x1_0000_0000_0000_0000) as u64, Seq::empty());
        lemma_be64((x % 0x1_0000_0000_0000_0000) as u64, Seq::empty());
        assert(out@ =~= be128(x));
    }
    to_array(out.as_slice())
}

/// Distinct numbers have distinct sixteen-byte forms.
pub proof fn lemma_be128_injective(x: u128, y: u128)
    ensures
        be128(x).len() == 16,
        be128(x) == be128(y) ==> x == y,
{
    let xh: u64 = (x / 0x1_0000_0000_0000_0000) as u64;
    let xl: u64 = (x % 0x1_0000_0000_0000_0000) as u64;
    let yh: u64 = (y / 0x1_0000_0000_0000_0000) as u64;
    let yl: u64 = (y % 0x1_0000_0000_0000_0000) as u64;
    lemma_be64(xh, Seq::empty());
    lemma_be64(xl, Seq::empty());
    lemma_be64(yh, Seq::empty());
    lemma_be64(yl, Seq::empty());
    assert(be128(x).subrange(0, 8) =~= be64(xh));
    assert(be128(x).subrange(8, 16) =~= be64(xl));
    assert(be128(y).subrange(0, 8) =~= be64(yh));
    assert(be128(y).subrange(8, 16) =~= be64(yl));
}

/// Numbers are written with their most significant byte first.
pub proof fn law_numbers_are_written_from_the_top(a: u16, b: u32, c: u64)
    ensures
        ({
            let s = be16(a);
            s.len() == 2 && a == s[0] * 0x100 + s[1]
        }),
        ({
            let s = be32(b);
            s.len() == 4 && b == s[0] * 0x100_0000 + s[1] * 0x1_0000 + s[2] * 0x100 + s[3]
        }),
        ({
            let s = be64(c);
            s.len() == 8 && c == s[0] * 0x100_0000_0000_0000 + s[1] * 0x1_0000_0000_0000 + s[2]
                * 0x100_0000_0000 + s[3] * 0x1_0000_0000 + s[4] * 0x100_0000 + s[5] * 0x1_0000 + s[6] * 0x100
                + s[7]
        }),
{
    reveal(be64);
    let hi = (c / 0x1_0000_0000) as u32;
    let lo = (c % 0x1_0000_0000) as u32;
    let (p, q) = (be32(hi), be32(lo));
    assert(hi == p[0] * 0x100_0000 + p[1] * 0x1_0000 + p[2] * 0x100 + p[3]);
    assert(lo == q[0] * 0x100_0000 + q[1] * 0x1_0000 + q[2] * 0x100 + q[3]);
    assert(be64(c) == p + q);
    assert(c == hi * 0x1_0000_0000 + lo);
}

/// Numbers are read with their most significant byte first.
pub proof fn law_numbers_are_read_from_the_top(s: Seq<u8>)
    ensures
        s.len() >= 2 ==> split_u16(s) == Some(
            ((s[0] * 0x100 + s[1]) as u16, s.subrange(2, s.len() as int)),
        ),
        s.len() >= 4 ==> split_u32(s) == Some(
            (
                (s[0] * 0x100_0000 + s[1] * 0x1_0000 + s[2] * 0x100 + s[3]) as u32,
                s.subrange(4, s.len() as int),
            ),
        ),
        s.len() >= 1 ==> split_u8(s) == Some((s[0], s.subrange(1, s.len() as int))),
        s.len() < 1 ==> split_u8(s) is None,
        s.len() < 2 ==> split_u16(s) is None,
        s.len() < 4 ==> split_u32(s) is None,
        s.len() < 8 ==> split_u64(s) is None && split_i64(s) is None,
{
    if s.len() >= 4 {
        let v = s.subrange(0, 4);
        assert(v.subrange(0, 2)[0] == s[0] && v.subrange(0, 2)[1] == s[1]);
        assert(v.subrange(2, 4)[0] == s[2] && v.subrange(2, 4)[1] == s[3]);
        assert(un16(v.subrange(0, 2)) == s[0] * 0x100 + s[1]);
        assert(un16(v.subrange(2, 4)) == s[2] * 0x100 + s[3]);
    }
}

/// A signed number is written as the number that is the same modulo two to the
/// sixty-fourth, and read back as itself.
pub proof fn law_signed_numbers_wrap(x: i64, u: u64)
    ensures
        be_i64(x) == be64(
            (if x < 0 {
                x + 0x1_0000_0000_0000_0000
            } else {
                x as int
            }) as u64,
        ),
        signed(u) == u || signed(u) == u - 0x1_0000_0000_0000_0000,
        twos_complement(signed(u)) == u,
        signed(twos_complement(x)) == x,
{
}

/// Texts, byte strings and short byte strings have their length in front of them:
/// in two bytes, in two bytes and in one.
pub proof fn law_lengths_stand_in_front(text: Seq<char>, bytes: Seq<u8>)
    ensures
        encode_utf8(text).len() < 0x1_0000 ==> {
            let s = enc_text(text);
            &&& s.len() == 2 + encode_utf8(text).len()
            &&& s[0] * 0x100 + s[1] == encode_utf8(text).len()
            &&& s.subrange(2, s.len() as int) == encode_utf8(text)
        },
        bytes.len() < 0x1_0000 ==> {
            let s = enc_blob(bytes);
            &&& s.len() == 2 + bytes.len()
            &&& s[0] * 0x100 + s[1] == bytes.len()
            &&& s.subrange(2, s.len() as int) == bytes
        },
        bytes.len() < 0x100 ==> {
            let s = enc_short(bytes);
            &&& s.len() == 1 + bytes.len()
            &&& s[0] == bytes.len()
            &&& s.subrange(1, s.len() as int) == bytes
        },
{
    let t = encode_utf8(text);
    assert(enc_text(text).subrange(2, enc_text(text).len() as int) =~= t);
    assert(enc_blob(bytes).subrange(2, enc_blob(bytes).len() as int) =~= bytes);
    assert(enc_short(bytes).subrange(1, enc_short(bytes).len() as int) =~= bytes);
}

/// What a length in front announces is read, and nothing is where the bytes end
/// before; a text needs to be one.
pub proof fn law_announced_bytes_are_read(s: Seq<u8>)
    ensures
        s.len() >= 2 ==> ({
            let n = s[0] * 0x100 + s[1];
            &&& s.len() >= 2 + n ==> split_blob(s) == Some(
                (s.subrange(2, 2 + n), s.subrange(2 + n, s.len() as int)),
            )
            &&& s.len() < 2 + n ==> split_blob(s) is None && split_text(s) is None
            &&& s.len() >= 2 + n && valid_utf8(s.subrange(2, 2 + n)) ==> split_text(s) == Some(
                (decode_utf8(s.subrange(2, 2 + n)), s.subrange(2 + n, s.len() as int)),
            )
            &&& s.len() >= 2 + n && !valid_utf8(s.subrange(2, 2 + n)) ==> split_text(s) is None
        }),
        s.len() >= 1 ==> ({
            let n = s[0] as int;
            &&& s.len() >= 1 + n ==> split_short(s) == Some(
                (s.subrange(1, 1 + n), s.subrange(1 + n, s.len() as int)),
            )
            &&& s.len() < 1 + n ==> split_short(s) is None
        }),
{
    if s.len() >= 2 {
        let n = s[0] * 0x100 + s[1];
        let rest = s.subrange(2, s.len() as int);
        assert(split_u16(s) == Some((n as u16, rest)));
        if s.len() >= 2 + n {
            assert(rest.subrange(0, n) =~= s.subrange(2, 2 + n));
            assert(rest.subrange(n, rest.len() as int) =~= s.subrange(2 + n, s.len() as int));
        }
    }
    if s.len() >= 1 {
        let n = s[0] as int;
        let rest = s.subrange(1, s.len() as int);
        if s.len() >= 1 + n {
            assert(rest.subrange(0, n) =~= s.subrange(1, 1 + n));
            assert(rest.subrange(n, rest.len() as int) =~= s.subrange(1 + n, s.len() as int));
        }
    }
}

} // verus!
