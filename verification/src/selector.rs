//! Selectors: the protocol class and metadata by which a service is found.
use crate::bytes::{be16, enc_text, put_bytes, put_text, put_u8, split_text, split_u8, Reader};
use crate::crypto::{sha256, sha256_of};
use crate::ids::{id_char, id_text, Tenant};
use crate::text::{
    lemma_precedes_asymmetric, lemma_precedes_transitive, lemma_utf8_injective, precedes, rank_bytes,
    same_text, Rank,
};
use vstd::prelude::*;
use vstd::utf8::encode_utf8;

verus! {

/// The longest canonical form of a selector without a tenant.
pub const MAX_SELECTOR_BYTES: usize = 4096;

/// The most metadata entries of a selector.
pub const MAX_METADATA: usize = 32;

/// How the bytes of a tunnel are treated.
#[derive(Clone, Copy, Debug, PartialEq, Eq, Hash, Structural)]
pub enum ProtocolClass {
    Http,
    TlsPassthrough,
    Tcp,
}

/// The byte that stands for a protocol class.
pub open spec fn protocol_wire(class: ProtocolClass) -> u8 {
    match class {
        ProtocolClass::Http => 0,
        ProtocolClass::TlsPassthrough => 1,
        ProtocolClass::Tcp => 2,
    }
}

impl ProtocolClass {
    /// The byte that stands for the class.
    pub fn wire(self) -> (r: u8)
        ensures
            r == protocol_wire(self),
    {
        match self {
            ProtocolClass::Http => 0,
            ProtocolClass::TlsPassthrough => 1,
            ProtocolClass::Tcp => 2,
        }
    }

    /// The class that a byte stands for.
    pub fn from_wire(byte: u8) -> (r: Option<ProtocolClass>)
        ensures
            match r {
                Some(class) => protocol_wire(class) == byte,
                None => forall|class: ProtocolClass| #[trigger] protocol_wire(class) != byte,
            },
    {
        match byte {
            0 => Some(ProtocolClass::Http),
            1 => Some(ProtocolClass::TlsPassthrough),
            2 => Some(ProtocolClass::Tcp),
            _ => None,
        }
    }
}

#[derive(Clone, Copy, Debug, PartialEq, Eq, Structural)]
pub enum SelectorError {
    InvalidMetadataKey,
    InvalidMetadataValue,
    MetadataCount,
    TooLarge,
    InvalidIdentifier,
    ServiceCount,
    DuplicateService,
}

/// The characters that a key may start with.
pub open spec fn key_start(c: char) -> bool {
    'a' <= c <= 'z'
}

/// The characters that a key may go on with.
pub open spec fn key_char(c: char) -> bool {
    ||| 'a' <= c <= 'z'
    ||| '0' <= c <= '9'
    ||| c == '.'
    ||| c == '-'
    ||| c == '_'
}

/// What a valid metadata key is: up to sixty-four characters that start with a
/// letter, outside the reserved names that start with `p2x.`.
pub open spec fn key_text(s: Seq<char>) -> bool {
    &&& 1 <= s.len() <= 64
    &&& key_start(s[0])
    &&& forall|i: int| 0 <= i < s.len() ==> key_char(#[trigger] s[i])
    &&& !reserved_key(s)
}

/// Whether a name starts with `p2x.`.
pub open spec fn reserved_key(s: Seq<char>) -> bool {
    s.len() >= 4 && s[0] == 'p' && s[1] == '2' && s[2] == 'x' && s[3] == '.'
}

/// Whether a character is white space: the characters with the Unicode
/// property `White_Space`.
pub open spec fn white_space(c: char) -> bool {
    ||| '\u{9}' <= c <= '\u{d}'
    ||| c == ' '
    ||| c == '\u{85}'
    ||| c == '\u{a0}'
    ||| c == '\u{1680}'
    ||| '\u{2000}' <= c <= '\u{200a}'
    ||| c == '\u{2028}'
    ||| c == '\u{2029}'
    ||| c == '\u{202f}'
    ||| c == '\u{205f}'
    ||| c == '\u{3000}'
}

/// A text without the white space at its ends.
pub open spec fn trimmed(s: Seq<char>) -> Seq<char>
    decreases s.len(),
{
    if s.len() == 0 {
        s
    } else if white_space(s[0]) {
        trimmed(s.subrange(1, s.len() as int))
    } else if white_space(s.last()) {
        trimmed(s.drop_last())
    } else {
        s
    }
}

/// Calls `str::trim`, which takes away the characters with the Unicode
/// property `White_Space` at both ends of a text and nothing else.
#[verifier::external_body]
fn trim(text: &str) -> (r: &str)
    ensures
        r@ == trimmed(text@),
        r@.len() > 0 ==> !white_space(r@[0]) && !white_space(r@.last()),
{
    text.trim()
}

/// Taking white space away twice is taking it away once.
pub proof fn lemma_trimmed_twice(s: Seq<char>)
    ensures
        trimmed(trimmed(s)) == trimmed(s),
    decreases s.len(),
{
    if s.len() > 0 {
        if white_space(s[0]) {
            lemma_trimmed_twice(s.subrange(1, s.len() as int));
        } else if white_space(s.last()) {
            lemma_trimmed_twice(s.drop_last());
        }
    }
}

/// What a stored metadata value is: text of one to 256 bytes without white
/// space at its ends.
pub open spec fn value_text(s: Seq<char>) -> bool {
    &&& trimmed(s) == s
    &&& s.len() > 0
    &&& encode_utf8(s).len() <= 256
}

/// The name of a piece of metadata.
#[derive(Debug, PartialEq, Eq, Hash, PartialOrd, Ord)]
pub struct MetadataKey {
    value: String,
}

impl View for MetadataKey {
    type V = Seq<char>;

    closed spec fn view(&self) -> Seq<char> {
        self.value@
    }
}

fn key_byte(b: u8, first: bool) -> (r: bool)
    requires
        b < 128,
    ensures
        r == if first {
            key_start(b as char)
        } else {
            key_char(b as char)
        },
{
    let c = b as char;
    ('a' <= c && c <= 'z') || (!first && (('0' <= c && c <= '9') || c == '.' || c == '-' || c
        == '_'))
}

/// A key's UTF-8 form has one byte for each character.
pub proof fn lemma_key_utf8(s: Seq<char>)
    requires
        key_text(s),
    ensures
        encode_utf8(s).len() == s.len(),
{
    assert(vstd::utf8::is_ascii_chars(s));
    vstd::utf8::is_ascii_chars_encode_utf8(s);
}

impl MetadataKey {
    #[verifier::type_invariant]
    pub open spec fn valid(self) -> bool {
        key_text(self@)
    }

    /// Accepts exactly the valid keys.
    pub fn new(value: &str) -> (r: Result<Self, SelectorError>)
        ensures
            match r {
                Ok(key) => key_text(value@) && key@ == value@,
                Err(error) => !key_text(value@) && error == SelectorError::InvalidMetadataKey,
            },
    {
        if !value.is_ascii() {
            proof {
                if key_text(value@) {
                    assert(vstd::utf8::is_ascii_chars(value@));
                }
            }
            return Err(SelectorError::InvalidMetadataKey);
        }
        let bytes = value.as_bytes();
        proof {
            vstd::utf8::is_ascii_chars_encode_utf8(value@);
        }
        if bytes.len() == 0 || bytes.len() > 64 {
            return Err(SelectorError::InvalidMetadataKey);
        }
        let mut i: usize = 0;
        while i < bytes.len()
            invariant
                i <= bytes@.len(),
                bytes@.len() == value@.len(),
                forall|j: int| 0 <= j < value@.len() ==> value@[j] as u8 == #[trigger] bytes@[j],
                vstd::utf8::is_ascii_chars(value@),
                i > 0 ==> key_start(value@[0]),
                forall|j: int| 0 <= j < i ==> key_char(#[trigger] value@[j]),
            decreases bytes@.len() - i,
        {
            proof {
                let c = value@[i as int];
                assert('\0' <= c <= '\u{7f}');
                assert(c as u8 == bytes@[i as int]);
                assert((c as u8) as char == c);
            }
            if !key_byte(bytes[i], i == 0) {
                assert(!key_text(value@)) by {
                    if key_text(value@) {
                        assert(key_char(value@[i as int]));
                    }
                }
                return Err(SelectorError::InvalidMetadataKey);
            }
            i = i + 1;
        }
        let reserved = bytes.len() >= 4 && bytes[0] as char == 'p' && bytes[1] as char == '2'
            && bytes[2] as char == 'x' && bytes[3] as char == '.';
        proof {
            if bytes@.len() >= 4 {
                assert forall|j: int| 0 <= j < 4 implies (#[trigger] bytes@[j]) as char == value@[j] by {
                    let c = value@[j];
                    assert('\0' <= c <= '\u{7f}');
                    assert((c as u8) as char == c);
                }
            }
            assert(reserved == reserved_key(value@));
        }
        if reserved {
            return Err(SelectorError::InvalidMetadataKey);
        }
        Ok(MetadataKey { value: value.to_owned() })
    }

    pub fn as_str(&self) -> (r: &str)
        ensures
            r@ == self@,
            key_text(self@),
    {
        proof {
            use_type_invariant(self);
        }
        self.value.as_str()
    }
}

impl Clone for MetadataKey {
    fn clone(&self) -> (r: Self)
        ensures
            r@ == self@,
    {
        proof {
            use_type_invariant(self);
        }
        MetadataKey { value: self.value.clone() }
    }
}

/// The value of a piece of metadata.
#[derive(Debug, PartialEq, Eq, Hash)]
pub struct MetadataValue {
    value: String,
}

impl View for MetadataValue {
    type V = Seq<char>;

    closed spec fn view(&self) -> Seq<char> {
        self.value@
    }
}

impl MetadataValue {
    #[verifier::type_invariant]
    pub open spec fn valid(self) -> bool {
        value_text(self@)
    }

    /// Stores a text without the white space at its ends, where what is left is
    /// neither empty nor longer than 256 bytes.
    pub fn new(value: &str) -> (r: Result<Self, SelectorError>)
        ensures
            match r {
                Ok(v) => value_text(trimmed(value@)) && v@ == trimmed(value@),
                Err(error) => !value_text(trimmed(value@)) && error
                    == SelectorError::InvalidMetadataValue,
            },
    {
        let value_trimmed = trim(value);
        proof {
            lemma_trimmed_twice(value@);
        }
        if value_trimmed.is_empty() || value_trimmed.as_bytes().len() > 256 {
            return Err(SelectorError::InvalidMetadataValue);
        }
        Ok(MetadataValue { value: value_trimmed.to_owned() })
    }

    pub fn as_str(&self) -> (r: &str)
        ensures
            r@ == self@,
            value_text(self@),
    {
        proof {
            use_type_invariant(self);
        }
        self.value.as_str()
    }
}

impl Clone for MetadataValue {
    fn clone(&self) -> (r: Self)
        ensures
            r@ == self@,
    {
        proof {
            use_type_invariant(self);
        }
        MetadataValue { value: self.value.clone() }
    }
}

/// A metadata entry as the contracts see it: key and value.
pub type Pair = (Seq<char>, Seq<char>);

/// Whether entries stand in strictly ascending order of their keys.
pub open spec fn ascending(pairs: Seq<Pair>) -> bool {
    forall|i: int, j: int|
        0 <= i < j < pairs.len() ==> precedes(
            encode_utf8((#[trigger] pairs[i]).0),
            encode_utf8((#[trigger] pairs[j]).0),
        )
}

/// Whether every entry is a valid key with a valid value.
pub open spec fn valid_pairs(pairs: Seq<Pair>) -> bool {
    forall|i: int| 0 <= i < pairs.len() ==> key_text((#[trigger] pairs[i]).0) && value_text(pairs[i].1)
}

/// The entries of a table as the contracts see them.
pub open spec fn pairs_of(entries: Seq<(MetadataKey, MetadataValue)>) -> Seq<Pair> {
    Seq::new(entries.len(), |i: int| (entries[i].0@, entries[i].1@))
}

/// A table from keys to values, in the order of the keys.
#[derive(Debug, PartialEq, Eq, Hash)]
pub struct Metadata {
    entries: Vec<(MetadataKey, MetadataValue)>,
}

impl View for Metadata {
    type V = Seq<Pair>;

    closed spec fn view(&self) -> Seq<Pair> {
        pairs_of(self.entries@)
    }
}

impl Metadata {
    #[verifier::type_invariant]
    pub open spec fn valid(self) -> bool {
        ascending(self@) && valid_pairs(self@)
    }

    pub fn new() -> (r: Self)
        ensures
            r@ == Seq::<Pair>::empty(),
    {
        let entries: Vec<(MetadataKey, MetadataValue)> = Vec::new();
        assert(pairs_of(entries@) =~= Seq::<Pair>::empty());
        Metadata { entries }
    }

    pub fn len(&self) -> (r: usize)
        ensures
            r == self@.len(),
    {
        self.entries.len()
    }

    pub fn is_empty(&self) -> (r: bool)
        ensures
            r == (self@.len() == 0),
    {
        self.entries.len() == 0
    }

    /// The key at place `i`.
    pub fn key_at(&self, i: usize) -> (r: &MetadataKey)
        requires
            i < self@.len(),
        ensures
            r@ == self@[i as int].0,
    {
        &self.entries[i].0
    }

    /// The value at place `i`.
    pub fn value_at(&self, i: usize) -> (r: &MetadataValue)
        requires
            i < self@.len(),
        ensures
            r@ == self@[i as int].1,
    {
        &self.entries[i].1
    }

    /// The place of a key: where it stands, or where it would have to stand.
    fn locate(&self, key: &MetadataKey) -> (r: (usize, bool))
        ensures
            r.0 <= self@.len(),
            r.1 ==> r.0 < self@.len() && self@[r.0 as int].0 == key@,
            forall|j: int| 0 <= j < r.0 ==> precedes(encode_utf8((#[trigger] self@[j]).0), encode_utf8(key@)),
            !r.1 ==> forall|j: int|
                r.0 <= j < self@.len() ==> precedes(encode_utf8(key@), encode_utf8((#[trigger] self@[j]).0)),
    {
        proof {
            use_type_invariant(self);
        }
        let mut i: usize = 0;
        while i < self.entries.len()
            invariant
                i <= self.entries@.len(),
                ascending(self@),
                forall|j: int|
                    0 <= j < i ==> precedes(encode_utf8((#[trigger] self@[j]).0), encode_utf8(key@)),
            decreases self.entries@.len() - i,
        {
            let here = self.entries[i].0.as_str();
            match rank_bytes(here.as_bytes(), key.as_str().as_bytes()) {
                Rank::Before => {},
                Rank::Same => {
                    proof {
                        lemma_utf8_injective(self@[i as int].0, key@);
                    }
                    return (i, true);
                },
                Rank::After => {
                    assert forall|j: int| i <= j < self@.len() implies precedes(
                        encode_utf8(key@),
                        encode_utf8((#[trigger] self@[j]).0),
                    ) by {
                        if j > i {
                            lemma_precedes_transitive(
                                encode_utf8(key@),
                                encode_utf8(self@[i as int].0),
                                encode_utf8(self@[j].0),
                            );
                        }
                    }
                    return (i, false);
                },
            }
            i = i + 1;
        }
        (i, false)
    }

    /// The value of a key.
    pub fn get(&self, key: &MetadataKey) -> (r: Option<&MetadataValue>)
        ensures
            match r {
                Some(v) => self@.contains((key@, v@)),
                None => forall|i: int| 0 <= i < self@.len() ==> (#[trigger] self@[i]).0 != key@,
            },
    {
        let (i, found) = self.locate(key);
        if found {
            let v = &self.entries[i].1;
            assert(self@[i as int] == (key@, v@));
            Some(v)
        } else {
            assert forall|j: int| 0 <= j < self@.len() implies (#[trigger] self@[j]).0 != key@ by {
                if j < i {
                    lemma_precedes_asymmetric(encode_utf8(self@[j].0), encode_utf8(key@));
                } else {
                    lemma_precedes_asymmetric(encode_utf8(key@), encode_utf8(self@[j].0));
                }
            }
            None
        }
    }

    /// Adds an entry behind all others, if its key comes after theirs.
    pub fn append(&mut self, key: MetadataKey, value: MetadataValue) -> (r: bool)
        ensures
            r == comes_after(old(self)@, key@),
            final(self)@ == if r {
                old(self)@.push((key@, value@))
            } else {
                old(self)@
            },
    {
        proof {
            use_type_invariant(&*self);
            use_type_invariant(&key);
            use_type_invariant(&value);
        }
        let ghost before = self@;
        let ghost k = key@;
        let ghost v = value@;
        let n: usize = self.entries.len();
        if n > 0 {
            let last = self.entries[n - 1].0.as_str();
            match rank_bytes(last.as_bytes(), key.as_str().as_bytes()) {
                Rank::Before => {},
                Rank::Same => {
                    proof {
                        if precedes(encode_utf8(last@), encode_utf8(k)) {
                            lemma_precedes_asymmetric(encode_utf8(last@), encode_utf8(k));
                        }
                    }
                    return false;
                },
                Rank::After => {
                    proof {
                        lemma_precedes_asymmetric(encode_utf8(k), encode_utf8(last@));
                    }
                    return false;
                },
            }
        }
        let mut entries: Vec<(MetadataKey, MetadataValue)> = Vec::new();
        std::mem::swap(&mut entries, &mut self.entries);
        entries.push((key, value));
        proof {
            assert(pairs_of(entries@) =~= before.push((k, v)));
            lemma_push_ascending(before, (k, v));
        }
        self.entries = entries;
        true
    }

    /// Gives `key` the value `value`, in place of one that it had.
    pub fn insert(&mut self, key: MetadataKey, value: MetadataValue)
        ensures
            forall|p: Pair|
                #[trigger] final(self)@.contains(p) <==> p == (key@, value@) || (old(self)@.contains(p)
                    && p.0 != key@),
            final(self)@.len() == old(self)@.len() + if (exists|i: int|
                0 <= i < old(self)@.len() && (#[trigger] old(self)@[i]).0 == key@) {
                0int
            } else {
                1int
            },
    {
        proof {
            use_type_invariant(&*self);
            use_type_invariant(&key);
            use_type_invariant(&value);
        }
        let (i, found) = self.locate(&key);
        let ghost before = self@;
        let ghost k = key@;
        let ghost v = value@;
        let mut entries: Vec<(MetadataKey, MetadataValue)> = Vec::new();
        std::mem::swap(&mut entries, &mut self.entries);
        if found {
            entries.set(i, (key, value));
            let ghost after = pairs_of(entries@);
            proof {
                assert(after =~= before.update(i as int, (k, v)));
                assert forall|p: Pair| #[trigger] after.contains(p) <==> p == (k, v) || (
                before.contains(p) && p.0 != k) by {
                    lemma_update_contains(before, i as int, (k, v), p);
                }
                assert(before[i as int].0 == k);
            }
        } else {
            entries.insert(i, (key, value));
            let ghost after = pairs_of(entries@);
            proof {
                assert(after =~= before.insert(i as int, (k, v)));
                assert forall|j: int| 0 <= j < before.len() implies (#[trigger] before[j]).0 != k by {
                    if j < i {
                        lemma_precedes_asymmetric(encode_utf8(before[j].0), encode_utf8(k));
                    } else {
                        lemma_precedes_asymmetric(encode_utf8(k), encode_utf8(before[j].0));
                    }
                }
                assert forall|p: Pair| #[trigger] after.contains(p) <==> p == (k, v) || (
                before.contains(p) && p.0 != k) by {
                    lemma_insert_contains(before, i as int, (k, v), p);
                }
            }
        }
        self.entries = entries;
    }
}

impl Clone for Metadata {
    fn clone(&self) -> (r: Self)
        ensures
            r@ == self@,
    {
        proof {
            use_type_invariant(self);
        }
        let mut entries: Vec<(MetadataKey, MetadataValue)> = Vec::new();
        let mut i: usize = 0;
        while i < self.entries.len()
            invariant
                i <= self.entries@.len(),
                entries@.len() == i,
                forall|j: int|
                    0 <= j < i ==> (#[trigger] entries@[j]).0@ == self.entries@[j].0@ && entries@[j].1@
                        == self.entries@[j].1@,
            decreases self.entries@.len() - i,
        {
            let key = self.entries[i].0.clone();
            let value = self.entries[i].1.clone();
            entries.push((key, value));
            i = i + 1;
        }
        assert(pairs_of(entries@) =~= pairs_of(self.entries@));
        Metadata { entries }
    }
}

/// Whether a key comes after all keys of a sorted table.
pub open spec fn comes_after(pairs: Seq<Pair>, key: Seq<char>) -> bool {
    pairs.len() == 0 || precedes(encode_utf8(pairs.last().0), encode_utf8(key))
}

proof fn lemma_push_ascending(pairs: Seq<Pair>, p: Pair)
    requires
        ascending(pairs),
        comes_after(pairs, p.0),
    ensures
        ascending(pairs.push(p)),
{
    let after = pairs.push(p);
    assert forall|i: int, j: int| 0 <= i < j < after.len() implies precedes(
        encode_utf8((#[trigger] after[i]).0),
        encode_utf8((#[trigger] after[j]).0),
    ) by {
        if j == pairs.len() && i < pairs.len() - 1 {
            lemma_precedes_transitive(
                encode_utf8(pairs[i].0),
                encode_utf8(pairs.last().0),
                encode_utf8(p.0),
            );
        }
    }
}

proof fn lemma_update_contains(s: Seq<Pair>, i: int, x: Pair, p: Pair)
    requires
        0 <= i < s.len(),
        s[i].0 == x.0,
        ascending(s),
    ensures
        s.update(i, x).contains(p) <==> p == x || (s.contains(p) && p.0 != x.0),
{
    let t = s.update(i, x);
    if t.contains(p) {
        let j = choose|j: int| 0 <= j < t.len() && t[j] == p;
        if j != i {
            assert(s[j] == p);
            if j < i {
                lemma_precedes_asymmetric(encode_utf8(s[j].0), encode_utf8(s[i].0));
            } else {
                lemma_precedes_asymmetric(encode_utf8(s[i].0), encode_utf8(s[j].0));
            }
        }
    }
    if p == x {
        assert(t[i] == p);
    }
    if s.contains(p) && p.0 != x.0 {
        let j = choose|j: int| 0 <= j < s.len() && s[j] == p;
        assert(t[j] == p);
    }
}

proof fn lemma_insert_contains(s: Seq<Pair>, i: int, x: Pair, p: Pair)
    requires
        0 <= i <= s.len(),
        forall|j: int| 0 <= j < s.len() ==> (#[trigger] s[j]).0 != x.0,
    ensures
        s.insert(i, x).contains(p) <==> p == x || (s.contains(p) && p.0 != x.0),
{
    let t = s.insert(i, x);
    if t.contains(p) {
        let j = choose|j: int| 0 <= j < t.len() && t[j] == p;
        if j < i {
            assert(s[j] == p);
        } else if j > i {
            assert(s[j - 1] == p);
        }
    }
    if p == x {
        assert(t[i] == p);
    }
    if s.contains(p) && p.0 != x.0 {
        let j = choose|j: int| 0 <= j < s.len() && s[j] == p;
        if j < i {
            assert(t[j] == p);
        } else {
            assert(t[j + 1] == p);
        }
    }
}

/// What a selector says.
#[verifier::ext_equal]
pub struct SelectorModel {
    pub protocol: ProtocolClass,
    pub metadata: Seq<Pair>,
}

/// The entries one after the other, each as two length-prefixed texts.
pub open spec fn enc_pairs(pairs: Seq<Pair>) -> Seq<u8>
    decreases pairs.len(),
{
    if pairs.len() == 0 {
        Seq::empty()
    } else {
        enc_pairs(pairs.drop_last()) + (enc_text(pairs.last().0) + enc_text(pairs.last().1))
    }
}

/// The canonical form of a selector: protocol, number of entries, entries.
pub open spec fn selector_bytes(s: SelectorModel) -> Seq<u8> {
    seq![protocol_wire(s.protocol), s.metadata.len() as u8] + enc_pairs(s.metadata)
}

/// What a valid selector is.
pub open spec fn valid_selector(s: SelectorModel) -> bool {
    &&& 1 <= s.metadata.len() <= MAX_METADATA
    &&& ascending(s.metadata)
    &&& valid_pairs(s.metadata)
    &&& selector_bytes(s).len() <= MAX_SELECTOR_BYTES
}

/// The canonical form within a tenant.
pub open spec fn scoped_selector_bytes(tenant: Option<Seq<char>>, s: SelectorModel) -> Seq<u8> {
    match tenant {
        Some(tenant) => enc_text(tenant) + selector_bytes(s),
        None => selector_bytes(s),
    }
}

/// The digest by which a selector is known within a tenant.
pub open spec fn fingerprint_of(tenant: Seq<char>, s: SelectorModel) -> Seq<u8> {
    sha256_of(encode_utf8("p2x-selector-v1\0"@) + scoped_selector_bytes(Some(tenant), s))
}

/// Appends the canonical form of entries.
fn put_selector(out: &mut Vec<u8>, protocol: ProtocolClass, metadata: &Metadata)
    requires
        metadata@.len() <= MAX_METADATA,
    ensures
        final(out)@ == old(out)@ + selector_bytes(SelectorModel { protocol, metadata: metadata@ }),
{
    let ghost before = out@;
    put_u8(out, protocol.wire());
    put_u8(out, metadata.len() as u8);
    let ghost head = seq![protocol_wire(protocol), metadata@.len() as u8];
    assert(out@ =~= before + head);
    let mut i: usize = 0;
    assert(metadata@.take(0) =~= Seq::<Pair>::empty());
    assert(out@ =~= before + head + enc_pairs(metadata@.take(0)));
    while i < metadata.len()
        invariant
            i <= metadata@.len(),
            out@ == before + head + enc_pairs(metadata@.take(i as int)),
        decreases metadata@.len() - i,
    {
        let ghost so_far = enc_pairs(metadata@.take(i as int));
        let ghost p = metadata@[i as int];
        let key = metadata.key_at(i).as_str();
        let value = metadata.value_at(i).as_str();
        proof {
            lemma_key_utf8(key@);
        }
        put_text(out, key);
        put_text(out, value);
        proof {
            assert(metadata@.take(i + 1).drop_last() =~= metadata@.take(i as int));
            assert(metadata@.take(i + 1).last() == p);
            assert(out@ =~= before + head + (so_far + (enc_text(p.0) + enc_text(p.1))));
        }
        i = i + 1;
    }
    proof {
        assert(metadata@.take(i as int) =~= metadata@);
        assert(out@ =~= before + (head + enc_pairs(metadata@)));
    }
}

/// Which services are meant: a protocol class and metadata.
#[derive(Debug, PartialEq, Eq, Hash)]
pub struct UnscopedSelector {
    protocol: ProtocolClass,
    metadata: Metadata,
}

impl View for UnscopedSelector {
    type V = SelectorModel;

    closed spec fn view(&self) -> SelectorModel {
        SelectorModel { protocol: self.protocol, metadata: self.metadata@ }
    }
}

impl UnscopedSelector {
    #[verifier::type_invariant]
    pub open spec fn valid(self) -> bool {
        valid_selector(self@)
    }

    /// Accepts between one and thirty-two entries whose canonical form is not
    /// too long.
    pub fn new(protocol: ProtocolClass, metadata: Metadata) -> (r: Result<Self, SelectorError>)
        ensures
            ({
                let s = SelectorModel { protocol, metadata: metadata@ };
                match r {
                    Ok(selector) => valid_selector(s) && selector@ == s,
                    Err(error) => error == if 1 <= metadata@.len() <= MAX_METADATA {
                        SelectorError::TooLarge
                    } else {
                        SelectorError::MetadataCount
                    } && !valid_selector(s),
                }
            }),
    {
        proof {
            use_type_invariant(&metadata);
        }
        if metadata.is_empty() || metadata.len() > MAX_METADATA {
            return Err(SelectorError::MetadataCount);
        }
        let mut bytes: Vec<u8> = Vec::new();
        put_selector(&mut bytes, protocol, &metadata);
        assert(bytes@ =~= selector_bytes(SelectorModel { protocol, metadata: metadata@ }));
        if bytes.len() > MAX_SELECTOR_BYTES {
            return Err(SelectorError::TooLarge);
        }
        Ok(UnscopedSelector { protocol, metadata })
    }

    pub fn protocol(&self) -> (r: ProtocolClass)
        ensures
            r == self@.protocol,
    {
        self.protocol
    }

    pub fn metadata(&self) -> (r: &Metadata)
        ensures
            r@ == self@.metadata,
    {
        &self.metadata
    }

    /// The canonical form, within a tenant where one is given.
    pub fn canonical_bytes(&self, tenant: Option<&Tenant>) -> (r: Vec<u8>)
        ensures
            r@ == scoped_selector_bytes(
                match tenant {
                    Some(t) => Some(t@),
                    None => None,
                },
                self@,
            ),
    {
        proof {
            use_type_invariant(self);
        }
        let mut out: Vec<u8> = Vec::new();
        if let Some(tenant) = tenant {
            let name = tenant.as_str();
            proof {
                crate::ids::lemma_id_utf8(name@);
            }
            put_text(&mut out, name);
            assert(out@ =~= enc_text(name@));
        }
        put_selector(&mut out, self.protocol, &self.metadata);
        proof {
            if tenant is None {
                assert(out@ =~= selector_bytes(self@));
            }
        }
        out
    }

    /// The digest by which the selector is known within a tenant.
    pub fn fingerprint(&self, tenant: &Tenant) -> (r: [u8; 32])
        ensures
            r@ == fingerprint_of(tenant@, self@),
    {
        let mut message: Vec<u8> = vstd::slice::slice_to_vec("p2x-selector-v1\0".as_bytes());
        let canonical = self.canonical_bytes(Some(tenant));
        put_bytes(&mut message, canonical.as_slice());
        sha256(message.as_slice())
    }

    /// Whether two selectors are the same.
    pub fn same(&self, other: &Self) -> (r: bool)
        ensures
            r == (self@ == other@),
    {
        if self.protocol != other.protocol || self.metadata.len() != other.metadata.len() {
            return false;
        }
        let mut i: usize = 0;
        while i < self.metadata.len()
            invariant
                i <= self.metadata@.len(),
                self.metadata@.len() == other.metadata@.len(),
                forall|j: int| 0 <= j < i ==> self.metadata@[j] == other.metadata@[j],
            decreases self.metadata@.len() - i,
        {
            let same_key = same_text(
                self.metadata.key_at(i).as_str(),
                other.metadata.key_at(i).as_str(),
            );
            let same_value = same_text(
                self.metadata.value_at(i).as_str(),
                other.metadata.value_at(i).as_str(),
            );
            if !same_key || !same_value {
                return false;
            }
            i = i + 1;
        }
        assert(self.metadata@ =~= other.metadata@);
        true
    }
}

impl Clone for UnscopedSelector {
    fn clone(&self) -> (r: Self)
        ensures
            r@ == self@,
    {
        proof {
            use_type_invariant(self);
        }
        let metadata = self.metadata.clone();
        UnscopedSelector { protocol: self.protocol, metadata }
    }
}

/// A selector within a tenant.
#[derive(Debug, PartialEq, Eq, Hash)]
pub struct ScopedSelector {
    tenant: Tenant,
    selector: UnscopedSelector,
}

impl ScopedSelector {
    pub closed spec fn spec_tenant(self) -> Tenant {
        self.tenant
    }

    pub closed spec fn spec_selector(self) -> UnscopedSelector {
        self.selector
    }

    pub fn new(tenant: Tenant, selector: UnscopedSelector) -> (r: Self)
        ensures
            r.spec_tenant() == tenant,
            r.spec_selector() == selector,
    {
        ScopedSelector { tenant, selector }
    }

    pub fn tenant(&self) -> (r: &Tenant)
        ensures
            *r == self.spec_tenant(),
    {
        &self.tenant
    }

    pub fn selector(&self) -> (r: &UnscopedSelector)
        ensures
            *r == self.spec_selector(),
    {
        &self.selector
    }
}

/// The first `n` entries of a byte sequence and what follows them. Values are
/// taken without the white space at their ends.
pub open spec fn split_pairs(s: Seq<u8>, n: nat) -> Option<(Seq<Pair>, Seq<u8>)>
    decreases n,
{
    if n == 0 {
        Some((Seq::empty(), s))
    } else {
        match split_pairs(s, (n - 1) as nat) {
            None => None,
            Some((pairs, s)) => match split_text(s) {
                None => None,
                Some((key, s)) => if !key_text(key) || !comes_after(pairs, key) {
                    None
                } else {
                    match split_text(s) {
                        None => None,
                        Some((value, s)) => if value_text(trimmed(value)) {
                            Some((pairs.push((key, trimmed(value))), s))
                        } else {
                            None
                        },
                    }
                },
            },
        }
    }
}

/// The protocol class that a byte stands for.
pub open spec fn protocol_of(byte: u8) -> Option<ProtocolClass> {
    match byte {
        0 => Some(ProtocolClass::Http),
        1 => Some(ProtocolClass::TlsPassthrough),
        2 => Some(ProtocolClass::Tcp),
        _ => None,
    }
}

/// The selector with which a byte sequence starts, and what follows it.
pub open spec fn split_selector(s: Seq<u8>) -> Option<(SelectorModel, Seq<u8>)> {
    match split_u8(s) {
        None => None,
        Some((class, s)) => match protocol_of(class) {
            None => None,
            Some(protocol) => match split_u8(s) {
                None => None,
                Some((count, s)) => match split_pairs(s, count as nat) {
                    None => None,
                    Some((metadata, s)) => {
                        let selector = SelectorModel { protocol, metadata };
                        if valid_selector(selector) {
                            Some((selector, s))
                        } else {
                            None
                        }
                    },
                },
            },
        },
    }
}

proof fn lemma_split_pairs_stops(s: Seq<u8>, i: nat, n: nat)
    requires
        i <= n,
        split_pairs(s, i) is None,
    ensures
        split_pairs(s, n) is None,
    decreases n,
{
    if i < n {
        lemma_split_pairs_stops(s, i, (n - 1) as nat);
    }
}

/// Entries that were written are read back.
proof fn lemma_pairs_round_trip(pairs: Seq<Pair>, rest: Seq<u8>)
    requires
        ascending(pairs),
        valid_pairs(pairs),
    ensures
        split_pairs(enc_pairs(pairs) + rest, pairs.len()) == Some((pairs, rest)),
    decreases pairs.len(),
{
    if pairs.len() == 0 {
        assert(enc_pairs(pairs) + rest =~= rest);
        assert(pairs =~= Seq::<Pair>::empty());
    } else {
        let init = pairs.drop_last();
        let (k, v) = pairs.last();
        assert forall|i: int, j: int| 0 <= i < j < init.len() implies precedes(
            encode_utf8((#[trigger] init[i]).0),
            encode_utf8((#[trigger] init[j]).0),
        ) by {
            assert(init[i] == pairs[i] && init[j] == pairs[j]);
        }
        assert forall|i: int| 0 <= i < init.len() implies key_text((#[trigger] init[i]).0)
            && value_text(init[i].1) by {
            assert(init[i] == pairs[i]);
        }
        let tail = enc_text(k) + (enc_text(v) + rest);
        lemma_pairs_round_trip(init, tail);
        assert(enc_pairs(pairs) + rest =~= enc_pairs(init) + tail);
        lemma_key_utf8(k);
        crate::bytes::lemma_split_text(k, enc_text(v) + rest);
        crate::bytes::lemma_split_text(v, rest);
        assert(init.push((k, v)) =~= pairs);
        if init.len() > 0 {
            assert(precedes(encode_utf8(pairs[init.len() - 1].0), encode_utf8(pairs.last().0)));
        }
    }
}

/// A selector that was written is read back, whatever follows it.
pub proof fn law_selector_round_trip(selector: SelectorModel, rest: Seq<u8>)
    requires
        valid_selector(selector),
    ensures
        split_selector(selector_bytes(selector) + rest) == Some((selector, rest)),
{
    let class = protocol_wire(selector.protocol);
    let count: u8 = selector.metadata.len() as u8;
    let tail = enc_pairs(selector.metadata) + rest;
    assert(selector_bytes(selector) + rest =~= seq![class] + (seq![count] + tail));
    crate::bytes::lemma_split_u8(class, seq![count] + tail);
    crate::bytes::lemma_split_u8(count, tail);
    lemma_pairs_round_trip(selector.metadata, rest);
}

/// Whether the values among the first `n` entries already lack white space at
/// their ends.
pub open spec fn values_trimmed(s: Seq<u8>, n: nat) -> bool
    decreases n,
{
    n == 0 || (values_trimmed(s, (n - 1) as nat) && match split_pairs(s, (n - 1) as nat) {
        None => true,
        Some((_, s)) => match split_text(s) {
            None => true,
            Some((_, s)) => match split_text(s) {
                None => true,
                Some((value, _)) => trimmed(value) == value,
            },
        },
    })
}

proof fn lemma_pairs_canonical(s: Seq<u8>, n: nat)
    requires
        values_trimmed(s, n),
    ensures
        split_pairs(s, n) matches Some((pairs, rest)) ==> s == enc_pairs(pairs) + rest && pairs.len()
            == n,
    decreases n,
{
    if n == 0 {
        assert(enc_pairs(Seq::<Pair>::empty()) + s =~= s);
    } else {
        lemma_pairs_canonical(s, (n - 1) as nat);
        if let Some((pairs, s1)) = split_pairs(s, (n - 1) as nat) {
            crate::bytes::lemma_join_text(s1);
            if let Some((key, s2)) = split_text(s1) {
                crate::bytes::lemma_join_text(s2);
                if let Some((value, s3)) = split_text(s2) {
                    let all = pairs.push((key, value));
                    assert(all.drop_last() =~= pairs);
                    assert(enc_pairs(all) + s3 =~= enc_pairs(pairs) + (enc_text(key) + (enc_text(value)
                        + s3)));
                }
            }
        }
    }
}

/// Where no value had white space to take away, the bytes that were read are
/// the canonical form of the selector.
pub proof fn law_selector_is_canonical(s: Seq<u8>)
    requires
        s.len() >= 2,
        values_trimmed(s.subrange(2, s.len() as int), s[1] as nat),
    ensures
        split_selector(s) matches Some((selector, rest)) ==> s == selector_bytes(selector) + rest,
{
    if let Some((selector, rest)) = split_selector(s) {
        crate::bytes::lemma_join_u8(s);
        let s1 = (split_u8(s)->0).1;
        crate::bytes::lemma_join_u8(s1);
        let (count, s2) = split_u8(s1)->0;
        assert(s2 =~= s.subrange(2, s.len() as int));
        assert(count == s[1]);
        lemma_pairs_canonical(s2, count as nat);
        assert(s =~= selector_bytes(selector) + rest);
    }
}

/// Reads a selector.
#[verifier::loop_isolation(false)]
pub(crate) fn read_selector(reader: &mut Reader<'_>) -> (r: Option<UnscopedSelector>)
    ensures
        match split_selector(old(reader)@) {
            Some((selector, rest)) => r matches Some(v) && v@ == selector && final(reader)@ == rest,
            None => r is None,
        },
{
    let protocol = ProtocolClass::from_wire(reader.u8()?)?;
    let count: u8 = reader.u8()?;
    let ghost start = reader@;
    let mut metadata = Metadata::new();
    let mut i: u8 = 0;
    while i < count
        invariant
            i <= count,
            split_pairs(start, i as nat) == Some((metadata@, reader@)),
        decreases count - i,
    {
        let step = read_pair(reader, &mut metadata);
        if !step {
            proof {
                lemma_split_pairs_stops(start, (i + 1) as nat, count as nat);
            }
            return None;
        }
        i = i + 1;
    }
    match UnscopedSelector::new(protocol, metadata) {
        Ok(selector) => Some(selector),
        Err(_) => None,
    }
}

/// Reads one entry and adds it to the table.
fn read_pair(reader: &mut Reader<'_>, metadata: &mut Metadata) -> (r: bool)
    ensures
        match split_text(old(reader)@) {
            None => !r,
            Some((key, s)) => match split_text(s) {
                None => !r,
                Some((value, s)) => {
                    &&& r == (key_text(key) && comes_after(old(metadata)@, key) && value_text(
                        trimmed(value),
                    ))
                    &&& r ==> final(metadata)@ == old(metadata)@.push((key, trimmed(value)))
                        && final(reader)@ == s
                },
            },
        },
{
    let name = match reader.text() {
        Some(name) => name,
        None => return false,
    };
    let key = match MetadataKey::new(name.as_str()) {
        Ok(key) => key,
        Err(_) => return false,
    };
    let text = match reader.text() {
        Some(text) => text,
        None => return false,
    };
    let value = match MetadataValue::new(text.as_str()) {
        Ok(value) => value,
        Err(_) => return false,
    };
    metadata.append(key, value)
}

/// Appends the canonical form of a selector.
pub(crate) fn put_selector_bytes(out: &mut Vec<u8>, selector: &UnscopedSelector)
    ensures
        final(out)@ == old(out)@ + selector_bytes(selector@),
{
    proof {
        use_type_invariant(selector);
    }
    put_selector(out, selector.protocol, &selector.metadata);
}

/// Two tables with the same entries are the same: order is settled by the
/// keys.
pub proof fn law_metadata_is_determined_by_its_entries(a: Seq<Pair>, b: Seq<Pair>)
    requires
        ascending(a),
        ascending(b),
        forall|p: Pair| a.contains(p) <==> b.contains(p),
    ensures
        a == b,
    decreases a.len(),
{
    if a.len() == 0 {
        if b.len() > 0 {
            assert(b.contains(b[0]));
            assert(a.contains(b[0]));
        }
        assert(a =~= b);
    } else {
        assert(a.contains(a[0]));
        assert(b.contains(a[0]));
        let x = a.last();
        assert(a.contains(x));
        let ix = choose|k: int| 0 <= k < b.len() && b[k] == x;
        let y = b.last();
        assert(b.contains(y));
        let iy = choose|k: int| 0 <= k < a.len() && a[k] == y;
        if x != y {
            assert(ix < b.len() - 1);
            assert(iy < a.len() - 1);
            lemma_precedes_asymmetric(encode_utf8(b[ix].0), encode_utf8(b[b.len() - 1].0));
            assert(precedes(encode_utf8(a[iy].0), encode_utf8(a[a.len() - 1].0)));
        }
        let a1 = a.drop_last();
        let b1 = b.drop_last();
        assert forall|p: Pair| a1.contains(p) <==> b1.contains(p) by {
            if a1.contains(p) {
                let k = choose|k: int| 0 <= k < a1.len() && a1[k] == p;
                assert(a[k] == p);
                assert(a.contains(p));
                let l = choose|l: int| 0 <= l < b.len() && b[l] == p;
                lemma_precedes_asymmetric(encode_utf8(a[k].0), encode_utf8(a[a.len() - 1].0));
                assert(l < b.len() - 1);
                assert(b1[l] == p);
            }
            if b1.contains(p) {
                let k = choose|k: int| 0 <= k < b1.len() && b1[k] == p;
                assert(b[k] == p);
                assert(b.contains(p));
                let l = choose|l: int| 0 <= l < a.len() && a[l] == p;
                lemma_precedes_asymmetric(encode_utf8(b[k].0), encode_utf8(b[b.len() - 1].0));
                assert(l < a.len() - 1);
                assert(a1[l] == p);
            }
        }
        law_metadata_is_determined_by_its_entries(a1, b1);
        assert(a =~= a1.push(x));
        assert(b =~= b1.push(y));
    }
}

proof fn lemma_pairs_start(pairs: Seq<Pair>)
    requires
        valid_pairs(pairs),
        pairs.len() > 0,
    ensures
        enc_pairs(pairs).len() >= 2,
        enc_pairs(pairs)[0] == 0,
    decreases pairs.len(),
{
    let init = pairs.drop_last();
    let key = pairs.last().0;
    assert(key_text(pairs[pairs.len() - 1].0));
    if init.len() == 0 {
        lemma_key_utf8(key);
        assert(enc_text(key)[0] == 0);
        assert(enc_pairs(init) =~= Seq::<u8>::empty());
        assert(enc_pairs(pairs) =~= enc_text(key) + enc_text(pairs.last().1));
    } else {
        assert forall|i: int| 0 <= i < init.len() implies key_text((#[trigger] init[i]).0)
            && value_text(init[i].1) by {
            assert(init[i] == pairs[i]);
        }
        lemma_pairs_start(init);
        assert(enc_pairs(pairs)[0] == enc_pairs(init)[0]);
    }
}

proof fn lemma_tenant_shows(tenant: Seq<char>, a: SelectorModel, b: SelectorModel)
    requires
        id_text(tenant),
        valid_selector(a),
        valid_selector(b),
    ensures
        scoped_selector_bytes(Some(tenant), a) != scoped_selector_bytes(None, b),
{
    assert(vstd::utf8::is_ascii_chars(tenant));
    vstd::utf8::is_ascii_chars_encode_utf8(tenant);
    lemma_pairs_start(b.metadata);
    assert(id_char(tenant[0]));
    assert(scoped_selector_bytes(Some(tenant), a)[2] == tenant[0] as u8);
    assert(scoped_selector_bytes(None, b)[2] == enc_pairs(b.metadata)[0]);
}

/// Two canonical forms are the same exactly if they are of the same tenant,
/// or both of none, the same protocol class and the same entries, in whatever
/// order these were given. Within a tenant the form is the name, preceded by
/// its length, and then the form without a tenant.
pub proof fn law_canonical_form_tells_selectors_apart(
    tenant_a: Option<Seq<char>>,
    a: SelectorModel,
    tenant_b: Option<Seq<char>>,
    b: SelectorModel,
)
    requires
        valid_selector(a),
        valid_selector(b),
        tenant_a matches Some(t) ==> id_text(t),
        tenant_b matches Some(t) ==> id_text(t),
    ensures
        scoped_selector_bytes(tenant_a, a) == scoped_selector_bytes(tenant_b, b) <==> (tenant_a
            == tenant_b && a.protocol == b.protocol && forall|p: Pair|
            #[trigger] a.metadata.contains(p) <==> b.metadata.contains(p)),
        tenant_a matches Some(t) ==> scoped_selector_bytes(tenant_a, a) == be16(
            encode_utf8(t).len() as u16,
        ) + encode_utf8(t) + scoped_selector_bytes(None, a),
{
    let none = Seq::<u8>::empty();
    let same_entries = forall|p: Pair| #[trigger]
        a.metadata.contains(p) <==> b.metadata.contains(p);
    if same_entries {
        law_metadata_is_determined_by_its_entries(a.metadata, b.metadata);
    }
    law_selector_round_trip(a, none);
    law_selector_round_trip(b, none);
    assert(selector_bytes(a) + none =~= selector_bytes(a));
    assert(selector_bytes(b) + none =~= selector_bytes(b));
    match (tenant_a, tenant_b) {
        (Some(s), Some(t)) => {
            crate::ids::lemma_id_utf8(s);
            crate::ids::lemma_id_utf8(t);
            crate::bytes::lemma_split_text(s, selector_bytes(a));
            crate::bytes::lemma_split_text(t, selector_bytes(b));
        },
        (Some(s), None) => {
            lemma_tenant_shows(s, a, b);
        },
        (None, Some(t)) => {
            lemma_tenant_shows(t, b, a);
        },
        (None, None) => {},
    }
}

/// A key has between one and sixty-four characters, the first of them a small
/// letter, the others small letters, digits, dots, hyphens and underscores; names
/// that begin with `p2x.` are not free.
pub proof fn law_keys_are_plain(text: Seq<char>)
    ensures
        key_text(text) <==> {
            &&& 1 <= text.len() <= 64
            &&& 0x61 <= text[0] as int <= 0x7a
            &&& forall|i: int|
                0 <= i < text.len() ==> ({
                    let c = #[trigger] text[i] as int;
                    0x61 <= c <= 0x7a || 0x30 <= c <= 0x39 || c == 0x2e || c == 0x2d || c == 0x5f
                })
            &&& !(text.len() >= 4 && text.subrange(0, 4) == "p2x."@)
        },
{
    reveal_strlit("p2x.");
    if text.len() >= 4 {
        let head = text.subrange(0, 4);
        if reserved_key(text) {
            assert(head =~= "p2x."@);
        }
        if head == "p2x."@ {
            assert(text[0] == head[0] && text[1] == head[1] && text[2] == head[2] && text[3] == head[3]);
        }
    }
    if 1 <= text.len() <= 64 && forall|i: int|
        0 <= i < text.len() ==> ({
            let c = #[trigger] text[i] as int;
            0x61 <= c <= 0x7a || 0x30 <= c <= 0x39 || c == 0x2e || c == 0x2d || c == 0x5f
        }) {
        assert forall|i: int| 0 <= i < text.len() implies key_char(#[trigger] text[i]) by {
            let c = text[i] as int;
            assert(0x61 <= c <= 0x7a || 0x30 <= c <= 0x39 || c == 0x2e || c == 0x2d || c == 0x5f);
        }
    }
}

/// Trimming takes white space away at the ends of a text, as much as there is, and
/// nothing between them.
pub proof fn law_trimming_takes_the_ends(text: Seq<char>) -> (bounds: (int, int))
    ensures
        0 <= bounds.0 <= bounds.1 <= text.len(),
        trimmed(text) == text.subrange(bounds.0, bounds.1),
        forall|i: int| 0 <= i < bounds.0 ==> white_space(#[trigger] text[i]),
        forall|i: int| bounds.1 <= i < text.len() ==> white_space(#[trigger] text[i]),
        bounds.0 < bounds.1 ==> !white_space(text[bounds.0]) && !white_space(text[bounds.1 - 1]),
    decreases text.len(),
{
    if text.len() == 0 {
        assert(text =~= text.subrange(0, 0));
        (0, 0)
    } else if white_space(text[0]) {
        let rest = text.subrange(1, text.len() as int);
        let (a, b) = law_trimming_takes_the_ends(rest);
        assert(rest.subrange(a, b) =~= text.subrange(a + 1, b + 1));
        assert forall|i: int| 0 <= i < a + 1 implies white_space(#[trigger] text[i]) by {
            if i > 0 {
                assert(rest[i - 1] == text[i]);
            }
        }
        assert forall|i: int| b + 1 <= i < text.len() implies white_space(#[trigger] text[i]) by {
            assert(rest[i - 1] == text[i]);
        }
        (a + 1, b + 1)
    } else if white_space(text.last()) {
        let rest = text.drop_last();
        let (a, b) = law_trimming_takes_the_ends(rest);
        assert(rest.subrange(a, b) =~= text.subrange(a, b));
        assert forall|i: int| 0 <= i < a implies white_space(#[trigger] text[i]) by {
            assert(rest[i] == text[i]);
        }
        assert forall|i: int| b <= i < text.len() implies white_space(#[trigger] text[i]) by {
            if i < rest.len() {
                assert(rest[i] == text[i]);
            }
        }
        (a, b)
    } else {
        assert(text =~= text.subrange(0, text.len() as int));
        (0, text.len() as int)
    }
}

/// White space is what Unicode calls so.
pub proof fn law_white_space_is_that_of_unicode(c: char)
    ensures
        white_space(c) <==> ({
            let n = c as int;
            0x9 <= n <= 0xd || n == 0x20 || n == 0x85 || n == 0xa0 || n == 0x1680 || 0x2000 <= n <= 0x200a
                || n == 0x2028 || n == 0x2029 || n == 0x202f || n == 0x205f || n == 0x3000
        }),
{
}

/// A value is stored without the white space at its ends; what is empty without
/// it, or longer than two hundred and fifty-six bytes, is refused.
pub proof fn law_values_are_stored_trimmed(text: &str, r: Result<MetadataValue, SelectorError>)
    requires
        call_ensures(MetadataValue::new, (text,), r),
    ensures
        r is Ok <==> trimmed(text@) != Seq::<char>::empty() && encode_utf8(trimmed(text@)).len() <= 256,
        r matches Ok(value) ==> value@ == trimmed(text@),
        r matches Err(error) ==> error == SelectorError::InvalidMetadataValue,
{
    lemma_trimmed_twice(text@);
    if trimmed(text@).len() == 0 {
        assert(trimmed(text@) =~= Seq::<char>::empty());
    }
}

/// A key is stored as it is, if it is fit to be one.
pub proof fn law_keys_are_stored_as_they_are(text: &str, r: Result<MetadataKey, SelectorError>)
    requires
        call_ensures(MetadataKey::new, (text,), r),
    ensures
        r is Ok <==> key_text(text@),
        r matches Ok(key) ==> key@ == text@,
        r matches Err(error) ==> error == SelectorError::InvalidMetadataKey,
{
}

/// A protocol class is known by its byte, and by no other.
pub proof fn law_protocols_are_known_by_their_byte(class: ProtocolClass, byte: u8)
    ensures
        protocol_of(protocol_wire(class)) == Some(class),
        protocol_of(byte) == Some(class) <==> protocol_wire(class) == byte,
        byte > 2 <==> protocol_of(byte) is None,
        class is Http <==> protocol_wire(class) == 0,
        class is Tcp <==> protocol_wire(class) == 2,
{
}

/// A selector needs between one and thirty-two entries, and room in four thousand
/// and ninety-six bytes; what it is refused for is told apart.
pub proof fn law_selectors_are_bounded(
    protocol: ProtocolClass,
    metadata: Metadata,
    r: Result<UnscopedSelector, SelectorError>,
)
    requires
        call_ensures(UnscopedSelector::new, (protocol, metadata), r),
        ascending(metadata@),
        valid_pairs(metadata@),
    ensures
        ({
            let count = metadata@.len();
            let length = 2 + enc_pairs(metadata@).len();
            &&& r is Ok <==> 1 <= count <= 32 && length <= 4096
            &&& r matches Ok(selector) ==> selector@.protocol == protocol && selector@.metadata == metadata@
            &&& (count == 0 || count > 32) ==> r == Err::<UnscopedSelector, SelectorError>(
                SelectorError::MetadataCount,
            )
            &&& 1 <= count <= 32 && length > 4096 ==> r == Err::<UnscopedSelector, SelectorError>(
                SelectorError::TooLarge,
            )
        }),
{
}

/// The canonical form of a selector begins with its protocol and the number of its
/// entries; each entry adds its key and its value behind the ones before it.
pub proof fn law_the_canonical_form_lists_the_entries(protocol: ProtocolClass, pairs: Seq<Pair>, pair: Pair)
    requires
        pairs.len() < 255,
    ensures
        selector_bytes(SelectorModel { protocol, metadata: Seq::empty() }) == seq![
            protocol_wire(protocol),
            0u8,
        ],
        ({
            let before = selector_bytes(SelectorModel { protocol, metadata: pairs });
            let after = selector_bytes(SelectorModel { protocol, metadata: pairs.push(pair) });
            &&& before[1] == pairs.len()
            &&& after[0] == before[0] == protocol_wire(protocol)
            &&& after == before.update(1, (pairs.len() + 1) as u8) + enc_text(pair.0) + enc_text(pair.1)
        }),
{
    let after = pairs.push(pair);
    assert(after.drop_last() =~= pairs);
    assert(selector_bytes(SelectorModel { protocol, metadata: after }) =~= selector_bytes(
        SelectorModel { protocol, metadata: pairs },
    ).update(1, (pairs.len() + 1) as u8) + enc_text(pair.0) + enc_text(pair.1));
    assert(selector_bytes(SelectorModel { protocol, metadata: Seq::empty() }) =~= seq![
        protocol_wire(protocol),
        0u8,
    ]);
}

/// Within a tenant the canonical form has the tenant in front, and the fingerprint
/// is the digest of both after the name of what it is for.
pub proof fn law_fingerprints_are_scoped(
    selector: UnscopedSelector,
    tenant: Tenant,
    bare: Vec<u8>,
    scoped: Vec<u8>,
    fingerprint: [u8; 32],
)
    requires
        call_ensures(UnscopedSelector::canonical_bytes, (&selector, None), bare),
        call_ensures(UnscopedSelector::canonical_bytes, (&selector, Some(&tenant)), scoped),
        call_ensures(UnscopedSelector::fingerprint, (&selector, &tenant), fingerprint),
    ensures
        bare@ == selector_bytes(selector@),
        scoped@ == enc_text(tenant@) + bare@,
        fingerprint@ == sha256_of(encode_utf8("p2x-selector-v1\0"@) + scoped@),
{
}

} // verus!
