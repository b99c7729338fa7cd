//! Comparison and ordering of text.
use crate::bytes::same_bytes;
use vstd::prelude::*;
use vstd::utf8::{decode_utf8, encode_utf8};

verus! {

/// Text is determined by its UTF-8 form.
pub proof fn lemma_utf8_injective(a: Seq<char>, b: Seq<char>)
    requires
        encode_utf8(a) == encode_utf8(b),
    ensures
        a == b,
{
    broadcast use vstd::utf8::group_utf8_lib;

    assert(decode_utf8(encode_utf8(a)) == a);
    assert(decode_utf8(encode_utf8(b)) == b);
}

/// Whether two texts are the same.
pub fn same_text(a: &str, b: &str) -> (r: bool)
    ensures
        r == (a@ == b@),
{
    let r = same_bytes(a.as_bytes(), b.as_bytes());
    proof {
        if r {
            lemma_utf8_injective(a@, b@);
        }
    }
    r
}

/// `a` and `b` first differ at `i`, where `a` has ended or has the smaller
/// byte.
pub open spec fn precedes_at(a: Seq<u8>, b: Seq<u8>, i: int) -> bool {
    &&& 0 <= i <= a.len()
    &&& i < b.len()
    &&& forall|j: int| 0 <= j < i ==> a[j] == b[j]
    &&& i < a.len() ==> a[i] < b[i]
}

/// The lexicographic order of byte strings, which is also the order of the
/// texts that they encode.
pub open spec fn precedes(a: Seq<u8>, b: Seq<u8>) -> bool {
    exists|i: int| precedes_at(a, b, i)
}

/// Nothing precedes itself, and of two strings at most one precedes the other.
pub proof fn lemma_precedes_asymmetric(a: Seq<u8>, b: Seq<u8>)
    requires
        precedes(a, b),
    ensures
        a != b,
        !precedes(b, a),
{
    let i = choose|i: int| precedes_at(a, b, i);
    if precedes(b, a) {
        let k = choose|k: int| precedes_at(b, a, k);
        if i < k {
            assert(b[i] == a[i]);
        } else if k < i {
            assert(a[k] == b[k]);
        }
    }
}

/// The order is transitive.
pub proof fn lemma_precedes_transitive(a: Seq<u8>, b: Seq<u8>, c: Seq<u8>)
    requires
        precedes(a, b),
        precedes(b, c),
    ensures
        precedes(a, c),
{
    let i = choose|i: int| precedes_at(a, b, i);
    let k = choose|k: int| precedes_at(b, c, k);
    if i <= k {
        assert(precedes_at(a, c, i));
    } else {
        assert(a[k] == b[k]);
        assert(precedes_at(a, c, k));
    }
}

/// How two byte strings stand to each other.
#[derive(Clone, Copy, Debug, PartialEq, Eq, Structural)]
pub enum Rank {
    Before,
    Same,
    After,
}

/// Ranks two byte strings lexicographically.
pub fn rank_bytes(a: &[u8], b: &[u8]) -> (r: Rank)
    ensures
        match r {
            Rank::Before => precedes(a@, b@),
            Rank::Same => a@ == b@,
            Rank::After => precedes(b@, a@),
        },
{
    let mut i: usize = 0;
    while i < a.len() && i < b.len()
        invariant
            i <= a@.len(),
            i <= b@.len(),
            forall|j: int| 0 <= j < i ==> a@[j] == b@[j],
        decreases a@.len() - i,
    {
        if a[i] < b[i] {
            assert(precedes_at(a@, b@, i as int));
            return Rank::Before;
        }
        if a[i] > b[i] {
            assert(precedes_at(b@, a@, i as int));
            return Rank::After;
        }
        i = i + 1;
    }
    if a.len() < b.len() {
        assert(precedes_at(a@, b@, i as int));
        Rank::Before
    } else if a.len() > b.len() {
        assert(precedes_at(b@, a@, i as int));
        Rank::After
    } else {
        assert(a@ =~= b@);
        Rank::Same
    }
}

proof fn lemma_first_difference(a: Seq<u8>, b: Seq<u8>, i: int)
    requires
        0 <= i <= a.len(),
        i <= b.len(),
        forall|j: int| 0 <= j < i ==> a[j] == b[j],
    ensures
        a == b || precedes(a, b) || precedes(b, a),
    decreases a.len() - i,
{
    if i == a.len() || i == b.len() {
        if a.len() == b.len() {
            assert(a =~= b);
        } else if i == a.len() {
            assert(precedes_at(a, b, i));
        } else {
            assert(precedes_at(b, a, i));
        }
    } else if a[i] == b[i] {
        lemma_first_difference(a, b, i + 1);
    } else if a[i] < b[i] {
        assert(precedes_at(a, b, i));
    } else {
        assert(precedes_at(b, a, i));
    }
}

/// Of two different strings one precedes the other.
pub proof fn lemma_precedes_total(a: Seq<u8>, b: Seq<u8>)
    ensures
        a == b || precedes(a, b) || precedes(b, a),
{
    lemma_first_difference(a, b, 0);
}

} // verus!
