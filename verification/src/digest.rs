//! Block identity: the lower-case hex SHA-256 of a block's bytes.

use sha2::{Digest, Sha256};
use vstd::prelude::*;

use crate::text::{chars_of, starts_with_chars, string_of};

verus! {

/// The SHA-256 digest of `data`, as `sha2::Sha256::digest` computes it.
pub uninterp spec fn sha256(data: Seq<u8>) -> Seq<u8>;

/// Calls `sha2::Sha256::digest` on `data`. The contract claims that the result is the digest
/// named `sha256` of the bytes and that it is 32 bytes long (SHA-256's output size).
#[verifier::external_body]
fn sha256_digest(data: &[u8]) -> (res: Vec<u8>)
    ensures
        res@ == sha256(data@),
        res@.len() == 32,
{
    Sha256::digest(data).to_vec()
}

/// The lower-case hex digit for a value below 16.
pub open spec fn hex_digit(v: int) -> char {
    if v < 10 {
        (('0' as int) + v) as char
    } else {
        (('a' as int) + v - 10) as char
    }
}

/// Lower-case hex encoding: two digits per byte, high nibble first.
pub open spec fn hex_lower(bytes: Seq<u8>) -> Seq<char>
    decreases bytes.len(),
{
    if bytes.len() == 0 {
        seq![]
    } else {
        hex_lower(bytes.drop_last()) + seq![
            hex_digit(bytes.last() as int / 16),
            hex_digit(bytes.last() as int % 16),
        ]
    }
}

/// The name of a block with contents `data`.
pub open spec fn spec_block_hash(data: Seq<u8>) -> Seq<char> {
    hex_lower(sha256(data))
}

fn hex_digit_exec(v: u8) -> (c: char)
    requires
        v < 16,
    ensures
        c == hex_digit(v as int),
{
    if v < 10 {
        (48u8 + v) as char
    } else {
        (87u8 + v) as char
    }
}

/// Encodes `bytes` as lower-case hex, two digits per byte, high nibble first
/// (what `{:x}` prints for a digest).
pub fn to_hex_lower(bytes: &[u8]) -> (s: String)
    requires
        bytes@.len() * 2 <= usize::MAX,
    ensures
        s@ == hex_lower(bytes@),
{
    let mut out: Vec<char> = Vec::new();
    for i in 0..bytes.len()
        invariant
            out@ == hex_lower(bytes@.take(i as int)),
    {
        let b = bytes[i];
        out.push(hex_digit_exec(b / 16));
        out.push(hex_digit_exec(b % 16));
        assert(bytes@.take(i + 1).drop_last() == bytes@.take(i as int));
    }
    assert(bytes@.take(bytes@.len() as int) == bytes@);
    string_of(&out)
}

/// The content address of a block: the lower-case hex SHA-256 of its bytes.
pub fn block_hash(data: &[u8]) -> (h: String)
    ensures
        h@ == spec_block_hash(data@),
        h@.len() == 64,
{
    let digest = sha256_digest(data);
    proof { lemma_hex_lower_len(digest@); }
    to_hex_lower(&digest)
}

/// Whether `data` is the block named `hash`: its lower-case hex SHA-256 is exactly `hash`.
pub fn block_matches(data: &[u8], hash: &str) -> (ok: bool)
    ensures
        ok == (spec_block_hash(data@) == hash@),
{
    let computed = block_hash(data);
    let c = chars_of(computed.as_str());
    let h = chars_of(hash);
    let ok = c.len() == h.len() && starts_with_chars(&c, &h);
    proof {
        if c@.len() == h@.len() {
            assert(c@.subrange(0, h@.len() as int) == c@);
        }
    }
    ok
}

/// A hex encoding has two characters per byte.
pub proof fn lemma_hex_lower_len(bytes: Seq<u8>)
    ensures
        hex_lower(bytes).len() == 2 * bytes.len(),
    decreases bytes.len(),
{
    if bytes.len() > 0 {
        lemma_hex_lower_len(bytes.drop_last());
    }
}

/// The sixteen lower-case hex digits, in order of value.
pub open spec fn hex_digits() -> Seq<char> {
    seq!['0', '1', '2', '3', '4', '5', '6', '7', '8', '9', 'a', 'b', 'c', 'd', 'e', 'f']
}

proof fn lemma_hex_digit_table(v: int)
    requires
        0 <= v < 16,
    ensures
        hex_digit(v) == hex_digits()[v],
{
    assert(hex_digit(0) == hex_digits()[0]);
    assert(hex_digit(1) == hex_digits()[1]);
    assert(hex_digit(2) == hex_digits()[2]);
    assert(hex_digit(3) == hex_digits()[3]);
    assert(hex_digit(4) == hex_digits()[4]);
    assert(hex_digit(5) == hex_digits()[5]);
    assert(hex_digit(6) == hex_digits()[6]);
    assert(hex_digit(7) == hex_digits()[7]);
    assert(hex_digit(8) == hex_digits()[8]);
    assert(hex_digit(9) == hex_digits()[9]);
    assert(hex_digit(10) == hex_digits()[10]);
    assert(hex_digit(11) == hex_digits()[11]);
    assert(hex_digit(12) == hex_digits()[12]);
    assert(hex_digit(13) == hex_digits()[13]);
    assert(hex_digit(14) == hex_digits()[14]);
    assert(hex_digit(15) == hex_digits()[15]);
}

/// The encoding is byte by byte, high nibble first: for each byte `i`, characters `2i`
/// and `2i + 1` are the lower-case hex digits of the byte's high and low four bits.
pub proof fn lemma_hex_lower_bytewise(bytes: Seq<u8>)
    ensures
        hex_lower(bytes).len() == 2 * bytes.len(),
        forall|i: int|
            0 <= i < bytes.len() ==> {
                &&& hex_lower(bytes)[2 * i] == hex_digits()[#[trigger] bytes[i] as int / 16]
                &&& hex_lower(bytes)[2 * i + 1] == hex_digits()[bytes[i] as int % 16]
            },
    decreases bytes.len(),
{
    lemma_hex_lower_len(bytes);
    if bytes.len() > 0 {
        let pre = bytes.drop_last();
        lemma_hex_lower_bytewise(pre);
        let n = bytes.len() - 1;
        lemma_hex_digit_table(bytes[n] as int / 16);
        lemma_hex_digit_table(bytes[n] as int % 16);
        assert forall|i: int| 0 <= i < bytes.len() implies {
            &&& hex_lower(bytes)[2 * i] == hex_digits()[#[trigger] bytes[i] as int / 16]
            &&& hex_lower(bytes)[2 * i + 1] == hex_digits()[bytes[i] as int % 16]
        } by {
            if i < n {
                assert(bytes[i] == pre[i]);
                assert(hex_lower(bytes)[2 * i] == hex_lower(pre)[2 * i]);
                assert(hex_lower(bytes)[2 * i + 1] == hex_lower(pre)[2 * i + 1]);
            }
        }
    }
}

proof fn lemma_hex_digit_injective(v: int, w: int)
    requires
        0 <= v < 16,
        0 <= w < 16,
        hex_digit(v) == hex_digit(w),
    ensures
        v == w,
{
    assert(hex_digit(v) as int == if v < 10 { 48 + v } else { 87 + v });
    assert(hex_digit(w) as int == if w < 10 { 48 + w } else { 87 + w });
}

/// Distinct digests get distinct names: the hex encoding loses nothing, so two blocks share
/// a hash string only when their SHA-256 digests are equal.
pub proof fn lemma_hex_lower_injective(a: Seq<u8>, b: Seq<u8>)
    requires
        hex_lower(a) == hex_lower(b),
    ensures
        a == b,
    decreases a.len(),
{
    lemma_hex_lower_len(a);
    lemma_hex_lower_len(b);
    if a.len() > 0 {
        let ha = hex_lower(a);
        let hb = hex_lower(b);
        let n = ha.len();
        lemma_hex_lower_len(a.drop_last());
        lemma_hex_lower_len(b.drop_last());
        assert(ha[n - 2] == hex_digit(a.last() as int / 16));
        assert(hb[n - 2] == hex_digit(b.last() as int / 16));
        assert(ha[n - 1] == hex_digit(a.last() as int % 16));
        assert(hb[n - 1] == hex_digit(b.last() as int % 16));
        lemma_hex_digit_injective(a.last() as int / 16, b.last() as int / 16);
        lemma_hex_digit_injective(a.last() as int % 16, b.last() as int % 16);
        assert(hex_lower(a.drop_last()) == ha.subrange(0, n - 2));
        assert(hex_lower(b.drop_last()) == hb.subrange(0, n - 2));
        lemma_hex_lower_injective(a.drop_last(), b.drop_last());
        assert(a == a.drop_last().push(a.last()));
        assert(b == b.drop_last().push(b.last()));
    }
}

/// A block's name is made of lower-case hex digits only.
pub proof fn lemma_hex_lower_digits(bytes: Seq<u8>)
    ensures
        forall|i: int|
            0 <= i < hex_lower(bytes).len() ==> {
                let c = #[trigger] hex_lower(bytes)[i];
                ('0' <= c <= '9') || ('a' <= c <= 'f')
            },
    decreases bytes.len(),
{
    lemma_hex_lower_len(bytes);
    if bytes.len() > 0 {
        lemma_hex_lower_digits(bytes.drop_last());
        lemma_hex_lower_len(bytes.drop_last());
        let h = hex_lower(bytes);
        let p = hex_lower(bytes.drop_last());
        assert forall|i: int| 0 <= i < h.len() implies {
            let c = #[trigger] h[i];
            ('0' <= c <= '9') || ('a' <= c <= 'f')
        } by {
            if i < p.len() {
                assert(h[i] == p[i]);
            } else {
                let v = if i == p.len() { bytes.last() as int / 16 } else { bytes.last() as int % 16 };
                assert(h[i] == hex_digit(v));
                assert(hex_digit(v) as int == if v < 10 { 48 + v } else { 87 + v });
            }
        }
    }
}

} // verus!
