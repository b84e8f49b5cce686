//! SHA-256 hex digests of canonical text.

use vstd::prelude::*;
use vstd::utf8::encode_utf8;
use crate::canonical::hex_char;
use crate::device::is_lower_hex;
use sha2::{Digest, Sha256};

verus! {

/// The SHA-256 digest of `data`, as the `sha2` crate computes it.
pub uninterp spec fn sha256_of(data: Seq<u8>) -> Seq<u8>;

/// Calls `sha2::Sha256::digest` on `data`. The contract claims that the
/// 32-byte result is the SHA-256 digest of `data`, named [`sha256_of`].
#[verifier::external_body]
fn sha256(data: &[u8]) -> (d: Vec<u8>)
    ensures
        d@ == sha256_of(data@),
        d@.len() == 32,
{
    Sha256::digest(data).to_vec()
}

/// Lowercase hexadecimal text of `bytes`, two digits per byte.
pub open spec fn hex_text(bytes: Seq<u8>) -> Seq<char>
    decreases bytes.len(),
{
    if bytes.len() == 0 {
        Seq::empty()
    } else {
        hex_text(bytes.drop_last()) + seq![hex_char((bytes.last() / 16) as nat), hex_char((bytes.last() % 16) as nat)]
    }
}

/// `s` has the shape of a hex SHA-256 digest: 64 lowercase hex digits.
pub open spec fn is_hex_digest(s: Seq<char>) -> bool {
    &&& s.len() == 64
    &&& forall|i: int| 0 <= i < s.len() ==> is_lower_hex(#[trigger] s[i])
}

/// Hex text has two lowercase hex digits per byte.
pub proof fn lemma_hex_text(bytes: Seq<u8>)
    ensures
        hex_text(bytes).len() == 2 * bytes.len(),
        forall|i: int| 0 <= i < hex_text(bytes).len() ==> is_lower_hex(#[trigger] hex_text(bytes)[i]),
    decreases bytes.len(),
{
    if bytes.len() > 0 {
        let rest = bytes.drop_last();
        lemma_hex_text(rest);
        let b = bytes.last();
        let pair = seq![hex_char((b / 16) as nat), hex_char((b % 16) as nat)];
        let t = hex_text(bytes);
        assert(t == hex_text(rest) + pair);
        assert forall|i: int| 0 <= i < t.len() implies is_lower_hex(#[trigger] t[i]) by {
            if i < hex_text(rest).len() {
                assert(t[i] == hex_text(rest)[i]);
            } else {
                assert(t[i] == pair[i - hex_text(rest).len()]);
            }
        }
    }
}

/// The hex SHA-256 digest of the UTF-8 encoding of `text`.
pub open spec fn digest_hex(text: Seq<char>) -> Seq<char> {
    hex_text(sha256_of(encode_utf8(text)))
}

fn hex_digit(d: u8) -> (c: char)
    requires
        d < 16,
    ensures
        c == hex_char(d as nat),
{
    if d < 10 {
        let b: u8 = 48 + d;
        b as char
    } else {
        let b: u8 = 97 + (d - 10);
        b as char
    }
}

/// Lowercase hexadecimal text of `bytes`.
pub fn hex_encode(bytes: &Vec<u8>) -> (s: Vec<char>)
    ensures
        s@ == hex_text(bytes@),
{
    let mut out: Vec<char> = Vec::new();
    let mut i: usize = 0;
    while i < bytes.len()
        invariant
            i <= bytes@.len(),
            out@ == hex_text(bytes@.take(i as int)),
        decreases bytes@.len() - i,
    {
        let b = bytes[i];
        let hi = hex_digit(b / 16);
        let lo = hex_digit(b % 16);
        proof {
            assert(bytes@.take(i as int + 1).drop_last() == bytes@.take(i as int));
        }
        out.push(hi);
        out.push(lo);
        proof {
            assert(out@ =~= hex_text(bytes@.take(i as int + 1)));
        }
        i += 1;
    }
    proof {
        assert(bytes@.take(bytes@.len() as int) == bytes@);
    }
    out
}

/// The hex SHA-256 digest of the UTF-8 encoding of `text`.
pub fn text_digest(text: &Vec<char>) -> (s: String)
    ensures
        s@ == digest_hex(text@),
        is_hex_digest(s@),
{
    let owned = crate::text::string_from_chars(text.as_slice());
    let bytes = owned.as_str().as_bytes();
    let d = sha256(bytes);
    let h = hex_encode(&d);
    proof {
        lemma_hex_text(d@);
    }
    crate::text::string_from_chars(h.as_slice())
}

} // verus!
