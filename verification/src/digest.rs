//! SHA-256 digests and their lower-case hexadecimal text, the form in which
//! checksums and fingerprints are compared.

use vstd::prelude::*;
use sha2::Digest;
use crate::text::all_ascii;

verus! {

/// The SHA-256 digest of a byte string.
pub uninterp spec fn sha256_spec(data: Seq<u8>) -> Seq<u8>;

/// Calls `sha2::Sha256::digest`. Claims that the result is the SHA-256
/// digest of `data` (named `sha256_spec`) and is 32 bytes long.
#[verifier::external_body]
fn sha256(data: &[u8]) -> (d: Vec<u8>)
    ensures
        d@ == sha256_spec(data@),
        d@.len() == 32,
{
    sha2::Sha256::digest(data).to_vec()
}

pub open spec fn hex_digit(v: u8) -> char {
    if v < 10 {
        ((v + 48) as u32) as char
    } else {
        ((v - 10 + 97) as u32) as char
    }
}

/// Lower-case hexadecimal text of bytes, two digits per byte (what
/// `format!("{:x}", digest)` writes).
pub open spec fn hex_lower(bytes: Seq<u8>) -> Seq<char>
    decreases bytes.len(),
{
    if bytes.len() == 0 {
        seq![]
    } else {
        hex_lower(bytes.drop_last()) + seq![hex_digit(bytes.last() / 16), hex_digit(bytes.last() % 16)]
    }
}

proof fn lemma_hex_lower(bytes: Seq<u8>)
    ensures
        hex_lower(bytes).len() == 2 * bytes.len(),
        all_ascii(hex_lower(bytes)),
    decreases bytes.len(),
{
    if bytes.len() > 0 {
        lemma_hex_lower(bytes.drop_last());
        let h = hex_lower(bytes.drop_last());
        let b = bytes.last();
        let t = seq![hex_digit(b / 16), hex_digit(b % 16)];
        assert((hex_digit(b / 16) as u32) < 128);
        assert((hex_digit(b % 16) as u32) < 128);
        assert forall|i: int| 0 <= i < (h + t).len() implies ((h + t)[i] as u32) < 128 by {
            if i < h.len() {
                assert((h + t)[i] == h[i]);
            }
        }
    }
}

fn hex_char(v: u8) -> (c: char)
    requires
        v < 16,
    ensures
        c == hex_digit(v),
{
    if v < 10 {
        let b: u8 = v + 48;
        b as char
    } else {
        let b: u8 = v - 10 + 97;
        b as char
    }
}

/// Lower-case hexadecimal text of `bytes`.
pub fn hex_encode(bytes: &[u8]) -> (s: String)
    ensures
        s@ == hex_lower(bytes@),
{
    let mut s = String::new();
    let mut i: usize = 0;
    while i < bytes.len()
        invariant
            i <= bytes@.len(),
            s@ == hex_lower(bytes@.take(i as int)),
        decreases bytes@.len() - i,
    {
        let b: u8 = bytes[i];
        s.push(hex_char(b / 16));
        s.push(hex_char(b % 16));
        i = i + 1;
        proof {
            let t = bytes@.take(i as int);
            assert(t.drop_last() == bytes@.take(i - 1));
            assert(t.last() == b);
            assert(s@ =~= hex_lower(t));
        }
    }
    assert(bytes@.take(bytes@.len() as int) == bytes@);
    s
}

/// Checksum text of a byte string: the hexadecimal SHA-256 digest.
pub open spec fn checksum_spec(data: Seq<u8>) -> Seq<char> {
    hex_lower(sha256_spec(data))
}

/// The checksum of a whole file or of one chunk of it.
pub fn checksum_hex(data: &[u8]) -> (s: String)
    ensures
        s@ == checksum_spec(data@),
        s@.len() == 64,
        all_ascii(s@),
{
    let d = sha256(data);
    proof {
        lemma_hex_lower(d@);
    }
    hex_encode(d.as_slice())
}

} // verus!
