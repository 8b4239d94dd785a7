//! SHA-256 digests of payloads, images, and plan identities.

use sha2::Digest;
use vstd::prelude::*;

verus! {

/// The SHA-256 digest of `data`, as its 32 output bytes.
pub uninterp spec fn sha256_bytes(data: Seq<u8>) -> Seq<u8>;

/// A SHA-256 digest held as four big-endian 64-bit words.
#[derive(Debug, Clone, Copy, PartialEq, Eq, Structural)]
pub struct Sha256Digest {
    pub w0: u64,
    pub w1: u64,
    pub w2: u64,
    pub w3: u64,
}

/// Big-endian value of `b[start..start + 8]`.
pub open spec fn be_word(b: Seq<u8>, start: int) -> int
    decreases 8int,
{
    be_prefix(b, start, 8)
}

pub open spec fn be_prefix(b: Seq<u8>, start: int, n: nat) -> int
    decreases n,
{
    if n == 0 {
        0
    } else {
        be_prefix(b, start, (n - 1) as nat) * 256 + b[start + n - 1] as int
    }
}

/// The digest whose bytes are `b` (32 bytes).
pub open spec fn digest_from_bytes(b: Seq<u8>) -> Sha256Digest {
    Sha256Digest {
        w0: be_word(b, 0) as u64,
        w1: be_word(b, 8) as u64,
        w2: be_word(b, 16) as u64,
        w3: be_word(b, 24) as u64,
    }
}

/// The digest of `data`.
pub open spec fn spec_sha256(data: Seq<u8>) -> Sha256Digest {
    digest_from_bytes(sha256_bytes(data))
}

/// `sha2::Sha256::digest`: the 32-byte SHA-256 output for `data`.
#[verifier::external_body]
fn sha256_raw(data: &[u8]) -> (out: [u8; 32])
    ensures
        out@ == sha256_bytes(data@),
{
    sha2::Sha256::digest(data).into()
}

proof fn lemma_be_prefix_bound(b: Seq<u8>, start: int, n: nat)
    requires
        0 <= start,
        start + n <= b.len(),
    ensures
        0 <= be_prefix(b, start, n) < vstd::arithmetic::power2::pow2(8 * n),
    decreases n,
{
    vstd::arithmetic::power2::lemma2_to64();
    if n > 0 {
        lemma_be_prefix_bound(b, start, (n - 1) as nat);
        vstd::arithmetic::power2::lemma_pow2_adds(8 * (n - 1) as nat, 8);
        assert(vstd::arithmetic::power2::pow2(8) == 256);
        let p = vstd::arithmetic::power2::pow2(8 * (n - 1) as nat);
        let v = be_prefix(b, start, (n - 1) as nat);
        assert(v * 256 + b[start + n - 1] < p * 256) by (nonlinear_arith)
            requires
                0 <= v < p,
                0 <= b[start + n - 1] < 256,
        ;
        assert(8 * (n - 1) as nat + 8 == 8 * n);
    }
}

fn word_at(b: &[u8; 32], start: usize) -> (w: u64)
    requires
        start + 8 <= 32,
    ensures
        w == be_word(b@, start as int),
{
    let mut acc: u64 = 0;
    let mut k: usize = 0;
    while k < 8
        invariant
            k <= 8,
            start + 8 <= 32,
            b@.len() == 32,
            acc == be_prefix(b@, start as int, k as nat),
        decreases 8 - k,
    {
        proof {
            lemma_be_prefix_bound(b@, start as int, (k + 1) as nat);
            vstd::arithmetic::power2::lemma2_to64();
            if k + 1 < 8 {
                vstd::arithmetic::power2::lemma_pow2_strictly_increases(8 * (k + 1) as nat, 64);
            }
        }
        acc = acc * 256 + b[start + k] as u64;
        k = k + 1;
    }
    acc
}

/// SHA-256 of `data`.
pub fn sha256(data: &[u8]) -> (d: Sha256Digest)
    ensures
        d == spec_sha256(data@),
{
    let raw = sha256_raw(data);
    Sha256Digest {
        w0: word_at(&raw, 0),
        w1: word_at(&raw, 8),
        w2: word_at(&raw, 16),
        w3: word_at(&raw, 24),
    }
}

} // verus!
