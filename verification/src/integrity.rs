//! Hash Gate: a 32-byte content digest over a candidate file, compared to
//! the digest embedded in the (already signature-checked) stub binary.
//! Fails closed: a candidate passes exactly when the digests are equal.

use vstd::prelude::*;

use sha2::{Digest, Sha256};

verus! {

/// The SHA-256 digest of a byte sequence.  Stated only through the trusted
/// call below; no contract here says what it is on given bytes.
pub uninterp spec fn sha256_spec(data: Seq<u8>) -> Seq<u8>;

/// Relies on `sha2::Sha256` via `Digest::digest`: the SHA-256 digest, a
/// 32-byte value depending on the input bytes alone.
#[verifier::external_body]
pub(crate) fn sha256(data: &[u8]) -> (r: Vec<u8>)
    ensures
        r@ == sha256_spec(data@),
        r@.len() == 32,
{
    Sha256::digest(data).as_slice().to_vec()
}

/// The Hash Gate's acceptance condition.
pub open spec fn hash_gate_accepts(data: Seq<u8>, expected: Seq<u8>) -> bool {
    sha256_spec(data) == expected
}

fn eq_bytes(a: &[u8], b: &[u8]) -> (r: bool)
    ensures
        r <==> a@ == b@,
{
    let n = a.len();
    if n != b.len() {
        return false;
    }
    let mut i: usize = 0;
    while i < n
        invariant
            0 <= i <= n,
            n == a@.len() == b@.len(),
            forall|j: int| 0 <= j < i ==> a@[j] == b@[j],
        decreases n - i,
    {
        if a[i] != b[i] {
            return false;
        }
        i += 1;
    }
    proof {
        assert(a@ =~= b@);
    }
    true
}

/// Computes the digest of `data` and compares it to `expected`.
/// Accepts iff the two are equal; nothing else is checked.
pub fn check_hash(data: &[u8], expected: &[u8]) -> (r: bool)
    ensures
        r <==> hash_gate_accepts(data@, expected@),
{
    let d = sha256(data);
    eq_bytes(d.as_slice(), expected)
}

/// Hash Gate law: a buffer has one digest, so of two different expected
/// values at most one can be accepted: once the genuine digest matches,
/// any flip of the embedded digest is rejected.
pub proof fn law_hash_gate_exclusive(data: Seq<u8>, d1: Seq<u8>, d2: Seq<u8>)
    requires
        d1 != d2,
    ensures
        !(hash_gate_accepts(data, d1) && hash_gate_accepts(data, d2)),
{
}

} // verus!
