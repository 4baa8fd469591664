//! Digests of raw bytes and of pairs of child digests.
use vstd::prelude::*;

verus! {

/// The SHA-256 digest of a byte sequence.
pub uninterp spec fn sha256_of(data: Seq<u8>) -> Seq<u8>;

/// Number of bytes in a digest.
pub const DIGEST_LEN: usize = 32;

/// The parent digest of two children: the digest of their concatenation.
pub open spec fn combine_spec(left: Seq<u8>, right: Seq<u8>) -> Seq<u8> {
    sha256_of(left + right)
}

/// Relies on sha2's `Sha256::digest`: a 32-byte value that depends on the
/// input bytes alone.
#[verifier::external_body]
fn sha256(data: &[u8]) -> (r: Vec<u8>)
    ensures
        r@ == sha256_of(data@),
        r@.len() == DIGEST_LEN,
{
    <sha2::Sha256 as sha2::Digest>::digest(data).to_vec()
}

/// Hashes raw leaf data into a leaf digest.
pub fn hash_leaf(data: &[u8]) -> (r: Vec<u8>)
    ensures
        r@ == sha256_of(data@),
        r@.len() == DIGEST_LEN,
{
    sha256(data)
}

/// The concatenation of two byte strings.
pub fn concat_bytes(left: &[u8], right: &[u8]) -> (r: Vec<u8>)
    ensures
        r@ == left@ + right@,
{
    let mut out: Vec<u8> = Vec::new();
    let mut i: usize = 0;
    while i < left.len()
        invariant
            i <= left@.len(),
            out@ == left@.subrange(0, i as int),
        decreases left@.len() - i,
    {
        out.push(left[i]);
        i = i + 1;
    }
    let mut j: usize = 0;
    while j < right.len()
        invariant
            j <= right@.len(),
            out@ == left@ + right@.subrange(0, j as int),
        decreases right@.len() - j,
    {
        out.push(right[j]);
        j = j + 1;
    }
    assert(left@.subrange(0, left@.len() as int) == left@);
    assert(right@.subrange(0, right@.len() as int) == right@);
    out
}

/// Combines two child digests into their parent digest.
pub fn combine(left: &[u8], right: &[u8]) -> (r: Vec<u8>)
    ensures
        r@ == combine_spec(left@, right@),
        r@.len() == DIGEST_LEN,
{
    let joined = concat_bytes(left, right);
    sha256(joined.as_slice())
}

/// An owned copy of a byte string.
pub fn copy_bytes(data: &[u8]) -> (r: Vec<u8>)
    ensures
        r@ == data@,
{
    let mut out: Vec<u8> = Vec::new();
    let mut i: usize = 0;
    while i < data.len()
        invariant
            i <= data@.len(),
            out@ == data@.subrange(0, i as int),
        decreases data@.len() - i,
    {
        out.push(data[i]);
        i = i + 1;
    }
    assert(data@.subrange(0, data@.len() as int) == data@);
    out
}

/// Byte-wise equality of two byte strings.
pub fn bytes_equal(a: &[u8], b: &[u8]) -> (r: bool)
    ensures
        r == (a@ == b@),
{
    if a.len() != b.len() {
        return false;
    }
    let mut i: usize = 0;
    while i < a.len()
        invariant
            a@.len() == b@.len(),
            i <= a@.len(),
            forall|k: int| 0 <= k < i ==> a@[k] == b@[k],
        decreases a@.len() - i,
    {
        if a[i] != b[i] {
            return false;
        }
        i = i + 1;
    }
    assert(a@ =~= b@);
    true
}

} // verus!
