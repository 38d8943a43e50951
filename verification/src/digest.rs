//! SHA-256 digests as lowercase hex text, fed in blocks of at most
//! `CHUNK_SIZE` bytes as a reader would deliver them.
use vstd::prelude::*;
use vstd::slice::slice_subrange;
use vstd::string::StringSliceAdditionalSpecFns;
use crate::hex::{hex_lower, hex_lower_encode};

verus! {

/// The size of the blocks in which input is fed to the hasher.
pub const CHUNK_SIZE: usize = 1024;

/// A running SHA-256 computation: the `sha2` hasher and the bytes it has
/// been fed so far (`sha256_absorbed`).
#[verifier::external_body]
pub struct Sha256State {
    inner: sha2::Sha256,
}

/// The error type of std's readers, in which `sha256_string` reports.
#[verifier::external_type_specification]
#[verifier::external_body]
pub struct ExIoError(std::io::Error);

/// The bytes that a running SHA-256 computation has been fed so far.
pub uninterp spec fn sha256_absorbed(h: Sha256State) -> Seq<u8>;

/// The SHA-256 digest of a byte string, as `sha2` computes it.
pub uninterp spec fn sha256_of(data: Seq<u8>) -> Seq<u8>;

/// `<sha2::Sha256 as Digest>::new`: a computation that has been fed nothing.
#[verifier::external_body]
fn sha256_new() -> (h: Sha256State)
    ensures
        sha256_absorbed(h) == Seq::<u8>::empty(),
{
    Sha256State { inner: <sha2::Sha256 as sha2::Digest>::new() }
}

/// `<sha2::Sha256 as Digest>::update`: feeds `data` after what came before.
#[verifier::external_body]
fn sha256_update(h: &mut Sha256State, data: &[u8])
    ensures
        sha256_absorbed(*final(h)) == sha256_absorbed(*old(h)) + data@,
{
    sha2::Digest::update(&mut h.inner, data)
}

/// `<sha2::Sha256 as Digest>::finalize`: the 32-byte digest of everything fed,
/// copied into a vector.
#[verifier::external_body]
fn sha256_finalize(h: Sha256State) -> (r: Vec<u8>)
    ensures
        r@ == sha256_of(sha256_absorbed(h)),
        r@.len() == 32,
{
    sha2::Digest::finalize(h.inner).to_vec()
}

/// The lowercase hex text of the SHA-256 digest of `data`.
pub open spec fn sha256_hex(data: Seq<u8>) -> Seq<char> {
    hex_lower(sha256_of(data))
}

/// Computes the SHA-256 digest of `data` block by block, as bytes arrive
/// from a reader, and returns it as lowercase hex text.
pub fn sha256_digest(data: &[u8]) -> (r: String)
    ensures
        r@ == sha256_hex(data@),
        r@.len() == 64,
{
    let mut hasher = sha256_new();
    let len = data.len();
    let mut pos: usize = 0;
    while pos < len
        invariant
            len == data@.len(),
            pos <= len,
            sha256_absorbed(hasher) == data@.take(pos as int),
        decreases len - pos,
    {
        let end = if len - pos > CHUNK_SIZE {
            pos + CHUNK_SIZE
        } else {
            len
        };
        let chunk = slice_subrange(data, pos, end);
        sha256_update(&mut hasher, chunk);
        assert(data@.take(pos as int) + data@.subrange(pos as int, end as int) =~= data@.take(
            end as int,
        ));
        pos = end;
    }
    assert(data@.take(len as int) =~= data@);
    let digest = sha256_finalize(hasher);
    hex_lower_encode(digest.as_slice())
}

/// The SHA-256 digest of the UTF-8 bytes of `s`, as lowercase hex text.
/// Reading from a string cannot fail, so the result is always `Ok`.
pub fn sha256_string(s: &str) -> (r: std::io::Result<String>)
    ensures
        r matches Ok(h) && h@ == sha256_hex(s.spec_bytes()),
        r matches Ok(h) && h@.len() == 64,
{
    let bytes = s.as_bytes();
    Ok(sha256_digest(bytes))
}

} // verus!
