//! Trusted boundary to the algebra and hash crates.
//!
//! Field scalars and compressed Ristretto points travel through the library
//! as 32-byte vectors in canonical encoding.  Each operation of the outside
//! crates that the protocol logic relies on stands behind exactly one wrapper
//! here; the wrapper's contract names the operation's result, and everything
//! above this module is verified against those names.

use vstd::prelude::*;

use rand_core::RngCore;
use rand_core::SeedableRng;
use sha2::Digest;

verus! {

// ---------------------------------------------------------------------------
// Names for the results of the outside operations.  Each is a pure function
// of its arguments alone: scalar arithmetic is arithmetic modulo the group
// order, point operations are the Ristretto group operations on canonical
// encodings, the digests and the ChaCha20 stream are deterministic.
// ---------------------------------------------------------------------------

/// Canonical bytes of the scalar sum of two scalars given by their bytes.
pub uninterp spec fn fe_add_of(a: Seq<u8>, b: Seq<u8>) -> Seq<u8>;

/// Canonical bytes of the scalar product of two scalars given by their bytes.
pub uninterp spec fn fe_mul_of(a: Seq<u8>, b: Seq<u8>) -> Seq<u8>;

/// Canonical bytes of the scalar difference of two scalars given by their
/// bytes.
pub uninterp spec fn fe_sub_of(a: Seq<u8>, b: Seq<u8>) -> Seq<u8>;

/// `256^e`.
pub open spec fn pow256_of(e: int) -> int
    decreases e,
{
    if e <= 0 {
        1
    } else {
        256 * pow256_of(e - 1)
    }
}

/// Canonical bytes of the scalar with the given small value: its
/// little-endian encoding padded to 32 bytes.  A value below `2^64` is far
/// below the group order, so this encoding is already canonical.
pub open spec fn fe_from_u64_of(v: int) -> Seq<u8> {
    Seq::new(
        32,
        |i: int|
            if i < 8 {
                ((v / pow256_of(i)) % 256) as u8
            } else {
                0u8
            },
    )
}

/// Canonical bytes of the scalar obtained by reducing 64 bytes modulo the
/// group order.
pub uninterp spec fn fe_reduce_wide_of(w: Seq<u8>) -> Seq<u8>;

/// Canonical bytes of the scalar obtained by reducing 32 bytes modulo the
/// group order.
pub uninterp spec fn fe_from_bytes_of(b: Seq<u8>) -> Seq<u8>;

/// The SHA-256 digest of a byte string.
pub uninterp spec fn sha256_of(m: Seq<u8>) -> Seq<u8>;

/// The SHA-512 digest of a byte string.
pub uninterp spec fn sha512_of(m: Seq<u8>) -> Seq<u8>;

/// The first `n` bytes of the ChaCha20 key stream for a 32-byte seed.
pub uninterp spec fn chacha_stream_of(seed: Seq<u8>, n: int) -> Seq<u8>;

/// Compressed encoding of `s * B`, for the Ristretto base point `B`.
pub uninterp spec fn pt_base_mul_of(s: Seq<u8>) -> Seq<u8>;

/// Compressed encoding of `s * P`, for the point encoded by `p`.
pub uninterp spec fn pt_mul_of(p: Seq<u8>, s: Seq<u8>) -> Seq<u8>;

/// Compressed encoding of the sum of the points encoded by `a` and `b`.
pub uninterp spec fn pt_add_of(a: Seq<u8>, b: Seq<u8>) -> Seq<u8>;

/// Compressed encoding of the difference of the points encoded by `a` and `b`.
pub uninterp spec fn pt_sub_of(a: Seq<u8>, b: Seq<u8>) -> Seq<u8>;

/// Whether 32 bytes decompress to a Ristretto point.
pub uninterp spec fn pt_ok_of(p: Seq<u8>) -> bool;

/// Compressed encoding of the point derived from 64 uniform bytes.
pub uninterp spec fn pt_from_uniform_of(w: Seq<u8>) -> Seq<u8>;

/// A well-formed scalar or compressed point: 32 bytes.
pub open spec fn wf32(b: Seq<u8>) -> bool {
    b.len() == 32
}

// ---------------------------------------------------------------------------
// Scalar arithmetic.
// ---------------------------------------------------------------------------

/// Relies on curve25519_dalek scalar addition: canonical bytes in, canonical
/// bytes of the sum modulo the group order out, a function of the bytes alone.
#[verifier::external_body]
pub fn fe_add(a: &Vec<u8>, b: &Vec<u8>) -> (r: Vec<u8>)
    requires
        wf32(a@),
        wf32(b@),
    ensures
        r@ == fe_add_of(a@, b@),
        wf32(r@),
{
    let x = curve25519_dalek::scalar::Scalar::from_bytes_mod_order(a.as_slice().try_into().unwrap());
    let y = curve25519_dalek::scalar::Scalar::from_bytes_mod_order(b.as_slice().try_into().unwrap());
    (x + y).to_bytes().to_vec()
}

/// Relies on curve25519_dalek scalar multiplication, as `fe_add` does.
#[verifier::external_body]
pub fn fe_mul(a: &Vec<u8>, b: &Vec<u8>) -> (r: Vec<u8>)
    requires
        wf32(a@),
        wf32(b@),
    ensures
        r@ == fe_mul_of(a@, b@),
        wf32(r@),
{
    let x = curve25519_dalek::scalar::Scalar::from_bytes_mod_order(a.as_slice().try_into().unwrap());
    let y = curve25519_dalek::scalar::Scalar::from_bytes_mod_order(b.as_slice().try_into().unwrap());
    (x * y).to_bytes().to_vec()
}

/// Relies on curve25519_dalek scalar subtraction, as `fe_add` does.
#[verifier::external_body]
pub fn fe_sub(a: &Vec<u8>, b: &Vec<u8>) -> (r: Vec<u8>)
    requires
        wf32(a@),
        wf32(b@),
    ensures
        r@ == fe_sub_of(a@, b@),
        wf32(r@),
{
    let x = curve25519_dalek::scalar::Scalar::from_bytes_mod_order(a.as_slice().try_into().unwrap());
    let y = curve25519_dalek::scalar::Scalar::from_bytes_mod_order(b.as_slice().try_into().unwrap());
    (x - y).to_bytes().to_vec()
}

/// Relies on curve25519_dalek `Scalar::from(u64)`: the scalar's canonical
/// bytes are the value's little-endian encoding, zero-padded.
#[verifier::external_body]
pub fn fe_from_u64(v: u64) -> (r: Vec<u8>)
    ensures
        r@ == fe_from_u64_of(v as int),
        wf32(r@),
{
    curve25519_dalek::scalar::Scalar::from(v).to_bytes().to_vec()
}

/// Relies on curve25519_dalek `Scalar::from_bytes_mod_order_wide`: reduces 64
/// bytes modulo the group order, a function of the bytes alone.
#[verifier::external_body]
pub fn fe_reduce_wide(w: &Vec<u8>) -> (r: Vec<u8>)
    requires
        w@.len() == 64,
    ensures
        r@ == fe_reduce_wide_of(w@),
        wf32(r@),
{
    let arr: [u8; 64] = w.as_slice().try_into().unwrap();
    curve25519_dalek::scalar::Scalar::from_bytes_mod_order_wide(&arr).to_bytes().to_vec()
}

/// Relies on curve25519_dalek `Scalar::from_bytes_mod_order` on 32 bytes.
#[verifier::external_body]
pub fn fe_from_bytes(b: &Vec<u8>) -> (r: Vec<u8>)
    requires
        wf32(b@),
    ensures
        r@ == fe_from_bytes_of(b@),
        wf32(r@),
{
    let arr: [u8; 32] = b.as_slice().try_into().unwrap();
    curve25519_dalek::scalar::Scalar::from_bytes_mod_order(arr).to_bytes().to_vec()
}

// ---------------------------------------------------------------------------
// Digests and the deterministic stream.
// ---------------------------------------------------------------------------

/// Relies on sha2 `Sha256`: a 32-byte digest, a function of the input alone.
#[verifier::external_body]
pub fn sha256(m: &Vec<u8>) -> (r: Vec<u8>)
    ensures
        r@ == sha256_of(m@),
        wf32(r@),
{
    sha2::Sha256::digest(m.as_slice()).to_vec()
}

/// Relies on sha2 `Sha512`: a 64-byte digest, a function of the input alone.
#[verifier::external_body]
pub fn sha512(m: &Vec<u8>) -> (r: Vec<u8>)
    ensures
        r@ == sha512_of(m@),
        r@.len() == 64,
{
    sha2::Sha512::digest(m.as_slice()).to_vec()
}

/// Relies on rand_chacha `ChaCha20Rng`: seeding with 32 bytes and filling a
/// buffer yields a prefix of the ChaCha20 key stream for that seed, the same
/// on every machine.  Seeding and filling are one operation here so that the
/// generator's state never crosses the boundary.
#[verifier::external_body]
pub fn chacha_stream(seed: &Vec<u8>, n: usize) -> (r: Vec<u8>)
    requires
        wf32(seed@),
    ensures
        r@ == chacha_stream_of(seed@, n as int),
        r@.len() == n,
{
    let arr: [u8; 32] = seed.as_slice().try_into().unwrap();
    let mut rng = rand_chacha::ChaCha20Rng::from_seed(arr);
    let mut buf = vec![0u8; n];
    rng.fill_bytes(&mut buf);
    buf
}

// ---------------------------------------------------------------------------
// Ristretto group operations.  Every point handed out by these wrappers is a
// compression of a group element, so it decompresses again: they all ensure
// `pt_ok_of` of their result.
// ---------------------------------------------------------------------------

/// Relies on curve25519_dalek Ristretto base-point multiplication followed by
/// compression; compressed encodings of group elements always decompress.
#[verifier::external_body]
pub fn pt_base_mul(s: &Vec<u8>) -> (r: Vec<u8>)
    requires
        wf32(s@),
    ensures
        r@ == pt_base_mul_of(s@),
        wf32(r@),
        pt_ok_of(r@),
{
    let x = curve25519_dalek::scalar::Scalar::from_bytes_mod_order(s.as_slice().try_into().unwrap());
    (x * curve25519_dalek::constants::RISTRETTO_BASEPOINT_POINT).compress().to_bytes().to_vec()
}

/// Relies on curve25519_dalek Ristretto decompression and scalar
/// multiplication; returns `None` exactly when `p` is no valid encoding.
#[verifier::external_body]
pub fn pt_mul(p: &Vec<u8>, s: &Vec<u8>) -> (r: Option<Vec<u8>>)
    requires
        wf32(p@),
        wf32(s@),
    ensures
        r is Some <==> pt_ok_of(p@),
        r is Some ==> (r->0@ == pt_mul_of(p@, s@) && wf32(r->0@) && pt_ok_of(r->0@)),
{
    let pt = curve25519_dalek::ristretto::CompressedRistretto(p.as_slice().try_into().unwrap())
        .decompress()?;
    let x = curve25519_dalek::scalar::Scalar::from_bytes_mod_order(s.as_slice().try_into().unwrap());
    Some((x * pt).compress().to_bytes().to_vec())
}

/// Relies on curve25519_dalek Ristretto decompression and point addition;
/// returns `None` exactly when one of the encodings is invalid.
#[verifier::external_body]
pub fn pt_add(a: &Vec<u8>, b: &Vec<u8>) -> (r: Option<Vec<u8>>)
    requires
        wf32(a@),
        wf32(b@),
    ensures
        r is Some <==> (pt_ok_of(a@) && pt_ok_of(b@)),
        r is Some ==> (r->0@ == pt_add_of(a@, b@) && wf32(r->0@) && pt_ok_of(r->0@)),
{
    let x = curve25519_dalek::ristretto::CompressedRistretto(a.as_slice().try_into().unwrap())
        .decompress()?;
    let y = curve25519_dalek::ristretto::CompressedRistretto(b.as_slice().try_into().unwrap())
        .decompress()?;
    Some((x + y).compress().to_bytes().to_vec())
}

/// Relies on curve25519_dalek Ristretto decompression and point subtraction;
/// returns `None` exactly when one of the encodings is invalid.
#[verifier::external_body]
pub fn pt_sub(a: &Vec<u8>, b: &Vec<u8>) -> (r: Option<Vec<u8>>)
    requires
        wf32(a@),
        wf32(b@),
    ensures
        r is Some <==> (pt_ok_of(a@) && pt_ok_of(b@)),
        r is Some ==> (r->0@ == pt_sub_of(a@, b@) && wf32(r->0@) && pt_ok_of(r->0@)),
{
    let x = curve25519_dalek::ristretto::CompressedRistretto(a.as_slice().try_into().unwrap())
        .decompress()?;
    let y = curve25519_dalek::ristretto::CompressedRistretto(b.as_slice().try_into().unwrap())
        .decompress()?;
    Some((x - y).compress().to_bytes().to_vec())
}

/// Relies on curve25519_dalek Ristretto decompression: 32 bytes either
/// decompress to a group element or they do not, the same on every call.
#[verifier::external_body]
pub fn pt_check(p: &Vec<u8>) -> (r: bool)
    requires
        wf32(p@),
    ensures
        r == pt_ok_of(p@),
{
    curve25519_dalek::ristretto::CompressedRistretto(p.as_slice().try_into().unwrap())
        .decompress()
        .is_some()
}

/// Relies on curve25519_dalek `RistrettoPoint::from_uniform_bytes`: maps 64
/// bytes to a group element, a function of the bytes alone.
#[verifier::external_body]
pub fn pt_from_uniform(w: &Vec<u8>) -> (r: Vec<u8>)
    requires
        w@.len() == 64,
    ensures
        r@ == pt_from_uniform_of(w@),
        wf32(r@),
        pt_ok_of(r@),
{
    let arr: [u8; 64] = w.as_slice().try_into().unwrap();
    curve25519_dalek::ristretto::RistrettoPoint::from_uniform_bytes(&arr).compress().to_bytes()
        .to_vec()
}

// ---------------------------------------------------------------------------
// Randomness.  Nothing is promised of the drawn bytes but their length: the
// logic above is verified for every value they may take.
// ---------------------------------------------------------------------------

#[verifier::external_type_specification]
#[verifier::external_body]
pub struct ExChaCha20Rng(rand_chacha::ChaCha20Rng);

/// A cryptographically secure random source, seedable for reproducibility.
pub struct RandSource {
    rng: rand_chacha::ChaCha20Rng,
}

impl RandSource {
    /// Relies on rand_chacha `ChaCha20Rng::from_seed`.
    #[verifier::external_body]
    pub fn from_seed(seed: &Vec<u8>) -> (r: RandSource)
        requires
            wf32(seed@),
    {
        let arr: [u8; 32] = seed.as_slice().try_into().unwrap();
        RandSource { rng: rand_chacha::ChaCha20Rng::from_seed(arr) }
    }

    /// Relies on rand_core `RngCore::fill_bytes`; only the length of the
    /// drawn bytes is promised.
    #[verifier::external_body]
    pub fn fill(&mut self, n: usize) -> (r: Vec<u8>)
        ensures
            r@.len() == n,
    {
        let mut buf = vec![0u8; n];
        self.rng.fill_bytes(&mut buf);
        buf
    }
}

/// Draws a fresh scalar: 64 random bytes reduced modulo the group order.
pub fn draw_scalar(rng: &mut RandSource) -> (r: Vec<u8>)
    ensures
        wf32(r@),
{
    let w = rng.fill(64);
    fe_reduce_wide(&w)
}

} // verus!
