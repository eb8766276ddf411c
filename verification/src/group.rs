//! The prime-order group underlying the credential algebra: scalars and
//! points are carried as their 32-byte canonical encodings, and every group
//! operation is performed by the Ristretto implementation of
//! `curve25519_dalek` behind a trusted wrapper.  Each wrapper's result is
//! pinned to an uninterpreted name, so that everything built on top of the
//! algebra is verified relative to those names.
use vstd::prelude::*;

verus! {

/// A scalar of the group (a field element mod the group order), as its
/// 32 canonical little-endian bytes.
#[derive(Clone, Copy)]
pub struct Sc {
    pub b: [u8; 32],
}

impl View for Sc {
    type V = Seq<u8>;

    open spec fn view(&self) -> Seq<u8> {
        self.b@
    }
}

/// A group element, as its 32-byte compressed canonical encoding.
#[derive(Clone, Copy)]
pub struct Pt {
    pub b: [u8; 32],
}

impl View for Pt {
    type V = Seq<u8>;

    open spec fn view(&self) -> Seq<u8> {
        self.b@
    }
}

/// Whether 32 bytes are the canonical encoding of a scalar.
pub uninterp spec fn sc_ok_of(b: Seq<u8>) -> bool;

/// The canonical bytes of the scalar that 32 bytes reduce to mod the group order.
pub uninterp spec fn sc_reduce_of(b: Seq<u8>) -> Seq<u8>;

/// The sum of two scalars.
pub uninterp spec fn sc_add_of(a: Seq<u8>, b: Seq<u8>) -> Seq<u8>;

/// The difference of two scalars.
pub uninterp spec fn sc_sub_of(a: Seq<u8>, b: Seq<u8>) -> Seq<u8>;

/// The product of two scalars.
pub uninterp spec fn sc_mul_of(a: Seq<u8>, b: Seq<u8>) -> Seq<u8>;

/// The multiplicative inverse of a scalar.
pub uninterp spec fn sc_invert_of(a: Seq<u8>) -> Seq<u8>;

/// The scalar with a given small integer value.
pub uninterp spec fn sc_from_u64_of(x: u64) -> Seq<u8>;

/// Whether 32 bytes are the canonical encoding of a group element.
pub uninterp spec fn pt_ok_of(b: Seq<u8>) -> bool;

/// The sum of two group elements.
pub uninterp spec fn pt_add_of(a: Seq<u8>, b: Seq<u8>) -> Seq<u8>;

/// The difference of two group elements.
pub uninterp spec fn pt_sub_of(a: Seq<u8>, b: Seq<u8>) -> Seq<u8>;

/// A group element multiplied by a scalar.
pub uninterp spec fn pt_mul_of(s: Seq<u8>, p: Seq<u8>) -> Seq<u8>;

/// The group element derived from 64 uniform bytes (hash-to-group).
pub uninterp spec fn pt_from_uniform_of(b: Seq<u8>) -> Seq<u8>;

/// The encoding of the identity element: 32 zero bytes.
pub open spec fn pt_id_seq() -> Seq<u8> {
    Seq::new(32, |i: int| 0u8)
}

/// The encoding of the zero scalar: 32 zero bytes.
pub open spec fn sc_zero_seq() -> Seq<u8> {
    Seq::new(32, |i: int| 0u8)
}

/// Relies on `curve25519_dalek::scalar::Scalar::from_canonical_bytes`: it
/// accepts exactly the canonical scalar encodings.
#[verifier::external_body]
pub(crate) fn sc_check(b: &[u8; 32]) -> (r: bool)
    ensures
        r == sc_ok_of(b@),
{
    let ct = curve25519_dalek::scalar::Scalar::from_canonical_bytes(*b);
    bool::from(ct.is_some())
}

/// Relies on `curve25519_dalek::scalar::Scalar::from_bytes_mod_order`, which
/// reduces any 32 bytes mod the group order; `to_bytes` re-encodes canonically.
#[verifier::external_body]
pub(crate) fn sc_reduce(b: &[u8; 32]) -> (r: Sc)
    ensures
        r@ == sc_reduce_of(b@),
        sc_ok_of(r@),
{
    let s = curve25519_dalek::scalar::Scalar::from_bytes_mod_order(*b);
    Sc { b: s.to_bytes() }
}

/// Relies on scalar addition of `curve25519_dalek` (mod the group order).
#[verifier::external_body]
pub(crate) fn sc_add(a: &Sc, b: &Sc) -> (r: Sc)
    ensures
        r@ == sc_add_of(a@, b@),
        sc_ok_of(r@),
{
    let x = curve25519_dalek::scalar::Scalar::from_bytes_mod_order(a.b);
    let y = curve25519_dalek::scalar::Scalar::from_bytes_mod_order(b.b);
    Sc { b: (x + y).to_bytes() }
}

/// Relies on scalar subtraction of `curve25519_dalek` (mod the group order).
#[verifier::external_body]
pub(crate) fn sc_sub(a: &Sc, b: &Sc) -> (r: Sc)
    ensures
        r@ == sc_sub_of(a@, b@),
        sc_ok_of(r@),
{
    let x = curve25519_dalek::scalar::Scalar::from_bytes_mod_order(a.b);
    let y = curve25519_dalek::scalar::Scalar::from_bytes_mod_order(b.b);
    Sc { b: (x - y).to_bytes() }
}

/// Relies on scalar multiplication of `curve25519_dalek` (mod the group order).
#[verifier::external_body]
pub(crate) fn sc_mul(a: &Sc, b: &Sc) -> (r: Sc)
    ensures
        r@ == sc_mul_of(a@, b@),
        sc_ok_of(r@),
{
    let x = curve25519_dalek::scalar::Scalar::from_bytes_mod_order(a.b);
    let y = curve25519_dalek::scalar::Scalar::from_bytes_mod_order(b.b);
    Sc { b: (x * y).to_bytes() }
}

/// Relies on `curve25519_dalek::scalar::Scalar::invert` (a total function;
/// only a non-zero scalar has a meaningful inverse).
#[verifier::external_body]
pub(crate) fn sc_invert(a: &Sc) -> (r: Sc)
    ensures
        r@ == sc_invert_of(a@),
        sc_ok_of(r@),
{
    let x = curve25519_dalek::scalar::Scalar::from_bytes_mod_order(a.b);
    Sc { b: x.invert().to_bytes() }
}

/// Relies on `curve25519_dalek::scalar::Scalar::from(u64)`.
#[verifier::external_body]
pub(crate) fn sc_from_u64(x: u64) -> (r: Sc)
    ensures
        r@ == sc_from_u64_of(x),
        sc_ok_of(r@),
{
    let s = curve25519_dalek::scalar::Scalar::from(x);
    Sc { b: s.to_bytes() }
}

/// Relies on `rand::RngCore::fill_bytes` (system randomness) and
/// `Scalar::from_bytes_mod_order_wide`: a uniformly random scalar, about
/// which nothing further can be promised.
#[verifier::external_body]
pub(crate) fn sc_random() -> (r: Sc)
    ensures
        sc_ok_of(r@),
{
    let mut wide = [0u8; 64];
    rand::RngCore::fill_bytes(&mut rand::thread_rng(), &mut wide);
    let s = curve25519_dalek::scalar::Scalar::from_bytes_mod_order_wide(&wide);
    Sc { b: s.to_bytes() }
}

/// Relies on `CompressedRistretto::decompress`: it succeeds exactly on the
/// canonical point encodings.
#[verifier::external_body]
pub(crate) fn pt_check(b: &[u8; 32]) -> (r: bool)
    ensures
        r == pt_ok_of(b@),
{
    curve25519_dalek::ristretto::CompressedRistretto(*b).decompress().is_some()
}

/// Relies on `RistrettoPoint::identity` and its compression: the identity
/// element encodes as 32 zero bytes (`CompressedRistretto::identity`).
#[verifier::external_body]
pub(crate) fn pt_identity() -> (r: Pt)
    ensures
        r@ == pt_id_seq(),
        pt_ok_of(r@),
{
    let p = <curve25519_dalek::ristretto::RistrettoPoint as curve25519_dalek::traits::Identity>::identity();
    Pt { b: p.compress().to_bytes() }
}

/// Relies on point addition of `curve25519_dalek`, with `decompress` and
/// `compress` converting the encodings.
#[verifier::external_body]
pub(crate) fn pt_add(a: &Pt, b: &Pt) -> (r: Pt)
    requires
        pt_ok_of(a@),
        pt_ok_of(b@),
    ensures
        r@ == pt_add_of(a@, b@),
        pt_ok_of(r@),
{
    let x = curve25519_dalek::ristretto::CompressedRistretto(a.b).decompress().unwrap();
    let y = curve25519_dalek::ristretto::CompressedRistretto(b.b).decompress().unwrap();
    Pt { b: (x + y).compress().to_bytes() }
}

/// Relies on point subtraction of `curve25519_dalek`, with `decompress` and
/// `compress` converting the encodings.
#[verifier::external_body]
pub(crate) fn pt_sub(a: &Pt, b: &Pt) -> (r: Pt)
    requires
        pt_ok_of(a@),
        pt_ok_of(b@),
    ensures
        r@ == pt_sub_of(a@, b@),
        pt_ok_of(r@),
{
    let x = curve25519_dalek::ristretto::CompressedRistretto(a.b).decompress().unwrap();
    let y = curve25519_dalek::ristretto::CompressedRistretto(b.b).decompress().unwrap();
    Pt { b: (x - y).compress().to_bytes() }
}

/// Relies on scalar-point multiplication of `curve25519_dalek`, with
/// `decompress` and `compress` converting the encodings.
#[verifier::external_body]
pub(crate) fn pt_mul(s: &Sc, p: &Pt) -> (r: Pt)
    requires
        pt_ok_of(p@),
    ensures
        r@ == pt_mul_of(s@, p@),
        pt_ok_of(r@),
{
    let x = curve25519_dalek::scalar::Scalar::from_bytes_mod_order(s.b);
    let y = curve25519_dalek::ristretto::CompressedRistretto(p.b).decompress().unwrap();
    Pt { b: (y * x).compress().to_bytes() }
}

/// Relies on `RistrettoPoint::from_uniform_bytes` (deterministic
/// hash-to-group from 64 bytes).
#[verifier::external_body]
pub(crate) fn pt_from_uniform(b: &[u8; 64]) -> (r: Pt)
    ensures
        r@ == pt_from_uniform_of(b@),
        pt_ok_of(r@),
{
    let p = curve25519_dalek::ristretto::RistrettoPoint::from_uniform_bytes(b);
    Pt { b: p.compress().to_bytes() }
}

/// Seed from which the generator `A` is derived by hash-to-group.
pub open spec fn gen_a_seed() -> Seq<u8> {
    Seq::new(64, |i: int| 0x41u8)
}

/// Seed from which the generator `B` is derived by hash-to-group.
pub open spec fn gen_b_seed() -> Seq<u8> {
    Seq::new(64, |i: int| 0x42u8)
}

/// The generator `A` of the group (used for blinding terms).
pub open spec fn gen_a_spec() -> Seq<u8> {
    pt_from_uniform_of(gen_a_seed())
}

/// The generator `B` of the group (used for bases of MACs and encryptions).
pub open spec fn gen_b_spec() -> Seq<u8> {
    pt_from_uniform_of(gen_b_seed())
}

/// The generator `A`, derived independently of `B` by hash-to-group.
pub fn gen_a() -> (r: Pt)
    ensures
        r@ == gen_a_spec(),
        pt_ok_of(r@),
{
    let seed: [u8; 64] = [0x41u8; 64];
    proof {
        assert(seed@ =~= gen_a_seed());
    }
    pt_from_uniform(&seed)
}

/// The generator `B`, derived independently of `A` by hash-to-group.
pub fn gen_b() -> (r: Pt)
    ensures
        r@ == gen_b_spec(),
        pt_ok_of(r@),
{
    let seed: [u8; 64] = [0x42u8; 64];
    proof {
        assert(seed@ =~= gen_b_seed());
    }
    pt_from_uniform(&seed)
}

/// Byte-for-byte equality of two 32-byte values.
pub fn bytes32_eq(a: &[u8; 32], b: &[u8; 32]) -> (r: bool)
    ensures
        r == (a@ == b@),
{
    let mut i: usize = 0;
    while i < 32
        invariant
            i <= 32,
            forall|j: int| 0 <= j < i ==> a@[j] == b@[j],
        decreases 32 - i,
    {
        if a[i] != b[i] {
            assert(a@[i as int] != b@[i as int]);
            return false;
        }
        i += 1;
    }
    proof {
        assert(a@ =~= b@);
    }
    true
}

/// Equality of two scalars by their canonical bytes.
pub fn sc_eq(a: &Sc, b: &Sc) -> (r: bool)
    ensures
        r == (a@ == b@),
{
    bytes32_eq(&a.b, &b.b)
}

/// Equality of two group elements by their canonical encodings.
pub fn pt_eq(a: &Pt, b: &Pt) -> (r: bool)
    ensures
        r == (a@ == b@),
{
    bytes32_eq(&a.b, &b.b)
}

/// Whether a scalar is zero.
pub fn sc_is_zero(a: &Sc) -> (r: bool)
    ensures
        r == (a@ == sc_zero_seq()),
{
    let z: [u8; 32] = [0u8; 32];
    proof {
        assert(z@ =~= sc_zero_seq());
    }
    bytes32_eq(&a.b, &z)
}

/// Whether a group element is the identity.  Identity-point inputs are
/// always rejected by the protocols.
pub fn pt_is_identity(p: &Pt) -> (r: bool)
    ensures
        r == (p@ == pt_id_seq()),
{
    let z: [u8; 32] = [0u8; 32];
    proof {
        assert(z@ =~= pt_id_seq());
    }
    bytes32_eq(&p.b, &z)
}

} // verus!
