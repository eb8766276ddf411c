//! Issuer key material and the algebraic MAC.  A private key is
//! `(x0tilde, x[0..n])`; the public key is `X[0] = x[0]*B + x0tilde*A` and
//! `X[i] = x[i]*A` for `i >= 1`.  A MAC on attributes `(m1,..,mk)` is
//! `(P, Q)` with `P = b*B` for random non-zero `b` and
//! `Q = (x[0] + sum x[i]*mi) * P`.
use vstd::prelude::*;

use crate::group::{
    gen_a, gen_a_spec, gen_b, gen_b_spec, pt_add, pt_add_of, pt_check, pt_id_seq, pt_is_identity,
    pt_mul, pt_mul_of, pt_ok_of, sc_add, sc_add_of, sc_mul, sc_mul_of, sc_random, Pt, Sc,
};
use crate::zkp::{pts_view, scs_view};

verus! {

/// Per-credential-type private attribute keys.
pub struct IssuerPrivKey {
    pub x0tilde: Sc,
    pub x: Vec<Sc>,
}

/// The matching public attribute keys; `xs[0]` is the blinded slot-0 key.
pub struct IssuerPubKey {
    pub xs: Vec<Pt>,
}

/// The public key that a private key determines.
pub open spec fn pubkey_of_spec(x0tilde: Seq<u8>, xs: Seq<Seq<u8>>) -> Seq<Seq<u8>> {
    Seq::new(
        xs.len(),
        |i: int|
            if i == 0 {
                pt_add_of(pt_mul_of(xs[0], gen_b_spec()), pt_mul_of(x0tilde, gen_a_spec()))
            } else {
                pt_mul_of(xs[i], gen_a_spec())
            },
    )
}

/// A key pair fits together and serves `n` credential attributes
/// (`n + 1` private scalars, slot 0 carrying no attribute).
pub open spec fn keypair_wf(priv_key: IssuerPrivKey, pub_key: IssuerPubKey, n: nat) -> bool {
    &&& priv_key.x@.len() == n + 1
    &&& pub_key.xs@.len() == n + 1
    &&& pts_view(pub_key.xs@) == pubkey_of_spec(priv_key.x0tilde@, scs_view(priv_key.x@))
}

/// Draw a fresh key pair for a credential type with `n` attributes.
pub fn keygen(n: usize) -> (r: (IssuerPrivKey, IssuerPubKey))
    requires
        n < 100,
    ensures
        keypair_wf(r.0, r.1, n as nat),
{
    let a = gen_a();
    let b = gen_b();
    let x0tilde = sc_random();
    let mut x: Vec<Sc> = Vec::new();
    let mut i: usize = 0;
    while i < n + 1
        invariant
            n < 100,
            i <= n + 1,
            x@.len() == i,
        decreases n + 1 - i,
    {
        x.push(sc_random());
        i += 1;
    }
    let mut xs: Vec<Pt> = Vec::new();
    let x0b = pt_mul(&x[0], &b);
    let x0ta = pt_mul(&x0tilde, &a);
    xs.push(pt_add(&x0b, &x0ta));
    let mut j: usize = 1;
    while j < n + 1
        invariant
            n < 100,
            1 <= j <= n + 1,
            x@.len() == n + 1,
            a@ == gen_a_spec(),
            pt_ok_of(a@),
            xs@.len() == j,
            xs@[0]@ == pt_add_of(
                pt_mul_of(x@[0]@, gen_b_spec()),
                pt_mul_of(x0tilde@, gen_a_spec()),
            ),
            forall|k: int| 1 <= k < j ==> (#[trigger] xs@[k])@ == pt_mul_of(x@[k]@, gen_a_spec()),
        decreases n + 1 - j,
    {
        let ghost pre = xs@;
        xs.push(pt_mul(&x[j], &a));
        proof {
            assert forall|k: int| 1 <= k < j + 1 implies (#[trigger] xs@[k])@ == pt_mul_of(
                x@[k]@,
                gen_a_spec(),
            ) by {
                if k < j {
                    assert(xs@[k] == pre[k]);
                }
            }
        }
        j += 1;
    }
    let priv_key = IssuerPrivKey { x0tilde, x };
    let pub_key = IssuerPubKey { xs };
    proof {
        assert(pts_view(pub_key.xs@) =~= pubkey_of_spec(
            priv_key.x0tilde@,
            scs_view(priv_key.x@),
        ));
    }
    (priv_key, pub_key)
}

/// The key-and-attribute sum `x[0] + sum x[i+1]*attrs[i]`.
pub open spec fn mac_sum_spec(xs: Seq<Seq<u8>>, attrs: Seq<Seq<u8>>) -> Seq<u8>
    decreases attrs.len(),
{
    if attrs.len() == 0 {
        xs[0]
    } else {
        sc_add_of(
            mac_sum_spec(xs, attrs.drop_last()),
            sc_mul_of(xs[attrs.len() as int], attrs.last()),
        )
    }
}

/// The MAC value `Q` on an attribute vector over base `P`.
pub open spec fn mac_q_spec(xs: Seq<Seq<u8>>, attrs: Seq<Seq<u8>>, p: Seq<u8>) -> Seq<u8> {
    pt_mul_of(mac_sum_spec(xs, attrs), p)
}

/// The key-and-attribute sum as a scalar.
pub fn mac_sum(priv_key: &IssuerPrivKey, attrs: &Vec<Sc>) -> (r: Sc)
    requires
        attrs@.len() + 1 == priv_key.x@.len(),
    ensures
        r@ == mac_sum_spec(scs_view(priv_key.x@), scs_view(attrs@)),
{
    let mut acc = priv_key.x[0];
    proof {
        assert(scs_view(attrs@).take(0) =~= Seq::<Seq<u8>>::empty());
    }
    let mut i: usize = 0;
    while i < attrs.len()
        invariant
            i <= attrs@.len(),
            attrs@.len() + 1 == priv_key.x@.len(),
            acc@ == mac_sum_spec(scs_view(priv_key.x@), scs_view(attrs@).take(i as int)),
        decreases attrs@.len() - i,
    {
        let m = sc_mul(&priv_key.x[i + 1], &attrs[i]);
        acc = sc_add(&acc, &m);
        proof {
            let sa = scs_view(attrs@);
            assert(sa.take(i + 1).drop_last() =~= sa.take(i as int));
            assert(sa.take(i + 1).last() == attrs@[i as int]@);
        }
        i += 1;
    }
    proof {
        assert(scs_view(attrs@).take(attrs@.len() as int) =~= scs_view(attrs@));
    }
    acc
}

/// Issue a MAC on cleartext attributes: a fresh random base and the matching
/// `Q`.  Yields nothing when the attribute count does not fit the key or the
/// (negligible) identity base was drawn.
pub fn mac_new(priv_key: &IssuerPrivKey, attrs: &Vec<Sc>) -> (r: Option<(Pt, Pt)>)
    ensures
        match r {
            Some((p, q)) => {
                &&& attrs@.len() + 1 == priv_key.x@.len()
                &&& pt_ok_of(p@)
                &&& pt_ok_of(q@)
                &&& p@ != pt_id_seq()
                &&& q@ == mac_q_spec(scs_view(priv_key.x@), scs_view(attrs@), p@)
            },
            None => true,
        },
{
    if priv_key.x.len() == 0 || attrs.len() != priv_key.x.len() - 1 {
        return None;
    }
    let bgen = gen_b();
    let b = sc_random();
    let p = pt_mul(&b, &bgen);
    if pt_is_identity(&p) {
        return None;
    }
    let s = mac_sum(priv_key, attrs);
    let q = pt_mul(&s, &p);
    Some((p, q))
}

/// Whether `(P, Q)` is a valid MAC on the attributes under the private key:
/// `P` decodes, is not the identity, and `Q` is the recomputed MAC value.
pub open spec fn mac_valid_spec(
    xs: Seq<Seq<u8>>,
    n_attrs: nat,
    attrs: Seq<Seq<u8>>,
    p: Seq<u8>,
    q: Seq<u8>,
) -> bool {
    &&& attrs.len() + 1 == n_attrs
    &&& pt_ok_of(p)
    &&& p != pt_id_seq()
    &&& q == mac_q_spec(xs, attrs, p)
}

/// Verify a MAC with the private key.
pub fn mac_verify(priv_key: &IssuerPrivKey, attrs: &Vec<Sc>, p: &Pt, q: &Pt) -> (r: bool)
    ensures
        r == mac_valid_spec(
            scs_view(priv_key.x@),
            priv_key.x@.len(),
            scs_view(attrs@),
            p@,
            q@,
        ),
{
    if priv_key.x.len() == 0 || attrs.len() != priv_key.x.len() - 1 {
        return false;
    }
    if !pt_check(&p.b) {
        return false;
    }
    if pt_is_identity(p) {
        return false;
    }
    let s = mac_sum(priv_key, attrs);
    let q2 = pt_mul(&s, p);
    crate::group::pt_eq(q, &q2)
}

/// Every issued credential verifies: a MAC produced over a key on an
/// attribute vector is accepted by that key on that vector.
pub proof fn lemma_issued_mac_verifies(
    xs: Seq<Seq<u8>>,
    n_attrs: nat,
    attrs: Seq<Seq<u8>>,
    p: Seq<u8>,
    q: Seq<u8>,
)
    requires
        attrs.len() + 1 == n_attrs,
        pt_ok_of(p),
        p != pt_id_seq(),
        q == mac_q_spec(xs, attrs, p),
    ensures
        mac_valid_spec(xs, n_attrs, attrs, p, q),
{
}

} // verus!
