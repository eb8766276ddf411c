//! The blind showing of a credential: the user rerandomizes `(P, Q)`,
//! commits to the attributes it hides, and both sides agree on one
//! verification point.  The user computes `V` from its blindings; the
//! issuer recomputes `V'` from its keys and the commitments; the request
//! proof ties the two together.
use vstd::prelude::*;

use crate::group::{
    gen_a, gen_a_spec, pt_add, pt_add_of, pt_check, pt_id_seq, pt_identity, pt_is_identity,
    pt_mul, pt_mul_of, pt_ok_of, pt_sub, pt_sub_of, sc_add_of, sc_from_u64, sc_from_u64_of,
    sc_mul, sc_mul_of, sc_random, Pt, Sc,
};
use crate::keys::IssuerPrivKey;
use crate::zkp::{Constraint, Term};

verus! {

/// What a user derives to show one credential.  `cs` and `zs` have one
/// slot per attribute; revealed attributes keep an identity commitment and
/// a zero blinding.
pub struct Showing {
    pub p: Pt,
    pub cq: Pt,
    pub v: Pt,
    pub cs: Vec<Pt>,
    pub zs: Vec<Sc>,
    pub negzq: Sc,
}

/// Rerandomize a credential and commit to the attributes `blinded` marks.
/// Yields nothing when an input does not decode or the negligible zero
/// rerandomizer was drawn.
pub fn show_cred(p: &Pt, q: &Pt, attrs: &Vec<Sc>, blinded: &Vec<bool>, pub_xs: &Vec<Pt>) -> (r:
    Option<Showing>)
    ensures
        match r {
            Some(sh) => {
                &&& blinded@.len() == attrs@.len()
                &&& sh.cs@.len() == attrs@.len()
                &&& sh.zs@.len() == attrs@.len()
                &&& pt_ok_of(sh.p@)
                &&& pt_ok_of(sh.cq@)
                &&& pt_ok_of(sh.v@)
                &&& sh.p@ != pt_id_seq()
                &&& forall|k: int| 0 <= k < attrs@.len() ==> pt_ok_of((#[trigger] sh.cs@[k])@)
                &&& forall|k: int|
                    0 <= k < attrs@.len() && blinded@[k] ==> (#[trigger] sh.cs@[k])@ == pt_add_of(
                        pt_mul_of(attrs@[k]@, sh.p@),
                        pt_mul_of(sh.zs@[k]@, gen_a_spec()),
                    )
                &&& forall|k: int|
                    0 <= k < attrs@.len() && !blinded@[k] ==> (#[trigger] sh.cs@[k])@
                        == pt_id_seq()
                &&& forall|k: int|
                    0 <= k < attrs@.len() && !blinded@[k] ==> (#[trigger] sh.zs@[k])@
                        == sc_from_u64_of(0)
            },
            None => true,
        },
{
    let n = attrs.len();
    if n > 16 || blinded.len() != n || pub_xs.len() != n + 1 {
        return None;
    }
    if !pt_check(&p.b) || !pt_check(&q.b) {
        return None;
    }
    let mut i0: usize = 0;
    while i0 < n + 1
        invariant
            n <= 16,
            pub_xs@.len() == n + 1,
            i0 <= n + 1,
            forall|k: int| 0 <= k < i0 ==> pt_ok_of((#[trigger] pub_xs@[k])@),
        decreases n + 1 - i0,
    {
        if !pt_check(&pub_xs[i0].b) {
            return None;
        }
        i0 += 1;
    }
    let a_gen = gen_a();
    let idp = pt_identity();
    let zero = sc_from_u64(0);
    let t = sc_random();
    let p_r = pt_mul(&t, p);
    if pt_is_identity(&p_r) {
        return None;
    }
    let q_r = pt_mul(&t, q);
    let negzq = sc_random();
    let za = pt_mul(&negzq, &a_gen);
    let cq = pt_sub(&q_r, &za);
    let mut cs: Vec<Pt> = Vec::new();
    let mut zs: Vec<Sc> = Vec::new();
    let mut v = za;
    let mut i: usize = 0;
    while i < n
        invariant
            n == attrs@.len(),
            n <= 16,
            blinded@.len() == n,
            pub_xs@.len() == n + 1,
            i <= n,
            cs@.len() == i,
            zs@.len() == i,
            pt_ok_of(p_r@),
            pt_ok_of(v@),
            pt_ok_of(a_gen@),
            pt_ok_of(idp@),
            forall|k: int| 0 <= k < i0 ==> pt_ok_of((#[trigger] pub_xs@[k])@),
            i0 == n + 1,
            forall|k: int| 0 <= k < i ==> pt_ok_of((#[trigger] cs@[k])@),
            zero@ == sc_from_u64_of(0),
            idp@ == pt_id_seq(),
            forall|k: int|
                0 <= k < i && blinded@[k] ==> (#[trigger] cs@[k])@ == pt_add_of(
                    pt_mul_of(attrs@[k]@, p_r@),
                    pt_mul_of(zs@[k]@, gen_a_spec()),
                ),
            forall|k: int|
                0 <= k < i && !blinded@[k] ==> (#[trigger] cs@[k])@ == pt_id_seq(),
            forall|k: int|
                0 <= k < i && !blinded@[k] ==> (#[trigger] zs@[k])@ == sc_from_u64_of(0),
            a_gen@ == gen_a_spec(),
        decreases n - i,
    {
        let ghost pcs = cs@;
        let ghost pzs = zs@;
        if blinded[i] {
            let z = sc_random();
            let mp = pt_mul(&attrs[i], &p_r);
            let za2 = pt_mul(&z, &a_gen);
            let c = pt_add(&mp, &za2);
            let zx = pt_mul(&z, &pub_xs[i + 1]);
            v = pt_add(&v, &zx);
            cs.push(c);
            zs.push(z);
        } else {
            cs.push(idp);
            zs.push(zero);
        }
        proof {
            assert forall|k: int| 0 <= k < i + 1 && blinded@[k] implies (#[trigger] cs@[k])@
                == pt_add_of(
                pt_mul_of(attrs@[k]@, p_r@),
                pt_mul_of(zs@[k]@, gen_a_spec()),
            ) by {
                if k < i {
                    assert(cs@[k] == pcs[k]);
                    assert(zs@[k] == pzs[k]);
                }
            }
            assert forall|k: int| 0 <= k < i + 1 && !blinded@[k] implies (#[trigger] cs@[k])@
                == pt_id_seq() by {
                if k < i {
                    assert(cs@[k] == pcs[k]);
                }
            }
            assert forall|k: int| 0 <= k < i + 1 && !blinded@[k] implies (#[trigger] zs@[k])@
                == sc_from_u64_of(0) by {
                if k < i {
                    assert(zs@[k] == pzs[k]);
                }
            }
        }
        i += 1;
    }
    Some(Showing { p: p_r, cq, v, cs, zs, negzq })
}

/// One shown attribute as the issuer sees it: revealed in the clear, or a
/// commitment from the showing.
#[derive(Clone, Copy)]
pub enum ShowAttr {
    Revealed(Sc),
    Com(Pt),
}

/// The mathematical image of a `ShowAttr`.
pub enum ShowAttrV {
    Revealed(Seq<u8>),
    Com(Seq<u8>),
}

impl View for ShowAttr {
    type V = ShowAttrV;

    open spec fn view(&self) -> ShowAttrV {
        match *self {
            ShowAttr::Revealed(m) => ShowAttrV::Revealed(m@),
            ShowAttr::Com(c) => ShowAttrV::Com(c@),
        }
    }
}

pub open spec fn sattrs_view(s: Seq<ShowAttr>) -> Seq<ShowAttrV> {
    s.map_values(|a: ShowAttr| a@)
}

/// The key-and-revealed-attribute sum over the first `k` attributes:
/// `x0` plus `x_i * m_i` for each revealed one.
pub open spec fn rev_sum_spec(xs: Seq<Seq<u8>>, attrs: Seq<ShowAttrV>, k: nat) -> Seq<u8>
    decreases k,
{
    if k == 0 {
        xs[0]
    } else {
        match attrs[k - 1] {
            ShowAttrV::Revealed(m) => sc_add_of(
                rev_sum_spec(xs, attrs, (k - 1) as nat),
                sc_mul_of(xs[k as int], m),
            ),
            ShowAttrV::Com(_) => rev_sum_spec(xs, attrs, (k - 1) as nat),
        }
    }
}

/// The commitment sum over the first `k` attributes, folded onto `base`:
/// `x_i * C_i` for each blinded one.
pub open spec fn com_fold_spec(xs: Seq<Seq<u8>>, attrs: Seq<ShowAttrV>, k: nat, base: Seq<u8>) -> Seq<u8>
    decreases k,
{
    if k == 0 {
        base
    } else {
        match attrs[k - 1] {
            ShowAttrV::Com(c) => pt_add_of(
                com_fold_spec(xs, attrs, (k - 1) as nat, base),
                pt_mul_of(xs[k as int], c),
            ),
            ShowAttrV::Revealed(_) => com_fold_spec(xs, attrs, (k - 1) as nat, base),
        }
    }
}

/// The issuer's verification point:
/// `V' = (x0 + sum over revealed of x_i*m_i)*P' + sum over blinded of
/// x_i*C_i - CQ`.
pub open spec fn vprime_spec(
    xs: Seq<Seq<u8>>,
    p: Seq<u8>,
    cq: Seq<u8>,
    attrs: Seq<ShowAttrV>,
) -> Seq<u8> {
    pt_sub_of(
        com_fold_spec(xs, attrs, attrs.len(), pt_mul_of(rev_sum_spec(xs, attrs, attrs.len()), p)),
        cq,
    )
}

/// Recompute the verification point from the issuer's keys.  Yields exactly
/// `vprime_spec`, and nothing only when an input does not decode or the
/// attribute count does not fit the key.
pub fn show_vprime(priv_key: &IssuerPrivKey, p_r: &Pt, cq: &Pt, attrs: &Vec<ShowAttr>) -> (r:
    Option<Pt>)
    ensures
        match r {
            Some(v) => {
                &&& v@ == vprime_spec(
                    crate::zkp::scs_view(priv_key.x@),
                    p_r@,
                    cq@,
                    sattrs_view(attrs@),
                )
                &&& pt_ok_of(v@)
            },
            None => true,
        },
        ({
            &&& attrs@.len() <= 16
            &&& priv_key.x@.len() == attrs@.len() + 1
            &&& pt_ok_of(p_r@)
            &&& pt_ok_of(cq@)
            &&& forall|k: int|
                0 <= k < attrs@.len() ==> ((#[trigger] attrs@[k]) matches ShowAttr::Com(c)
                    ==> pt_ok_of(c@))
        }) ==> r is Some,
{
    let ghost xs = crate::zkp::scs_view(priv_key.x@);
    let ghost av = sattrs_view(attrs@);
    let n = attrs.len();
    if n > 16 || priv_key.x.len() != n + 1 {
        return None;
    }
    if !pt_check(&p_r.b) || !pt_check(&cq.b) {
        return None;
    }
    let mut rev_sum = priv_key.x[0];
    proof {
        assert(xs[0] == priv_key.x@[0]@);
    }
    let mut i: usize = 0;
    while i < n
        invariant
            n == attrs@.len(),
            priv_key.x@.len() == n + 1,
            i <= n,
            xs == crate::zkp::scs_view(priv_key.x@),
            av == sattrs_view(attrs@),
            rev_sum@ == rev_sum_spec(xs, av, i as nat),
        decreases n - i,
    {
        match &attrs[i] {
            ShowAttr::Revealed(m) => {
                let xm = sc_mul(&priv_key.x[i + 1], m);
                rev_sum = crate::group::sc_add(&rev_sum, &xm);
                proof {
                    assert(av[i as int] == ShowAttrV::Revealed(m@));
                    assert(xs[i + 1] == priv_key.x@[i + 1]@);
                }
            },
            ShowAttr::Com(_) => {
                proof {
                    assert(av[i as int] is Com);
                }
            },
        }
        i += 1;
    }
    let mut v = pt_mul(&rev_sum, p_r);
    let ghost base = v@;
    let mut j: usize = 0;
    while j < n
        invariant
            n == attrs@.len(),
            priv_key.x@.len() == n + 1,
            j <= n,
            xs == crate::zkp::scs_view(priv_key.x@),
            av == sattrs_view(attrs@),
            pt_ok_of(cq@),
            v@ == com_fold_spec(xs, av, j as nat, base),
            base == pt_mul_of(rev_sum_spec(xs, av, n as nat), p_r@),
            pt_ok_of(v@),
        decreases n - j,
    {
        match &attrs[j] {
            ShowAttr::Revealed(_) => {
                proof {
                    assert(av[j as int] is Revealed);
                }
            },
            ShowAttr::Com(c) => {
                if !pt_check(&c.b) {
                    proof {
                        assert(av[j as int] == ShowAttrV::Com(c@));
                    }
                    return None;
                }
                let xc = pt_mul(&priv_key.x[j + 1], c);
                v = pt_add(&v, &xc);
                proof {
                    assert(av[j as int] == ShowAttrV::Com(c@));
                    assert(xs[j + 1] == priv_key.x@[j + 1]@);
                }
            },
        }
        j += 1;
    }
    Some(pt_sub(&v, cq))
}

/// A statement under construction: public points and constraints, built in
/// the same order by requester and verifier.
pub struct StmtBuilder {
    pub publics: Vec<Pt>,
    pub cons: Vec<Constraint>,
}

impl StmtBuilder {
    pub fn new() -> (r: StmtBuilder)
        ensures
            r.publics@.len() == 0,
            r.cons@.len() == 0,
    {
        StmtBuilder { publics: Vec::new(), cons: Vec::new() }
    }

    /// Add a public point; its index is returned.
    pub fn pt(&mut self, p: &Pt) -> (r: usize)
        ensures
            final(self).publics@.len() == old(self).publics@.len() + 1,
            r == old(self).publics@.len(),
            final(self).cons@ == old(self).cons@,
    {
        let r = self.publics.len();
        self.publics.push(*p);
        r
    }

    /// Assert that public point `lhs` equals the linear combination `terms`.
    pub fn eq(&mut self, lhs: usize, terms: Vec<Term>)
        ensures
            final(self).publics@ == old(self).publics@,
            final(self).cons@.len() == old(self).cons@.len() + 1,
    {
        self.cons.push(Constraint { lhs, terms });
    }
}

} // verus!
