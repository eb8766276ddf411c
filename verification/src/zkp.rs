//! A declarative builder for Schnorr-style compact proofs over linear
//! group-equation assertions.  A statement is a list of constraints, each
//! saying that one public point equals a linear combination of public
//! points with secret scalar coefficients.  `prove_compact` emits a
//! Fiat-Shamir compact proof (challenge plus one response per secret);
//! `verify_compact` recomputes the committed points from the responses and
//! checks the challenge, and its outcome is pinned exactly by
//! `spec_verify`.
use vstd::prelude::*;

use crate::group::{
    pt_add, pt_add_of, pt_id_seq, pt_identity, pt_mul, pt_mul_of, pt_ok_of, pt_sub, pt_sub_of,
    sc_add, sc_eq, sc_mul, sc_ok_of, sc_random, sc_reduce, sc_reduce_of, Pt,
    Sc,
};
use crate::hashes::{sha256, sha256_of};

verus! {

/// One term of a linear combination: `secrets[sec] * publics[pt]`.
#[derive(Clone, Copy, PartialEq, Eq, Structural)]
pub struct Term {
    pub sec: usize,
    pub pt: usize,
}

/// One assertion: `publics[lhs] == sum of the terms`.
pub struct Constraint {
    pub lhs: usize,
    pub terms: Vec<Term>,
}

/// The mathematical image of a `Constraint`.
pub struct ConstraintV {
    pub lhs: usize,
    pub terms: Seq<Term>,
}

impl View for Constraint {
    type V = ConstraintV;

    open spec fn view(&self) -> ConstraintV {
        ConstraintV { lhs: self.lhs, terms: self.terms@ }
    }
}

/// A compact proof: the Fiat-Shamir challenge and one response per secret.
pub struct CompactProof {
    pub c: Sc,
    pub zs: Vec<Sc>,
}

pub open spec fn pts_view(s: Seq<Pt>) -> Seq<Seq<u8>> {
    s.map_values(|p: Pt| p@)
}

pub open spec fn scs_view(s: Seq<Sc>) -> Seq<Seq<u8>> {
    s.map_values(|x: Sc| x@)
}

pub open spec fn cons_view(s: Seq<Constraint>) -> Seq<ConstraintV> {
    s.map_values(|c: Constraint| c@)
}

/// Mapping a view over a sequence commutes with `push`.
pub proof fn lemma_pts_view_push(s: Seq<Pt>, x: Pt)
    ensures
        pts_view(s.push(x)) == pts_view(s).push(x@),
{
    assert(pts_view(s.push(x)) =~= pts_view(s).push(x@));
}

pub proof fn lemma_cons_view_push(s: Seq<Constraint>, x: Constraint)
    ensures
        cons_view(s.push(x)) == cons_view(s).push(x@),
{
    assert(cons_view(s.push(x)) =~= cons_view(s).push(x@));
}

pub open spec fn pts_ok(s: Seq<Seq<u8>>) -> bool {
    forall|i: int| 0 <= i < s.len() ==> pt_ok_of(#[trigger] s[i])
}

pub open spec fn terms_wf(terms: Seq<Term>, np: nat, ns: nat) -> bool {
    forall|k: int|
        0 <= k < terms.len() ==> (#[trigger] terms[k]).sec < ns && terms[k].pt < np
}

pub open spec fn cons_wf(cons: Seq<ConstraintV>, np: nat, ns: nat) -> bool {
    forall|j: int|
        0 <= j < cons.len() ==> (#[trigger] cons[j]).lhs < np && terms_wf(cons[j].terms, np, ns)
}

/// A multiscalar sum: the fold of `vals[t.sec] * pubs[t.pt]` over the terms,
/// starting from the identity.
pub open spec fn msm_of(terms: Seq<Term>, vals: Seq<Seq<u8>>, pubs: Seq<Seq<u8>>) -> Seq<u8>
    decreases terms.len(),
{
    if terms.len() == 0 {
        pt_id_seq()
    } else {
        pt_add_of(
            msm_of(terms.drop_last(), vals, pubs),
            pt_mul_of(vals[terms.last().sec as int], pubs[terms.last().pt as int]),
        )
    }
}

/// Little-endian encoding of a 64-bit length or index for the transcript.
pub open spec fn u64_le(x: u64) -> Seq<u8> {
    seq![
        (x & 0xff) as u8,
        ((x >> 8) & 0xff) as u8,
        ((x >> 16) & 0xff) as u8,
        ((x >> 24) & 0xff) as u8,
        ((x >> 32) & 0xff) as u8,
        ((x >> 40) & 0xff) as u8,
        ((x >> 48) & 0xff) as u8,
        ((x >> 56) & 0xff) as u8,
    ]
}

/// Concatenation of a sequence of byte strings.
pub open spec fn cat_of(s: Seq<Seq<u8>>) -> Seq<u8>
    decreases s.len(),
{
    if s.len() == 0 {
        Seq::empty()
    } else {
        cat_of(s.drop_last()) + s.last()
    }
}

pub open spec fn enc_terms(ts: Seq<Term>) -> Seq<u8>
    decreases ts.len(),
{
    if ts.len() == 0 {
        Seq::empty()
    } else {
        enc_terms(ts.drop_last()) + u64_le(ts.last().sec as u64) + u64_le(ts.last().pt as u64)
    }
}

pub open spec fn enc_cons(cs: Seq<ConstraintV>) -> Seq<u8>
    decreases cs.len(),
{
    if cs.len() == 0 {
        Seq::empty()
    } else {
        enc_cons(cs.drop_last()) + u64_le(cs.last().lhs as u64)
            + u64_le(cs.last().terms.len() as u64) + enc_terms(cs.last().terms)
    }
}

/// The Fiat-Shamir transcript: domain tag, public points, the constraint
/// structure, and the committed points.
pub open spec fn transcript_of(
    dom: u64,
    pubs: Seq<Seq<u8>>,
    cons: Seq<ConstraintV>,
    ts: Seq<Seq<u8>>,
) -> Seq<u8> {
    u64_le(dom) + u64_le(pubs.len() as u64) + cat_of(pubs) + u64_le(cons.len() as u64)
        + enc_cons(cons) + cat_of(ts)
}

/// The challenge scalar: the transcript's digest reduced mod the group order.
pub open spec fn challenge_of(
    dom: u64,
    pubs: Seq<Seq<u8>>,
    cons: Seq<ConstraintV>,
    ts: Seq<Seq<u8>>,
) -> Seq<u8> {
    sc_reduce_of(sha256_of(transcript_of(dom, pubs, cons, ts)))
}

/// The points a verifier reconstructs: for each constraint, the response
/// combination minus challenge times the left-hand side.
pub open spec fn verify_ts_of(
    cons: Seq<ConstraintV>,
    zs: Seq<Seq<u8>>,
    pubs: Seq<Seq<u8>>,
    c: Seq<u8>,
) -> Seq<Seq<u8>> {
    Seq::new(cons.len(), |j: int| pt_sub_of(msm_of(cons[j].terms, zs, pubs), pt_mul_of(c, pubs[cons[j].lhs as int])))
}

/// Exactly when `verify_compact` accepts: the statement is well formed, all
/// public points decode, there is one response per secret, and the
/// challenge matches the transcript over the reconstructed points.
pub open spec fn spec_verify(
    dom: u64,
    pubs: Seq<Seq<u8>>,
    cons: Seq<ConstraintV>,
    ns: nat,
    c: Seq<u8>,
    zs: Seq<Seq<u8>>,
) -> bool {
    &&& cons_wf(cons, pubs.len(), ns)
    &&& zs.len() == ns
    &&& pts_ok(pubs)
    &&& c == challenge_of(dom, pubs, cons, verify_ts_of(cons, zs, pubs, c))
}

fn push_u64_le(out: &mut Vec<u8>, x: u64)
    ensures
        final(out)@ == old(out)@ + u64_le(x),
{
    out.push((x & 0xff) as u8);
    out.push(((x >> 8) & 0xff) as u8);
    out.push(((x >> 16) & 0xff) as u8);
    out.push(((x >> 24) & 0xff) as u8);
    out.push(((x >> 32) & 0xff) as u8);
    out.push(((x >> 40) & 0xff) as u8);
    out.push(((x >> 48) & 0xff) as u8);
    out.push(((x >> 56) & 0xff) as u8);
    proof {
        assert(out@ =~= old(out)@ + u64_le(x));
    }
}

pub(crate) fn push_bytes32(out: &mut Vec<u8>, b: &[u8; 32])
    ensures
        final(out)@ == old(out)@ + b@,
{
    let mut i: usize = 0;
    while i < 32
        invariant
            i <= 32,
            out@ == old(out)@ + b@.take(i as int),
        decreases 32 - i,
    {
        out.push(b[i]);
        proof {
            assert(b@.take(i + 1) =~= b@.take(i as int).push(b@[i as int]));
        }
        i += 1;
    }
    proof {
        assert(b@.take(32) =~= b@);
    }
}

fn build_transcript(dom: u64, publics: &Vec<Pt>, cons: &Vec<Constraint>, ts: &Vec<Pt>) -> (r: Vec<
    u8,
>)
    ensures
        r@ == transcript_of(dom, pts_view(publics@), cons_view(cons@), pts_view(ts@)),
{
    let mut out: Vec<u8> = Vec::new();
    push_u64_le(&mut out, dom);
    push_u64_le(&mut out, publics.len() as u64);
    let ghost pfx1 = out@;
    let mut i: usize = 0;
    while i < publics.len()
        invariant
            i <= publics@.len(),
            out@ == pfx1 + cat_of(pts_view(publics@).take(i as int)),
        decreases publics@.len() - i,
    {
        push_bytes32(&mut out, &publics[i].b);
        proof {
            let m = pts_view(publics@);
            assert(m.take(i + 1).drop_last() =~= m.take(i as int));
            assert(m.take(i + 1).last() == m[i as int]);
            assert(m[i as int] == publics@[i as int]@);
            assert(out@ =~= pfx1 + cat_of(m.take(i + 1)));
        }
        i += 1;
    }
    proof {
        assert(pts_view(publics@).take(publics@.len() as int) =~= pts_view(publics@));
    }
    push_u64_le(&mut out, cons.len() as u64);
    let ghost pfx2 = out@;
    let mut j: usize = 0;
    while j < cons.len()
        invariant
            j <= cons@.len(),
            out@ == pfx2 + enc_cons(cons_view(cons@).take(j as int)),
        decreases cons@.len() - j,
    {
        push_u64_le(&mut out, cons[j].lhs as u64);
        push_u64_le(&mut out, cons[j].terms.len() as u64);
        let ghost pfx3 = out@;
        let mut k: usize = 0;
        while k < cons[j].terms.len()
            invariant
                j < cons@.len(),
                k <= cons@[j as int].terms@.len(),
                out@ == pfx3 + enc_terms(cons@[j as int].terms@.take(k as int)),
            decreases cons@[j as int].terms@.len() - k,
        {
            let t = cons[j].terms[k];
            push_u64_le(&mut out, t.sec as u64);
            push_u64_le(&mut out, t.pt as u64);
            proof {
                let ter = cons@[j as int].terms@;
                assert(ter.take(k + 1).drop_last() =~= ter.take(k as int));
                assert(out@ =~= pfx3 + enc_terms(ter.take(k + 1)));
            }
            k += 1;
        }
        proof {
            let m = cons_view(cons@);
            let ter = cons@[j as int].terms@;
            assert(ter.take(ter.len() as int) =~= ter);
            assert(m.take(j + 1).drop_last() =~= m.take(j as int));
            assert(m.take(j + 1).last() == m[j as int]);
            assert(out@ =~= pfx2 + enc_cons(m.take(j + 1)));
        }
        j += 1;
    }
    proof {
        assert(cons_view(cons@).take(cons@.len() as int) =~= cons_view(cons@));
    }
    let ghost pfx4 = out@;
    let mut i2: usize = 0;
    while i2 < ts.len()
        invariant
            i2 <= ts@.len(),
            out@ == pfx4 + cat_of(pts_view(ts@).take(i2 as int)),
        decreases ts@.len() - i2,
    {
        push_bytes32(&mut out, &ts[i2].b);
        proof {
            let m = pts_view(ts@);
            assert(m.take(i2 + 1).drop_last() =~= m.take(i2 as int));
            assert(out@ =~= pfx4 + cat_of(m.take(i2 + 1)));
        }
        i2 += 1;
    }
    proof {
        assert(pts_view(ts@).take(ts@.len() as int) =~= pts_view(ts@));
        assert(out@ =~= transcript_of(dom, pts_view(publics@), cons_view(cons@), pts_view(ts@)));
    }
    out
}

/// The challenge over a built transcript.
fn challenge(dom: u64, publics: &Vec<Pt>, cons: &Vec<Constraint>, ts: &Vec<Pt>) -> (r: Sc)
    ensures
        r@ == challenge_of(dom, pts_view(publics@), cons_view(cons@), pts_view(ts@)),
        sc_ok_of(r@),
{
    let tr = build_transcript(dom, publics, cons, ts);
    let h = sha256(&tr);
    sc_reduce(&h)
}

fn msm(terms: &Vec<Term>, vals: &Vec<Sc>, pubs: &Vec<Pt>) -> (r: Pt)
    requires
        terms_wf(terms@, pubs@.len(), vals@.len()),
        pts_ok(pts_view(pubs@)),
    ensures
        r@ == msm_of(terms@, scs_view(vals@), pts_view(pubs@)),
        pt_ok_of(r@),
{
    let mut acc = pt_identity();
    proof {
        assert(terms@.take(0) =~= Seq::<Term>::empty());
    }
    let mut i: usize = 0;
    while i < terms.len()
        invariant
            i <= terms@.len(),
            terms_wf(terms@, pubs@.len(), vals@.len()),
            pts_ok(pts_view(pubs@)),
            acc@ == msm_of(terms@.take(i as int), scs_view(vals@), pts_view(pubs@)),
            pt_ok_of(acc@),
        decreases terms@.len() - i,
    {
        let t = terms[i];
        proof {
            assert(terms@[i as int].sec < vals@.len());
            assert(pts_view(pubs@)[t.pt as int] == pubs@[t.pt as int]@);
            assert(pt_ok_of(pts_view(pubs@)[t.pt as int]));
        }
        let m = pt_mul(&vals[t.sec], &pubs[t.pt]);
        acc = pt_add(&acc, &m);
        proof {
            let pre = terms@.take(i + 1);
            assert(pre.drop_last() =~= terms@.take(i as int));
            assert(pre.last() == terms@[i as int]);
            assert(scs_view(vals@)[t.sec as int] == vals@[t.sec as int]@);
        }
        i += 1;
    }
    proof {
        assert(terms@.take(terms@.len() as int) =~= terms@);
    }
    acc
}

/// Runtime well-formedness of a statement: every index in range.
fn check_wf(cons: &Vec<Constraint>, np: usize, ns: usize) -> (r: bool)
    ensures
        r == cons_wf(cons_view(cons@), np as nat, ns as nat),
{
    let mut j: usize = 0;
    while j < cons.len()
        invariant
            j <= cons@.len(),
            forall|j2: int|
                0 <= j2 < j ==> (#[trigger] cons_view(cons@)[j2]).lhs < np && terms_wf(
                    cons_view(cons@)[j2].terms,
                    np as nat,
                    ns as nat,
                ),
        decreases cons@.len() - j,
    {
        if cons[j].lhs >= np {
            assert(!cons_wf(cons_view(cons@), np as nat, ns as nat)) by {
                assert(cons_view(cons@)[j as int].lhs >= np);
            }
            return false;
        }
        let mut k: usize = 0;
        while k < cons[j].terms.len()
            invariant
                j < cons@.len(),
                k <= cons@[j as int].terms@.len(),
                forall|k2: int|
                    0 <= k2 < k ==> (#[trigger] cons@[j as int].terms@[k2]).sec < ns
                        && cons@[j as int].terms@[k2].pt < np,
            decreases cons@[j as int].terms@.len() - k,
        {
            let t = cons[j].terms[k];
            if t.sec >= ns || t.pt >= np {
                assert(!terms_wf(cons_view(cons@)[j as int].terms, np as nat, ns as nat)) by {
                    assert(cons@[j as int].terms@[k as int].sec >= ns || cons@[j as int].terms@[k
                        as int].pt >= np);
                }
                assert(!cons_wf(cons_view(cons@), np as nat, ns as nat));
                return false;
            }
            k += 1;
        }
        assert(terms_wf(cons_view(cons@)[j as int].terms, np as nat, ns as nat));
        j += 1;
    }
    true
}

fn check_pts(publics: &Vec<Pt>) -> (r: bool)
    ensures
        r == pts_ok(pts_view(publics@)),
{
    let mut i: usize = 0;
    while i < publics.len()
        invariant
            i <= publics@.len(),
            forall|i2: int| 0 <= i2 < i ==> pt_ok_of(#[trigger] pts_view(publics@)[i2]),
        decreases publics@.len() - i,
    {
        if !crate::group::pt_check(&publics[i].b) {
            assert(!pts_ok(pts_view(publics@))) by {
                assert(!pt_ok_of(pts_view(publics@)[i as int]));
            }
            return false;
        }
        i += 1;
    }
    true
}

/// Produce a compact proof of the statement, knowing the secrets.  Yields
/// nothing when the statement is malformed; what it yields passes
/// `verify_compact` run on the same statement (a fact of the group's
/// algebra that is exercised, not proved, here).
pub fn prove_compact(
    dom: u64,
    publics: &Vec<Pt>,
    cons: &Vec<Constraint>,
    secrets: &Vec<Sc>,
) -> (r: Option<CompactProof>)
    ensures
        r is Some <==> cons_wf(cons_view(cons@), publics@.len(), secrets@.len()) && pts_ok(
            pts_view(publics@),
        ),
        r is Some ==> r.unwrap().zs@.len() == secrets@.len(),
{
    if !check_wf(cons, publics.len(), secrets.len()) {
        return None;
    }
    if !check_pts(publics) {
        return None;
    }
    // One fresh blinding per secret.
    let mut rs: Vec<Sc> = Vec::new();
    let mut i: usize = 0;
    while i < secrets.len()
        invariant
            i <= secrets@.len(),
            rs@.len() == i,
        decreases secrets@.len() - i,
    {
        rs.push(sc_random());
        i += 1;
    }
    // Committed points: the blinding image of each constraint.
    let mut ts: Vec<Pt> = Vec::new();
    let mut j: usize = 0;
    while j < cons.len()
        invariant
            j <= cons@.len(),
            rs@.len() == secrets@.len(),
            cons_wf(cons_view(cons@), publics@.len(), secrets@.len()),
            pts_ok(pts_view(publics@)),
        decreases cons@.len() - j,
    {
        assert(terms_wf(cons_view(cons@)[j as int].terms, publics@.len(), secrets@.len()));
        let t = msm(&cons[j].terms, &rs, publics);
        ts.push(t);
        j += 1;
    }
    let c = challenge(dom, publics, cons, &ts);
    // Responses: blinding plus challenge times secret.
    let mut zs: Vec<Sc> = Vec::new();
    let mut i2: usize = 0;
    while i2 < secrets.len()
        invariant
            i2 <= secrets@.len(),
            zs@.len() == i2,
            rs@.len() == secrets@.len(),
        decreases secrets@.len() - i2,
    {
        let m = sc_mul(&c, &secrets[i2]);
        zs.push(sc_add(&rs[i2], &m));
        i2 += 1;
    }
    Some(CompactProof { c, zs })
}

/// Check a compact proof of the statement; acceptance is exactly
/// `spec_verify` of the statement and the proof.
pub fn verify_compact(
    dom: u64,
    publics: &Vec<Pt>,
    cons: &Vec<Constraint>,
    n_secrets: usize,
    proof: &CompactProof,
) -> (r: bool)
    ensures
        r == spec_verify(
            dom,
            pts_view(publics@),
            cons_view(cons@),
            n_secrets as nat,
            proof.c@,
            scs_view(proof.zs@),
        ),
{
    if proof.zs.len() != n_secrets {
        return false;
    }
    if !check_wf(cons, publics.len(), n_secrets) {
        return false;
    }
    if !check_pts(publics) {
        return false;
    }
    let ghost gpubs = pts_view(publics@);
    let ghost gcons = cons_view(cons@);
    let ghost gzs = scs_view(proof.zs@);
    let mut ts: Vec<Pt> = Vec::new();
    let mut j: usize = 0;
    while j < cons.len()
        invariant
            j <= cons@.len(),
            gpubs == pts_view(publics@),
            gcons == cons_view(cons@),
            gzs == scs_view(proof.zs@),
            proof.zs@.len() == n_secrets,
            cons_wf(gcons, publics@.len(), n_secrets as nat),
            pts_ok(gpubs),
            ts@.len() == j,
            forall|j2: int|
                0 <= j2 < j ==> (#[trigger] ts@[j2])@ == pt_sub_of(
                    msm_of(gcons[j2].terms, gzs, gpubs),
                    pt_mul_of(proof.c@, gpubs[gcons[j2].lhs as int]),
                ) && pt_ok_of(ts@[j2]@),
        decreases cons@.len() - j,
    {
        assert(terms_wf(gcons[j as int].terms, publics@.len(), n_secrets as nat));
        let m = msm(&cons[j].terms, &proof.zs, publics);
        assert(gcons[j as int].lhs < publics@.len());
        assert(pt_ok_of(gpubs[gcons[j as int].lhs as int]));
        let lc = pt_mul(&proof.c, &publics[cons[j].lhs]);
        let t = pt_sub(&m, &lc);
        ts.push(t);
        j += 1;
    }
    let c2 = challenge(dom, publics, cons, &ts);
    let r = sc_eq(&proof.c, &c2);
    proof {
        assert(pts_view(ts@) =~= verify_ts_of(gcons, gzs, gpubs, proof.c@));
    }
    r
}

} // verus!
