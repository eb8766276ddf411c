//! Invitation issuance: a user with invitations to spare shows its Lox
//! credential (only the id revealed) and a same-day reachability credential
//! on the same hidden bucket, proves `invites_remaining != 0` by exhibiting
//! its inverse, and receives a replacement Lox credential with one fewer
//! invitation together with a fresh Invitation credential pinned to its
//! bucket and blockages.
use vstd::prelude::*;

use crate::cred::{BucketReachability, Invitation, Lox};
use crate::errors::LoxError;
use crate::group::{
    gen_a, gen_b, gen_b_spec, pt_add, pt_add_of, pt_check, pt_id_seq, pt_is_identity, pt_mul,
    pt_mul_of, pt_ok_of, sc_add, sc_add_of, sc_eq, sc_from_u64, sc_from_u64_of, sc_invert,
    sc_mul, sc_random, sc_sub, Pt, Sc,
};
use crate::issuance::{
    blind_issue, elgamal_decrypt, elgamal_encrypt, issue_verified, issue_verify, user_attrs_spec,
    BlindIssued, EncAttr, IssueAttrV, IssueInput, IssueUser,
};
use crate::issuer::{lox_attrs, reachability_attrs, Issuer};
use crate::filters::{seen_in, SeenType};
use crate::proto::{DOM_ISSUE_INVITE_ISS_INVITATION, DOM_ISSUE_INVITE_ISS_LOX, DOM_ISSUE_INVITE_REQ};
use crate::show::{show_cred, show_vprime, ShowAttr};
use crate::zkp::{prove_compact, scs_view, verify_compact, CompactProof, Constraint, Term};

verus! {

/// What the user sends.
pub struct Request {
    pub id: Sc,
    pub p_lox: Pt,
    pub cq_lox: Pt,
    pub c_bucket: Pt,
    pub c_trust: Pt,
    pub c_since: Pt,
    pub c_invrem: Pt,
    pub c_blockages: Pt,
    pub p_reach: Pt,
    pub cq_reach: Pt,
    pub c_rbucket: Pt,
    pub d_pub: Pt,
    pub enc_id: EncAttr,
    pub enc_b: EncAttr,
    pub enc_t: EncAttr,
    pub enc_s: EncAttr,
    pub enc_i: EncAttr,
    pub enc_k: EncAttr,
    pub enc_invid: EncAttr,
    pub enc_b2: EncAttr,
    pub enc_k2: EncAttr,
    pub proof: CompactProof,
}

/// What the user must remember until the response arrives.
pub struct State {
    pub d: Sc,
    pub d_pub: Pt,
    pub id_client: Sc,
    pub invid_client: Sc,
    pub enc_id: EncAttr,
    pub enc_b: EncAttr,
    pub enc_t: EncAttr,
    pub enc_s: EncAttr,
    pub enc_i: EncAttr,
    pub enc_k: EncAttr,
    pub enc_invid: EncAttr,
    pub enc_b2: EncAttr,
    pub enc_k2: EncAttr,
    pub bucket: Sc,
    pub trust_level: u32,
    pub level_since: u32,
    pub invites_remaining: u32,
    pub blockages: u32,
}

/// What the issuer answers: its shares, the date it stamped, and the two
/// blind issuances.
pub struct Response {
    pub id_server: Sc,
    pub invid_server: Sc,
    pub date: u32,
    pub issued_lox: BlindIssued,
    pub issued_invitation: BlindIssued,
}

/// The request statement shared by both sides.
fn stmt(
    p_lox: &Pt,
    cq_lox: &Pt,
    cs_lox: [Pt; 5],
    v_lox: &Pt,
    lox_xs: &Vec<Pt>,
    p_reach: &Pt,
    cq_reach: &Pt,
    c_rbucket: &Pt,
    v_reach: &Pt,
    reach_xs: &Vec<Pt>,
    d_pub: &Pt,
    encs: [EncAttr; 9],
) -> (r: Option<(Vec<Pt>, Vec<Constraint>)>)
    requires
        pt_ok_of(encs[4].c1@),
{
    let a_gen = gen_a();
    let b_gen = gen_b();
    let mut publics: Vec<Pt> = Vec::new();
    publics.push(a_gen);
    publics.push(b_gen);
    publics.push(*p_lox);
    publics.push(*cq_lox);
    publics.push(cs_lox[0]);
    publics.push(cs_lox[1]);
    publics.push(cs_lox[2]);
    publics.push(cs_lox[3]);
    publics.push(cs_lox[4]);
    publics.push(*v_lox);
    let mut i: usize = 0;
    while i < lox_xs.len()
        decreases lox_xs@.len() - i,
    {
        publics.push(lox_xs[i]);
        i += 1;
    }
    publics.push(*p_reach);
    publics.push(*cq_reach);
    publics.push(*c_rbucket);
    publics.push(*v_reach);
    let mut j: usize = 0;
    while j < reach_xs.len()
        decreases reach_xs@.len() - j,
    {
        publics.push(reach_xs[j]);
        j += 1;
    }
    publics.push(*d_pub);
    // Encryption slots: id, bucket, trust, since, invrem' (with the shifted
    // second half), blockages, inv_id, bucket again, blockages again.
    publics.push(encs[0].c0);
    publics.push(encs[0].c1);
    publics.push(encs[1].c0);
    publics.push(encs[1].c1);
    publics.push(encs[2].c0);
    publics.push(encs[2].c1);
    publics.push(encs[3].c0);
    publics.push(encs[3].c1);
    publics.push(encs[4].c0);
    publics.push(encs[4].c1);
    // The shifted slot: EncI.1 + B commits to the old invites_remaining.
    let shifted = pt_add(&encs[4].c1, &b_gen);
    publics.push(shifted);
    publics.push(encs[5].c0);
    publics.push(encs[5].c1);
    publics.push(encs[6].c0);
    publics.push(encs[6].c1);
    publics.push(encs[7].c0);
    publics.push(encs[7].c1);
    publics.push(encs[8].c0);
    publics.push(encs[8].c1);
    let mut cons: Vec<Constraint> = Vec::new();
    // Lox commitments over P'_L: bucket, trust, since, invrem, blockages.
    let mut t: Vec<Term> = Vec::new();
    t.push(Term { sec: 0, pt: 2 });
    t.push(Term { sec: 1, pt: 0 });
    cons.push(Constraint { lhs: 4, terms: t });
    let mut t: Vec<Term> = Vec::new();
    t.push(Term { sec: 2, pt: 2 });
    t.push(Term { sec: 3, pt: 0 });
    cons.push(Constraint { lhs: 5, terms: t });
    let mut t: Vec<Term> = Vec::new();
    t.push(Term { sec: 4, pt: 2 });
    t.push(Term { sec: 5, pt: 0 });
    cons.push(Constraint { lhs: 6, terms: t });
    let mut t: Vec<Term> = Vec::new();
    t.push(Term { sec: 6, pt: 2 });
    t.push(Term { sec: 7, pt: 0 });
    cons.push(Constraint { lhs: 7, terms: t });
    let mut t: Vec<Term> = Vec::new();
    t.push(Term { sec: 8, pt: 2 });
    t.push(Term { sec: 9, pt: 0 });
    cons.push(Constraint { lhs: 8, terms: t });
    // V_L over the five blinded Lox attributes.
    let mut t: Vec<Term> = Vec::new();
    t.push(Term { sec: 1, pt: 12 });
    t.push(Term { sec: 3, pt: 13 });
    t.push(Term { sec: 5, pt: 14 });
    t.push(Term { sec: 7, pt: 15 });
    t.push(Term { sec: 9, pt: 16 });
    t.push(Term { sec: 10, pt: 0 });
    cons.push(Constraint { lhs: 9, terms: t });
    // The reachability showing: same hidden bucket.
    let mut t: Vec<Term> = Vec::new();
    t.push(Term { sec: 0, pt: 17 });
    t.push(Term { sec: 11, pt: 0 });
    cons.push(Constraint { lhs: 19, terms: t });
    let mut t: Vec<Term> = Vec::new();
    t.push(Term { sec: 11, pt: 23 });
    t.push(Term { sec: 12, pt: 0 });
    cons.push(Constraint { lhs: 20, terms: t });
    // invites_remaining != 0: its inverse satisfies
    // P'_L = inv*C_invrem + w*A.
    let mut t: Vec<Term> = Vec::new();
    t.push(Term { sec: 13, pt: 7 });
    t.push(Term { sec: 14, pt: 0 });
    cons.push(Constraint { lhs: 2, terms: t });
    // The ephemeral key.
    let mut t: Vec<Term> = Vec::new();
    t.push(Term { sec: 15, pt: 1 });
    cons.push(Constraint { lhs: 24, terms: t });
    // The nine encryptions; the invrem slot is tied through the shifted
    // public to the old value.
    let mut t: Vec<Term> = Vec::new();
    t.push(Term { sec: 16, pt: 1 });
    cons.push(Constraint { lhs: 25, terms: t });
    let mut t: Vec<Term> = Vec::new();
    t.push(Term { sec: 17, pt: 1 });
    t.push(Term { sec: 16, pt: 24 });
    cons.push(Constraint { lhs: 26, terms: t });
    let mut t: Vec<Term> = Vec::new();
    t.push(Term { sec: 18, pt: 1 });
    cons.push(Constraint { lhs: 27, terms: t });
    let mut t: Vec<Term> = Vec::new();
    t.push(Term { sec: 0, pt: 1 });
    t.push(Term { sec: 18, pt: 24 });
    cons.push(Constraint { lhs: 28, terms: t });
    let mut t: Vec<Term> = Vec::new();
    t.push(Term { sec: 19, pt: 1 });
    cons.push(Constraint { lhs: 29, terms: t });
    let mut t: Vec<Term> = Vec::new();
    t.push(Term { sec: 2, pt: 1 });
    t.push(Term { sec: 19, pt: 24 });
    cons.push(Constraint { lhs: 30, terms: t });
    let mut t: Vec<Term> = Vec::new();
    t.push(Term { sec: 20, pt: 1 });
    cons.push(Constraint { lhs: 31, terms: t });
    let mut t: Vec<Term> = Vec::new();
    t.push(Term { sec: 4, pt: 1 });
    t.push(Term { sec: 20, pt: 24 });
    cons.push(Constraint { lhs: 32, terms: t });
    let mut t: Vec<Term> = Vec::new();
    t.push(Term { sec: 21, pt: 1 });
    cons.push(Constraint { lhs: 33, terms: t });
    let mut t: Vec<Term> = Vec::new();
    t.push(Term { sec: 6, pt: 1 });
    t.push(Term { sec: 21, pt: 24 });
    cons.push(Constraint { lhs: 35, terms: t });
    let mut t: Vec<Term> = Vec::new();
    t.push(Term { sec: 22, pt: 1 });
    cons.push(Constraint { lhs: 36, terms: t });
    let mut t: Vec<Term> = Vec::new();
    t.push(Term { sec: 8, pt: 1 });
    t.push(Term { sec: 22, pt: 24 });
    cons.push(Constraint { lhs: 37, terms: t });
    let mut t: Vec<Term> = Vec::new();
    t.push(Term { sec: 23, pt: 1 });
    cons.push(Constraint { lhs: 38, terms: t });
    let mut t: Vec<Term> = Vec::new();
    t.push(Term { sec: 24, pt: 1 });
    t.push(Term { sec: 23, pt: 24 });
    cons.push(Constraint { lhs: 39, terms: t });
    let mut t: Vec<Term> = Vec::new();
    t.push(Term { sec: 25, pt: 1 });
    cons.push(Constraint { lhs: 40, terms: t });
    let mut t: Vec<Term> = Vec::new();
    t.push(Term { sec: 0, pt: 1 });
    t.push(Term { sec: 25, pt: 24 });
    cons.push(Constraint { lhs: 41, terms: t });
    let mut t: Vec<Term> = Vec::new();
    t.push(Term { sec: 26, pt: 1 });
    cons.push(Constraint { lhs: 42, terms: t });
    let mut t: Vec<Term> = Vec::new();
    t.push(Term { sec: 8, pt: 1 });
    t.push(Term { sec: 26, pt: 24 });
    cons.push(Constraint { lhs: 43, terms: t });
    Some((publics, cons))
}

/// Compose an invitation-issuance request.  The credential must have an
/// invitation to spare and the reachability credential must be on the same
/// bucket and dated today.
pub fn request(
    lox: &Lox,
    reach: &BucketReachability,
    today: u32,
    lox_pub: &crate::keys::IssuerPubKey,
    reach_pub: &crate::keys::IssuerPubKey,
) -> (r: Result<(Request, State), LoxError>)
    ensures
        lox.invites_remaining == 0 ==> r == Result::<(Request, State), LoxError>::Err(
            LoxError::NoInvitationsRemaining,
        ),
        lox.invites_remaining > 0 && reach.bucket@ != lox.bucket@ ==> r == Result::<
            (Request, State),
            LoxError,
        >::Err(LoxError::CredentialMismatch),
        lox.invites_remaining > 0 && reach.bucket@ == lox.bucket@ && reach.date != today ==> r
            == Result::<(Request, State), LoxError>::Err(
            LoxError::InvalidField("date", "reachability credential is not for today"),
        ),
        r is Err ==> r->Err_0 == LoxError::NoInvitationsRemaining || r->Err_0
            == LoxError::CredentialMismatch || r->Err_0 == LoxError::InvalidField(
            "date",
            "reachability credential is not for today",
        ) || r->Err_0 == LoxError::InvalidField("credential", "does not decode") || r->Err_0
            == LoxError::VerificationFailure,
        r is Ok ==> {
            let (req, st) = r.unwrap();
            &&& req.id@ == lox.id@
            &&& st.bucket@ == lox.bucket@
            &&& st.trust_level == lox.trust_level
            &&& st.level_since == lox.level_since
            &&& st.invites_remaining == lox.invites_remaining
            &&& st.blockages == lox.blockages
        },
{
    if lox.invites_remaining == 0 {
        return Err(LoxError::NoInvitationsRemaining);
    }
    if !sc_eq(&reach.bucket, &lox.bucket) {
        return Err(LoxError::CredentialMismatch);
    }
    if reach.date != today {
        return Err(LoxError::InvalidField("date", "reachability credential is not for today"));
    }
    let attrs = lox_attrs(lox);
    proof {
        assert(scs_view(attrs@).len() == attrs@.len());
        assert(attrs@.len() == 6);
    }
    let mut blinded: Vec<bool> = Vec::new();
    blinded.push(false);
    blinded.push(true);
    blinded.push(true);
    blinded.push(true);
    blinded.push(true);
    blinded.push(true);
    let sh_lox = match show_cred(&lox.p, &lox.q, &attrs, &blinded, &lox_pub.xs) {
        Some(sh) => sh,
        None => {
            return Err(LoxError::InvalidField("credential", "does not decode"));
        },
    };
    let rattrs = reachability_attrs(reach);
    proof {
        assert(scs_view(rattrs@).len() == rattrs@.len());
        assert(rattrs@.len() == 2);
    }
    let mut rblinded: Vec<bool> = Vec::new();
    rblinded.push(false);
    rblinded.push(true);
    let sh_reach = match show_cred(&reach.p, &reach.q, &rattrs, &rblinded, &reach_pub.xs) {
        Some(sh) => sh,
        None => {
            return Err(LoxError::InvalidField("credential", "does not decode"));
        },
    };
    let b_gen = gen_b();
    let d = sc_random();
    let d_pub = pt_mul(&d, &b_gen);
    let id_client = sc_random();
    let invid_client = sc_random();
    let trust = sc_from_u64(lox.trust_level as u64);
    let since = sc_from_u64(lox.level_since as u64);
    let invrem = sc_from_u64(lox.invites_remaining as u64);
    let invrem_new = sc_from_u64((lox.invites_remaining - 1) as u64);
    let blk = sc_from_u64(lox.blockages as u64);
    let mut encs: Vec<EncAttr> = Vec::new();
    let mut es: Vec<Sc> = Vec::new();
    let mut ms: Vec<Sc> = Vec::new();
    ms.push(id_client);
    ms.push(lox.bucket);
    ms.push(trust);
    ms.push(since);
    ms.push(invrem_new);
    ms.push(blk);
    ms.push(invid_client);
    ms.push(lox.bucket);
    ms.push(blk);
    let mut mi: usize = 0;
    while mi < 9
        invariant
            ms@.len() == 9,
            mi <= 9,
            encs@.len() == mi,
            es@.len() == mi,
            pt_ok_of(d_pub@),
            forall|j: int|
                0 <= j < mi ==> pt_ok_of((#[trigger] encs@[j]).c0@) && pt_ok_of(encs@[j].c1@),
        decreases 9 - mi,
    {
        let (enc, e) = match elgamal_encrypt(&ms[mi], &d_pub) {
            Some(x) => x,
            None => {
                proof {
                    assert(false);
                }
                vstd::pervasive::unreached()
            },
        };
        encs.push(enc);
        es.push(e);
        mi += 1;
    }
    // The inverse of invites_remaining and its blinding witness.
    let inv = sc_invert(&invrem);
    let zero = sc_from_u64(0);
    let w = sc_sub(&zero, &sc_mul(&inv, &sh_lox.zs[4]));
    let mut secrets: Vec<Sc> = Vec::new();
    secrets.push(lox.bucket);
    secrets.push(sh_lox.zs[1]);
    secrets.push(trust);
    secrets.push(sh_lox.zs[2]);
    secrets.push(since);
    secrets.push(sh_lox.zs[3]);
    secrets.push(invrem);
    secrets.push(sh_lox.zs[4]);
    secrets.push(blk);
    secrets.push(sh_lox.zs[5]);
    secrets.push(sh_lox.negzq);
    secrets.push(sh_reach.zs[1]);
    secrets.push(sh_reach.negzq);
    secrets.push(inv);
    secrets.push(w);
    secrets.push(d);
    secrets.push(es[0]);
    secrets.push(id_client);
    secrets.push(es[1]);
    secrets.push(es[2]);
    secrets.push(es[3]);
    secrets.push(es[4]);
    secrets.push(es[5]);
    secrets.push(es[6]);
    secrets.push(invid_client);
    secrets.push(es[7]);
    secrets.push(es[8]);
    let (publics, cons) = match stmt(
        &sh_lox.p,
        &sh_lox.cq,
        [sh_lox.cs[1], sh_lox.cs[2], sh_lox.cs[3], sh_lox.cs[4], sh_lox.cs[5]],
        &sh_lox.v,
        &lox_pub.xs,
        &sh_reach.p,
        &sh_reach.cq,
        &sh_reach.cs[1],
        &sh_reach.v,
        &reach_pub.xs,
        &d_pub,
        [encs[0], encs[1], encs[2], encs[3], encs[4], encs[5], encs[6], encs[7], encs[8]],
    ) {
        Some(x) => x,
        None => {
            return Err(LoxError::VerificationFailure);
        },
    };
    let proof = match prove_compact(DOM_ISSUE_INVITE_REQ, &publics, &cons, &secrets) {
        Some(pr) => pr,
        None => {
            return Err(LoxError::VerificationFailure);
        },
    };
    let req = Request {
        id: lox.id,
        p_lox: sh_lox.p,
        cq_lox: sh_lox.cq,
        c_bucket: sh_lox.cs[1],
        c_trust: sh_lox.cs[2],
        c_since: sh_lox.cs[3],
        c_invrem: sh_lox.cs[4],
        c_blockages: sh_lox.cs[5],
        p_reach: sh_reach.p,
        cq_reach: sh_reach.cq,
        c_rbucket: sh_reach.cs[1],
        d_pub,
        enc_id: encs[0],
        enc_b: encs[1],
        enc_t: encs[2],
        enc_s: encs[3],
        enc_i: encs[4],
        enc_k: encs[5],
        enc_invid: encs[6],
        enc_b2: encs[7],
        enc_k2: encs[8],
        proof,
    };
    let st = State {
        d,
        d_pub,
        id_client,
        invid_client,
        enc_id: encs[0],
        enc_b: encs[1],
        enc_t: encs[2],
        enc_s: encs[3],
        enc_i: encs[4],
        enc_k: encs[5],
        enc_invid: encs[6],
        enc_b2: encs[7],
        enc_k2: encs[8],
        bucket: lox.bucket,
        trust_level: lox.trust_level,
        level_since: lox.level_since,
        invites_remaining: lox.invites_remaining,
        blockages: lox.blockages,
    };
    Ok((req, st))
}

/// Handle an invitation-issuance request: verify the showings, the
/// non-zero proof and the encryptions' linkage, blind-issue the replacement
/// Lox credential and the Invitation, and only then consume the id.
pub fn handle(issuer: &mut Issuer, req: &Request) -> (r: Result<Response, LoxError>)
    ensures
        r is Err ==> r == Result::<Response, LoxError>::Err(LoxError::VerificationFailure)
            && *final(issuer) == *old(issuer),
        seen_in(old(issuer).id_filter@, req.id@) ==> r is Err,
        r is Ok ==> {
            let resp = r.unwrap();
            &&& resp.date == old(issuer).today
            &&& resp.issued_lox.p@ != pt_id_seq()
            &&& resp.issued_invitation.p@ != pt_id_seq()
            &&& !seen_in(old(issuer).id_filter@, req.id@)
            &&& final(issuer).id_filter@ == old(issuer).id_filter@.push(req.id@)
            &&& final(issuer).today == old(issuer).today
            &&& final(issuer).inv_id_filter@ == old(issuer).inv_id_filter@
        },
{
    if !pt_check(&req.p_lox.b) || !pt_check(&req.cq_lox.b) || !pt_check(&req.c_bucket.b)
        || !pt_check(&req.c_trust.b) || !pt_check(&req.c_since.b) || !pt_check(&req.c_invrem.b)
        || !pt_check(&req.c_blockages.b) || !pt_check(&req.p_reach.b) || !pt_check(
        &req.cq_reach.b,
    ) || !pt_check(&req.c_rbucket.b) || !pt_check(&req.d_pub.b) {
        return Err(LoxError::VerificationFailure);
    }
    if !pt_check(&req.enc_id.c0.b) || !pt_check(&req.enc_id.c1.b) || !pt_check(&req.enc_b.c0.b)
        || !pt_check(&req.enc_b.c1.b) || !pt_check(&req.enc_t.c0.b) || !pt_check(&req.enc_t.c1.b)
        || !pt_check(&req.enc_s.c0.b) || !pt_check(&req.enc_s.c1.b) || !pt_check(&req.enc_i.c0.b)
        || !pt_check(&req.enc_i.c1.b) || !pt_check(&req.enc_k.c0.b) || !pt_check(&req.enc_k.c1.b)
        || !pt_check(&req.enc_invid.c0.b) || !pt_check(&req.enc_invid.c1.b) || !pt_check(
        &req.enc_b2.c0.b,
    ) || !pt_check(&req.enc_b2.c1.b) || !pt_check(&req.enc_k2.c0.b) || !pt_check(
        &req.enc_k2.c1.b,
    ) {
        return Err(LoxError::VerificationFailure);
    }
    if pt_is_identity(&req.p_lox) || pt_is_identity(&req.p_reach) {
        return Err(LoxError::VerificationFailure);
    }
    let mut sattrs: Vec<ShowAttr> = Vec::new();
    sattrs.push(ShowAttr::Revealed(req.id));
    sattrs.push(ShowAttr::Com(req.c_bucket));
    sattrs.push(ShowAttr::Com(req.c_trust));
    sattrs.push(ShowAttr::Com(req.c_since));
    sattrs.push(ShowAttr::Com(req.c_invrem));
    sattrs.push(ShowAttr::Com(req.c_blockages));
    let v_lox = match show_vprime(&issuer.lox_priv, &req.p_lox, &req.cq_lox, &sattrs) {
        Some(v) => v,
        None => {
            return Err(LoxError::VerificationFailure);
        },
    };
    let mut rattrs: Vec<ShowAttr> = Vec::new();
    rattrs.push(ShowAttr::Revealed(sc_from_u64(issuer.today as u64)));
    rattrs.push(ShowAttr::Com(req.c_rbucket));
    let v_reach = match show_vprime(&issuer.reachability_priv, &req.p_reach, &req.cq_reach, &rattrs) {
        Some(v) => v,
        None => {
            return Err(LoxError::VerificationFailure);
        },
    };
    let (publics, cons) = match stmt(
        &req.p_lox,
        &req.cq_lox,
        [req.c_bucket, req.c_trust, req.c_since, req.c_invrem, req.c_blockages],
        &v_lox,
        &issuer.lox_pub.xs,
        &req.p_reach,
        &req.cq_reach,
        &req.c_rbucket,
        &v_reach,
        &issuer.reachability_pub.xs,
        &req.d_pub,
        [
            req.enc_id,
            req.enc_b,
            req.enc_t,
            req.enc_s,
            req.enc_i,
            req.enc_k,
            req.enc_invid,
            req.enc_b2,
            req.enc_k2,
        ],
    ) {
        Some(x) => x,
        None => {
            return Err(LoxError::VerificationFailure);
        },
    };
    if !verify_compact(DOM_ISSUE_INVITE_REQ, &publics, &cons, 27, &req.proof) {
        return Err(LoxError::VerificationFailure);
    }
    let b_gen = gen_b();
    let id_server = sc_random();
    let idb = pt_mul(&id_server, &b_gen);
    let enc_id2 = EncAttr { c0: req.enc_id.c0, c1: pt_add(&req.enc_id.c1, &idb) };
    let invid_server = sc_random();
    let invb = pt_mul(&invid_server, &b_gen);
    let enc_invid2 = EncAttr { c0: req.enc_invid.c0, c1: pt_add(&req.enc_invid.c1, &invb) };
    let mut inputs: Vec<IssueInput> = Vec::new();
    inputs.push(IssueInput::Blinded(enc_id2));
    inputs.push(IssueInput::Blinded(req.enc_b));
    inputs.push(IssueInput::Blinded(req.enc_t));
    inputs.push(IssueInput::Blinded(req.enc_s));
    inputs.push(IssueInput::Blinded(req.enc_i));
    inputs.push(IssueInput::Blinded(req.enc_k));
    let bi_lox = match blind_issue(
        &issuer.lox_priv,
        &issuer.lox_pub.xs,
        &inputs,
        &req.d_pub,
        DOM_ISSUE_INVITE_ISS_LOX,
    ) {
        Some(bi) => bi,
        None => {
            return Err(LoxError::VerificationFailure);
        },
    };
    let since = sc_from_u64(issuer.today as u64);
    let mut inv_inputs: Vec<IssueInput> = Vec::new();
    inv_inputs.push(IssueInput::Blinded(enc_invid2));
    inv_inputs.push(IssueInput::Known(since));
    inv_inputs.push(IssueInput::Blinded(req.enc_b2));
    inv_inputs.push(IssueInput::Blinded(req.enc_k2));
    let bi_inv = match blind_issue(
        &issuer.invitation_priv,
        &issuer.invitation_pub.xs,
        &inv_inputs,
        &req.d_pub,
        DOM_ISSUE_INVITE_ISS_INVITATION,
    ) {
        Some(bi) => bi,
        None => {
            return Err(LoxError::VerificationFailure);
        },
    };
    if issuer.id_filter.filter(&req.id) == SeenType::Seen {
        return Err(LoxError::VerificationFailure);
    }
    let today = issuer.today;
    Ok(
        Response {
            id_server,
            invid_server,
            date: today,
            issued_lox: bi_lox,
            issued_invitation: bi_inv,
        },
    )
}

/// The attribute views a user expects of its replacement Lox credential.
pub open spec fn response_lox_attrs(st: State, resp: Response) -> Seq<IssueAttrV> {
    seq![
        IssueAttrV::Blinded(
            resp.issued_lox.ts@[0]@,
            st.enc_id.c0@,
            pt_add_of(st.enc_id.c1@, pt_mul_of(resp.id_server@, gen_b_spec())),
        ),
        IssueAttrV::Blinded(resp.issued_lox.ts@[1]@, st.enc_b.c0@, st.enc_b.c1@),
        IssueAttrV::Blinded(resp.issued_lox.ts@[2]@, st.enc_t.c0@, st.enc_t.c1@),
        IssueAttrV::Blinded(resp.issued_lox.ts@[3]@, st.enc_s.c0@, st.enc_s.c1@),
        IssueAttrV::Blinded(resp.issued_lox.ts@[4]@, st.enc_i.c0@, st.enc_i.c1@),
        IssueAttrV::Blinded(resp.issued_lox.ts@[5]@, st.enc_k.c0@, st.enc_k.c1@),
    ]
}

/// The attribute views a user expects of its new Invitation credential.
pub open spec fn response_invitation_attrs(st: State, resp: Response) -> Seq<IssueAttrV> {
    seq![
        IssueAttrV::Blinded(
            resp.issued_invitation.ts@[0]@,
            st.enc_invid.c0@,
            pt_add_of(st.enc_invid.c1@, pt_mul_of(resp.invid_server@, gen_b_spec())),
        ),
        IssueAttrV::Known(sc_from_u64_of(resp.date as u64)),
        IssueAttrV::Blinded(resp.issued_invitation.ts@[2]@, st.enc_b2.c0@, st.enc_b2.c1@),
        IssueAttrV::Blinded(resp.issued_invitation.ts@[3]@, st.enc_k2.c0@, st.enc_k2.c1@),
    ]
}

/// Verify both issuances, decrypt the MACs, and assemble the replacement
/// Lox credential (one invitation fewer, everything else unchanged) and the
/// fresh Invitation pinned to the same bucket and blockages.
pub fn handle_response(
    st: State,
    resp: &Response,
    lox_pub: &crate::keys::IssuerPubKey,
    invitation_pub: &crate::keys::IssuerPubKey,
) -> (r: Result<(Lox, Invitation), LoxError>)
    ensures
        r is Err ==> r == Result::<(Lox, Invitation), LoxError>::Err(LoxError::VerificationFailure),
        r is Ok ==> {
            let (cred, invite) = r.unwrap();
            &&& issue_verified(
                DOM_ISSUE_INVITE_ISS_LOX,
                response_lox_attrs(st, *resp),
                crate::zkp::pts_view(lox_pub.xs@),
                st.d_pub@,
                resp.issued_lox.p@,
                resp.issued_lox.eq0@,
                resp.issued_lox.eq1@,
                resp.issued_lox.proof.c@,
                scs_view(resp.issued_lox.proof.zs@),
            )
            &&& issue_verified(
                DOM_ISSUE_INVITE_ISS_INVITATION,
                response_invitation_attrs(st, *resp),
                crate::zkp::pts_view(invitation_pub.xs@),
                st.d_pub@,
                resp.issued_invitation.p@,
                resp.issued_invitation.eq0@,
                resp.issued_invitation.eq1@,
                resp.issued_invitation.proof.c@,
                scs_view(resp.issued_invitation.proof.zs@),
            )
            &&& cred.id@ == sc_add_of(st.id_client@, resp.id_server@)
            &&& cred.bucket@ == st.bucket@
            &&& cred.trust_level == st.trust_level
            &&& cred.level_since == st.level_since
            &&& st.invites_remaining >= 1
            &&& cred.invites_remaining == st.invites_remaining - 1
            &&& cred.blockages == st.blockages
            &&& cred.p@ == resp.issued_lox.p@
            &&& cred.p@ != pt_id_seq()
            &&& invite.inv_id@ == sc_add_of(st.invid_client@, resp.invid_server@)
            &&& invite.date == resp.date
            &&& invite.bucket@ == st.bucket@
            &&& invite.blockages == st.blockages
            &&& invite.p@ == resp.issued_invitation.p@
            &&& invite.p@ != pt_id_seq()
        },
        ({
            &&& st.invites_remaining >= 1
            &&& pt_ok_of(st.enc_id.c1@)
            &&& pt_ok_of(st.enc_invid.c1@)
            &&& lox_pub.xs@.len() == 7
            &&& resp.issued_lox.ts@.len() == 6
            &&& invitation_pub.xs@.len() == 5
            &&& resp.issued_invitation.ts@.len() == 4
            &&& pt_ok_of(resp.issued_lox.p@)
            &&& resp.issued_lox.p@ != pt_id_seq()
            &&& pt_ok_of(resp.issued_invitation.p@)
            &&& resp.issued_invitation.p@ != pt_id_seq()
            &&& issue_verified(
                DOM_ISSUE_INVITE_ISS_LOX,
                response_lox_attrs(st, *resp),
                crate::zkp::pts_view(lox_pub.xs@),
                st.d_pub@,
                resp.issued_lox.p@,
                resp.issued_lox.eq0@,
                resp.issued_lox.eq1@,
                resp.issued_lox.proof.c@,
                scs_view(resp.issued_lox.proof.zs@),
            )
            &&& issue_verified(
                DOM_ISSUE_INVITE_ISS_INVITATION,
                response_invitation_attrs(st, *resp),
                crate::zkp::pts_view(invitation_pub.xs@),
                st.d_pub@,
                resp.issued_invitation.p@,
                resp.issued_invitation.eq0@,
                resp.issued_invitation.eq1@,
                resp.issued_invitation.proof.c@,
                scs_view(resp.issued_invitation.proof.zs@),
            )
        }) ==> r is Ok,
{
    if st.invites_remaining == 0 {
        return Err(LoxError::VerificationFailure);
    }
    if !pt_check(&st.enc_id.c1.b) || !pt_check(&st.enc_invid.c1.b) {
        return Err(LoxError::VerificationFailure);
    }
    let b_gen = gen_b();
    let idb = pt_mul(&resp.id_server, &b_gen);
    let c1 = pt_add(&st.enc_id.c1, &idb);
    let mut user_attrs: Vec<IssueUser> = Vec::new();
    user_attrs.push(IssueUser::Blinded(EncAttr { c0: st.enc_id.c0, c1 }));
    user_attrs.push(IssueUser::Blinded(st.enc_b));
    user_attrs.push(IssueUser::Blinded(st.enc_t));
    user_attrs.push(IssueUser::Blinded(st.enc_s));
    user_attrs.push(IssueUser::Blinded(st.enc_i));
    user_attrs.push(IssueUser::Blinded(st.enc_k));
    if !issue_verify(&lox_pub.xs, &user_attrs, &st.d_pub, DOM_ISSUE_INVITE_ISS_LOX, &resp.issued_lox) {
        proof {
            if resp.issued_lox.ts@.len() == 6 {
                assert(user_attrs_spec(user_attrs@, crate::zkp::pts_view(resp.issued_lox.ts@))
                    =~= response_lox_attrs(st, *resp));
            }
        }
        return Err(LoxError::VerificationFailure);
    }
    proof {
        assert(user_attrs_spec(user_attrs@, crate::zkp::pts_view(resp.issued_lox.ts@))
            =~= response_lox_attrs(st, *resp));
        assert(crate::issuance::issue_publics(
            response_lox_attrs(st, *resp),
            crate::zkp::pts_view(lox_pub.xs@),
            st.d_pub@,
            resp.issued_lox.p@,
            resp.issued_lox.eq0@,
            resp.issued_lox.eq1@,
        )[4] == resp.issued_lox.eq0@);
        assert(crate::issuance::issue_publics(
            response_lox_attrs(st, *resp),
            crate::zkp::pts_view(lox_pub.xs@),
            st.d_pub@,
            resp.issued_lox.p@,
            resp.issued_lox.eq0@,
            resp.issued_lox.eq1@,
        )[5] == resp.issued_lox.eq1@);
    }
    let invb = pt_mul(&resp.invid_server, &b_gen);
    let invc1 = pt_add(&st.enc_invid.c1, &invb);
    let mut inv_attrs: Vec<IssueUser> = Vec::new();
    inv_attrs.push(IssueUser::Blinded(EncAttr { c0: st.enc_invid.c0, c1: invc1 }));
    inv_attrs.push(IssueUser::Known(sc_from_u64(resp.date as u64)));
    inv_attrs.push(IssueUser::Blinded(st.enc_b2));
    inv_attrs.push(IssueUser::Blinded(st.enc_k2));
    if !issue_verify(
        &invitation_pub.xs,
        &inv_attrs,
        &st.d_pub,
        DOM_ISSUE_INVITE_ISS_INVITATION,
        &resp.issued_invitation,
    ) {
        proof {
            if resp.issued_invitation.ts@.len() == 4 {
                assert(user_attrs_spec(inv_attrs@, crate::zkp::pts_view(resp.issued_invitation.ts@))
                    =~= response_invitation_attrs(st, *resp));
            }
        }
        return Err(LoxError::VerificationFailure);
    }
    proof {
        assert(user_attrs_spec(inv_attrs@, crate::zkp::pts_view(resp.issued_invitation.ts@))
            =~= response_invitation_attrs(st, *resp));
        assert(crate::issuance::issue_publics(
            response_invitation_attrs(st, *resp),
            crate::zkp::pts_view(invitation_pub.xs@),
            st.d_pub@,
            resp.issued_invitation.p@,
            resp.issued_invitation.eq0@,
            resp.issued_invitation.eq1@,
        )[4] == resp.issued_invitation.eq0@);
        assert(crate::issuance::issue_publics(
            response_invitation_attrs(st, *resp),
            crate::zkp::pts_view(invitation_pub.xs@),
            st.d_pub@,
            resp.issued_invitation.p@,
            resp.issued_invitation.eq0@,
            resp.issued_invitation.eq1@,
        )[5] == resp.issued_invitation.eq1@);
    }
    if pt_is_identity(&resp.issued_lox.p) || pt_is_identity(&resp.issued_invitation.p) {
        return Err(LoxError::VerificationFailure);
    }
    let q = match elgamal_decrypt(&st.d, &resp.issued_lox.eq0, &resp.issued_lox.eq1) {
        Some(q) => q,
        None => {
            return Err(LoxError::VerificationFailure);
        },
    };
    let qi = match elgamal_decrypt(&st.d, &resp.issued_invitation.eq0, &resp.issued_invitation.eq1) {
        Some(q) => q,
        None => {
            return Err(LoxError::VerificationFailure);
        },
    };
    let id = sc_add(&st.id_client, &resp.id_server);
    let inv_id = sc_add(&st.invid_client, &resp.invid_server);
    let cred = Lox {
        p: resp.issued_lox.p,
        q,
        id,
        bucket: st.bucket,
        trust_level: st.trust_level,
        level_since: st.level_since,
        invites_remaining: st.invites_remaining - 1,
        blockages: st.blockages,
    };
    let invite = Invitation {
        p: resp.issued_invitation.p,
        q: qi,
        inv_id,
        date: resp.date,
        bucket: st.bucket,
        blockages: st.blockages,
    };
    Ok((cred, invite))
}

} // verus!
