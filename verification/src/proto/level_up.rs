//! Level up: a trusted user shows its Lox credential together with a
//! same-day BucketReachability credential on the same (hidden) bucket, and
//! proves in zero knowledge that enough days have passed since the last
//! promotion and that its blockages are under the level's ceiling.  It
//! receives a credential one level higher (at the top level, a refreshed
//! one), with a fresh batch of invitations.
use vstd::prelude::*;

use crate::cred::{
    level_interval, level_interval_spec, level_invitations, level_invitations_spec, max_blockages,
    max_blockages_spec, BucketReachability, Lox, MAX_LEVEL,
};
use crate::errors::LoxError;
use crate::group::{
    gen_a, gen_b, gen_b_spec, pt_add, pt_add_of, pt_check, pt_id_seq, pt_identity, pt_is_identity,
    pt_mul, pt_mul_of, pt_ok_of, pt_sub, pt_sub_of, sc_add, sc_add_of, sc_eq, sc_from_u64,
    sc_from_u64_of, sc_random, sc_sub, Pt, Sc,
};
use crate::issuance::{
    blind_issue, elgamal_decrypt, elgamal_encrypt, issue_verified, issue_verify, user_attrs_spec,
    BlindIssued, EncAttr, IssueAttrV, IssueInput, IssueUser,
};
use crate::issuer::{lox_attrs, reachability_attrs, Issuer};
use crate::filters::{seen_in, SeenType};
use crate::proto::{DOM_LEVEL_UP_ISS, DOM_LEVEL_UP_REQ};
use crate::range::{range_secrets, range_stmt};
use crate::show::{show_cred, show_vprime, ShowAttr};
use crate::zkp::{prove_compact, scs_view, verify_compact, CompactProof, Constraint, Term};

verus! {

/// What the user sends: the Lox showing, the reachability showing on the
/// shared hidden bucket, the encryptions for the new credential, and the
/// bit commitments of the two range assertions.
pub struct Request {
    pub id: Sc,
    pub trust_level: u32,
    pub p_lox: Pt,
    pub cq_lox: Pt,
    pub c_bucket: Pt,
    pub c_since: Pt,
    pub c_invrem: Pt,
    pub c_blockages: Pt,
    pub p_reach: Pt,
    pub cq_reach: Pt,
    pub c_rbucket: Pt,
    pub d_pub: Pt,
    pub enc_id: EncAttr,
    pub enc_b: EncAttr,
    pub enc_k: EncAttr,
    pub cg_age: Vec<Pt>,
    pub cg_blockages: Vec<Pt>,
    pub proof: CompactProof,
}

/// What the user must remember until the response arrives.
pub struct State {
    pub d: Sc,
    pub d_pub: Pt,
    pub id_client: Sc,
    pub enc_id: EncAttr,
    pub enc_b: EncAttr,
    pub enc_k: EncAttr,
    pub bucket: Sc,
    pub blockages: u32,
}

/// What the issuer answers.
pub struct Response {
    pub id_server: Sc,
    pub trust_level: u32,
    pub level_since: u32,
    pub invites_remaining: u32,
    pub issued: BlindIssued,
}

/// The request statement shared by both sides: the two showings, the
/// encryptions, and the two ranges (the promotion age in 9 bits, the
/// blockage headroom in 3).
fn stmt(
    p_lox: &Pt,
    cq_lox: &Pt,
    cs_lox: [Pt; 4],
    v_lox: &Pt,
    lox_xs: &Vec<Pt>,
    p_reach: &Pt,
    cq_reach: &Pt,
    c_rbucket: &Pt,
    v_reach: &Pt,
    reach_xs: &Vec<Pt>,
    d_pub: &Pt,
    enc_id: &EncAttr,
    enc_b: &EncAttr,
    enc_k: &EncAttr,
    cg_age: &Vec<Pt>,
    cg_blockages: &Vec<Pt>,
    today: u32,
    lvl: u32,
) -> (r: Option<(Vec<Pt>, Vec<Constraint>)>)
    requires
        pt_ok_of(p_lox@),
        pt_ok_of(cs_lox[1]@),
        pt_ok_of(cs_lox[3]@),
        cg_age@.len() == 8,
        cg_blockages@.len() == 2,
{
    let a_gen = gen_a();
    let b_gen = gen_b();
    let idp = pt_identity();
    let mut publics: Vec<Pt> = Vec::new();
    publics.push(a_gen);
    publics.push(b_gen);
    publics.push(idp);
    publics.push(*p_lox);
    publics.push(*cq_lox);
    publics.push(cs_lox[0]);
    publics.push(cs_lox[1]);
    publics.push(cs_lox[2]);
    publics.push(cs_lox[3]);
    publics.push(*v_lox);
    let mut i: usize = 0;
    while i < lox_xs.len()
        decreases lox_xs@.len() - i,
    {
        publics.push(lox_xs[i]);
        i += 1;
    }
    publics.push(*p_reach);
    publics.push(*cq_reach);
    publics.push(*c_rbucket);
    publics.push(*v_reach);
    let mut j: usize = 0;
    while j < reach_xs.len()
        decreases reach_xs@.len() - j,
    {
        publics.push(reach_xs[j]);
        j += 1;
    }
    publics.push(*d_pub);
    publics.push(enc_id.c0);
    publics.push(enc_id.c1);
    publics.push(enc_b.c0);
    publics.push(enc_b.c1);
    publics.push(enc_k.c0);
    publics.push(enc_k.c1);
    let mut cons: Vec<Constraint> = Vec::new();
    // Lox commitments over P'_L.
    let mut t: Vec<Term> = Vec::new();
    t.push(Term { sec: 0, pt: 3 });
    t.push(Term { sec: 1, pt: 0 });
    cons.push(Constraint { lhs: 5, terms: t });
    let mut t: Vec<Term> = Vec::new();
    t.push(Term { sec: 2, pt: 3 });
    t.push(Term { sec: 3, pt: 0 });
    cons.push(Constraint { lhs: 6, terms: t });
    let mut t: Vec<Term> = Vec::new();
    t.push(Term { sec: 4, pt: 3 });
    t.push(Term { sec: 5, pt: 0 });
    cons.push(Constraint { lhs: 7, terms: t });
    let mut t: Vec<Term> = Vec::new();
    t.push(Term { sec: 6, pt: 3 });
    t.push(Term { sec: 7, pt: 0 });
    cons.push(Constraint { lhs: 8, terms: t });
    // V_L over the blinded Lox attributes.
    let mut t: Vec<Term> = Vec::new();
    t.push(Term { sec: 1, pt: 12 });
    t.push(Term { sec: 3, pt: 14 });
    t.push(Term { sec: 5, pt: 15 });
    t.push(Term { sec: 7, pt: 16 });
    t.push(Term { sec: 8, pt: 0 });
    cons.push(Constraint { lhs: 9, terms: t });
    // The reachability showing: same hidden bucket.
    let mut t: Vec<Term> = Vec::new();
    t.push(Term { sec: 0, pt: 17 });
    t.push(Term { sec: 9, pt: 0 });
    cons.push(Constraint { lhs: 19, terms: t });
    let mut t: Vec<Term> = Vec::new();
    t.push(Term { sec: 9, pt: 23 });
    t.push(Term { sec: 10, pt: 0 });
    cons.push(Constraint { lhs: 20, terms: t });
    // The ephemeral key and the encryptions for the new credential.
    let mut t: Vec<Term> = Vec::new();
    t.push(Term { sec: 11, pt: 1 });
    cons.push(Constraint { lhs: 24, terms: t });
    let mut t: Vec<Term> = Vec::new();
    t.push(Term { sec: 12, pt: 1 });
    cons.push(Constraint { lhs: 25, terms: t });
    let mut t: Vec<Term> = Vec::new();
    t.push(Term { sec: 13, pt: 1 });
    t.push(Term { sec: 12, pt: 24 });
    cons.push(Constraint { lhs: 26, terms: t });
    let mut t: Vec<Term> = Vec::new();
    t.push(Term { sec: 14, pt: 1 });
    cons.push(Constraint { lhs: 27, terms: t });
    let mut t: Vec<Term> = Vec::new();
    t.push(Term { sec: 0, pt: 1 });
    t.push(Term { sec: 14, pt: 24 });
    cons.push(Constraint { lhs: 28, terms: t });
    let mut t: Vec<Term> = Vec::new();
    t.push(Term { sec: 15, pt: 1 });
    cons.push(Constraint { lhs: 29, terms: t });
    let mut t: Vec<Term> = Vec::new();
    t.push(Term { sec: 6, pt: 1 });
    t.push(Term { sec: 15, pt: 24 });
    cons.push(Constraint { lhs: 30, terms: t });
    // Range: 0 <= today - (level_since + interval) <= 511 over 9 bits.
    let interval = level_interval(lvl);
    let ti = sc_sub(&sc_from_u64(today as u64), &sc_from_u64(interval as u64));
    let c_diff_age = pt_sub(&pt_mul(&ti, p_lox), &cs_lox[1]);
    if publics.len() > 1000 || cons.len() > 1000 {
        return None;
    }
    match range_stmt(&mut publics, &mut cons, 0, 3, 2, &c_diff_age, cg_age, p_lox, 9, 16) {
        Some(()) => {},
        None => {
            return None;
        },
    }
    // Range: 0 <= max_blockages(level) - blockages <= 7 over 3 bits.
    let maxb = max_blockages(lvl);
    let c_diff_blk = pt_sub(&pt_mul(&sc_from_u64(maxb as u64), p_lox), &cs_lox[3]);
    if publics.len() > 1000 || cons.len() > 1000 {
        return None;
    }
    match range_stmt(&mut publics, &mut cons, 0, 3, 2, &c_diff_blk, cg_blockages, p_lox, 3, 43) {
        Some(()) => {},
        None => {
            return None;
        },
    }
    Some((publics, cons))
}

/// Compose a level-up request.  The credential must be of trust level 1 to
/// 4, the reachability credential must be on the same bucket and dated
/// today, at least `LEVEL_INTERVAL[level]` days (and at most 511 beyond it)
/// must have passed since the last promotion, and the blockages must be
/// within the level's ceiling.
pub fn request(
    lox: &Lox,
    reach: &BucketReachability,
    today: u32,
    lox_pub: &crate::keys::IssuerPubKey,
    reach_pub: &crate::keys::IssuerPubKey,
) -> (r: Result<(Request, State), LoxError>)
    ensures
        (lox.trust_level < 1 || lox.trust_level > MAX_LEVEL) ==> r == Result::<
            (Request, State),
            LoxError,
        >::Err(LoxError::InvalidField("trust_level", "out of range")),
        1 <= lox.trust_level <= MAX_LEVEL && reach.bucket@ != lox.bucket@ ==> r == Result::<
            (Request, State),
            LoxError,
        >::Err(LoxError::CredentialMismatch),
        1 <= lox.trust_level <= MAX_LEVEL && reach.bucket@ == lox.bucket@ && reach.date != today
            ==> r == Result::<(Request, State), LoxError>::Err(
            LoxError::InvalidField("date", "reachability credential is not for today"),
        ),
        1 <= lox.trust_level <= MAX_LEVEL && reach.bucket@ == lox.bucket@ && reach.date == today
            && today < lox.level_since ==> r == Result::<(Request, State), LoxError>::Err(
            LoxError::InvalidField("level_since", "credential is from the future"),
        ),
        1 <= lox.trust_level <= MAX_LEVEL && reach.bucket@ == lox.bucket@ && reach.date == today
            && today >= lox.level_since && today - lox.level_since < level_interval_spec(
            lox.trust_level,
        ) ==> r == Result::<(Request, State), LoxError>::Err(
            LoxError::TimeThresholdNotMet(
                (level_interval_spec(lox.trust_level) - (today - lox.level_since)) as u32,
            ),
        ),
        1 <= lox.trust_level <= MAX_LEVEL && reach.bucket@ == lox.bucket@ && reach.date == today
            && today >= lox.level_since && today - lox.level_since >= level_interval_spec(
            lox.trust_level,
        ) && today - lox.level_since - level_interval_spec(lox.trust_level) > 511 ==> r
            == Result::<(Request, State), LoxError>::Err(
            LoxError::InvalidField("level_since", "too far past the threshold"),
        ),
        1 <= lox.trust_level <= MAX_LEVEL && reach.bucket@ == lox.bucket@ && reach.date == today
            && today >= lox.level_since && today - lox.level_since >= level_interval_spec(
            lox.trust_level,
        ) && today - lox.level_since - level_interval_spec(lox.trust_level) <= 511
            && lox.blockages > max_blockages_spec(lox.trust_level) ==> r == Result::<
            (Request, State),
            LoxError,
        >::Err(LoxError::ExceededBlockagesThreshold),
        r is Err ==> r->Err_0 == LoxError::InvalidField("trust_level", "out of range") || r->Err_0
            == LoxError::CredentialMismatch || r->Err_0 == LoxError::InvalidField(
            "date",
            "reachability credential is not for today",
        ) || r->Err_0 == LoxError::InvalidField("level_since", "credential is from the future")
            || r->Err_0 is TimeThresholdNotMet || r->Err_0 == LoxError::InvalidField(
            "level_since",
            "too far past the threshold",
        ) || r->Err_0 == LoxError::ExceededBlockagesThreshold || r->Err_0
            == LoxError::InvalidField("credential", "does not decode") || r->Err_0
            == LoxError::VerificationFailure,
        r is Ok ==> {
            let (req, st) = r.unwrap();
            &&& req.id@ == lox.id@
            &&& req.trust_level == lox.trust_level
            &&& st.bucket@ == lox.bucket@
            &&& st.blockages == lox.blockages
        },
{
    let lvl = lox.trust_level;
    if lvl < 1 || lvl > MAX_LEVEL {
        return Err(LoxError::InvalidField("trust_level", "out of range"));
    }
    if !sc_eq(&reach.bucket, &lox.bucket) {
        return Err(LoxError::CredentialMismatch);
    }
    if reach.date != today {
        return Err(LoxError::InvalidField("date", "reachability credential is not for today"));
    }
    if today < lox.level_since {
        return Err(LoxError::InvalidField("level_since", "credential is from the future"));
    }
    let age = today - lox.level_since;
    let interval = level_interval(lvl);
    if age < interval {
        return Err(LoxError::TimeThresholdNotMet(interval - age));
    }
    let diff = age - interval;
    if diff > 511 {
        return Err(LoxError::InvalidField("level_since", "too far past the threshold"));
    }
    let maxb = max_blockages(lvl);
    if lox.blockages > maxb {
        return Err(LoxError::ExceededBlockagesThreshold);
    }
    let headroom = maxb - lox.blockages;
    let attrs = lox_attrs(lox);
    proof {
        assert(scs_view(attrs@).len() == attrs@.len());
        assert(attrs@.len() == 6);
    }
    let mut blinded: Vec<bool> = Vec::new();
    blinded.push(false);
    blinded.push(true);
    blinded.push(false);
    blinded.push(true);
    blinded.push(true);
    blinded.push(true);
    let sh_lox = match show_cred(&lox.p, &lox.q, &attrs, &blinded, &lox_pub.xs) {
        Some(sh) => sh,
        None => {
            return Err(LoxError::InvalidField("credential", "does not decode"));
        },
    };
    let rattrs = reachability_attrs(reach);
    proof {
        assert(scs_view(rattrs@).len() == rattrs@.len());
        assert(rattrs@.len() == 2);
    }
    let mut rblinded: Vec<bool> = Vec::new();
    rblinded.push(false);
    rblinded.push(true);
    let sh_reach = match show_cred(&reach.p, &reach.q, &rattrs, &rblinded, &reach_pub.xs) {
        Some(sh) => sh,
        None => {
            return Err(LoxError::InvalidField("credential", "does not decode"));
        },
    };
    let a_gen = gen_a();
    let b_gen = gen_b();
    let d = sc_random();
    let d_pub = pt_mul(&d, &b_gen);
    let id_client = sc_random();
    let (enc_id, e_id) = match elgamal_encrypt(&id_client, &d_pub) {
        Some(x) => x,
        None => {
            proof {
                assert(false);
            }
            vstd::pervasive::unreached()
        },
    };
    let (enc_b, e_b) = match elgamal_encrypt(&lox.bucket, &d_pub) {
        Some(x) => x,
        None => {
            proof {
                assert(false);
            }
            vstd::pervasive::unreached()
        },
    };
    let blk = sc_from_u64(lox.blockages as u64);
    let (enc_k, e_k) = match elgamal_encrypt(&blk, &d_pub) {
        Some(x) => x,
        None => {
            proof {
                assert(false);
            }
            vstd::pervasive::unreached()
        },
    };
    let zero = sc_from_u64(0);
    let mut secrets: Vec<Sc> = Vec::new();
    secrets.push(lox.bucket);
    secrets.push(sh_lox.zs[1]);
    secrets.push(sc_from_u64(lox.level_since as u64));
    secrets.push(sh_lox.zs[3]);
    secrets.push(sc_from_u64(lox.invites_remaining as u64));
    secrets.push(sh_lox.zs[4]);
    secrets.push(blk);
    secrets.push(sh_lox.zs[5]);
    secrets.push(sh_lox.negzq);
    secrets.push(sh_reach.zs[1]);
    secrets.push(sh_reach.negzq);
    secrets.push(d);
    secrets.push(e_id);
    secrets.push(id_client);
    secrets.push(e_b);
    secrets.push(e_k);
    let target_age = sc_sub(&zero, &sh_lox.zs[3]);
    assert(diff < (1u32 << 9)) by (bit_vector)
        requires
            diff <= 511,
    ;
    let cg_age = range_secrets(diff, 9, &target_age, &sh_lox.p, &a_gen, &mut secrets);
    let target_blk = sc_sub(&zero, &sh_lox.zs[5]);
    assert(headroom < (1u32 << 3)) by (bit_vector)
        requires
            headroom <= 7,
    ;
    let cg_blockages = range_secrets(headroom, 3, &target_blk, &sh_lox.p, &a_gen, &mut secrets);
    let (publics, cons) = match stmt(
        &sh_lox.p,
        &sh_lox.cq,
        [sh_lox.cs[1], sh_lox.cs[3], sh_lox.cs[4], sh_lox.cs[5]],
        &sh_lox.v,
        &lox_pub.xs,
        &sh_reach.p,
        &sh_reach.cq,
        &sh_reach.cs[1],
        &sh_reach.v,
        &reach_pub.xs,
        &d_pub,
        &enc_id,
        &enc_b,
        &enc_k,
        &cg_age,
        &cg_blockages,
        today,
        lvl,
    ) {
        Some(x) => x,
        None => {
            return Err(LoxError::VerificationFailure);
        },
    };
    let proof = match prove_compact(DOM_LEVEL_UP_REQ, &publics, &cons, &secrets) {
        Some(pr) => pr,
        None => {
            return Err(LoxError::VerificationFailure);
        },
    };
    let req = Request {
        id: lox.id,
        trust_level: lvl,
        p_lox: sh_lox.p,
        cq_lox: sh_lox.cq,
        c_bucket: sh_lox.cs[1],
        c_since: sh_lox.cs[3],
        c_invrem: sh_lox.cs[4],
        c_blockages: sh_lox.cs[5],
        p_reach: sh_reach.p,
        cq_reach: sh_reach.cq,
        c_rbucket: sh_reach.cs[1],
        d_pub,
        enc_id,
        enc_b,
        enc_k,
        cg_age,
        cg_blockages,
        proof,
    };
    let st = State {
        d,
        d_pub,
        id_client,
        enc_id,
        enc_b,
        enc_k,
        bucket: lox.bucket,
        blockages: lox.blockages,
    };
    Ok((req, st))
}

/// Handle a level-up request: verify both showings (the reachability date
/// is forced to be today by the issuer's own recomputation), check the
/// ranges, issue the promoted credential, and only then consume the id.
pub fn handle(issuer: &mut Issuer, req: &Request) -> (r: Result<Response, LoxError>)
    ensures
        r is Err ==> r == Result::<Response, LoxError>::Err(LoxError::VerificationFailure)
            && *final(issuer) == *old(issuer),
        seen_in(old(issuer).id_filter@, req.id@) ==> r is Err,
        (req.trust_level < 1 || req.trust_level > MAX_LEVEL) ==> r is Err,
        r is Ok ==> {
            let resp = r.unwrap();
            &&& resp.trust_level == (if req.trust_level < MAX_LEVEL {
                (req.trust_level + 1) as u32
            } else {
                MAX_LEVEL
            })
            &&& resp.invites_remaining == level_invitations_spec(resp.trust_level)
            &&& resp.level_since == old(issuer).today
            &&& resp.issued.p@ != pt_id_seq()
            &&& !seen_in(old(issuer).id_filter@, req.id@)
            &&& final(issuer).id_filter@ == old(issuer).id_filter@.push(req.id@)
            &&& final(issuer).today == old(issuer).today
            &&& final(issuer).inv_id_filter@ == old(issuer).inv_id_filter@
        },
{
    let lvl = req.trust_level;
    if lvl < 1 || lvl > MAX_LEVEL {
        return Err(LoxError::VerificationFailure);
    }
    if req.cg_age.len() != 8 || req.cg_blockages.len() != 2 {
        return Err(LoxError::VerificationFailure);
    }
    if !pt_check(&req.p_lox.b) || !pt_check(&req.cq_lox.b) || !pt_check(&req.c_bucket.b)
        || !pt_check(&req.c_since.b) || !pt_check(&req.c_invrem.b) || !pt_check(
        &req.c_blockages.b,
    ) || !pt_check(&req.p_reach.b) || !pt_check(&req.cq_reach.b) || !pt_check(&req.c_rbucket.b)
        || !pt_check(&req.d_pub.b) || !pt_check(&req.enc_id.c0.b) || !pt_check(&req.enc_id.c1.b)
        || !pt_check(&req.enc_b.c0.b) || !pt_check(&req.enc_b.c1.b) || !pt_check(&req.enc_k.c0.b)
        || !pt_check(&req.enc_k.c1.b) {
        return Err(LoxError::VerificationFailure);
    }
    if pt_is_identity(&req.p_lox) || pt_is_identity(&req.p_reach) {
        return Err(LoxError::VerificationFailure);
    }
    let mut sattrs: Vec<ShowAttr> = Vec::new();
    sattrs.push(ShowAttr::Revealed(req.id));
    sattrs.push(ShowAttr::Com(req.c_bucket));
    sattrs.push(ShowAttr::Revealed(sc_from_u64(lvl as u64)));
    sattrs.push(ShowAttr::Com(req.c_since));
    sattrs.push(ShowAttr::Com(req.c_invrem));
    sattrs.push(ShowAttr::Com(req.c_blockages));
    let v_lox = match show_vprime(&issuer.lox_priv, &req.p_lox, &req.cq_lox, &sattrs) {
        Some(v) => v,
        None => {
            return Err(LoxError::VerificationFailure);
        },
    };
    // The reachability date must be today: the issuer recomputes with its
    // own date, so a stale credential fails the proof.
    let mut rattrs: Vec<ShowAttr> = Vec::new();
    rattrs.push(ShowAttr::Revealed(sc_from_u64(issuer.today as u64)));
    rattrs.push(ShowAttr::Com(req.c_rbucket));
    let v_reach = match show_vprime(&issuer.reachability_priv, &req.p_reach, &req.cq_reach, &rattrs) {
        Some(v) => v,
        None => {
            return Err(LoxError::VerificationFailure);
        },
    };
    let (publics, cons) = match stmt(
        &req.p_lox,
        &req.cq_lox,
        [req.c_bucket, req.c_since, req.c_invrem, req.c_blockages],
        &v_lox,
        &issuer.lox_pub.xs,
        &req.p_reach,
        &req.cq_reach,
        &req.c_rbucket,
        &v_reach,
        &issuer.reachability_pub.xs,
        &req.d_pub,
        &req.enc_id,
        &req.enc_b,
        &req.enc_k,
        &req.cg_age,
        &req.cg_blockages,
        issuer.today,
        lvl,
    ) {
        Some(x) => x,
        None => {
            return Err(LoxError::VerificationFailure);
        },
    };
    if !verify_compact(DOM_LEVEL_UP_REQ, &publics, &cons, 52, &req.proof) {
        return Err(LoxError::VerificationFailure);
    }
    let new_level = if lvl < MAX_LEVEL {
        lvl + 1
    } else {
        MAX_LEVEL
    };
    let invites = level_invitations(new_level);
    let b_gen = gen_b();
    let id_server = sc_random();
    let idb = pt_mul(&id_server, &b_gen);
    let enc_id2 = EncAttr { c0: req.enc_id.c0, c1: pt_add(&req.enc_id.c1, &idb) };
    let since = sc_from_u64(issuer.today as u64);
    let mut inputs: Vec<IssueInput> = Vec::new();
    inputs.push(IssueInput::Blinded(enc_id2));
    inputs.push(IssueInput::Blinded(req.enc_b));
    inputs.push(IssueInput::Known(sc_from_u64(new_level as u64)));
    inputs.push(IssueInput::Known(since));
    inputs.push(IssueInput::Known(sc_from_u64(invites as u64)));
    inputs.push(IssueInput::Blinded(req.enc_k));
    let bi = match blind_issue(
        &issuer.lox_priv,
        &issuer.lox_pub.xs,
        &inputs,
        &req.d_pub,
        DOM_LEVEL_UP_ISS,
    ) {
        Some(bi) => bi,
        None => {
            return Err(LoxError::VerificationFailure);
        },
    };
    if issuer.id_filter.filter(&req.id) == SeenType::Seen {
        return Err(LoxError::VerificationFailure);
    }
    let today = issuer.today;
    Ok(
        Response {
            id_server,
            trust_level: new_level,
            level_since: today,
            invites_remaining: invites,
            issued: bi,
        },
    )
}

/// The attribute views a user expects of its new credential.
pub open spec fn response_attrs(st: State, resp: Response) -> Seq<IssueAttrV> {
    seq![
        IssueAttrV::Blinded(
            resp.issued.ts@[0]@,
            st.enc_id.c0@,
            pt_add_of(st.enc_id.c1@, pt_mul_of(resp.id_server@, gen_b_spec())),
        ),
        IssueAttrV::Blinded(resp.issued.ts@[1]@, st.enc_b.c0@, st.enc_b.c1@),
        IssueAttrV::Known(sc_from_u64_of(resp.trust_level as u64)),
        IssueAttrV::Known(sc_from_u64_of(resp.level_since as u64)),
        IssueAttrV::Known(sc_from_u64_of(resp.invites_remaining as u64)),
        IssueAttrV::Blinded(resp.issued.ts@[5]@, st.enc_k.c0@, st.enc_k.c1@),
    ]
}

/// Verify the response, decrypt the MAC, and assemble the promoted
/// credential: one level up (or refreshed at the top), dated today, with
/// the fresh invitation batch, on the same bucket with the same blockages.
pub fn handle_response(st: State, resp: &Response, lox_pub: &crate::keys::IssuerPubKey) -> (r:
    Result<Lox, LoxError>)
    ensures
        r is Err ==> r == Result::<Lox, LoxError>::Err(LoxError::VerificationFailure),
        r is Ok ==> {
            let cred = r.unwrap();
            &&& issue_verified(
                DOM_LEVEL_UP_ISS,
                response_attrs(st, *resp),
                crate::zkp::pts_view(lox_pub.xs@),
                st.d_pub@,
                resp.issued.p@,
                resp.issued.eq0@,
                resp.issued.eq1@,
                resp.issued.proof.c@,
                scs_view(resp.issued.proof.zs@),
            )
            &&& cred.id@ == sc_add_of(st.id_client@, resp.id_server@)
            &&& cred.bucket@ == st.bucket@
            &&& cred.trust_level == resp.trust_level
            &&& cred.level_since == resp.level_since
            &&& cred.invites_remaining == resp.invites_remaining
            &&& cred.blockages == st.blockages
            &&& cred.p@ == resp.issued.p@
            &&& cred.p@ != pt_id_seq()
            &&& cred.q@ == pt_sub_of(resp.issued.eq1@, pt_mul_of(st.d@, resp.issued.eq0@))
        },
        ({
            &&& pt_ok_of(st.enc_id.c1@)
            &&& lox_pub.xs@.len() == 7
            &&& resp.issued.ts@.len() == 6
            &&& pt_ok_of(resp.issued.p@)
            &&& resp.issued.p@ != pt_id_seq()
            &&& issue_verified(
                DOM_LEVEL_UP_ISS,
                response_attrs(st, *resp),
                crate::zkp::pts_view(lox_pub.xs@),
                st.d_pub@,
                resp.issued.p@,
                resp.issued.eq0@,
                resp.issued.eq1@,
                resp.issued.proof.c@,
                scs_view(resp.issued.proof.zs@),
            )
        }) ==> r is Ok,
{
    if !pt_check(&st.enc_id.c1.b) {
        return Err(LoxError::VerificationFailure);
    }
    let b_gen = gen_b();
    let idb = pt_mul(&resp.id_server, &b_gen);
    let c1 = pt_add(&st.enc_id.c1, &idb);
    let mut user_attrs: Vec<IssueUser> = Vec::new();
    user_attrs.push(IssueUser::Blinded(EncAttr { c0: st.enc_id.c0, c1 }));
    user_attrs.push(IssueUser::Blinded(st.enc_b));
    user_attrs.push(IssueUser::Known(sc_from_u64(resp.trust_level as u64)));
    user_attrs.push(IssueUser::Known(sc_from_u64(resp.level_since as u64)));
    user_attrs.push(IssueUser::Known(sc_from_u64(resp.invites_remaining as u64)));
    user_attrs.push(IssueUser::Blinded(st.enc_k));
    if !issue_verify(&lox_pub.xs, &user_attrs, &st.d_pub, DOM_LEVEL_UP_ISS, &resp.issued) {
        proof {
            if resp.issued.ts@.len() == 6 {
                assert(user_attrs_spec(user_attrs@, crate::zkp::pts_view(resp.issued.ts@))
                    =~= response_attrs(st, *resp));
            }
        }
        return Err(LoxError::VerificationFailure);
    }
    proof {
        assert(user_attrs_spec(user_attrs@, crate::zkp::pts_view(resp.issued.ts@))
            =~= response_attrs(st, *resp));
        assert(crate::issuance::issue_publics(
            response_attrs(st, *resp),
            crate::zkp::pts_view(lox_pub.xs@),
            st.d_pub@,
            resp.issued.p@,
            resp.issued.eq0@,
            resp.issued.eq1@,
        )[4] == resp.issued.eq0@);
        assert(crate::issuance::issue_publics(
            response_attrs(st, *resp),
            crate::zkp::pts_view(lox_pub.xs@),
            st.d_pub@,
            resp.issued.p@,
            resp.issued.eq0@,
            resp.issued.eq1@,
        )[5] == resp.issued.eq1@);
    }
    if pt_is_identity(&resp.issued.p) {
        return Err(LoxError::VerificationFailure);
    }
    let q = match elgamal_decrypt(&st.d, &resp.issued.eq0, &resp.issued.eq1) {
        Some(q) => q,
        None => {
            return Err(LoxError::VerificationFailure);
        },
    };
    let id = sc_add(&st.id_client, &resp.id_server);
    let cred = Lox {
        p: resp.issued.p,
        q,
        id,
        bucket: st.bucket,
        trust_level: resp.trust_level,
        level_since: resp.level_since,
        invites_remaining: resp.invites_remaining,
        blockages: st.blockages,
    };
    Ok(cred)
}

} // verus!
