//! Credential update after key rotation: the user shows a Lox credential
//! still valid under a retired key generation (revealing only the id,
//! which the retired generation's filter makes single-use) and receives a
//! credential with identical attributes under the current key.
use vstd::prelude::*;

use crate::cred::Lox;
use crate::errors::LoxError;
use crate::group::{
    gen_a, gen_b, pt_check, pt_id_seq, pt_is_identity, pt_mul, pt_mul_of, pt_ok_of, pt_sub_of,
    sc_from_u64, sc_random, Pt, Sc,
};
use crate::issuance::{
    blind_issue, elgamal_decrypt, elgamal_encrypt, issue_verified, issue_verify, user_attrs_spec,
    BlindIssued, EncAttr, IssueAttrV, IssueInput, IssueUser,
};
use crate::issuer::{lox_attrs, Issuer};
use crate::filters::{seen_in, SeenType};
use crate::proto::{DOM_UPDATE_CRED_ISS, DOM_UPDATE_CRED_REQ};
use crate::show::{show_cred, show_vprime, ShowAttr};
use crate::zkp::{prove_compact, scs_view, verify_compact, CompactProof, Constraint, Term};

verus! {

/// What the user sends: which retired generation signed its credential, the
/// showing under that generation, and the encryptions of the attributes to
/// carry over.
pub struct Request {
    pub generation: usize,
    pub id: Sc,
    pub p: Pt,
    pub cq: Pt,
    pub c_bucket: Pt,
    pub c_trust: Pt,
    pub c_since: Pt,
    pub c_invrem: Pt,
    pub c_blockages: Pt,
    pub d_pub: Pt,
    pub enc_b: EncAttr,
    pub enc_t: EncAttr,
    pub enc_s: EncAttr,
    pub enc_i: EncAttr,
    pub enc_k: EncAttr,
    pub proof: CompactProof,
}

/// What the user must remember until the response arrives.
pub struct State {
    pub d: Sc,
    pub d_pub: Pt,
    pub id: Sc,
    pub enc_b: EncAttr,
    pub enc_t: EncAttr,
    pub enc_s: EncAttr,
    pub enc_i: EncAttr,
    pub enc_k: EncAttr,
    pub bucket: Sc,
    pub trust_level: u32,
    pub level_since: u32,
    pub invites_remaining: u32,
    pub blockages: u32,
}

/// What the issuer answers: only the refreshed MAC.
pub struct Response {
    pub issued: BlindIssued,
}

/// The request statement shared by both sides.
fn stmt(
    p: &Pt,
    cq: &Pt,
    cs: [Pt; 5],
    v: &Pt,
    old_xs: &Vec<Pt>,
    d_pub: &Pt,
    encs: [EncAttr; 5],
) -> (r: (Vec<Pt>, Vec<Constraint>))
{
    let a_gen = gen_a();
    let b_gen = gen_b();
    let mut publics: Vec<Pt> = Vec::new();
    publics.push(a_gen);
    publics.push(b_gen);
    publics.push(*p);
    publics.push(*cq);
    publics.push(cs[0]);
    publics.push(cs[1]);
    publics.push(cs[2]);
    publics.push(cs[3]);
    publics.push(cs[4]);
    publics.push(*v);
    let mut i: usize = 0;
    while i < old_xs.len()
        decreases old_xs@.len() - i,
    {
        publics.push(old_xs[i]);
        i += 1;
    }
    publics.push(*d_pub);
    let mut j: usize = 0;
    while j < 5
        invariant
            j <= 5,
        decreases 5 - j,
    {
        publics.push(encs[j].c0);
        publics.push(encs[j].c1);
        j += 1;
    }
    let mut cons: Vec<Constraint> = Vec::new();
    // Commitments over P': bucket, trust, since, invrem, blockages.
    let mut t: Vec<Term> = Vec::new();
    t.push(Term { sec: 0, pt: 2 });
    t.push(Term { sec: 1, pt: 0 });
    cons.push(Constraint { lhs: 4, terms: t });
    let mut t: Vec<Term> = Vec::new();
    t.push(Term { sec: 2, pt: 2 });
    t.push(Term { sec: 3, pt: 0 });
    cons.push(Constraint { lhs: 5, terms: t });
    let mut t: Vec<Term> = Vec::new();
    t.push(Term { sec: 4, pt: 2 });
    t.push(Term { sec: 5, pt: 0 });
    cons.push(Constraint { lhs: 6, terms: t });
    let mut t: Vec<Term> = Vec::new();
    t.push(Term { sec: 6, pt: 2 });
    t.push(Term { sec: 7, pt: 0 });
    cons.push(Constraint { lhs: 7, terms: t });
    let mut t: Vec<Term> = Vec::new();
    t.push(Term { sec: 8, pt: 2 });
    t.push(Term { sec: 9, pt: 0 });
    cons.push(Constraint { lhs: 8, terms: t });
    // V over the five blinded attributes of the retired generation's key.
    let mut t: Vec<Term> = Vec::new();
    t.push(Term { sec: 1, pt: 12 });
    t.push(Term { sec: 3, pt: 13 });
    t.push(Term { sec: 5, pt: 14 });
    t.push(Term { sec: 7, pt: 15 });
    t.push(Term { sec: 9, pt: 16 });
    t.push(Term { sec: 10, pt: 0 });
    cons.push(Constraint { lhs: 9, terms: t });
    // The ephemeral key and the five encryptions.
    let mut t: Vec<Term> = Vec::new();
    t.push(Term { sec: 11, pt: 1 });
    cons.push(Constraint { lhs: 17, terms: t });
    let mut j2: usize = 0;
    while j2 < 5
        invariant
            j2 <= 5,
        decreases 5 - j2,
    {
        let mut t: Vec<Term> = Vec::new();
        t.push(Term { sec: 12 + j2, pt: 1 });
        cons.push(Constraint { lhs: 18 + 2 * j2, terms: t });
        let mut t2: Vec<Term> = Vec::new();
        t2.push(Term { sec: 2 * j2, pt: 1 });
        t2.push(Term { sec: 12 + j2, pt: 17 });
        cons.push(Constraint { lhs: 19 + 2 * j2, terms: t2 });
        j2 += 1;
    }
    (publics, cons)
}

/// Compose an update request for a credential minted under the retired key
/// generation `generation`, whose public key the user still holds.
pub fn request(
    lox: &Lox,
    generation: usize,
    old_lox_pub: &crate::keys::IssuerPubKey,
) -> (r: Result<(Request, State), LoxError>)
    ensures
        r is Err ==> r->Err_0 == LoxError::InvalidField("credential", "does not decode")
            || r->Err_0 == LoxError::VerificationFailure,
        r is Ok ==> {
            let (req, st) = r.unwrap();
            &&& req.id@ == lox.id@
            &&& req.generation == generation
            &&& st.id@ == lox.id@
            &&& st.bucket@ == lox.bucket@
            &&& st.trust_level == lox.trust_level
            &&& st.level_since == lox.level_since
            &&& st.invites_remaining == lox.invites_remaining
            &&& st.blockages == lox.blockages
        },
{
    let attrs = lox_attrs(lox);
    proof {
        assert(scs_view(attrs@).len() == attrs@.len());
        assert(attrs@.len() == 6);
    }
    let mut blinded: Vec<bool> = Vec::new();
    blinded.push(false);
    blinded.push(true);
    blinded.push(true);
    blinded.push(true);
    blinded.push(true);
    blinded.push(true);
    let sh = match show_cred(&lox.p, &lox.q, &attrs, &blinded, &old_lox_pub.xs) {
        Some(sh) => sh,
        None => {
            return Err(LoxError::InvalidField("credential", "does not decode"));
        },
    };
    let b_gen = gen_b();
    let d = sc_random();
    let d_pub = pt_mul(&d, &b_gen);
    let trust = sc_from_u64(lox.trust_level as u64);
    let since = sc_from_u64(lox.level_since as u64);
    let invrem = sc_from_u64(lox.invites_remaining as u64);
    let blk = sc_from_u64(lox.blockages as u64);
    let mut ms: Vec<Sc> = Vec::new();
    ms.push(lox.bucket);
    ms.push(trust);
    ms.push(since);
    ms.push(invrem);
    ms.push(blk);
    let mut encs: Vec<EncAttr> = Vec::new();
    let mut es: Vec<Sc> = Vec::new();
    let mut mi: usize = 0;
    while mi < 5
        invariant
            ms@.len() == 5,
            mi <= 5,
            encs@.len() == mi,
            es@.len() == mi,
            pt_ok_of(d_pub@),
        decreases 5 - mi,
    {
        let (enc, e) = match elgamal_encrypt(&ms[mi], &d_pub) {
            Some(x) => x,
            None => {
                proof {
                    assert(false);
                }
                vstd::pervasive::unreached()
            },
        };
        encs.push(enc);
        es.push(e);
        mi += 1;
    }
    let mut secrets: Vec<Sc> = Vec::new();
    secrets.push(lox.bucket);
    secrets.push(sh.zs[1]);
    secrets.push(trust);
    secrets.push(sh.zs[2]);
    secrets.push(since);
    secrets.push(sh.zs[3]);
    secrets.push(invrem);
    secrets.push(sh.zs[4]);
    secrets.push(blk);
    secrets.push(sh.zs[5]);
    secrets.push(sh.negzq);
    secrets.push(d);
    secrets.push(es[0]);
    secrets.push(es[1]);
    secrets.push(es[2]);
    secrets.push(es[3]);
    secrets.push(es[4]);
    let (publics, cons) = stmt(
        &sh.p,
        &sh.cq,
        [sh.cs[1], sh.cs[2], sh.cs[3], sh.cs[4], sh.cs[5]],
        &sh.v,
        &old_lox_pub.xs,
        &d_pub,
        [encs[0], encs[1], encs[2], encs[3], encs[4]],
    );
    let proof = match prove_compact(DOM_UPDATE_CRED_REQ, &publics, &cons, &secrets) {
        Some(pr) => pr,
        None => {
            return Err(LoxError::VerificationFailure);
        },
    };
    let req = Request {
        generation,
        id: lox.id,
        p: sh.p,
        cq: sh.cq,
        c_bucket: sh.cs[1],
        c_trust: sh.cs[2],
        c_since: sh.cs[3],
        c_invrem: sh.cs[4],
        c_blockages: sh.cs[5],
        d_pub,
        enc_b: encs[0],
        enc_t: encs[1],
        enc_s: encs[2],
        enc_i: encs[3],
        enc_k: encs[4],
        proof,
    };
    let st = State {
        d,
        d_pub,
        id: lox.id,
        enc_b: encs[0],
        enc_t: encs[1],
        enc_s: encs[2],
        enc_i: encs[3],
        enc_k: encs[4],
        bucket: lox.bucket,
        trust_level: lox.trust_level,
        level_since: lox.level_since,
        invites_remaining: lox.invites_remaining,
        blockages: lox.blockages,
    };
    Ok((req, st))
}

/// Handle an update: verify the showing under the retired generation's key,
/// blind-issue the identical-attribute credential under the current key,
/// and only then consume the id in that generation's own filter.  A second
/// update of the same credential fails uniformly.
pub fn handle(issuer: &mut Issuer, req: &Request) -> (r: Result<Response, LoxError>)
    ensures
        r is Err ==> r == Result::<Response, LoxError>::Err(LoxError::VerificationFailure)
            && *final(issuer) == *old(issuer),
        req.generation < old(issuer).retired_lox@.len() && seen_in(
            old(issuer).retired_lox@[req.generation as int].filter@,
            req.id@,
        ) ==> r is Err,
        req.generation >= old(issuer).retired_lox@.len() ==> r is Err,
        r is Ok ==> {
            &&& req.generation < old(issuer).retired_lox@.len()
            &&& !seen_in(old(issuer).retired_lox@[req.generation as int].filter@, req.id@)
            &&& final(issuer).retired_lox@.len() == old(issuer).retired_lox@.len()
            &&& final(issuer).retired_lox@[req.generation as int].filter@ == old(
                issuer,
            ).retired_lox@[req.generation as int].filter@.push(req.id@)
            &&& forall|k: int|
                0 <= k < old(issuer).retired_lox@.len() && k != req.generation
                    ==> final(issuer).retired_lox@[k] == old(issuer).retired_lox@[k]
            &&& final(issuer).id_filter@ == old(issuer).id_filter@
            &&& final(issuer).inv_id_filter@ == old(issuer).inv_id_filter@
            &&& final(issuer).today == old(issuer).today
            &&& r.unwrap().issued.p@ != pt_id_seq()
        },
{
    let g = req.generation;
    if g >= issuer.retired_lox.len() {
        return Err(LoxError::VerificationFailure);
    }
    if issuer.retired_lox[g].filter.check(&req.id) == SeenType::Seen {
        return Err(LoxError::VerificationFailure);
    }
    if !pt_check(&req.p.b) || !pt_check(&req.cq.b) || !pt_check(&req.c_bucket.b) || !pt_check(
        &req.c_trust.b,
    ) || !pt_check(&req.c_since.b) || !pt_check(&req.c_invrem.b) || !pt_check(&req.c_blockages.b)
        || !pt_check(&req.d_pub.b) || !pt_check(&req.enc_b.c0.b) || !pt_check(&req.enc_b.c1.b)
        || !pt_check(&req.enc_t.c0.b) || !pt_check(&req.enc_t.c1.b) || !pt_check(&req.enc_s.c0.b)
        || !pt_check(&req.enc_s.c1.b) || !pt_check(&req.enc_i.c0.b) || !pt_check(&req.enc_i.c1.b)
        || !pt_check(&req.enc_k.c0.b) || !pt_check(&req.enc_k.c1.b) {
        return Err(LoxError::VerificationFailure);
    }
    if pt_is_identity(&req.p) {
        return Err(LoxError::VerificationFailure);
    }
    let mut sattrs: Vec<ShowAttr> = Vec::new();
    sattrs.push(ShowAttr::Revealed(req.id));
    sattrs.push(ShowAttr::Com(req.c_bucket));
    sattrs.push(ShowAttr::Com(req.c_trust));
    sattrs.push(ShowAttr::Com(req.c_since));
    sattrs.push(ShowAttr::Com(req.c_invrem));
    sattrs.push(ShowAttr::Com(req.c_blockages));
    let v = match show_vprime(&issuer.retired_lox[g].priv_key, &req.p, &req.cq, &sattrs) {
        Some(v) => v,
        None => {
            return Err(LoxError::VerificationFailure);
        },
    };
    let (publics, cons) = stmt(
        &req.p,
        &req.cq,
        [req.c_bucket, req.c_trust, req.c_since, req.c_invrem, req.c_blockages],
        &v,
        &issuer.retired_lox[g].pub_key.xs,
        &req.d_pub,
        [req.enc_b, req.enc_t, req.enc_s, req.enc_i, req.enc_k],
    );
    if !verify_compact(DOM_UPDATE_CRED_REQ, &publics, &cons, 17, &req.proof) {
        return Err(LoxError::VerificationFailure);
    }
    // Reissue the identical attributes under the current key.
    let mut inputs: Vec<IssueInput> = Vec::new();
    inputs.push(IssueInput::Known(req.id));
    inputs.push(IssueInput::Blinded(req.enc_b));
    inputs.push(IssueInput::Blinded(req.enc_t));
    inputs.push(IssueInput::Blinded(req.enc_s));
    inputs.push(IssueInput::Blinded(req.enc_i));
    inputs.push(IssueInput::Blinded(req.enc_k));
    let bi = match blind_issue(
        &issuer.lox_priv,
        &issuer.lox_pub.xs,
        &inputs,
        &req.d_pub,
        DOM_UPDATE_CRED_ISS,
    ) {
        Some(bi) => bi,
        None => {
            return Err(LoxError::VerificationFailure);
        },
    };
    // Consume the id in the retired generation's filter, last.
    let ghost pre = issuer.retired_lox@;
    let mut retired = issuer.retired_lox.remove(g);
    let st = retired.filter.filter(&req.id);
    issuer.retired_lox.insert(g, retired);
    proof {
        assert(st == SeenType::Fresh);
        assert(issuer.retired_lox@ =~= pre.remove(g as int).insert(g as int, retired));
        assert forall|k: int| 0 <= k < pre.len() && k != g implies issuer.retired_lox@[k]
            == pre[k] by {
            assert(pre.remove(g as int).insert(g as int, retired).len() == pre.len());
        }
    }
    Ok(Response { issued: bi })
}

/// The attribute views a user expects of its refreshed credential.
pub open spec fn response_attrs(st: State, resp: Response) -> Seq<IssueAttrV> {
    seq![
        IssueAttrV::Known(st.id@),
        IssueAttrV::Blinded(resp.issued.ts@[1]@, st.enc_b.c0@, st.enc_b.c1@),
        IssueAttrV::Blinded(resp.issued.ts@[2]@, st.enc_t.c0@, st.enc_t.c1@),
        IssueAttrV::Blinded(resp.issued.ts@[3]@, st.enc_s.c0@, st.enc_s.c1@),
        IssueAttrV::Blinded(resp.issued.ts@[4]@, st.enc_i.c0@, st.enc_i.c1@),
        IssueAttrV::Blinded(resp.issued.ts@[5]@, st.enc_k.c0@, st.enc_k.c1@),
    ]
}

/// Verify the response and assemble the refreshed credential: the same
/// attributes, a new MAC under the current key.
pub fn handle_response(st: State, resp: &Response, lox_pub: &crate::keys::IssuerPubKey) -> (r:
    Result<Lox, LoxError>)
    ensures
        r is Err ==> r == Result::<Lox, LoxError>::Err(LoxError::VerificationFailure),
        r is Ok ==> {
            let cred = r.unwrap();
            &&& issue_verified(
                DOM_UPDATE_CRED_ISS,
                response_attrs(st, *resp),
                crate::zkp::pts_view(lox_pub.xs@),
                st.d_pub@,
                resp.issued.p@,
                resp.issued.eq0@,
                resp.issued.eq1@,
                resp.issued.proof.c@,
                scs_view(resp.issued.proof.zs@),
            )
            &&& cred.id@ == st.id@
            &&& cred.bucket@ == st.bucket@
            &&& cred.trust_level == st.trust_level
            &&& cred.level_since == st.level_since
            &&& cred.invites_remaining == st.invites_remaining
            &&& cred.blockages == st.blockages
            &&& cred.p@ == resp.issued.p@
            &&& cred.p@ != pt_id_seq()
            &&& cred.q@ == pt_sub_of(resp.issued.eq1@, pt_mul_of(st.d@, resp.issued.eq0@))
        },
        ({
            &&& lox_pub.xs@.len() == 7
            &&& resp.issued.ts@.len() == 6
            &&& pt_ok_of(resp.issued.p@)
            &&& resp.issued.p@ != pt_id_seq()
            &&& issue_verified(
                DOM_UPDATE_CRED_ISS,
                response_attrs(st, *resp),
                crate::zkp::pts_view(lox_pub.xs@),
                st.d_pub@,
                resp.issued.p@,
                resp.issued.eq0@,
                resp.issued.eq1@,
                resp.issued.proof.c@,
                scs_view(resp.issued.proof.zs@),
            )
        }) ==> r is Ok,
{
    let mut user_attrs: Vec<IssueUser> = Vec::new();
    user_attrs.push(IssueUser::Known(st.id));
    user_attrs.push(IssueUser::Blinded(st.enc_b));
    user_attrs.push(IssueUser::Blinded(st.enc_t));
    user_attrs.push(IssueUser::Blinded(st.enc_s));
    user_attrs.push(IssueUser::Blinded(st.enc_i));
    user_attrs.push(IssueUser::Blinded(st.enc_k));
    if !issue_verify(&lox_pub.xs, &user_attrs, &st.d_pub, DOM_UPDATE_CRED_ISS, &resp.issued) {
        proof {
            if resp.issued.ts@.len() == 6 {
                assert(user_attrs_spec(user_attrs@, crate::zkp::pts_view(resp.issued.ts@))
                    =~= response_attrs(st, *resp));
            }
        }
        return Err(LoxError::VerificationFailure);
    }
    proof {
        assert(user_attrs_spec(user_attrs@, crate::zkp::pts_view(resp.issued.ts@))
            =~= response_attrs(st, *resp));
        assert(crate::issuance::issue_publics(
            response_attrs(st, *resp),
            crate::zkp::pts_view(lox_pub.xs@),
            st.d_pub@,
            resp.issued.p@,
            resp.issued.eq0@,
            resp.issued.eq1@,
        )[4] == resp.issued.eq0@);
        assert(crate::issuance::issue_publics(
            response_attrs(st, *resp),
            crate::zkp::pts_view(lox_pub.xs@),
            st.d_pub@,
            resp.issued.p@,
            resp.issued.eq0@,
            resp.issued.eq1@,
        )[5] == resp.issued.eq1@);
    }
    if pt_is_identity(&resp.issued.p) {
        return Err(LoxError::VerificationFailure);
    }
    let q = match elgamal_decrypt(&st.d, &resp.issued.eq0, &resp.issued.eq1) {
        Some(q) => q,
        None => {
            return Err(LoxError::VerificationFailure);
        },
    };
    let cred = Lox {
        p: resp.issued.p,
        q,
        id: st.id,
        bucket: st.bucket,
        trust_level: st.trust_level,
        level_since: st.level_since,
        invites_remaining: st.invites_remaining,
        blockages: st.blockages,
    };
    Ok(cred)
}

} // verus!
