//! Invitation redemption: the holder of a peer Invitation reveals its
//! `inv_id` (consumed once), keeps date, bucket and blockages hidden, and
//! proves the invitation is at most `INVITATION_EXPIRY` days old and not
//! from the future.  It receives a level 1 Lox credential on the inviter's
//! bucket, inheriting the bucket's blockage count.
use vstd::prelude::*;

use crate::cred::{Invitation, Lox, INVITATION_EXPIRY};
use crate::errors::LoxError;
use crate::group::{
    gen_a, gen_b, gen_b_spec, pt_add, pt_add_of, pt_check, pt_id_seq, pt_identity, pt_is_identity,
    pt_mul, pt_mul_of, pt_ok_of, pt_sub_of, sc_add, sc_add_of, sc_from_u64,
    sc_from_u64_of, sc_random, sc_sub, Pt, Sc,
};
use crate::issuance::{
    blind_issue, elgamal_decrypt, elgamal_encrypt, issue_verified, issue_verify, user_attrs_spec,
    BlindIssued, EncAttr, IssueAttrV, IssueInput, IssueUser,
};
use crate::issuer::{invitation_attrs, Issuer};
use crate::filters::{seen_in, SeenType};
use crate::proto::{DOM_REDEEM_INVITE_ISS, DOM_REDEEM_INVITE_REQ};
use crate::range::{range_secrets, range_stmt};
use crate::show::{show_cred, show_vprime, ShowAttr};
use crate::zkp::{prove_compact, scs_view, verify_compact, CompactProof, Constraint, Term};

verus! {

/// What the user sends.
pub struct Request {
    pub inv_id: Sc,
    pub p_inv: Pt,
    pub cq_inv: Pt,
    pub c_date: Pt,
    pub c_bucket: Pt,
    pub c_blockages: Pt,
    pub d_pub: Pt,
    pub enc_id: EncAttr,
    pub enc_b: EncAttr,
    pub enc_k: EncAttr,
    pub cg_date: Vec<Pt>,
    pub proof: CompactProof,
}

/// What the user must remember until the response arrives.
pub struct State {
    pub d: Sc,
    pub d_pub: Pt,
    pub id_client: Sc,
    pub enc_id: EncAttr,
    pub enc_b: EncAttr,
    pub enc_k: EncAttr,
    pub bucket: Sc,
    pub blockages: u32,
}

/// What the issuer answers.
pub struct Response {
    pub id_server: Sc,
    pub level_since: u32,
    pub issued: BlindIssued,
}

/// The request statement shared by both sides: the Invitation showing, the
/// encryptions, and the freshness range `0 <= date + EXPIRY - today <= 15`
/// in 4 bits.
fn stmt(
    p_inv: &Pt,
    cq_inv: &Pt,
    c_date: &Pt,
    c_bucket: &Pt,
    c_blockages: &Pt,
    v_inv: &Pt,
    inv_xs: &Vec<Pt>,
    d_pub: &Pt,
    enc_id: &EncAttr,
    enc_b: &EncAttr,
    enc_k: &EncAttr,
    cg_date: &Vec<Pt>,
    today: u32,
) -> (r: Option<(Vec<Pt>, Vec<Constraint>)>)
    requires
        pt_ok_of(p_inv@),
        pt_ok_of(c_date@),
        cg_date@.len() == 3,
{
    let a_gen = gen_a();
    let b_gen = gen_b();
    let idp = pt_identity();
    let mut publics: Vec<Pt> = Vec::new();
    publics.push(a_gen);
    publics.push(b_gen);
    publics.push(idp);
    publics.push(*p_inv);
    publics.push(*cq_inv);
    publics.push(*c_date);
    publics.push(*c_bucket);
    publics.push(*c_blockages);
    publics.push(*v_inv);
    let mut i: usize = 0;
    while i < inv_xs.len()
        decreases inv_xs@.len() - i,
    {
        publics.push(inv_xs[i]);
        i += 1;
    }
    publics.push(*d_pub);
    publics.push(enc_id.c0);
    publics.push(enc_id.c1);
    publics.push(enc_b.c0);
    publics.push(enc_b.c1);
    publics.push(enc_k.c0);
    publics.push(enc_k.c1);
    let mut cons: Vec<Constraint> = Vec::new();
    let mut t: Vec<Term> = Vec::new();
    t.push(Term { sec: 0, pt: 3 });
    t.push(Term { sec: 1, pt: 0 });
    cons.push(Constraint { lhs: 5, terms: t });
    let mut t: Vec<Term> = Vec::new();
    t.push(Term { sec: 2, pt: 3 });
    t.push(Term { sec: 3, pt: 0 });
    cons.push(Constraint { lhs: 6, terms: t });
    let mut t: Vec<Term> = Vec::new();
    t.push(Term { sec: 4, pt: 3 });
    t.push(Term { sec: 5, pt: 0 });
    cons.push(Constraint { lhs: 7, terms: t });
    // V over the blinded Invitation attributes: date, bucket, blockages.
    let mut t: Vec<Term> = Vec::new();
    t.push(Term { sec: 1, pt: 11 });
    t.push(Term { sec: 3, pt: 12 });
    t.push(Term { sec: 5, pt: 13 });
    t.push(Term { sec: 6, pt: 0 });
    cons.push(Constraint { lhs: 8, terms: t });
    let mut t: Vec<Term> = Vec::new();
    t.push(Term { sec: 7, pt: 1 });
    cons.push(Constraint { lhs: 14, terms: t });
    let mut t: Vec<Term> = Vec::new();
    t.push(Term { sec: 8, pt: 1 });
    cons.push(Constraint { lhs: 15, terms: t });
    let mut t: Vec<Term> = Vec::new();
    t.push(Term { sec: 9, pt: 1 });
    t.push(Term { sec: 8, pt: 14 });
    cons.push(Constraint { lhs: 16, terms: t });
    let mut t: Vec<Term> = Vec::new();
    t.push(Term { sec: 10, pt: 1 });
    cons.push(Constraint { lhs: 17, terms: t });
    let mut t: Vec<Term> = Vec::new();
    t.push(Term { sec: 2, pt: 1 });
    t.push(Term { sec: 10, pt: 14 });
    cons.push(Constraint { lhs: 18, terms: t });
    let mut t: Vec<Term> = Vec::new();
    t.push(Term { sec: 11, pt: 1 });
    cons.push(Constraint { lhs: 19, terms: t });
    let mut t: Vec<Term> = Vec::new();
    t.push(Term { sec: 4, pt: 1 });
    t.push(Term { sec: 11, pt: 14 });
    cons.push(Constraint { lhs: 20, terms: t });
    // Freshness range: C_date + (EXPIRY - today)*P' commits to
    // date + EXPIRY - today, which must fit in 4 bits.
    let et = sc_sub(&sc_from_u64(INVITATION_EXPIRY as u64), &sc_from_u64(today as u64));
    let c_diff = pt_add(c_date, &pt_mul(&et, p_inv));
    if publics.len() > 1000 || cons.len() > 1000 {
        return None;
    }
    match range_stmt(&mut publics, &mut cons, 0, 3, 2, &c_diff, cg_date, p_inv, 4, 12) {
        Some(()) => {},
        None => {
            return None;
        },
    }
    Some((publics, cons))
}

/// Compose a redemption request.  The invitation must be at most
/// `INVITATION_EXPIRY` days old and must not be from the future.
pub fn request(
    invite: &Invitation,
    today: u32,
    invitation_pub: &crate::keys::IssuerPubKey,
) -> (r: Result<(Request, State), LoxError>)
    ensures
        invite.date > today ==> r == Result::<(Request, State), LoxError>::Err(
            LoxError::InvalidField("date", "invitation is from the future"),
        ),
        invite.date <= today && today - invite.date > INVITATION_EXPIRY ==> r == Result::<
            (Request, State),
            LoxError,
        >::Err(LoxError::CredentialExpired),
        r is Err ==> r->Err_0 == LoxError::InvalidField("date", "invitation is from the future")
            || r->Err_0 == LoxError::CredentialExpired || r->Err_0 == LoxError::InvalidField(
            "credential",
            "does not decode",
        ) || r->Err_0 == LoxError::VerificationFailure,
        r is Ok ==> {
            let (req, st) = r.unwrap();
            &&& req.inv_id@ == invite.inv_id@
            &&& st.bucket@ == invite.bucket@
            &&& st.blockages == invite.blockages
        },
{
    if invite.date > today {
        return Err(LoxError::InvalidField("date", "invitation is from the future"));
    }
    if today - invite.date > INVITATION_EXPIRY {
        return Err(LoxError::CredentialExpired);
    }
    let diff = INVITATION_EXPIRY - (today - invite.date);
    let attrs = invitation_attrs(invite);
    proof {
        assert(scs_view(attrs@).len() == attrs@.len());
        assert(attrs@.len() == 4);
    }
    let mut blinded: Vec<bool> = Vec::new();
    blinded.push(false);
    blinded.push(true);
    blinded.push(true);
    blinded.push(true);
    let sh = match show_cred(&invite.p, &invite.q, &attrs, &blinded, &invitation_pub.xs) {
        Some(sh) => sh,
        None => {
            return Err(LoxError::InvalidField("credential", "does not decode"));
        },
    };
    let a_gen = gen_a();
    let b_gen = gen_b();
    let d = sc_random();
    let d_pub = pt_mul(&d, &b_gen);
    let id_client = sc_random();
    let blk = sc_from_u64(invite.blockages as u64);
    let (enc_id, e_id) = match elgamal_encrypt(&id_client, &d_pub) {
        Some(x) => x,
        None => {
            proof {
                assert(false);
            }
            vstd::pervasive::unreached()
        },
    };
    let (enc_b, e_b) = match elgamal_encrypt(&invite.bucket, &d_pub) {
        Some(x) => x,
        None => {
            proof {
                assert(false);
            }
            vstd::pervasive::unreached()
        },
    };
    let (enc_k, e_k) = match elgamal_encrypt(&blk, &d_pub) {
        Some(x) => x,
        None => {
            proof {
                assert(false);
            }
            vstd::pervasive::unreached()
        },
    };
    let mut secrets: Vec<Sc> = Vec::new();
    secrets.push(sc_from_u64(invite.date as u64));
    secrets.push(sh.zs[1]);
    secrets.push(invite.bucket);
    secrets.push(sh.zs[2]);
    secrets.push(blk);
    secrets.push(sh.zs[3]);
    secrets.push(sh.negzq);
    secrets.push(d);
    secrets.push(e_id);
    secrets.push(id_client);
    secrets.push(e_b);
    secrets.push(e_k);
    // The target blinding of the freshness commitment is z_date itself.
    assert(diff < (1u32 << 4)) by (bit_vector)
        requires
            diff <= 15,
    ;
    let cg_date = range_secrets(diff, 4, &sh.zs[1], &sh.p, &a_gen, &mut secrets);
    let (publics, cons) = match stmt(
        &sh.p,
        &sh.cq,
        &sh.cs[1],
        &sh.cs[2],
        &sh.cs[3],
        &sh.v,
        &invitation_pub.xs,
        &d_pub,
        &enc_id,
        &enc_b,
        &enc_k,
        &cg_date,
        today,
    ) {
        Some(x) => x,
        None => {
            return Err(LoxError::VerificationFailure);
        },
    };
    let proof = match prove_compact(DOM_REDEEM_INVITE_REQ, &publics, &cons, &secrets) {
        Some(pr) => pr,
        None => {
            return Err(LoxError::VerificationFailure);
        },
    };
    let req = Request {
        inv_id: invite.inv_id,
        p_inv: sh.p,
        cq_inv: sh.cq,
        c_date: sh.cs[1],
        c_bucket: sh.cs[2],
        c_blockages: sh.cs[3],
        d_pub,
        enc_id,
        enc_b,
        enc_k,
        cg_date,
        proof,
    };
    let st = State {
        d,
        d_pub,
        id_client,
        enc_id,
        enc_b,
        enc_k,
        bucket: invite.bucket,
        blockages: invite.blockages,
    };
    Ok((req, st))
}

/// Handle a redemption: verify the showing and freshness, issue the level 1
/// credential on the hidden bucket, and only then consume the `inv_id`.
pub fn handle(issuer: &mut Issuer, req: &Request) -> (r: Result<Response, LoxError>)
    ensures
        r is Err ==> r == Result::<Response, LoxError>::Err(LoxError::VerificationFailure)
            && *final(issuer) == *old(issuer),
        seen_in(old(issuer).inv_id_filter@, req.inv_id@) ==> r is Err,
        r is Ok ==> {
            let resp = r.unwrap();
            &&& resp.level_since == old(issuer).today
            &&& resp.issued.p@ != pt_id_seq()
            &&& !seen_in(old(issuer).inv_id_filter@, req.inv_id@)
            &&& final(issuer).inv_id_filter@ == old(issuer).inv_id_filter@.push(req.inv_id@)
            &&& final(issuer).id_filter@ == old(issuer).id_filter@
            &&& final(issuer).today == old(issuer).today
        },
{
    if req.cg_date.len() != 3 {
        return Err(LoxError::VerificationFailure);
    }
    if !pt_check(&req.p_inv.b) || !pt_check(&req.cq_inv.b) || !pt_check(&req.c_date.b)
        || !pt_check(&req.c_bucket.b) || !pt_check(&req.c_blockages.b) || !pt_check(&req.d_pub.b)
        || !pt_check(&req.enc_id.c0.b) || !pt_check(&req.enc_id.c1.b) || !pt_check(
        &req.enc_b.c0.b,
    ) || !pt_check(&req.enc_b.c1.b) || !pt_check(&req.enc_k.c0.b) || !pt_check(&req.enc_k.c1.b) {
        return Err(LoxError::VerificationFailure);
    }
    if pt_is_identity(&req.p_inv) {
        return Err(LoxError::VerificationFailure);
    }
    let mut sattrs: Vec<ShowAttr> = Vec::new();
    sattrs.push(ShowAttr::Revealed(req.inv_id));
    sattrs.push(ShowAttr::Com(req.c_date));
    sattrs.push(ShowAttr::Com(req.c_bucket));
    sattrs.push(ShowAttr::Com(req.c_blockages));
    let v = match show_vprime(&issuer.invitation_priv, &req.p_inv, &req.cq_inv, &sattrs) {
        Some(v) => v,
        None => {
            return Err(LoxError::VerificationFailure);
        },
    };
    let (publics, cons) = match stmt(
        &req.p_inv,
        &req.cq_inv,
        &req.c_date,
        &req.c_bucket,
        &req.c_blockages,
        &v,
        &issuer.invitation_pub.xs,
        &req.d_pub,
        &req.enc_id,
        &req.enc_b,
        &req.enc_k,
        &req.cg_date,
        issuer.today,
    ) {
        Some(x) => x,
        None => {
            return Err(LoxError::VerificationFailure);
        },
    };
    if !verify_compact(DOM_REDEEM_INVITE_REQ, &publics, &cons, 24, &req.proof) {
        return Err(LoxError::VerificationFailure);
    }
    let b_gen = gen_b();
    let id_server = sc_random();
    let idb = pt_mul(&id_server, &b_gen);
    let enc_id2 = EncAttr { c0: req.enc_id.c0, c1: pt_add(&req.enc_id.c1, &idb) };
    let since = sc_from_u64(issuer.today as u64);
    let mut inputs: Vec<IssueInput> = Vec::new();
    inputs.push(IssueInput::Blinded(enc_id2));
    inputs.push(IssueInput::Blinded(req.enc_b));
    inputs.push(IssueInput::Known(sc_from_u64(1)));
    inputs.push(IssueInput::Known(since));
    inputs.push(IssueInput::Known(sc_from_u64(0)));
    inputs.push(IssueInput::Blinded(req.enc_k));
    let bi = match blind_issue(
        &issuer.lox_priv,
        &issuer.lox_pub.xs,
        &inputs,
        &req.d_pub,
        DOM_REDEEM_INVITE_ISS,
    ) {
        Some(bi) => bi,
        None => {
            return Err(LoxError::VerificationFailure);
        },
    };
    if issuer.inv_id_filter.filter(&req.inv_id) == SeenType::Seen {
        return Err(LoxError::VerificationFailure);
    }
    let today = issuer.today;
    Ok(Response { id_server, level_since: today, issued: bi })
}

/// The attribute views a user expects of its new credential.
pub open spec fn response_attrs(st: State, resp: Response) -> Seq<IssueAttrV> {
    seq![
        IssueAttrV::Blinded(
            resp.issued.ts@[0]@,
            st.enc_id.c0@,
            pt_add_of(st.enc_id.c1@, pt_mul_of(resp.id_server@, gen_b_spec())),
        ),
        IssueAttrV::Blinded(resp.issued.ts@[1]@, st.enc_b.c0@, st.enc_b.c1@),
        IssueAttrV::Known(sc_from_u64_of(1)),
        IssueAttrV::Known(sc_from_u64_of(resp.level_since as u64)),
        IssueAttrV::Known(sc_from_u64_of(0)),
        IssueAttrV::Blinded(resp.issued.ts@[5]@, st.enc_k.c0@, st.enc_k.c1@),
    ]
}

/// Verify the response, decrypt the MAC, and assemble the new credential:
/// trust level 1 on the inviter's bucket, dated today, with no invitations
/// and the inherited blockage count.
pub fn handle_response(st: State, resp: &Response, lox_pub: &crate::keys::IssuerPubKey) -> (r:
    Result<Lox, LoxError>)
    ensures
        r is Err ==> r == Result::<Lox, LoxError>::Err(LoxError::VerificationFailure),
        r is Ok ==> {
            let cred = r.unwrap();
            &&& issue_verified(
                DOM_REDEEM_INVITE_ISS,
                response_attrs(st, *resp),
                crate::zkp::pts_view(lox_pub.xs@),
                st.d_pub@,
                resp.issued.p@,
                resp.issued.eq0@,
                resp.issued.eq1@,
                resp.issued.proof.c@,
                scs_view(resp.issued.proof.zs@),
            )
            &&& cred.id@ == sc_add_of(st.id_client@, resp.id_server@)
            &&& cred.bucket@ == st.bucket@
            &&& cred.trust_level == 1
            &&& cred.level_since == resp.level_since
            &&& cred.invites_remaining == 0
            &&& cred.blockages == st.blockages
            &&& cred.p@ == resp.issued.p@
            &&& cred.p@ != pt_id_seq()
            &&& cred.q@ == pt_sub_of(resp.issued.eq1@, pt_mul_of(st.d@, resp.issued.eq0@))
        },
        ({
            &&& pt_ok_of(st.enc_id.c1@)
            &&& lox_pub.xs@.len() == 7
            &&& resp.issued.ts@.len() == 6
            &&& pt_ok_of(resp.issued.p@)
            &&& resp.issued.p@ != pt_id_seq()
            &&& issue_verified(
                DOM_REDEEM_INVITE_ISS,
                response_attrs(st, *resp),
                crate::zkp::pts_view(lox_pub.xs@),
                st.d_pub@,
                resp.issued.p@,
                resp.issued.eq0@,
                resp.issued.eq1@,
                resp.issued.proof.c@,
                scs_view(resp.issued.proof.zs@),
            )
        }) ==> r is Ok,
{
    if !pt_check(&st.enc_id.c1.b) {
        return Err(LoxError::VerificationFailure);
    }
    let b_gen = gen_b();
    let idb = pt_mul(&resp.id_server, &b_gen);
    let c1 = pt_add(&st.enc_id.c1, &idb);
    let mut user_attrs: Vec<IssueUser> = Vec::new();
    user_attrs.push(IssueUser::Blinded(EncAttr { c0: st.enc_id.c0, c1 }));
    user_attrs.push(IssueUser::Blinded(st.enc_b));
    user_attrs.push(IssueUser::Known(sc_from_u64(1)));
    user_attrs.push(IssueUser::Known(sc_from_u64(resp.level_since as u64)));
    user_attrs.push(IssueUser::Known(sc_from_u64(0)));
    user_attrs.push(IssueUser::Blinded(st.enc_k));
    if !issue_verify(&lox_pub.xs, &user_attrs, &st.d_pub, DOM_REDEEM_INVITE_ISS, &resp.issued) {
        proof {
            if resp.issued.ts@.len() == 6 {
                assert(user_attrs_spec(user_attrs@, crate::zkp::pts_view(resp.issued.ts@))
                    =~= response_attrs(st, *resp));
            }
        }
        return Err(LoxError::VerificationFailure);
    }
    proof {
        assert(user_attrs_spec(user_attrs@, crate::zkp::pts_view(resp.issued.ts@))
            =~= response_attrs(st, *resp));
        assert(crate::issuance::issue_publics(
            response_attrs(st, *resp),
            crate::zkp::pts_view(lox_pub.xs@),
            st.d_pub@,
            resp.issued.p@,
            resp.issued.eq0@,
            resp.issued.eq1@,
        )[4] == resp.issued.eq0@);
        assert(crate::issuance::issue_publics(
            response_attrs(st, *resp),
            crate::zkp::pts_view(lox_pub.xs@),
            st.d_pub@,
            resp.issued.p@,
            resp.issued.eq0@,
            resp.issued.eq1@,
        )[5] == resp.issued.eq1@);
    }
    if pt_is_identity(&resp.issued.p) {
        return Err(LoxError::VerificationFailure);
    }
    let q = match elgamal_decrypt(&st.d, &resp.issued.eq0, &resp.issued.eq1) {
        Some(q) => q,
        None => {
            return Err(LoxError::VerificationFailure);
        },
    };
    let id = sc_add(&st.id_client, &resp.id_server);
    let cred = Lox {
        p: resp.issued.p,
        q,
        id,
        bucket: st.bucket,
        trust_level: 1,
        level_since: resp.level_since,
        invites_remaining: 0,
        blockages: st.blockages,
    };
    Ok(cred)
}

} // verus!
