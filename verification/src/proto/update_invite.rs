//! Invitation update after key rotation: the user shows an Invitation still
//! valid under a retired invitation key generation (revealing only the
//! `inv_id`, single-use per that generation's filter) and receives an
//! identical-attribute Invitation under the current key.
use vstd::prelude::*;

use crate::cred::Invitation;
use crate::errors::LoxError;
use crate::group::{
    gen_a, gen_b, pt_check, pt_id_seq, pt_is_identity, pt_mul, pt_mul_of, pt_ok_of, pt_sub_of,
    sc_from_u64, sc_random, Pt, Sc,
};
use crate::issuance::{
    blind_issue, elgamal_decrypt, elgamal_encrypt, issue_verified, issue_verify, user_attrs_spec,
    BlindIssued, EncAttr, IssueAttrV, IssueInput, IssueUser,
};
use crate::issuer::{invitation_attrs, Issuer};
use crate::filters::{seen_in, SeenType};
use crate::proto::{DOM_UPDATE_INVITE_ISS, DOM_UPDATE_INVITE_REQ};
use crate::show::{show_cred, show_vprime, ShowAttr};
use crate::zkp::{prove_compact, scs_view, verify_compact, CompactProof, Constraint, Term};

verus! {

/// What the user sends.
pub struct Request {
    pub generation: usize,
    pub inv_id: Sc,
    pub p: Pt,
    pub cq: Pt,
    pub c_date: Pt,
    pub c_bucket: Pt,
    pub c_blockages: Pt,
    pub d_pub: Pt,
    pub enc_date: EncAttr,
    pub enc_b: EncAttr,
    pub enc_k: EncAttr,
    pub proof: CompactProof,
}

/// What the user must remember until the response arrives.
pub struct State {
    pub d: Sc,
    pub d_pub: Pt,
    pub inv_id: Sc,
    pub enc_date: EncAttr,
    pub enc_b: EncAttr,
    pub enc_k: EncAttr,
    pub date: u32,
    pub bucket: Sc,
    pub blockages: u32,
}

/// What the issuer answers: only the refreshed MAC.
pub struct Response {
    pub issued: BlindIssued,
}

/// The request statement shared by both sides.
fn stmt(
    p: &Pt,
    cq: &Pt,
    c_date: &Pt,
    c_bucket: &Pt,
    c_blockages: &Pt,
    v: &Pt,
    old_xs: &Vec<Pt>,
    d_pub: &Pt,
    enc_date: &EncAttr,
    enc_b: &EncAttr,
    enc_k: &EncAttr,
) -> (r: (Vec<Pt>, Vec<Constraint>))
{
    let a_gen = gen_a();
    let b_gen = gen_b();
    let mut publics: Vec<Pt> = Vec::new();
    publics.push(a_gen);
    publics.push(b_gen);
    publics.push(*p);
    publics.push(*cq);
    publics.push(*c_date);
    publics.push(*c_bucket);
    publics.push(*c_blockages);
    publics.push(*v);
    let mut i: usize = 0;
    while i < old_xs.len()
        decreases old_xs@.len() - i,
    {
        publics.push(old_xs[i]);
        i += 1;
    }
    publics.push(*d_pub);
    publics.push(enc_date.c0);
    publics.push(enc_date.c1);
    publics.push(enc_b.c0);
    publics.push(enc_b.c1);
    publics.push(enc_k.c0);
    publics.push(enc_k.c1);
    let mut cons: Vec<Constraint> = Vec::new();
    let mut t: Vec<Term> = Vec::new();
    t.push(Term { sec: 0, pt: 2 });
    t.push(Term { sec: 1, pt: 0 });
    cons.push(Constraint { lhs: 4, terms: t });
    let mut t: Vec<Term> = Vec::new();
    t.push(Term { sec: 2, pt: 2 });
    t.push(Term { sec: 3, pt: 0 });
    cons.push(Constraint { lhs: 5, terms: t });
    let mut t: Vec<Term> = Vec::new();
    t.push(Term { sec: 4, pt: 2 });
    t.push(Term { sec: 5, pt: 0 });
    cons.push(Constraint { lhs: 6, terms: t });
    // V over the blinded attributes date, bucket, blockages.
    let mut t: Vec<Term> = Vec::new();
    t.push(Term { sec: 1, pt: 10 });
    t.push(Term { sec: 3, pt: 11 });
    t.push(Term { sec: 5, pt: 12 });
    t.push(Term { sec: 6, pt: 0 });
    cons.push(Constraint { lhs: 7, terms: t });
    let mut t: Vec<Term> = Vec::new();
    t.push(Term { sec: 7, pt: 1 });
    cons.push(Constraint { lhs: 13, terms: t });
    let mut t: Vec<Term> = Vec::new();
    t.push(Term { sec: 8, pt: 1 });
    cons.push(Constraint { lhs: 14, terms: t });
    let mut t: Vec<Term> = Vec::new();
    t.push(Term { sec: 0, pt: 1 });
    t.push(Term { sec: 8, pt: 13 });
    cons.push(Constraint { lhs: 15, terms: t });
    let mut t: Vec<Term> = Vec::new();
    t.push(Term { sec: 9, pt: 1 });
    cons.push(Constraint { lhs: 16, terms: t });
    let mut t: Vec<Term> = Vec::new();
    t.push(Term { sec: 2, pt: 1 });
    t.push(Term { sec: 9, pt: 13 });
    cons.push(Constraint { lhs: 17, terms: t });
    let mut t: Vec<Term> = Vec::new();
    t.push(Term { sec: 10, pt: 1 });
    cons.push(Constraint { lhs: 18, terms: t });
    let mut t: Vec<Term> = Vec::new();
    t.push(Term { sec: 4, pt: 1 });
    t.push(Term { sec: 10, pt: 13 });
    cons.push(Constraint { lhs: 19, terms: t });
    (publics, cons)
}

/// Compose an update request for an Invitation minted under the retired
/// invitation key generation `generation`.
pub fn request(
    invite: &Invitation,
    generation: usize,
    old_invitation_pub: &crate::keys::IssuerPubKey,
) -> (r: Result<(Request, State), LoxError>)
    ensures
        r is Err ==> r->Err_0 == LoxError::InvalidField("credential", "does not decode")
            || r->Err_0 == LoxError::VerificationFailure,
        r is Ok ==> {
            let (req, st) = r.unwrap();
            &&& req.inv_id@ == invite.inv_id@
            &&& req.generation == generation
            &&& st.inv_id@ == invite.inv_id@
            &&& st.date == invite.date
            &&& st.bucket@ == invite.bucket@
            &&& st.blockages == invite.blockages
        },
{
    let attrs = invitation_attrs(invite);
    proof {
        assert(scs_view(attrs@).len() == attrs@.len());
        assert(attrs@.len() == 4);
    }
    let mut blinded: Vec<bool> = Vec::new();
    blinded.push(false);
    blinded.push(true);
    blinded.push(true);
    blinded.push(true);
    let sh = match show_cred(&invite.p, &invite.q, &attrs, &blinded, &old_invitation_pub.xs) {
        Some(sh) => sh,
        None => {
            return Err(LoxError::InvalidField("credential", "does not decode"));
        },
    };
    let b_gen = gen_b();
    let d = sc_random();
    let d_pub = pt_mul(&d, &b_gen);
    let date = sc_from_u64(invite.date as u64);
    let blk = sc_from_u64(invite.blockages as u64);
    let (enc_date, e_date) = match elgamal_encrypt(&date, &d_pub) {
        Some(x) => x,
        None => {
            proof {
                assert(false);
            }
            vstd::pervasive::unreached()
        },
    };
    let (enc_b, e_b) = match elgamal_encrypt(&invite.bucket, &d_pub) {
        Some(x) => x,
        None => {
            proof {
                assert(false);
            }
            vstd::pervasive::unreached()
        },
    };
    let (enc_k, e_k) = match elgamal_encrypt(&blk, &d_pub) {
        Some(x) => x,
        None => {
            proof {
                assert(false);
            }
            vstd::pervasive::unreached()
        },
    };
    let mut secrets: Vec<Sc> = Vec::new();
    secrets.push(date);
    secrets.push(sh.zs[1]);
    secrets.push(invite.bucket);
    secrets.push(sh.zs[2]);
    secrets.push(blk);
    secrets.push(sh.zs[3]);
    secrets.push(sh.negzq);
    secrets.push(d);
    secrets.push(e_date);
    secrets.push(e_b);
    secrets.push(e_k);
    let (publics, cons) = stmt(
        &sh.p,
        &sh.cq,
        &sh.cs[1],
        &sh.cs[2],
        &sh.cs[3],
        &sh.v,
        &old_invitation_pub.xs,
        &d_pub,
        &enc_date,
        &enc_b,
        &enc_k,
    );
    let proof = match prove_compact(DOM_UPDATE_INVITE_REQ, &publics, &cons, &secrets) {
        Some(pr) => pr,
        None => {
            return Err(LoxError::VerificationFailure);
        },
    };
    let req = Request {
        generation,
        inv_id: invite.inv_id,
        p: sh.p,
        cq: sh.cq,
        c_date: sh.cs[1],
        c_bucket: sh.cs[2],
        c_blockages: sh.cs[3],
        d_pub,
        enc_date,
        enc_b,
        enc_k,
        proof,
    };
    let st = State {
        d,
        d_pub,
        inv_id: invite.inv_id,
        enc_date,
        enc_b,
        enc_k,
        date: invite.date,
        bucket: invite.bucket,
        blockages: invite.blockages,
    };
    Ok((req, st))
}

/// Handle an invitation update: verify the showing under the retired
/// generation's key, reissue the identical attributes under the current
/// key, and only then consume the `inv_id` in that generation's filter.
pub fn handle(issuer: &mut Issuer, req: &Request) -> (r: Result<Response, LoxError>)
    ensures
        r is Err ==> r == Result::<Response, LoxError>::Err(LoxError::VerificationFailure)
            && *final(issuer) == *old(issuer),
        req.generation < old(issuer).retired_invitation@.len() && seen_in(
            old(issuer).retired_invitation@[req.generation as int].filter@,
            req.inv_id@,
        ) ==> r is Err,
        req.generation >= old(issuer).retired_invitation@.len() ==> r is Err,
        r is Ok ==> {
            &&& req.generation < old(issuer).retired_invitation@.len()
            &&& !seen_in(old(issuer).retired_invitation@[req.generation as int].filter@, req.inv_id@)
            &&& final(issuer).retired_invitation@.len() == old(issuer).retired_invitation@.len()
            &&& final(issuer).retired_invitation@[req.generation as int].filter@ == old(
                issuer,
            ).retired_invitation@[req.generation as int].filter@.push(req.inv_id@)
            &&& final(issuer).id_filter@ == old(issuer).id_filter@
            &&& final(issuer).inv_id_filter@ == old(issuer).inv_id_filter@
            &&& final(issuer).today == old(issuer).today
            &&& r.unwrap().issued.p@ != pt_id_seq()
        },
{
    let g = req.generation;
    if g >= issuer.retired_invitation.len() {
        return Err(LoxError::VerificationFailure);
    }
    if issuer.retired_invitation[g].filter.check(&req.inv_id) == SeenType::Seen {
        return Err(LoxError::VerificationFailure);
    }
    if !pt_check(&req.p.b) || !pt_check(&req.cq.b) || !pt_check(&req.c_date.b) || !pt_check(
        &req.c_bucket.b,
    ) || !pt_check(&req.c_blockages.b) || !pt_check(&req.d_pub.b) || !pt_check(&req.enc_date.c0.b)
        || !pt_check(&req.enc_date.c1.b) || !pt_check(&req.enc_b.c0.b) || !pt_check(
        &req.enc_b.c1.b,
    ) || !pt_check(&req.enc_k.c0.b) || !pt_check(&req.enc_k.c1.b) {
        return Err(LoxError::VerificationFailure);
    }
    if pt_is_identity(&req.p) {
        return Err(LoxError::VerificationFailure);
    }
    let mut sattrs: Vec<ShowAttr> = Vec::new();
    sattrs.push(ShowAttr::Revealed(req.inv_id));
    sattrs.push(ShowAttr::Com(req.c_date));
    sattrs.push(ShowAttr::Com(req.c_bucket));
    sattrs.push(ShowAttr::Com(req.c_blockages));
    let v = match show_vprime(&issuer.retired_invitation[g].priv_key, &req.p, &req.cq, &sattrs) {
        Some(v) => v,
        None => {
            return Err(LoxError::VerificationFailure);
        },
    };
    let (publics, cons) = stmt(
        &req.p,
        &req.cq,
        &req.c_date,
        &req.c_bucket,
        &req.c_blockages,
        &v,
        &issuer.retired_invitation[g].pub_key.xs,
        &req.d_pub,
        &req.enc_date,
        &req.enc_b,
        &req.enc_k,
    );
    if !verify_compact(DOM_UPDATE_INVITE_REQ, &publics, &cons, 11, &req.proof) {
        return Err(LoxError::VerificationFailure);
    }
    let mut inputs: Vec<IssueInput> = Vec::new();
    inputs.push(IssueInput::Known(req.inv_id));
    inputs.push(IssueInput::Blinded(req.enc_date));
    inputs.push(IssueInput::Blinded(req.enc_b));
    inputs.push(IssueInput::Blinded(req.enc_k));
    let bi = match blind_issue(
        &issuer.invitation_priv,
        &issuer.invitation_pub.xs,
        &inputs,
        &req.d_pub,
        DOM_UPDATE_INVITE_ISS,
    ) {
        Some(bi) => bi,
        None => {
            return Err(LoxError::VerificationFailure);
        },
    };
    let ghost pre = issuer.retired_invitation@;
    let mut retired = issuer.retired_invitation.remove(g);
    let st = retired.filter.filter(&req.inv_id);
    issuer.retired_invitation.insert(g, retired);
    proof {
        assert(st == SeenType::Fresh);
        assert(issuer.retired_invitation@ =~= pre.remove(g as int).insert(g as int, retired));
    }
    Ok(Response { issued: bi })
}

/// The attribute views a user expects of its refreshed Invitation.
pub open spec fn response_attrs(st: State, resp: Response) -> Seq<IssueAttrV> {
    seq![
        IssueAttrV::Known(st.inv_id@),
        IssueAttrV::Blinded(resp.issued.ts@[1]@, st.enc_date.c0@, st.enc_date.c1@),
        IssueAttrV::Blinded(resp.issued.ts@[2]@, st.enc_b.c0@, st.enc_b.c1@),
        IssueAttrV::Blinded(resp.issued.ts@[3]@, st.enc_k.c0@, st.enc_k.c1@),
    ]
}

/// Verify the response and assemble the refreshed Invitation: the same
/// attributes, a new MAC under the current key.
pub fn handle_response(st: State, resp: &Response, invitation_pub: &crate::keys::IssuerPubKey) -> (r:
    Result<Invitation, LoxError>)
    ensures
        r is Err ==> r == Result::<Invitation, LoxError>::Err(LoxError::VerificationFailure),
        r is Ok ==> {
            let invite = r.unwrap();
            &&& issue_verified(
                DOM_UPDATE_INVITE_ISS,
                response_attrs(st, *resp),
                crate::zkp::pts_view(invitation_pub.xs@),
                st.d_pub@,
                resp.issued.p@,
                resp.issued.eq0@,
                resp.issued.eq1@,
                resp.issued.proof.c@,
                scs_view(resp.issued.proof.zs@),
            )
            &&& invite.inv_id@ == st.inv_id@
            &&& invite.date == st.date
            &&& invite.bucket@ == st.bucket@
            &&& invite.blockages == st.blockages
            &&& invite.p@ == resp.issued.p@
            &&& invite.p@ != pt_id_seq()
            &&& invite.q@ == pt_sub_of(resp.issued.eq1@, pt_mul_of(st.d@, resp.issued.eq0@))
        },
        ({
            &&& invitation_pub.xs@.len() == 5
            &&& resp.issued.ts@.len() == 4
            &&& pt_ok_of(resp.issued.p@)
            &&& resp.issued.p@ != pt_id_seq()
            &&& issue_verified(
                DOM_UPDATE_INVITE_ISS,
                response_attrs(st, *resp),
                crate::zkp::pts_view(invitation_pub.xs@),
                st.d_pub@,
                resp.issued.p@,
                resp.issued.eq0@,
                resp.issued.eq1@,
                resp.issued.proof.c@,
                scs_view(resp.issued.proof.zs@),
            )
        }) ==> r is Ok,
{
    let mut user_attrs: Vec<IssueUser> = Vec::new();
    user_attrs.push(IssueUser::Known(st.inv_id));
    user_attrs.push(IssueUser::Blinded(st.enc_date));
    user_attrs.push(IssueUser::Blinded(st.enc_b));
    user_attrs.push(IssueUser::Blinded(st.enc_k));
    if !issue_verify(&invitation_pub.xs, &user_attrs, &st.d_pub, DOM_UPDATE_INVITE_ISS, &resp.issued) {
        proof {
            if resp.issued.ts@.len() == 4 {
                assert(user_attrs_spec(user_attrs@, crate::zkp::pts_view(resp.issued.ts@))
                    =~= response_attrs(st, *resp));
            }
        }
        return Err(LoxError::VerificationFailure);
    }
    proof {
        assert(user_attrs_spec(user_attrs@, crate::zkp::pts_view(resp.issued.ts@))
            =~= response_attrs(st, *resp));
        assert(crate::issuance::issue_publics(
            response_attrs(st, *resp),
            crate::zkp::pts_view(invitation_pub.xs@),
            st.d_pub@,
            resp.issued.p@,
            resp.issued.eq0@,
            resp.issued.eq1@,
        )[4] == resp.issued.eq0@);
        assert(crate::issuance::issue_publics(
            response_attrs(st, *resp),
            crate::zkp::pts_view(invitation_pub.xs@),
            st.d_pub@,
            resp.issued.p@,
            resp.issued.eq0@,
            resp.issued.eq1@,
        )[5] == resp.issued.eq1@);
    }
    if pt_is_identity(&resp.issued.p) {
        return Err(LoxError::VerificationFailure);
    }
    let q = match elgamal_decrypt(&st.d, &resp.issued.eq0, &resp.issued.eq1) {
        Some(q) => q,
        None => {
            return Err(LoxError::VerificationFailure);
        },
    };
    let invite = Invitation {
        p: resp.issued.p,
        q,
        inv_id: st.inv_id,
        date: st.date,
        bucket: st.bucket,
        blockages: st.blockages,
    };
    Ok(invite)
}

} // verus!
