//! Migration: the second half of the level 0 to level 1 upgrade.  The user
//! shows its level 0 Lox credential and the TrustUpgrade Migration
//! credential from `trust_promotion`, proving in zero knowledge that the
//! Migration's source bucket is its own and without revealing either
//! bucket, and receives a level 1 Lox credential on the target bucket.
//! The Lox id is revealed and consumed here.
use vstd::prelude::*;

use crate::cred::{Lox, Migration, MIGRATION_TYPE_TRUST_UPGRADE};
use crate::errors::LoxError;
use crate::group::{
    gen_a, gen_b, gen_b_spec, pt_add, pt_add_of, pt_check, pt_id_seq, pt_is_identity, pt_mul,
    pt_mul_of, pt_ok_of, pt_sub_of, sc_add, sc_add_of, sc_eq, sc_from_u64, sc_from_u64_of,
    sc_random, Pt, Sc,
};
use crate::issuance::{
    blind_issue, elgamal_decrypt, elgamal_encrypt, issue_verified, issue_verify, user_attrs_spec,
    BlindIssued, EncAttr, IssueAttrV, IssueInput, IssueUser,
};
use crate::issuer::{lox_attrs, migration_attrs, Issuer};
use crate::filters::{seen_in, SeenType};
use crate::proto::{DOM_MIGRATION_ISS, DOM_MIGRATION_REQ};
use crate::show::{show_cred, show_vprime, ShowAttr};
use crate::zkp::{prove_compact, scs_view, verify_compact, CompactProof, Constraint, Term};

verus! {

/// What the user sends: two showings (Lox and Migration) sharing their
/// hidden bucket, and the encryptions for the new credential.
pub struct Request {
    pub id: Sc,
    pub trust_level: u32,
    pub migration_type: u32,
    pub p_lox: Pt,
    pub cq_lox: Pt,
    pub c_bucket: Pt,
    pub c_since: Pt,
    pub c_invrem: Pt,
    pub c_blockages: Pt,
    pub p_mig: Pt,
    pub cq_mig: Pt,
    pub c_from: Pt,
    pub c_to: Pt,
    pub d_pub: Pt,
    pub enc_id: EncAttr,
    pub enc_tb: EncAttr,
    pub proof: CompactProof,
}

/// What the user must remember until the response arrives.
pub struct State {
    pub d: Sc,
    pub d_pub: Pt,
    pub id_client: Sc,
    pub enc_id: EncAttr,
    pub enc_tb: EncAttr,
    pub to_bucket: Sc,
}

/// What the issuer answers.
pub struct Response {
    pub id_server: Sc,
    pub level_since: u32,
    pub issued: BlindIssued,
}

/// The request statement.  Publics: `A, B`, the Lox showing (`P', CQ`, four
/// commitments, `V`), the Lox key, the Migration showing, the Migration
/// key, then `D` and the two encryptions.  The hidden bucket and the hidden
/// target bucket each appear as one shared secret.
fn stmt(
    p_lox: &Pt,
    cq_lox: &Pt,
    cs_lox: [Pt; 4],
    v_lox: &Pt,
    lox_xs: &Vec<Pt>,
    p_mig: &Pt,
    cq_mig: &Pt,
    c_from: &Pt,
    c_to: &Pt,
    v_mig: &Pt,
    mig_xs: &Vec<Pt>,
    d_pub: &Pt,
    enc_id: &EncAttr,
    enc_tb: &EncAttr,
) -> (r: (Vec<Pt>, Vec<Constraint>))
{
    let a_gen = gen_a();
    let b_gen = gen_b();
    let mut publics: Vec<Pt> = Vec::new();
    publics.push(a_gen);
    publics.push(b_gen);
    publics.push(*p_lox);
    publics.push(*cq_lox);
    publics.push(cs_lox[0]);
    publics.push(cs_lox[1]);
    publics.push(cs_lox[2]);
    publics.push(cs_lox[3]);
    publics.push(*v_lox);
    let mut i: usize = 0;
    while i < lox_xs.len()
        decreases lox_xs@.len() - i,
    {
        publics.push(lox_xs[i]);
        i += 1;
    }
    publics.push(*p_mig);
    publics.push(*cq_mig);
    publics.push(*c_from);
    publics.push(*c_to);
    publics.push(*v_mig);
    let mut j: usize = 0;
    while j < mig_xs.len()
        decreases mig_xs@.len() - j,
    {
        publics.push(mig_xs[j]);
        j += 1;
    }
    publics.push(*d_pub);
    publics.push(enc_id.c0);
    publics.push(enc_id.c1);
    publics.push(enc_tb.c0);
    publics.push(enc_tb.c1);
    let mut cons: Vec<Constraint> = Vec::new();
    // Lox commitments: C = m*P'_L + z*A.
    let mut t: Vec<Term> = Vec::new();
    t.push(Term { sec: 0, pt: 2 });
    t.push(Term { sec: 1, pt: 0 });
    cons.push(Constraint { lhs: 4, terms: t });
    let mut t: Vec<Term> = Vec::new();
    t.push(Term { sec: 2, pt: 2 });
    t.push(Term { sec: 3, pt: 0 });
    cons.push(Constraint { lhs: 5, terms: t });
    let mut t: Vec<Term> = Vec::new();
    t.push(Term { sec: 4, pt: 2 });
    t.push(Term { sec: 5, pt: 0 });
    cons.push(Constraint { lhs: 6, terms: t });
    let mut t: Vec<Term> = Vec::new();
    t.push(Term { sec: 6, pt: 2 });
    t.push(Term { sec: 7, pt: 0 });
    cons.push(Constraint { lhs: 7, terms: t });
    // V_L over the blinded Lox attributes.
    let mut t: Vec<Term> = Vec::new();
    t.push(Term { sec: 1, pt: 11 });
    t.push(Term { sec: 3, pt: 13 });
    t.push(Term { sec: 5, pt: 14 });
    t.push(Term { sec: 7, pt: 15 });
    t.push(Term { sec: 8, pt: 0 });
    cons.push(Constraint { lhs: 8, terms: t });
    // Migration commitments: the source bucket is the Lox bucket.
    let mut t: Vec<Term> = Vec::new();
    t.push(Term { sec: 0, pt: 16 });
    t.push(Term { sec: 9, pt: 0 });
    cons.push(Constraint { lhs: 18, terms: t });
    let mut t: Vec<Term> = Vec::new();
    t.push(Term { sec: 10, pt: 16 });
    t.push(Term { sec: 11, pt: 0 });
    cons.push(Constraint { lhs: 19, terms: t });
    // V_M over the blinded Migration attributes.
    let mut t: Vec<Term> = Vec::new();
    t.push(Term { sec: 9, pt: 23 });
    t.push(Term { sec: 11, pt: 24 });
    t.push(Term { sec: 12, pt: 0 });
    cons.push(Constraint { lhs: 20, terms: t });
    // The ephemeral key and the encryptions for the new credential.
    let mut t: Vec<Term> = Vec::new();
    t.push(Term { sec: 13, pt: 1 });
    cons.push(Constraint { lhs: 26, terms: t });
    let mut t: Vec<Term> = Vec::new();
    t.push(Term { sec: 14, pt: 1 });
    cons.push(Constraint { lhs: 27, terms: t });
    let mut t: Vec<Term> = Vec::new();
    t.push(Term { sec: 15, pt: 1 });
    t.push(Term { sec: 14, pt: 26 });
    cons.push(Constraint { lhs: 28, terms: t });
    let mut t: Vec<Term> = Vec::new();
    t.push(Term { sec: 16, pt: 1 });
    cons.push(Constraint { lhs: 29, terms: t });
    let mut t: Vec<Term> = Vec::new();
    t.push(Term { sec: 10, pt: 1 });
    t.push(Term { sec: 16, pt: 26 });
    cons.push(Constraint { lhs: 30, terms: t });
    (publics, cons)
}

/// Compose a migration request from a level 0 Lox credential and the
/// matching TrustUpgrade Migration credential.
pub fn request(
    lox: &Lox,
    mig: &Migration,
    lox_pub: &crate::keys::IssuerPubKey,
    mig_pub: &crate::keys::IssuerPubKey,
) -> (r: Result<(Request, State), LoxError>)
    ensures
        lox.trust_level != 0 ==> r == Result::<(Request, State), LoxError>::Err(
            LoxError::InvalidField("trust_level", "must be 0"),
        ),
        lox.trust_level == 0 && (mig.lox_id@ != lox.id@ || mig.from_bucket@ != lox.bucket@
            || mig.migration_type != MIGRATION_TYPE_TRUST_UPGRADE) ==> r == Result::<
            (Request, State),
            LoxError,
        >::Err(LoxError::CredentialMismatch),
        r is Err ==> r->Err_0 == LoxError::InvalidField("trust_level", "must be 0") || r->Err_0
            == LoxError::CredentialMismatch || r->Err_0 == LoxError::InvalidField(
            "credential",
            "does not decode",
        ) || r->Err_0 == LoxError::VerificationFailure,
        r is Ok ==> {
            let (req, st) = r.unwrap();
            &&& req.id@ == lox.id@
            &&& req.trust_level == 0
            &&& req.migration_type == MIGRATION_TYPE_TRUST_UPGRADE
            &&& st.to_bucket@ == mig.to_bucket@
        },
{
    if lox.trust_level != 0 {
        return Err(LoxError::InvalidField("trust_level", "must be 0"));
    }
    if !sc_eq(&mig.lox_id, &lox.id) || !sc_eq(&mig.from_bucket, &lox.bucket)
        || mig.migration_type != MIGRATION_TYPE_TRUST_UPGRADE {
        return Err(LoxError::CredentialMismatch);
    }
    let attrs = lox_attrs(lox);
    proof {
        assert(scs_view(attrs@).len() == attrs@.len());
        assert(attrs@.len() == 6);
    }
    let mut blinded: Vec<bool> = Vec::new();
    blinded.push(false);
    blinded.push(true);
    blinded.push(false);
    blinded.push(true);
    blinded.push(true);
    blinded.push(true);
    let sh_lox = match show_cred(&lox.p, &lox.q, &attrs, &blinded, &lox_pub.xs) {
        Some(sh) => sh,
        None => {
            return Err(LoxError::InvalidField("credential", "does not decode"));
        },
    };
    let mattrs = migration_attrs(mig);
    proof {
        assert(scs_view(mattrs@).len() == mattrs@.len());
        assert(mattrs@.len() == 4);
    }
    let mut mblinded: Vec<bool> = Vec::new();
    mblinded.push(false);
    mblinded.push(true);
    mblinded.push(true);
    mblinded.push(false);
    let sh_mig = match show_cred(&mig.p, &mig.q, &mattrs, &mblinded, &mig_pub.xs) {
        Some(sh) => sh,
        None => {
            return Err(LoxError::InvalidField("credential", "does not decode"));
        },
    };
    let b_gen = gen_b();
    let d = sc_random();
    let d_pub = pt_mul(&d, &b_gen);
    let id_client = sc_random();
    let (enc_id, e_id) = match elgamal_encrypt(&id_client, &d_pub) {
        Some(x) => x,
        None => {
            proof {
                assert(false);
            }
            vstd::pervasive::unreached()
        },
    };
    let (enc_tb, e_tb) = match elgamal_encrypt(&mig.to_bucket, &d_pub) {
        Some(x) => x,
        None => {
            proof {
                assert(false);
            }
            vstd::pervasive::unreached()
        },
    };
    let (publics, cons) = stmt(
        &sh_lox.p,
        &sh_lox.cq,
        [sh_lox.cs[1], sh_lox.cs[3], sh_lox.cs[4], sh_lox.cs[5]],
        &sh_lox.v,
        &lox_pub.xs,
        &sh_mig.p,
        &sh_mig.cq,
        &sh_mig.cs[1],
        &sh_mig.cs[2],
        &sh_mig.v,
        &mig_pub.xs,
        &d_pub,
        &enc_id,
        &enc_tb,
    );
    let mut secrets: Vec<Sc> = Vec::new();
    secrets.push(lox.bucket);
    secrets.push(sh_lox.zs[1]);
    secrets.push(sc_from_u64(lox.level_since as u64));
    secrets.push(sh_lox.zs[3]);
    secrets.push(sc_from_u64(lox.invites_remaining as u64));
    secrets.push(sh_lox.zs[4]);
    secrets.push(sc_from_u64(lox.blockages as u64));
    secrets.push(sh_lox.zs[5]);
    secrets.push(sh_lox.negzq);
    secrets.push(sh_mig.zs[1]);
    secrets.push(mig.to_bucket);
    secrets.push(sh_mig.zs[2]);
    secrets.push(sh_mig.negzq);
    secrets.push(d);
    secrets.push(e_id);
    secrets.push(id_client);
    secrets.push(e_tb);
    let proof = match prove_compact(DOM_MIGRATION_REQ, &publics, &cons, &secrets) {
        Some(pr) => pr,
        None => {
            return Err(LoxError::VerificationFailure);
        },
    };
    let req = Request {
        id: lox.id,
        trust_level: 0,
        migration_type: MIGRATION_TYPE_TRUST_UPGRADE,
        p_lox: sh_lox.p,
        cq_lox: sh_lox.cq,
        c_bucket: sh_lox.cs[1],
        c_since: sh_lox.cs[3],
        c_invrem: sh_lox.cs[4],
        c_blockages: sh_lox.cs[5],
        p_mig: sh_mig.p,
        cq_mig: sh_mig.cq,
        c_from: sh_mig.cs[1],
        c_to: sh_mig.cs[2],
        d_pub,
        enc_id,
        enc_tb,
        proof,
    };
    let st = State { d, d_pub, id_client, enc_id, enc_tb, to_bucket: mig.to_bucket };
    Ok((req, st))
}

/// Handle a migration request: verify both showings and their linkage,
/// blind-issue the level 1 credential on the hidden target bucket, and only
/// then consume the Lox id.  A replayed id fails uniformly.
pub fn handle(issuer: &mut Issuer, req: &Request) -> (r: Result<Response, LoxError>)
    ensures
        r is Err ==> r == Result::<Response, LoxError>::Err(LoxError::VerificationFailure)
            && *final(issuer) == *old(issuer),
        seen_in(old(issuer).id_filter@, req.id@) ==> r is Err,
        r is Ok ==> {
            let resp = r.unwrap();
            &&& resp.level_since == old(issuer).today
            &&& resp.issued.p@ != pt_id_seq()
            &&& !seen_in(old(issuer).id_filter@, req.id@)
            &&& final(issuer).id_filter@ == old(issuer).id_filter@.push(req.id@)
            &&& final(issuer).today == old(issuer).today
            &&& final(issuer).inv_id_filter@ == old(issuer).inv_id_filter@
        },
{
    if req.trust_level != 0 || req.migration_type != MIGRATION_TYPE_TRUST_UPGRADE {
        return Err(LoxError::VerificationFailure);
    }
    if !pt_check(&req.p_lox.b) || !pt_check(&req.cq_lox.b) || !pt_check(&req.c_bucket.b)
        || !pt_check(&req.c_since.b) || !pt_check(&req.c_invrem.b) || !pt_check(
        &req.c_blockages.b,
    ) || !pt_check(&req.p_mig.b) || !pt_check(&req.cq_mig.b) || !pt_check(&req.c_from.b)
        || !pt_check(&req.c_to.b) || !pt_check(&req.d_pub.b) || !pt_check(&req.enc_id.c0.b)
        || !pt_check(&req.enc_id.c1.b) || !pt_check(&req.enc_tb.c0.b) || !pt_check(
        &req.enc_tb.c1.b,
    ) {
        return Err(LoxError::VerificationFailure);
    }
    if pt_is_identity(&req.p_lox) || pt_is_identity(&req.p_mig) {
        return Err(LoxError::VerificationFailure);
    }
    let mut sattrs: Vec<ShowAttr> = Vec::new();
    sattrs.push(ShowAttr::Revealed(req.id));
    sattrs.push(ShowAttr::Com(req.c_bucket));
    sattrs.push(ShowAttr::Revealed(sc_from_u64(0)));
    sattrs.push(ShowAttr::Com(req.c_since));
    sattrs.push(ShowAttr::Com(req.c_invrem));
    sattrs.push(ShowAttr::Com(req.c_blockages));
    let v_lox = match show_vprime(&issuer.lox_priv, &req.p_lox, &req.cq_lox, &sattrs) {
        Some(v) => v,
        None => {
            return Err(LoxError::VerificationFailure);
        },
    };
    let mut mattrs: Vec<ShowAttr> = Vec::new();
    mattrs.push(ShowAttr::Revealed(req.id));
    mattrs.push(ShowAttr::Com(req.c_from));
    mattrs.push(ShowAttr::Com(req.c_to));
    mattrs.push(ShowAttr::Revealed(sc_from_u64(MIGRATION_TYPE_TRUST_UPGRADE as u64)));
    let v_mig = match show_vprime(&issuer.migration_priv, &req.p_mig, &req.cq_mig, &mattrs) {
        Some(v) => v,
        None => {
            return Err(LoxError::VerificationFailure);
        },
    };
    let (publics, cons) = stmt(
        &req.p_lox,
        &req.cq_lox,
        [req.c_bucket, req.c_since, req.c_invrem, req.c_blockages],
        &v_lox,
        &issuer.lox_pub.xs,
        &req.p_mig,
        &req.cq_mig,
        &req.c_from,
        &req.c_to,
        &v_mig,
        &issuer.migration_pub.xs,
        &req.d_pub,
        &req.enc_id,
        &req.enc_tb,
    );
    if !verify_compact(DOM_MIGRATION_REQ, &publics, &cons, 17, &req.proof) {
        return Err(LoxError::VerificationFailure);
    }
    let b_gen = gen_b();
    let id_server = sc_random();
    let idb = pt_mul(&id_server, &b_gen);
    let enc_id2 = EncAttr { c0: req.enc_id.c0, c1: pt_add(&req.enc_id.c1, &idb) };
    let zero = sc_from_u64(0);
    let one = sc_from_u64(1);
    let since = sc_from_u64(issuer.today as u64);
    let mut inputs: Vec<IssueInput> = Vec::new();
    inputs.push(IssueInput::Blinded(enc_id2));
    inputs.push(IssueInput::Blinded(req.enc_tb));
    inputs.push(IssueInput::Known(one));
    inputs.push(IssueInput::Known(since));
    inputs.push(IssueInput::Known(zero));
    inputs.push(IssueInput::Known(zero));
    let bi = match blind_issue(
        &issuer.lox_priv,
        &issuer.lox_pub.xs,
        &inputs,
        &req.d_pub,
        DOM_MIGRATION_ISS,
    ) {
        Some(bi) => bi,
        None => {
            return Err(LoxError::VerificationFailure);
        },
    };
    if issuer.id_filter.filter(&req.id) == SeenType::Seen {
        return Err(LoxError::VerificationFailure);
    }
    let today = issuer.today;
    Ok(Response { id_server, level_since: today, issued: bi })
}

/// The attribute views a user expects of its new credential.
pub open spec fn response_attrs(st: State, resp: Response) -> Seq<IssueAttrV> {
    seq![
        IssueAttrV::Blinded(
            resp.issued.ts@[0]@,
            st.enc_id.c0@,
            pt_add_of(st.enc_id.c1@, pt_mul_of(resp.id_server@, gen_b_spec())),
        ),
        IssueAttrV::Blinded(resp.issued.ts@[1]@, st.enc_tb.c0@, st.enc_tb.c1@),
        IssueAttrV::Known(sc_from_u64_of(1)),
        IssueAttrV::Known(sc_from_u64_of(resp.level_since as u64)),
        IssueAttrV::Known(sc_from_u64_of(0)),
        IssueAttrV::Known(sc_from_u64_of(0)),
    ]
}

/// Verify the response, decrypt the MAC, and assemble the new credential:
/// trust level 1 on the target bucket, dated today, with no invitations and
/// no blockages.
pub fn handle_response(st: State, resp: &Response, lox_pub: &crate::keys::IssuerPubKey) -> (r:
    Result<Lox, LoxError>)
    ensures
        r is Err ==> r == Result::<Lox, LoxError>::Err(LoxError::VerificationFailure),
        r is Ok ==> {
            let cred = r.unwrap();
            &&& issue_verified(
                DOM_MIGRATION_ISS,
                response_attrs(st, *resp),
                crate::zkp::pts_view(lox_pub.xs@),
                st.d_pub@,
                resp.issued.p@,
                resp.issued.eq0@,
                resp.issued.eq1@,
                resp.issued.proof.c@,
                scs_view(resp.issued.proof.zs@),
            )
            &&& cred.id@ == sc_add_of(st.id_client@, resp.id_server@)
            &&& cred.bucket@ == st.to_bucket@
            &&& cred.trust_level == 1
            &&& cred.level_since == resp.level_since
            &&& cred.invites_remaining == 0
            &&& cred.blockages == 0
            &&& cred.p@ == resp.issued.p@
            &&& cred.p@ != pt_id_seq()
            &&& cred.q@ == pt_sub_of(resp.issued.eq1@, pt_mul_of(st.d@, resp.issued.eq0@))
        },
        ({
            &&& pt_ok_of(st.enc_id.c1@)
            &&& lox_pub.xs@.len() == 7
            &&& resp.issued.ts@.len() == 6
            &&& pt_ok_of(resp.issued.p@)
            &&& resp.issued.p@ != pt_id_seq()
            &&& issue_verified(
                DOM_MIGRATION_ISS,
                response_attrs(st, *resp),
                crate::zkp::pts_view(lox_pub.xs@),
                st.d_pub@,
                resp.issued.p@,
                resp.issued.eq0@,
                resp.issued.eq1@,
                resp.issued.proof.c@,
                scs_view(resp.issued.proof.zs@),
            )
        }) ==> r is Ok,
{
    if !pt_check(&st.enc_id.c1.b) {
        return Err(LoxError::VerificationFailure);
    }
    let b_gen = gen_b();
    let idb = pt_mul(&resp.id_server, &b_gen);
    let c1 = pt_add(&st.enc_id.c1, &idb);
    let zero = sc_from_u64(0);
    let one = sc_from_u64(1);
    let since = sc_from_u64(resp.level_since as u64);
    let mut user_attrs: Vec<IssueUser> = Vec::new();
    user_attrs.push(IssueUser::Blinded(EncAttr { c0: st.enc_id.c0, c1 }));
    user_attrs.push(IssueUser::Blinded(st.enc_tb));
    user_attrs.push(IssueUser::Known(one));
    user_attrs.push(IssueUser::Known(since));
    user_attrs.push(IssueUser::Known(zero));
    user_attrs.push(IssueUser::Known(zero));
    if !issue_verify(&lox_pub.xs, &user_attrs, &st.d_pub, DOM_MIGRATION_ISS, &resp.issued) {
        proof {
            if resp.issued.ts@.len() == 6 {
                assert(user_attrs_spec(user_attrs@, crate::zkp::pts_view(resp.issued.ts@))
                    =~= response_attrs(st, *resp));
            }
        }
        return Err(LoxError::VerificationFailure);
    }
    proof {
        assert(user_attrs_spec(user_attrs@, crate::zkp::pts_view(resp.issued.ts@))
            =~= response_attrs(st, *resp));
        assert(crate::issuance::issue_publics(
            response_attrs(st, *resp),
            crate::zkp::pts_view(lox_pub.xs@),
            st.d_pub@,
            resp.issued.p@,
            resp.issued.eq0@,
            resp.issued.eq1@,
        )[4] == resp.issued.eq0@);
        assert(crate::issuance::issue_publics(
            response_attrs(st, *resp),
            crate::zkp::pts_view(lox_pub.xs@),
            st.d_pub@,
            resp.issued.p@,
            resp.issued.eq0@,
            resp.issued.eq1@,
        )[5] == resp.issued.eq1@);
    }
    if pt_is_identity(&resp.issued.p) {
        return Err(LoxError::VerificationFailure);
    }
    let q = match elgamal_decrypt(&st.d, &resp.issued.eq0, &resp.issued.eq1) {
        Some(q) => q,
        None => {
            return Err(LoxError::VerificationFailure);
        },
    };
    let id = sc_add(&st.id_client, &resp.id_server);
    let cred = Lox {
        p: resp.issued.p,
        q,
        id,
        bucket: st.to_bucket,
        trust_level: 1,
        level_since: resp.level_since,
        invites_remaining: 0,
        blockages: 0,
    };
    Ok(cred)
}

} // verus!
