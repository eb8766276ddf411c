//! Bootstrapping: a signed open-invitation token is exchanged for a level 0
//! Lox credential on the bucket the token names.  The user blinds only the
//! credential id (both sides contribute a share); trust level, dates and
//! counters are issuer-chosen and revealed.
use vstd::prelude::*;

use crate::cred::{BridgeLine, Lox};
use crate::errors::LoxError;
use crate::group::{
    gen_b, gen_b_spec, pt_add, pt_add_of, pt_check, pt_id_seq, pt_is_identity, pt_mul, pt_mul_of,
    pt_ok_of, pt_sub_of, sc_add, sc_add_of, sc_from_u64, sc_from_u64_of, sc_random, Pt, Sc,
};
use crate::issuance::{
    blind_issue, issue_verified, issue_verify, user_attrs_spec, BlindIssued, EncAttr, IssueAttrV,
    IssueInput, IssueUser,
};
use crate::issuer::{bridgedb_verify, Issuer, OPENINV_LENGTH};
use crate::filters::{seen_in, SeenType};
use crate::proto::{DOM_OPEN_INVITE_ISS, DOM_OPEN_INVITE_REQ};
use crate::sig::ed_verify_of;
use crate::zkp::{
    cons_view, cons_wf, prove_compact, pts_ok, pts_view, scs_view, verify_compact, CompactProof,
    Constraint, Term,
};

verus! {

/// What the user sends: the token, its ephemeral ElGamal key, the encrypted
/// id share, and the proof that the encryption is well formed.
pub struct Request {
    pub token: Vec<u8>,
    pub d_pub: Pt,
    pub enc_id: EncAttr,
    pub proof: CompactProof,
}

/// What the user must remember until the response arrives; consumed exactly
/// once by `handle_response`.
pub struct State {
    pub d: Sc,
    pub d_pub: Pt,
    pub id_client: Sc,
    pub enc_id: EncAttr,
}

/// What the issuer answers: its id share, the issuer-chosen revealed
/// attributes, the blind issuance, and one bridge of the bucket.
pub struct Response {
    pub id_server: Sc,
    pub bucket: Sc,
    pub level_since: u32,
    pub issued: BlindIssued,
    pub bridge_line: BridgeLine,
}

/// The request statement: `D = d*B`, `EncId.0 = e*B`,
/// `EncId.1 = id_client*B + e*D`.  Publics: `A, B, D, EncId.0, EncId.1`;
/// secrets: `d, e, id_client`.
fn stmt(d_pub: &Pt, enc_id: &EncAttr) -> (r: (Vec<Pt>, Vec<Constraint>))
    requires
        pt_ok_of(d_pub@),
        pt_ok_of(enc_id.c0@),
        pt_ok_of(enc_id.c1@),
    ensures
        r.0@.len() == 5,
        cons_wf(cons_view(r.1@), 5, 3),
        pts_ok(pts_view(r.0@)),
        r.1@.len() == 3,
{
    let a_gen = crate::group::gen_a();
    let b_gen = gen_b();
    let mut publics: Vec<Pt> = Vec::new();
    publics.push(a_gen);
    publics.push(b_gen);
    publics.push(*d_pub);
    publics.push(enc_id.c0);
    publics.push(enc_id.c1);
    let mut cons: Vec<Constraint> = Vec::new();
    let mut t0: Vec<Term> = Vec::new();
    t0.push(Term { sec: 0, pt: 1 });
    cons.push(Constraint { lhs: 2, terms: t0 });
    let mut t1: Vec<Term> = Vec::new();
    t1.push(Term { sec: 1, pt: 1 });
    cons.push(Constraint { lhs: 3, terms: t1 });
    let mut t2: Vec<Term> = Vec::new();
    t2.push(Term { sec: 2, pt: 1 });
    t2.push(Term { sec: 1, pt: 2 });
    cons.push(Constraint { lhs: 4, terms: t2 });
    proof {
        assert forall|i: int| 0 <= i < pts_view(publics@).len() implies pt_ok_of(
            #[trigger] pts_view(publics@)[i],
        ) by {
            assert(pts_view(publics@)[i] == publics@[i]@);
        }
        assert forall|j: int| 0 <= j < cons_view(cons@).len() implies (#[trigger] cons_view(
            cons@,
        )[j]).lhs < 5 && crate::zkp::terms_wf(cons_view(cons@)[j].terms, 5, 3) by {
            assert(cons_view(cons@)[j] == cons@[j]@);
            let ts = cons@[j].terms@;
            assert forall|k: int| 0 <= k < ts.len() implies (#[trigger] ts[k]).sec < 3
                && ts[k].pt < 5 by {
            }
        }
    }
    (publics, cons)
}

/// Compose the request: a fresh ElGamal key, a fresh client id share, its
/// encryption and the proof.  Succeeds exactly on a token of the right
/// length.
pub fn request(token: &Vec<u8>) -> (r: Result<(Request, State), LoxError>)
    ensures
        r is Ok <==> token@.len() == OPENINV_LENGTH,
        r is Err ==> r == Result::<(Request, State), LoxError>::Err(
            LoxError::InvalidField("invite", "wrong length"),
        ),
        r is Ok ==> {
            let (req, st) = r.unwrap();
            &&& req.token@ == token@
            &&& req.d_pub@ == st.d_pub@
            &&& req.d_pub@ == pt_mul_of(st.d@, gen_b_spec())
            &&& req.enc_id.c0@ == st.enc_id.c0@
            &&& req.enc_id.c1@ == st.enc_id.c1@
            &&& pt_ok_of(st.d_pub@)
        },
{
    if token.len() != OPENINV_LENGTH {
        return Err(LoxError::InvalidField("invite", "wrong length"));
    }
    let b_gen = gen_b();
    let d = sc_random();
    let d_pub = pt_mul(&d, &b_gen);
    let id_client = sc_random();
    let (enc_id, e) = match crate::issuance::elgamal_encrypt(&id_client, &d_pub) {
        Some(x) => x,
        None => {
            proof {
                assert(false);
            }
            vstd::pervasive::unreached()
        },
    };
    let (publics, cons) = stmt(&d_pub, &enc_id);
    let mut secrets: Vec<Sc> = Vec::new();
    secrets.push(d);
    secrets.push(e);
    secrets.push(id_client);
    let proof = match prove_compact(DOM_OPEN_INVITE_REQ, &publics, &cons, &secrets) {
        Some(pr) => pr,
        None => {
            proof {
                assert(false);
            }
            vstd::pervasive::unreached()
        },
    };
    let req = Request { token: token.clone(), d_pub, enc_id, proof };
    let st = State { d, d_pub, id_client, enc_id };
    Ok((req, st))
}

/// The invite id a token carries, as a filter key.
pub open spec fn token_invite_id(t: Seq<u8>) -> Seq<u8> {
    t.take(32)
}

/// Whether a token is a valid open invitation under one verifying key.
pub open spec fn token_valid_under(t: Seq<u8>, vk: Seq<u8>) -> bool {
    t.len() == OPENINV_LENGTH && ed_verify_of(vk, t.take(36), t.skip(36))
}

/// Handle an open-invitation request: verify the signature under the
/// current or a retained bridge-distribution key, check the bucket, verify
/// the user's proof, blind-issue the level 0 credential, and only then
/// consume the invite id in the matching generation's filter.  A replayed
/// invite id fails uniformly.
pub fn handle(issuer: &mut Issuer, req: &Request) -> (r: Result<Response, LoxError>)
    ensures
        r is Err ==> r == Result::<Response, LoxError>::Err(LoxError::VerificationFailure)
            && *final(issuer) == *old(issuer),
        token_valid_under(req.token@, old(issuer).bridgedb_pub@) && seen_in(
            old(issuer).bridgedb_pub_filter@,
            token_invite_id(req.token@),
        ) ==> r is Err,
        r is Ok ==> {
            let resp = r.unwrap();
            &&& resp.level_since == old(issuer).today
            &&& final(issuer).today == old(issuer).today
            &&& final(issuer).id_filter@ == old(issuer).id_filter@
            &&& final(issuer).inv_id_filter@ == old(issuer).inv_id_filter@
            &&& resp.issued.p@ != pt_id_seq()
            &&& exists|k: int|
                {
                    &&& 0 <= k < old(issuer).bridge_table@.len()
                    &&& resp.bucket@ == crate::cred::bucket_attr_spec(
                        (#[trigger] old(issuer).bridge_table@[k]).bucket_id,
                        old(issuer).bridge_table@[k].key@,
                    )
                    &&& old(issuer).bridge_table@[k].lines@.len() >= 1
                    &&& resp.bridge_line.addr@ == old(issuer).bridge_table@[k].lines@[0].addr@
                    &&& resp.bridge_line.port == old(issuer).bridge_table@[k].lines@[0].port
                    &&& resp.bridge_line.info@ == old(issuer).bridge_table@[k].lines@[0].info@
                }
        },
        r is Ok && token_valid_under(req.token@, old(issuer).bridgedb_pub@) ==> !seen_in(
            old(issuer).bridgedb_pub_filter@,
            token_invite_id(req.token@),
        ) && final(issuer).bridgedb_pub_filter@ == old(issuer).bridgedb_pub_filter@.push(
            token_invite_id(req.token@),
        ),
{
    // Match the token to a key generation.
    let parsed = bridgedb_verify(&req.token, &issuer.bridgedb_pub);
    let (inv_id, bucket_id, generation): (Sc, u32, Option<usize>) = match parsed {
        Some((inv, bid)) => (inv, bid, None),
        None => {
            let mut found: Option<(Sc, u32, usize)> = None;
            let mut g: usize = 0;
            while g < issuer.retired_bridgedb_pubs.len() && found.is_none()
                invariant
                    g <= issuer.retired_bridgedb_pubs@.len(),
                    found matches Some((_, _, g2)) ==> g2 < issuer.retired_bridgedb_pubs@.len(),
                decreases issuer.retired_bridgedb_pubs@.len() - g,
            {
                match bridgedb_verify(&req.token, &issuer.retired_bridgedb_pubs[g]) {
                    Some((inv, bid)) => {
                        found = Some((inv, bid, g));
                    },
                    None => {},
                }
                g += 1;
            }
            match found {
                Some((inv, bid, g2)) => (inv, bid, Some(g2)),
                None => {
                    return Err(LoxError::VerificationFailure);
                },
            }
        },
    };
    if let Some(g2) = generation {
        if g2 >= issuer.openinv_filters.len() {
            return Err(LoxError::VerificationFailure);
        }
    }
    // The bucket must be in the inventory and have a bridge to hand out.
    let idx = match issuer.lookup_bucket(bucket_id) {
        Some(i) => i,
        None => {
            return Err(LoxError::VerificationFailure);
        },
    };
    if issuer.bridge_table[idx].lines.len() == 0 {
        return Err(LoxError::VerificationFailure);
    }
    // The user's proof of well-formed blinding.
    if !pt_check(&req.d_pub.b) || !pt_check(&req.enc_id.c0.b) || !pt_check(&req.enc_id.c1.b) {
        return Err(LoxError::VerificationFailure);
    }
    let (publics, cons) = stmt(&req.d_pub, &req.enc_id);
    if !verify_compact(DOM_OPEN_INVITE_REQ, &publics, &cons, 3, &req.proof) {
        return Err(LoxError::VerificationFailure);
    }
    // The blind issuance: id = client share + server share, the rest
    // issuer-chosen and revealed.
    let b_gen = gen_b();
    let id_server = sc_random();
    let idb = pt_mul(&id_server, &b_gen);
    let enc_id2 = EncAttr { c0: req.enc_id.c0, c1: pt_add(&req.enc_id.c1, &idb) };
    let bucket = crate::cred::bucket_attr(bucket_id, &issuer.bridge_table[idx].key);
    let zero = sc_from_u64(0);
    let since = sc_from_u64(issuer.today as u64);
    let mut inputs: Vec<IssueInput> = Vec::new();
    inputs.push(IssueInput::Blinded(enc_id2));
    inputs.push(IssueInput::Known(bucket));
    inputs.push(IssueInput::Known(zero));
    inputs.push(IssueInput::Known(since));
    inputs.push(IssueInput::Known(zero));
    inputs.push(IssueInput::Known(zero));
    let bi = match blind_issue(
        &issuer.lox_priv,
        &issuer.lox_pub.xs,
        &inputs,
        &req.d_pub,
        DOM_OPEN_INVITE_ISS,
    ) {
        Some(bi) => bi,
        None => {
            return Err(LoxError::VerificationFailure);
        },
    };
    let bridge_line = issuer.bridge_table[idx].lines[0].duplicate();
    // Consume the invite id, last: nothing earlier mutates state.
    match generation {
        None => {
            if issuer.bridgedb_pub_filter.filter(&inv_id) == SeenType::Seen {
                return Err(LoxError::VerificationFailure);
            }
        },
        Some(g2) => {
            if issuer.openinv_filters[g2].check(&inv_id) == SeenType::Seen {
                return Err(LoxError::VerificationFailure);
            }
            let mut f = issuer.openinv_filters.remove(g2);
            let st = f.filter(&inv_id);
            issuer.openinv_filters.insert(g2, f);
            proof {
                assert(st == SeenType::Fresh);
            }
        },
    }
    let today = issuer.today;
    Ok(Response { id_server, bucket, level_since: today, issued: bi, bridge_line })
}

/// The attribute views a user expects of its new credential.
pub open spec fn response_attrs(st: State, resp: Response) -> Seq<IssueAttrV> {
    seq![
        IssueAttrV::Blinded(
            resp.issued.ts@[0]@,
            st.enc_id.c0@,
            pt_add_of(st.enc_id.c1@, pt_mul_of(resp.id_server@, gen_b_spec())),
        ),
        IssueAttrV::Known(resp.bucket@),
        IssueAttrV::Known(sc_from_u64_of(0)),
        IssueAttrV::Known(sc_from_u64_of(resp.level_since as u64)),
        IssueAttrV::Known(sc_from_u64_of(0)),
        IssueAttrV::Known(sc_from_u64_of(0)),
    ]
}

/// Verify the response against the state, decrypt the MAC, and assemble the
/// new credential: id the sum of the shares, the issuer's bucket, trust
/// level 0, the issuer's date, no invitations, no blockages.
pub fn handle_response(st: State, resp: &Response, lox_pub: &crate::keys::IssuerPubKey) -> (r:
    Result<(Lox, BridgeLine), LoxError>)
    ensures
        r is Err ==> r == Result::<(Lox, BridgeLine), LoxError>::Err(LoxError::VerificationFailure),
        r is Ok ==> {
            let (cred, _line) = r.unwrap();
            &&& issue_verified(
                DOM_OPEN_INVITE_ISS,
                response_attrs(st, *resp),
                pts_view(lox_pub.xs@),
                st.d_pub@,
                resp.issued.p@,
                resp.issued.eq0@,
                resp.issued.eq1@,
                resp.issued.proof.c@,
                scs_view(resp.issued.proof.zs@),
            )
            &&& cred.id@ == sc_add_of(st.id_client@, resp.id_server@)
            &&& cred.bucket@ == resp.bucket@
            &&& cred.trust_level == 0
            &&& cred.level_since == resp.level_since
            &&& cred.invites_remaining == 0
            &&& cred.blockages == 0
            &&& cred.p@ == resp.issued.p@
            &&& cred.p@ != pt_id_seq()
            &&& cred.q@ == pt_sub_of(resp.issued.eq1@, pt_mul_of(st.d@, resp.issued.eq0@))
        },
        ({
            &&& pt_ok_of(st.enc_id.c1@)
            &&& lox_pub.xs@.len() == 7
            &&& resp.issued.ts@.len() == 6
            &&& pt_ok_of(resp.issued.p@)
            &&& resp.issued.p@ != pt_id_seq()
            &&& issue_verified(
                DOM_OPEN_INVITE_ISS,
                response_attrs(st, *resp),
                pts_view(lox_pub.xs@),
                st.d_pub@,
                resp.issued.p@,
                resp.issued.eq0@,
                resp.issued.eq1@,
                resp.issued.proof.c@,
                scs_view(resp.issued.proof.zs@),
            )
        }) ==> r is Ok,
{
    if !pt_check(&st.enc_id.c1.b) {
        return Err(LoxError::VerificationFailure);
    }
    let b_gen = gen_b();
    let idb = pt_mul(&resp.id_server, &b_gen);
    let c1 = pt_add(&st.enc_id.c1, &idb);
    let zero = sc_from_u64(0);
    let since = sc_from_u64(resp.level_since as u64);
    let mut user_attrs: Vec<IssueUser> = Vec::new();
    user_attrs.push(IssueUser::Blinded(EncAttr { c0: st.enc_id.c0, c1 }));
    user_attrs.push(IssueUser::Known(resp.bucket));
    user_attrs.push(IssueUser::Known(zero));
    user_attrs.push(IssueUser::Known(since));
    user_attrs.push(IssueUser::Known(zero));
    user_attrs.push(IssueUser::Known(zero));
    if !issue_verify(&lox_pub.xs, &user_attrs, &st.d_pub, DOM_OPEN_INVITE_ISS, &resp.issued) {
        proof {
            if resp.issued.ts@.len() == 6 {
                assert(user_attrs_spec(user_attrs@, crate::zkp::pts_view(resp.issued.ts@))
                    =~= response_attrs(st, *resp));
            }
        }
        return Err(LoxError::VerificationFailure);
    }
    proof {
        assert(user_attrs_spec(user_attrs@, crate::zkp::pts_view(resp.issued.ts@))
            =~= response_attrs(st, *resp));
        assert(crate::issuance::issue_publics(
            response_attrs(st, *resp),
            pts_view(lox_pub.xs@),
            st.d_pub@,
            resp.issued.p@,
            resp.issued.eq0@,
            resp.issued.eq1@,
        )[4] == resp.issued.eq0@);
        assert(crate::issuance::issue_publics(
            response_attrs(st, *resp),
            pts_view(lox_pub.xs@),
            st.d_pub@,
            resp.issued.p@,
            resp.issued.eq0@,
            resp.issued.eq1@,
        )[5] == resp.issued.eq1@);
    }
    if pt_is_identity(&resp.issued.p) {
        return Err(LoxError::VerificationFailure);
    }
    let q = match crate::issuance::elgamal_decrypt(&st.d, &resp.issued.eq0, &resp.issued.eq1) {
        Some(q) => q,
        None => {
            return Err(LoxError::VerificationFailure);
        },
    };
    let id = sc_add(&st.id_client, &resp.id_server);
    let cred = Lox {
        p: resp.issued.p,
        q,
        id,
        bucket: resp.bucket,
        trust_level: 0,
        level_since: resp.level_since,
        invites_remaining: 0,
        blockages: 0,
    };
    Ok((cred, resp.bridge_line.duplicate()))
}

} // verus!
