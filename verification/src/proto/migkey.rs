//! The shared MigrationKey exchange behind `trust_promotion` and
//! `check_blockage`: the user shows its Lox credential revealing `id` and
//! `trust_level` and blinding the rest, and sends an ElGamal blinding of
//! its bucket; the issuer answers with `(Pk, EncQk)` — which decrypts to
//! the MigrationKey MAC `Qk` on `(id, bucket)` — and the full encrypted
//! migration table of the requested kind.  The issuer checks, but does not
//! record, the Lox id, so the user may rerun the protocol later.
use vstd::prelude::*;

use crate::cred::{Lox, Migration};
use crate::errors::LoxError;
use crate::group::{
    gen_a, gen_b, gen_b_spec, pt_add, pt_add_of, pt_check, pt_id_seq, pt_is_identity, pt_mul,
    pt_mul_of, pt_ok_of, pt_sub_of, sc_add, sc_add_of, sc_from_u64, sc_mul, sc_mul_of, sc_random,
    Pt, Sc,
};
use crate::issuance::{elgamal_decrypt, elgamal_encrypt, EncAttr};
use crate::issuer::{lox_attrs, Issuer};
use crate::filters::{seen_in, SeenType};
use crate::migtable::{
    build_mig_table, lookup_and_decrypt, mig_rows_rel, row_opens, row_opens_valid, EncMigEntry,
};
use crate::show::{show_cred, show_vprime, ShowAttr};
use crate::zkp::{prove_compact, verify_compact, CompactProof, Constraint, Term};

verus! {

/// What the user sends: the revealed attributes, the showing, and the
/// ElGamal blinding of its bucket under its ephemeral key.
pub struct Request {
    pub id: Sc,
    pub trust_level: u32,
    pub p: Pt,
    pub cq: Pt,
    pub c_bucket: Pt,
    pub c_since: Pt,
    pub c_invrem: Pt,
    pub c_blockages: Pt,
    pub d_pub: Pt,
    pub enc_bucket: EncAttr,
    pub proof: CompactProof,
}

/// What the user must remember: the decryption key and the values the
/// table row will be looked up under.
pub struct State {
    pub d: Sc,
    pub id: Sc,
    pub bucket: Sc,
}

/// What the issuer answers: the per-request base, the encrypted `Qk`, and
/// the whole encrypted migration table.
pub struct Response {
    pub pk: Pt,
    pub eqk0: Pt,
    pub eqk1: Pt,
    pub table: Vec<EncMigEntry>,
}

/// The request statement.  Publics: `A, B, P', CQ, C_bucket, C_since,
/// C_invrem, C_blockages, V, X[0..=6], D, EncB.0, EncB.1`.  Secrets:
/// `bucket, z_bucket, since, z_since, invrem, z_invrem, blockages,
/// z_blockages, negzq, d, e`.
fn stmt(
    p: &Pt,
    cq: &Pt,
    cs: [Pt; 4],
    v: &Pt,
    pub_xs: &Vec<Pt>,
    d_pub: &Pt,
    enc_bucket: &EncAttr,
) -> (r: (Vec<Pt>, Vec<Constraint>))
{
    let a_gen = gen_a();
    let b_gen = gen_b();
    let mut publics: Vec<Pt> = Vec::new();
    publics.push(a_gen);
    publics.push(b_gen);
    publics.push(*p);
    publics.push(*cq);
    publics.push(cs[0]);
    publics.push(cs[1]);
    publics.push(cs[2]);
    publics.push(cs[3]);
    publics.push(*v);
    let mut i: usize = 0;
    while i < pub_xs.len()
        decreases pub_xs@.len() - i,
    {
        publics.push(pub_xs[i]);
        i += 1;
    }
    publics.push(*d_pub);
    publics.push(enc_bucket.c0);
    publics.push(enc_bucket.c1);
    let mut cons: Vec<Constraint> = Vec::new();
    let mut t: Vec<Term> = Vec::new();
    t.push(Term { sec: 0, pt: 2 });
    t.push(Term { sec: 1, pt: 0 });
    cons.push(Constraint { lhs: 4, terms: t });
    let mut t: Vec<Term> = Vec::new();
    t.push(Term { sec: 2, pt: 2 });
    t.push(Term { sec: 3, pt: 0 });
    cons.push(Constraint { lhs: 5, terms: t });
    let mut t: Vec<Term> = Vec::new();
    t.push(Term { sec: 4, pt: 2 });
    t.push(Term { sec: 5, pt: 0 });
    cons.push(Constraint { lhs: 6, terms: t });
    let mut t: Vec<Term> = Vec::new();
    t.push(Term { sec: 6, pt: 2 });
    t.push(Term { sec: 7, pt: 0 });
    cons.push(Constraint { lhs: 7, terms: t });
    let mut t: Vec<Term> = Vec::new();
    t.push(Term { sec: 1, pt: 11 });
    t.push(Term { sec: 3, pt: 13 });
    t.push(Term { sec: 5, pt: 14 });
    t.push(Term { sec: 7, pt: 15 });
    t.push(Term { sec: 8, pt: 0 });
    cons.push(Constraint { lhs: 8, terms: t });
    let mut t: Vec<Term> = Vec::new();
    t.push(Term { sec: 9, pt: 1 });
    cons.push(Constraint { lhs: 16, terms: t });
    let mut t: Vec<Term> = Vec::new();
    t.push(Term { sec: 10, pt: 1 });
    cons.push(Constraint { lhs: 17, terms: t });
    let mut t: Vec<Term> = Vec::new();
    t.push(Term { sec: 0, pt: 1 });
    t.push(Term { sec: 10, pt: 16 });
    cons.push(Constraint { lhs: 18, terms: t });
    (publics, cons)
}

/// Compose the request from a Lox credential whose trust level the caller
/// has already found acceptable for the protocol at hand.
pub(crate) fn request_core(
    lox: &Lox,
    lox_pub: &crate::keys::IssuerPubKey,
    dom: u64,
) -> (r: Result<(Request, State), LoxError>)
    ensures
        r is Ok ==> {
            let (req, st) = r.unwrap();
            &&& st.id@ == lox.id@
            &&& st.bucket@ == lox.bucket@
            &&& req.id@ == lox.id@
            &&& req.trust_level == lox.trust_level
        },
        r is Err ==> r->Err_0 == LoxError::InvalidField("credential", "does not decode")
            || r->Err_0 == LoxError::VerificationFailure,
{
    let attrs = lox_attrs(lox);
    proof {
        assert(crate::zkp::scs_view(attrs@).len() == attrs@.len());
        assert(attrs@.len() == 6);
    }
    let mut blinded: Vec<bool> = Vec::new();
    blinded.push(false);
    blinded.push(true);
    blinded.push(false);
    blinded.push(true);
    blinded.push(true);
    blinded.push(true);
    let sh = match show_cred(&lox.p, &lox.q, &attrs, &blinded, &lox_pub.xs) {
        Some(sh) => sh,
        None => {
            return Err(LoxError::InvalidField("credential", "does not decode"));
        },
    };
    let b_gen = gen_b();
    let d = sc_random();
    let d_pub = pt_mul(&d, &b_gen);
    let (enc_bucket, e) = match elgamal_encrypt(&lox.bucket, &d_pub) {
        Some(x) => x,
        None => {
            proof {
                assert(false);
            }
            vstd::pervasive::unreached()
        },
    };
    let (publics, cons) = stmt(
        &sh.p,
        &sh.cq,
        [sh.cs[1], sh.cs[3], sh.cs[4], sh.cs[5]],
        &sh.v,
        &lox_pub.xs,
        &d_pub,
        &enc_bucket,
    );
    let mut secrets: Vec<Sc> = Vec::new();
    secrets.push(lox.bucket);
    secrets.push(sh.zs[1]);
    secrets.push(sc_from_u64(lox.level_since as u64));
    secrets.push(sh.zs[3]);
    secrets.push(sc_from_u64(lox.invites_remaining as u64));
    secrets.push(sh.zs[4]);
    secrets.push(sc_from_u64(lox.blockages as u64));
    secrets.push(sh.zs[5]);
    secrets.push(sh.negzq);
    secrets.push(d);
    secrets.push(e);
    let proof = match prove_compact(dom, &publics, &cons, &secrets) {
        Some(pr) => pr,
        None => {
            return Err(LoxError::VerificationFailure);
        },
    };
    let req = Request {
        id: lox.id,
        trust_level: lox.trust_level,
        p: sh.p,
        cq: sh.cq,
        c_bucket: sh.cs[1],
        c_since: sh.cs[3],
        c_invrem: sh.cs[4],
        c_blockages: sh.cs[5],
        d_pub,
        enc_bucket,
        proof,
    };
    let st = State { d, id: lox.id, bucket: lox.bucket };
    Ok((req, st))
}

/// The algebraic form of the answer's `(Pk, EncQk)`: for some drawn base
/// scalar and rerandomizer, `Pk` is the base times `B` and `EncQk` is the
/// ElGamal encryption of the MigrationKey MAC on `(id, bucket)` over `Pk`,
/// built homomorphically from the request's bucket encryption.
pub open spec fn encqk_form(
    pk: Seq<u8>,
    eqk0: Seq<u8>,
    eqk1: Seq<u8>,
    mk_xs: Seq<Seq<u8>>,
    id: Seq<u8>,
    c0: Seq<u8>,
    c1: Seq<u8>,
    d: Seq<u8>,
) -> bool {
    exists|kk: Seq<u8>, s: Seq<u8>|
        #![trigger sc_mul_of(kk, mk_xs[2]), pt_mul_of(s, gen_b_spec())]
        {
            &&& pk == pt_mul_of(kk, gen_b_spec())
            &&& eqk0 == pt_add_of(
                pt_mul_of(sc_mul_of(kk, mk_xs[2]), c0),
                pt_mul_of(s, gen_b_spec()),
            )
            &&& eqk1 == pt_add_of(
                pt_add_of(
                    pt_mul_of(sc_add_of(mk_xs[0], sc_mul_of(mk_xs[1], id)), pk),
                    pt_mul_of(sc_mul_of(kk, mk_xs[2]), c1),
                ),
                pt_mul_of(s, d),
            )
        }
}

/// The migration pairs a table of the given kind is built from.
pub open spec fn table_migs(issuer: Issuer, migration_type: u32) -> Seq<crate::issuer::MigEntry> {
    if migration_type == crate::cred::MIGRATION_TYPE_TRUST_UPGRADE {
        issuer.trustup_migs@
    } else {
        issuer.blockage_migs@
    }
}

/// Handle the shown credential and answer with the encrypted table of the
/// given kind.  The id filter is consulted without recording; nothing in
/// the issuer's state changes.
pub(crate) fn handle_core(
    issuer: &Issuer,
    req: &Request,
    dom: u64,
    migration_type: u32,
) -> (r: Result<Response, LoxError>)
    ensures
        r is Err ==> r->Err_0 == LoxError::VerificationFailure,
        seen_in(issuer.id_filter@, req.id@) ==> r is Err,
        r is Ok ==> {
            let resp = r.unwrap();
            &&& pt_ok_of(resp.pk@)
            &&& resp.pk@ != pt_id_seq()
            &&& pt_ok_of(resp.eqk0@)
            &&& pt_ok_of(resp.eqk1@)
            &&& encqk_form(
                resp.pk@,
                resp.eqk0@,
                resp.eqk1@,
                crate::zkp::scs_view(issuer.migrationkey_priv.x@),
                req.id@,
                req.enc_bucket.c0@,
                req.enc_bucket.c1@,
                req.d_pub@,
            )
            &&& mig_rows_rel(
                table_migs(*issuer, migration_type),
                issuer.bridge_table@,
                crate::zkp::scs_view(issuer.migrationkey_priv.x@),
                crate::zkp::scs_view(issuer.migration_priv.x@),
                issuer.migration_priv.x@.len(),
                req.id@,
                resp.pk@,
                migration_type,
                resp.table@,
            )
        },
{
    if issuer.id_filter.check(&req.id) == SeenType::Seen {
        return Err(LoxError::VerificationFailure);
    }
    if !pt_check(&req.p.b) || !pt_check(&req.cq.b) || !pt_check(&req.c_bucket.b) || !pt_check(
        &req.c_since.b,
    ) || !pt_check(&req.c_invrem.b) || !pt_check(&req.c_blockages.b) || !pt_check(&req.d_pub.b)
        || !pt_check(&req.enc_bucket.c0.b) || !pt_check(&req.enc_bucket.c1.b) {
        return Err(LoxError::VerificationFailure);
    }
    if pt_is_identity(&req.p) {
        return Err(LoxError::VerificationFailure);
    }
    // Recompute the verification point from the revealed attributes.
    let mut sattrs: Vec<ShowAttr> = Vec::new();
    sattrs.push(ShowAttr::Revealed(req.id));
    sattrs.push(ShowAttr::Com(req.c_bucket));
    sattrs.push(ShowAttr::Revealed(sc_from_u64(req.trust_level as u64)));
    sattrs.push(ShowAttr::Com(req.c_since));
    sattrs.push(ShowAttr::Com(req.c_invrem));
    sattrs.push(ShowAttr::Com(req.c_blockages));
    let v = match show_vprime(&issuer.lox_priv, &req.p, &req.cq, &sattrs) {
        Some(v) => v,
        None => {
            return Err(LoxError::VerificationFailure);
        },
    };
    let (publics, cons) = stmt(
        &req.p,
        &req.cq,
        [req.c_bucket, req.c_since, req.c_invrem, req.c_blockages],
        &v,
        &issuer.lox_pub.xs,
        &req.d_pub,
        &req.enc_bucket,
    );
    if !verify_compact(dom, &publics, &cons, 11, &req.proof) {
        return Err(LoxError::VerificationFailure);
    }
    // The per-request base and the encrypted MigrationKey MAC.
    if issuer.migrationkey_priv.x.len() != 3 {
        return Err(LoxError::VerificationFailure);
    }
    let b_gen = gen_b();
    let k = sc_random();
    let pk = pt_mul(&k, &b_gen);
    if pt_is_identity(&pk) {
        return Err(LoxError::VerificationFailure);
    }
    let s = sc_random();
    let tk = sc_mul(&k, &issuer.migrationkey_priv.x[2]);
    let sb = pt_mul(&s, &b_gen);
    let tkc0 = pt_mul(&tk, &req.enc_bucket.c0);
    let eqk0 = pt_add(&tkc0, &sb);
    let x1id = sc_mul(&issuer.migrationkey_priv.x[1], &req.id);
    let sum = sc_add(&issuer.migrationkey_priv.x[0], &x1id);
    let base1 = pt_mul(&sum, &pk);
    let tkc1 = pt_mul(&tk, &req.enc_bucket.c1);
    let sd = pt_mul(&s, &req.d_pub);
    let eqk1 = pt_add(&pt_add(&base1, &tkc1), &sd);
    let migs = if migration_type == crate::cred::MIGRATION_TYPE_TRUST_UPGRADE {
        &issuer.trustup_migs
    } else {
        &issuer.blockage_migs
    };
    let table = match build_mig_table(
        &issuer.migrationkey_priv,
        &issuer.migration_priv,
        &req.id,
        &pk,
        migs,
        &issuer.bridge_table,
        migration_type,
    ) {
        Some(t) => t,
        None => {
            return Err(LoxError::VerificationFailure);
        },
    };
    proof {
        let mk_xs = crate::zkp::scs_view(issuer.migrationkey_priv.x@);
        assert(mk_xs[2] == issuer.migrationkey_priv.x@[2]@);
        assert(mk_xs[1] == issuer.migrationkey_priv.x@[1]@);
        assert(mk_xs[0] == issuer.migrationkey_priv.x@[0]@);
        assert(eqk0@ == pt_add_of(
            pt_mul_of(sc_mul_of(k@, mk_xs[2]), req.enc_bucket.c0@),
            pt_mul_of(s@, gen_b_spec()),
        ));
        assert(eqk1@ == pt_add_of(
            pt_add_of(
                pt_mul_of(sc_add_of(mk_xs[0], sc_mul_of(mk_xs[1], req.id@)), pk@),
                pt_mul_of(sc_mul_of(k@, mk_xs[2]), req.enc_bucket.c1@),
            ),
            pt_mul_of(s@, req.d_pub@),
        ));
        assert(encqk_form(
            pk@,
            eqk0@,
            eqk1@,
            mk_xs,
            req.id@,
            req.enc_bucket.c0@,
            req.enc_bucket.c1@,
            req.d_pub@,
        ));
        assert(migs@ == table_migs(*issuer, migration_type));
    }
    Ok(Response { pk, eqk0, eqk1, table })
}

/// Decrypt `Qk`, find the row for the user's own bucket, and reassemble the
/// Migration credential it holds.
pub(crate) fn handle_response_core(st: State, resp: &Response, migration_type: u32) -> (r: Result<
    Migration,
    LoxError,
>)
    ensures
        r is Ok ==> {
            let m = r.unwrap();
            &&& m.lox_id@ == st.id@
            &&& m.from_bucket@ == st.bucket@
            &&& m.migration_type == migration_type
            &&& m.p@ != pt_id_seq()
            &&& pt_ok_of(m.p@)
            &&& pt_ok_of(m.q@)
            &&& exists|k: int|
                0 <= k < resp.table@.len() && row_opens(
                    #[trigger] resp.table@[k],
                    st.id@,
                    st.bucket@,
                    pt_sub_of(resp.eqk1@, pt_mul_of(st.d@, resp.eqk0@)),
                )
        },
        r is Err ==> r->Err_0 == LoxError::VerificationFailure || r->Err_0
            == LoxError::InvalidField("bucket", "no migration for this bucket"),
        ({
            &&& pt_ok_of(resp.eqk0@)
            &&& pt_ok_of(resp.eqk1@)
            &&& exists|k: int|
                0 <= k < resp.table@.len() && row_opens(
                    #[trigger] resp.table@[k],
                    st.id@,
                    st.bucket@,
                    pt_sub_of(resp.eqk1@, pt_mul_of(st.d@, resp.eqk0@)),
                )
            &&& forall|k: int|
                0 <= k < resp.table@.len() && row_opens(
                    #[trigger] resp.table@[k],
                    st.id@,
                    st.bucket@,
                    pt_sub_of(resp.eqk1@, pt_mul_of(st.d@, resp.eqk0@)),
                ) ==> row_opens_valid(
                    resp.table@[k],
                    st.id@,
                    st.bucket@,
                    pt_sub_of(resp.eqk1@, pt_mul_of(st.d@, resp.eqk0@)),
                )
        }) ==> r is Ok,
{
    let qk = match elgamal_decrypt(&st.d, &resp.eqk0, &resp.eqk1) {
        Some(q) => q,
        None => {
            return Err(LoxError::VerificationFailure);
        },
    };
    let m = match lookup_and_decrypt(&st.id, &st.bucket, &qk, &resp.table, migration_type) {
        Some(m) => m,
        None => {
            return Err(LoxError::InvalidField("bucket", "no migration for this bucket"));
        },
    };
    if !pt_check(&m.p.b) || !pt_check(&m.q.b) || pt_is_identity(&m.p) {
        return Err(LoxError::VerificationFailure);
    }
    Ok(m)
}

} // verus!
