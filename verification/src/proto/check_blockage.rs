//! Blockage checking: a user of trust level 3 or above shows its Lox
//! credential and receives the encrypted Blockage migration table.  Only
//! if the user's bucket is blocked does the table hold a row its derived
//! key can open; the issuer learns nothing about which row, and the id is
//! checked but not recorded, so the user may rerun the protocol later.
use vstd::prelude::*;

use crate::cred::{Lox, Migration, MIGRATION_TYPE_BLOCKAGE, MIN_TRUST_LEVEL_FOR_BLOCKAGE_CHECK};
use crate::errors::LoxError;
use crate::filters::seen_in;
use crate::group::{pt_id_seq, pt_mul_of, pt_ok_of, pt_sub_of};
use crate::issuer::Issuer;
use crate::migtable::{mig_rows_rel, row_opens, row_opens_valid};
use crate::proto::migkey;
use crate::proto::DOM_CHECK_BLOCKAGE_REQ;
use crate::zkp::scs_view;

verus! {

pub type Request = migkey::Request;

pub type State = migkey::State;

pub type Response = migkey::Response;

/// Compose a check-blockage request from a Lox credential of trust level 3
/// or above.
pub fn request(lox: &Lox, lox_pub: &crate::keys::IssuerPubKey) -> (r: Result<
    (Request, State),
    LoxError,
>)
    ensures
        lox.trust_level < MIN_TRUST_LEVEL_FOR_BLOCKAGE_CHECK ==> r == Result::<
            (Request, State),
            LoxError,
        >::Err(LoxError::InvalidField("trust_level", "too low for a blockage check")),
        r is Err ==> r->Err_0 == LoxError::InvalidField("trust_level", "too low for a blockage check")
            || r->Err_0 == LoxError::InvalidField("credential", "does not decode") || r->Err_0
            == LoxError::VerificationFailure,
        r is Ok ==> {
            let (req, st) = r.unwrap();
            &&& st.id@ == lox.id@
            &&& st.bucket@ == lox.bucket@
            &&& req.id@ == lox.id@
            &&& req.trust_level == lox.trust_level
        },
{
    if lox.trust_level < MIN_TRUST_LEVEL_FOR_BLOCKAGE_CHECK {
        return Err(LoxError::InvalidField("trust_level", "too low for a blockage check"));
    }
    migkey::request_core(lox, lox_pub, DOM_CHECK_BLOCKAGE_REQ)
}

/// Handle a check-blockage request: only trust level 3 or above is
/// admitted, and the answer carries the Blockage table.  Nothing in the
/// issuer's state changes.
pub fn handle(issuer: &Issuer, req: &Request) -> (r: Result<Response, LoxError>)
    ensures
        r is Err ==> r->Err_0 == LoxError::VerificationFailure,
        seen_in(issuer.id_filter@, req.id@) ==> r is Err,
        req.trust_level < MIN_TRUST_LEVEL_FOR_BLOCKAGE_CHECK ==> r is Err,
        r is Ok ==> {
            let resp = r.unwrap();
            &&& pt_ok_of(resp.pk@)
            &&& resp.pk@ != pt_id_seq()
            &&& pt_ok_of(resp.eqk0@)
            &&& pt_ok_of(resp.eqk1@)
            &&& migkey::encqk_form(
                resp.pk@,
                resp.eqk0@,
                resp.eqk1@,
                scs_view(issuer.migrationkey_priv.x@),
                req.id@,
                req.enc_bucket.c0@,
                req.enc_bucket.c1@,
                req.d_pub@,
            )
            &&& mig_rows_rel(
                issuer.blockage_migs@,
                issuer.bridge_table@,
                scs_view(issuer.migrationkey_priv.x@),
                scs_view(issuer.migration_priv.x@),
                issuer.migration_priv.x@.len(),
                req.id@,
                resp.pk@,
                MIGRATION_TYPE_BLOCKAGE,
                resp.table@,
            )
        },
{
    if req.trust_level < MIN_TRUST_LEVEL_FOR_BLOCKAGE_CHECK {
        return Err(LoxError::VerificationFailure);
    }
    migkey::handle_core(issuer, req, DOM_CHECK_BLOCKAGE_REQ, MIGRATION_TYPE_BLOCKAGE)
}

/// Open the user's own row of the table, if its bucket is blocked: the
/// Blockage Migration credential away from that bucket.  Succeeds whenever
/// a row opens under the derived key and carries a decodable,
/// non-identity MAC.
pub fn handle_response(st: State, resp: &Response) -> (r: Result<Migration, LoxError>)
    ensures
        r is Ok ==> {
            let m = r.unwrap();
            &&& m.lox_id@ == st.id@
            &&& m.from_bucket@ == st.bucket@
            &&& m.migration_type == MIGRATION_TYPE_BLOCKAGE
        },
        ({
            &&& pt_ok_of(resp.eqk0@)
            &&& pt_ok_of(resp.eqk1@)
            &&& exists|k: int|
                0 <= k < resp.table@.len() && row_opens(
                    #[trigger] resp.table@[k],
                    st.id@,
                    st.bucket@,
                    pt_sub_of(resp.eqk1@, pt_mul_of(st.d@, resp.eqk0@)),
                )
            &&& forall|k: int|
                0 <= k < resp.table@.len() && row_opens(
                    #[trigger] resp.table@[k],
                    st.id@,
                    st.bucket@,
                    pt_sub_of(resp.eqk1@, pt_mul_of(st.d@, resp.eqk0@)),
                ) ==> row_opens_valid(
                    resp.table@[k],
                    st.id@,
                    st.bucket@,
                    pt_sub_of(resp.eqk1@, pt_mul_of(st.d@, resp.eqk0@)),
                )
        }) ==> r is Ok,
{
    migkey::handle_response_core(st, resp, MIGRATION_TYPE_BLOCKAGE)
}

} // verus!
