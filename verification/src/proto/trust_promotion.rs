//! The first half of the level 0 to level 1 upgrade: the user shows a
//! level 0 Lox credential and receives the encrypted TrustUpgrade migration
//! table, from which only its own bucket's row can be opened.  The Lox id
//! is checked against the filter but not recorded; `migration` records it.
use vstd::prelude::*;

use crate::cred::{Lox, Migration, MIGRATION_TYPE_TRUST_UPGRADE};
use crate::errors::LoxError;
use crate::filters::seen_in;
use crate::group::{pt_id_seq, pt_mul_of, pt_ok_of, pt_sub_of};
use crate::issuer::Issuer;
use crate::migtable::{mig_rows_rel, row_opens, row_opens_valid};
use crate::proto::migkey;
use crate::proto::DOM_TRUST_PROMOTION_REQ;
use crate::zkp::scs_view;

verus! {

pub type Request = migkey::Request;

pub type State = migkey::State;

pub type Response = migkey::Response;

/// Compose a trust-promotion request from a level 0 Lox credential.
pub fn request(lox: &Lox, lox_pub: &crate::keys::IssuerPubKey) -> (r: Result<
    (Request, State),
    LoxError,
>)
    ensures
        lox.trust_level != 0 ==> r == Result::<(Request, State), LoxError>::Err(
            LoxError::InvalidField("trust_level", "must be 0"),
        ),
        r is Err ==> r->Err_0 == LoxError::InvalidField("trust_level", "must be 0") || r->Err_0
            == LoxError::InvalidField("credential", "does not decode") || r->Err_0
            == LoxError::VerificationFailure,
        r is Ok ==> {
            let (req, st) = r.unwrap();
            &&& st.id@ == lox.id@
            &&& st.bucket@ == lox.bucket@
            &&& req.id@ == lox.id@
            &&& req.trust_level == 0
        },
{
    if lox.trust_level != 0 {
        return Err(LoxError::InvalidField("trust_level", "must be 0"));
    }
    migkey::request_core(lox, lox_pub, DOM_TRUST_PROMOTION_REQ)
}

/// Handle a trust-promotion request: only a level 0 credential is admitted,
/// and the answer carries the TrustUpgrade table.  Nothing in the issuer's
/// state changes; the id stays fresh until `migration` consumes it.
pub fn handle(issuer: &Issuer, req: &Request) -> (r: Result<Response, LoxError>)
    ensures
        r is Err ==> r->Err_0 == LoxError::VerificationFailure,
        seen_in(issuer.id_filter@, req.id@) ==> r is Err,
        req.trust_level != 0 ==> r is Err,
        r is Ok ==> {
            let resp = r.unwrap();
            &&& pt_ok_of(resp.pk@)
            &&& resp.pk@ != pt_id_seq()
            &&& pt_ok_of(resp.eqk0@)
            &&& pt_ok_of(resp.eqk1@)
            &&& migkey::encqk_form(
                resp.pk@,
                resp.eqk0@,
                resp.eqk1@,
                scs_view(issuer.migrationkey_priv.x@),
                req.id@,
                req.enc_bucket.c0@,
                req.enc_bucket.c1@,
                req.d_pub@,
            )
            &&& mig_rows_rel(
                issuer.trustup_migs@,
                issuer.bridge_table@,
                scs_view(issuer.migrationkey_priv.x@),
                scs_view(issuer.migration_priv.x@),
                issuer.migration_priv.x@.len(),
                req.id@,
                resp.pk@,
                MIGRATION_TYPE_TRUST_UPGRADE,
                resp.table@,
            )
        },
{
    if req.trust_level != 0 {
        return Err(LoxError::VerificationFailure);
    }
    migkey::handle_core(issuer, req, DOM_TRUST_PROMOTION_REQ, MIGRATION_TYPE_TRUST_UPGRADE)
}

/// Open the user's own row of the table: the TrustUpgrade Migration
/// credential for its bucket.  Succeeds whenever a row opens under the
/// derived key and carries a decodable, non-identity MAC.
pub fn handle_response(st: State, resp: &Response) -> (r: Result<Migration, LoxError>)
    ensures
        r is Ok ==> {
            let m = r.unwrap();
            &&& m.lox_id@ == st.id@
            &&& m.from_bucket@ == st.bucket@
            &&& m.migration_type == MIGRATION_TYPE_TRUST_UPGRADE
        },
        ({
            &&& pt_ok_of(resp.eqk0@)
            &&& pt_ok_of(resp.eqk1@)
            &&& exists|k: int|
                0 <= k < resp.table@.len() && row_opens(
                    #[trigger] resp.table@[k],
                    st.id@,
                    st.bucket@,
                    pt_sub_of(resp.eqk1@, pt_mul_of(st.d@, resp.eqk0@)),
                )
            &&& forall|k: int|
                0 <= k < resp.table@.len() && row_opens(
                    #[trigger] resp.table@[k],
                    st.id@,
                    st.bucket@,
                    pt_sub_of(resp.eqk1@, pt_mul_of(st.d@, resp.eqk0@)),
                ) ==> row_opens_valid(
                    resp.table@[k],
                    st.id@,
                    st.bucket@,
                    pt_sub_of(resp.eqk1@, pt_mul_of(st.d@, resp.eqk0@)),
                )
        }) ==> r is Ok,
{
    migkey::handle_response_core(st, resp, MIGRATION_TYPE_TRUST_UPGRADE)
}

} // verus!
