//! The request/response protocols.  Every protocol is a two-message
//! exchange: the user's `request` produces a `(Request, State)` pair, the
//! issuer's `handle` verifies the request, updates its filters and answers,
//! and the user's `handle_response` consumes the `State` exactly once to
//! yield the new credentials.  Each transcript carries its own
//! domain-separation tag.
use vstd::prelude::*;

pub mod blockage_migration;
pub mod check_blockage;
pub mod issue_invite;
pub mod level_up;
pub mod migkey;
pub mod migration;
pub mod open_invite;
pub mod redeem_invite;
pub mod trust_promotion;
pub mod update_cred;
pub mod update_invite;

verus! {

/// Domain-separation tags, one per transcript kind.
pub const DOM_OPEN_INVITE_REQ: u64 = 1;

pub const DOM_OPEN_INVITE_ISS: u64 = 2;

pub const DOM_TRUST_PROMOTION_REQ: u64 = 3;

pub const DOM_MIGRATION_REQ: u64 = 4;

pub const DOM_MIGRATION_ISS: u64 = 5;

pub const DOM_LEVEL_UP_REQ: u64 = 6;

pub const DOM_LEVEL_UP_ISS: u64 = 7;

pub const DOM_ISSUE_INVITE_REQ: u64 = 8;

pub const DOM_ISSUE_INVITE_ISS_LOX: u64 = 9;

pub const DOM_ISSUE_INVITE_ISS_INVITATION: u64 = 10;

pub const DOM_REDEEM_INVITE_REQ: u64 = 11;

pub const DOM_REDEEM_INVITE_ISS: u64 = 12;

pub const DOM_CHECK_BLOCKAGE_REQ: u64 = 13;

pub const DOM_BLOCKAGE_MIGRATION_REQ: u64 = 14;

pub const DOM_BLOCKAGE_MIGRATION_ISS: u64 = 15;

pub const DOM_UPDATE_CRED_REQ: u64 = 16;

pub const DOM_UPDATE_CRED_ISS: u64 = 17;

pub const DOM_UPDATE_INVITE_REQ: u64 = 18;

pub const DOM_UPDATE_INVITE_ISS: u64 = 19;

} // verus!
