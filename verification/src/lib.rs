//! An anonymous reputation and bridge-distribution credential engine.
//!
//! Clients hold attribute-bearing anonymous credentials under algebraic MACs
//! over a prime-order group, and exchange two-message protocols with an
//! issuer: each request shows old credentials partially blinded with a
//! zero-knowledge proof and asks for blind issuance of new ones whose
//! attributes stand in stated relations to the old.

pub mod codec;
pub mod cred;
pub mod errors;
pub mod filters;
pub mod group;
pub mod hashes;
pub mod issuance;
pub mod issuer;
pub mod keys;
pub mod migtable;
pub mod proto;
pub mod range;
pub mod show;
pub mod sig;
pub mod zkp;
