use lox_core::cred::{BridgeLine, Lox};
use lox_core::errors::LoxError;
use lox_core::issuer::{BridgeDb, BucketEntry, Issuer, MigEntry};
use lox_core::keys::IssuerPubKey;
use lox_core::proto::{issue_invite, level_up, migration, open_invite, trust_promotion, update_cred, update_invite};

fn bucket(bucket_id: u32) -> BucketEntry {
    BucketEntry {
        bucket_id,
        key: [bucket_id as u8; 16],
        lines: vec![BridgeLine {
            addr: [1; 16],
            port: 443,
            info: vec![b'b'],
        }],
    }
}

fn test_issuer(today: u32) -> (BridgeDb, Issuer) {
    let db = BridgeDb::new();
    let table = vec![bucket(7), bucket(100)];
    let trustup = vec![MigEntry { from: 7, to: 100 }];
    let blockage = vec![MigEntry { from: 100, to: 7 }];
    let iss = Issuer::new(db.pubkey(), table, trustup, blockage, today);
    (db, iss)
}

fn clone_pub(k: &IssuerPubKey) -> IssuerPubKey {
    IssuerPubKey {
        xs: k.xs.clone(),
    }
}

fn level_one(db: &BridgeDb, iss: &mut Issuer) -> Lox {
    let token = db.invite(7);
    let (req, st) = open_invite::request(&token).unwrap();
    let resp = open_invite::handle(iss, &req).unwrap();
    let (lox, _line) = open_invite::handle_response(st, &resp, &iss.lox_pub).unwrap();
    let (req2, st2) = trust_promotion::request(&lox, &iss.lox_pub).unwrap();
    let resp2 = trust_promotion::handle(iss, &req2).unwrap();
    let mig = trust_promotion::handle_response(st2, &resp2).unwrap();
    let (req3, st3) = migration::request(&lox, &mig, &iss.lox_pub, &iss.migration_pub).unwrap();
    let resp3 = migration::handle(iss, &req3).unwrap();
    migration::handle_response(st3, &resp3, &iss.lox_pub).unwrap()
}

#[test]
fn update_cred_after_rotation_exactly_once() {
    let (db, mut iss) = test_issuer(1000);
    let lox = level_one(&db, &mut iss);
    let old_pub = clone_pub(&iss.lox_pub);
    iss.rotate_lox_keys();
    // The unrotated credential no longer verifies under the active key.
    assert!(!iss.verify_lox(&lox));

    let (req, st) = update_cred::request(&lox, 0, &old_pub).unwrap();
    let resp = update_cred::handle(&mut iss, &req).unwrap();
    let lox2 = update_cred::handle_response(st, &resp, &iss.lox_pub).unwrap();
    assert_eq!(lox2.trust_level, lox.trust_level);
    assert_eq!(lox2.level_since, lox.level_since);
    assert_eq!(lox2.invites_remaining, lox.invites_remaining);
    assert_eq!(lox2.blockages, lox.blockages);
    assert_eq!(lox2.id.b, lox.id.b);
    assert_eq!(lox2.bucket.b, lox.bucket.b);
    assert!(iss.verify_lox(&lox2));

    // A second attempt on the same old credential fails uniformly.
    let (req2, _st2) = update_cred::request(&lox, 0, &old_pub).unwrap();
    assert_eq!(
        update_cred::handle(&mut iss, &req2).err(),
        Some(LoxError::VerificationFailure)
    );
    // A bad generation index fails uniformly too.
    let (req3, _st3) = update_cred::request(&lox, 7, &old_pub).unwrap();
    assert_eq!(
        update_cred::handle(&mut iss, &req3).err(),
        Some(LoxError::VerificationFailure)
    );
}

#[test]
fn update_invite_after_rotation_exactly_once() {
    let (db, mut iss) = test_issuer(1000);
    let lox = level_one(&db, &mut iss);
    // Get to level 2 for an invitation.
    iss.set_today(1014);
    let reach = iss.reachability_cred(100).unwrap();
    let (r, s) = level_up::request(&lox, &reach, 1014, &iss.lox_pub, &iss.reachability_pub).unwrap();
    let rp = level_up::handle(&mut iss, &r).unwrap();
    let lox2 = level_up::handle_response(s, &rp, &iss.lox_pub).unwrap();
    let reach2 = iss.reachability_cred(100).unwrap();
    let (ir, is_) =
        issue_invite::request(&lox2, &reach2, 1014, &iss.lox_pub, &iss.reachability_pub).unwrap();
    let irp = issue_invite::handle(&mut iss, &ir).unwrap();
    let (_lox3, invite) =
        issue_invite::handle_response(is_, &irp, &iss.lox_pub, &iss.invitation_pub).unwrap();

    let old_pub = clone_pub(&iss.invitation_pub);
    iss.rotate_invitation_keys();
    assert!(!iss.verify_invitation(&invite));

    let (req, st) = update_invite::request(&invite, 0, &old_pub).unwrap();
    let resp = update_invite::handle(&mut iss, &req).unwrap();
    let invite2 = update_invite::handle_response(st, &resp, &iss.invitation_pub).unwrap();
    assert_eq!(invite2.date, invite.date);
    assert_eq!(invite2.blockages, invite.blockages);
    assert_eq!(invite2.inv_id.b, invite.inv_id.b);
    assert_eq!(invite2.bucket.b, invite.bucket.b);
    assert!(iss.verify_invitation(&invite2));

    let (req2, _st2) = update_invite::request(&invite, 0, &old_pub).unwrap();
    assert_eq!(
        update_invite::handle(&mut iss, &req2).err(),
        Some(LoxError::VerificationFailure)
    );
}

#[test]
fn truncating_retired_generations_is_a_policy_knob() {
    let (db, mut iss) = test_issuer(1000);
    let lox = level_one(&db, &mut iss);
    let old_pub = clone_pub(&iss.lox_pub);
    iss.rotate_lox_keys();
    iss.rotate_lox_keys();
    assert_eq!(iss.retired_lox.len(), 2);
    // Keep only the newest retired generation: the oldest credentials can
    // no longer be updated.
    iss.truncate_retired_lox(1);
    assert_eq!(iss.retired_lox.len(), 1);
    let (req, _st) = update_cred::request(&lox, 0, &old_pub).unwrap();
    assert_eq!(
        update_cred::handle(&mut iss, &req).err(),
        Some(LoxError::VerificationFailure)
    );
}

#[test]
fn open_invite_works_across_bridgedb_rotation() {
    let (db, mut iss) = test_issuer(1000);
    let token_old = db.invite(7);
    // The distribution authority rotates; the issuer retains the old key
    // with its own filter.
    let db2 = BridgeDb::new();
    iss.rotate_bridgedb_pub(db2.pubkey());
    // A token signed under the retired key is still redeemable once.
    let (req, st) = open_invite::request(&token_old).unwrap();
    let resp = open_invite::handle(&mut iss, &req).unwrap();
    let (lox, _line) = open_invite::handle_response(st, &resp, &iss.lox_pub).unwrap();
    assert!(iss.verify_lox(&lox));
    let (req2, _st2) = open_invite::request(&token_old).unwrap();
    assert_eq!(
        open_invite::handle(&mut iss, &req2).err(),
        Some(LoxError::VerificationFailure)
    );
    // And a token under the new key works as well.
    let token_new = db2.invite(7);
    let (req3, st3) = open_invite::request(&token_new).unwrap();
    let resp3 = open_invite::handle(&mut iss, &req3).unwrap();
    let (lox3, _line3) = open_invite::handle_response(st3, &resp3, &iss.lox_pub).unwrap();
    assert!(iss.verify_lox(&lox3));
}
