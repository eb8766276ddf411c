use lox_core::cred::{BridgeLine, Lox};
use lox_core::errors::LoxError;
use lox_core::issuer::{BridgeDb, BucketEntry, Issuer, MigEntry};
use lox_core::proto::{issue_invite, level_up, migration, open_invite, redeem_invite, trust_promotion};

fn bucket(bucket_id: u32) -> BucketEntry {
    BucketEntry {
        bucket_id,
        key: [bucket_id as u8; 16],
        lines: vec![BridgeLine {
            addr: [1; 16],
            port: 443,
            info: vec![b'b'],
        }],
    }
}

fn test_issuer(today: u32) -> (BridgeDb, Issuer) {
    let db = BridgeDb::new();
    let table = vec![bucket(7), bucket(8), bucket(9), bucket(100), bucket(101)];
    let trustup = vec![
        MigEntry { from: 7, to: 100 },
        MigEntry { from: 8, to: 100 },
        MigEntry { from: 9, to: 101 },
    ];
    let blockage = vec![MigEntry { from: 100, to: 101 }];
    let iss = Issuer::new(db.pubkey(), table, trustup, blockage, today);
    (db, iss)
}

fn level_one(db: &BridgeDb, iss: &mut Issuer) -> Lox {
    let token = db.invite(7);
    let (req, st) = open_invite::request(&token).unwrap();
    let resp = open_invite::handle(iss, &req).unwrap();
    let (lox, _line) = open_invite::handle_response(st, &resp, &iss.lox_pub).unwrap();
    let (req2, st2) = trust_promotion::request(&lox, &iss.lox_pub).unwrap();
    let resp2 = trust_promotion::handle(iss, &req2).unwrap();
    let mig = trust_promotion::handle_response(st2, &resp2).unwrap();
    let (req3, st3) = migration::request(&lox, &mig, &iss.lox_pub, &iss.migration_pub).unwrap();
    let resp3 = migration::handle(iss, &req3).unwrap();
    migration::handle_response(st3, &resp3, &iss.lox_pub).unwrap()
}

/// Bootstrap, migrate, and level up once: a level 2 credential with 4
/// invitations on bucket 100.
fn level_two(db: &BridgeDb, iss: &mut Issuer) -> Lox {
    let lox = level_one(db, iss);
    iss.set_today(1014);
    let reach = iss.reachability_cred(100).unwrap();
    let (req, st) =
        level_up::request(&lox, &reach, 1014, &iss.lox_pub, &iss.reachability_pub).unwrap();
    let resp = level_up::handle(iss, &req).unwrap();
    level_up::handle_response(st, &resp, &iss.lox_pub).unwrap()
}

#[test]
fn issue_invite_without_invitations_rejected() {
    let (db, mut iss) = test_issuer(1000);
    let mut lox = level_two(&db, &mut iss);
    lox.invites_remaining = 0;
    let reach = iss.reachability_cred(100).unwrap();
    assert_eq!(
        issue_invite::request(&lox, &reach, 1014, &iss.lox_pub, &iss.reachability_pub).err(),
        Some(LoxError::NoInvitationsRemaining)
    );
}

#[test]
fn issue_and_redeem_invitation() {
    let (db, mut iss) = test_issuer(1000);
    let lox = level_two(&db, &mut iss);
    assert_eq!(lox.invites_remaining, 4);
    let reach = iss.reachability_cred(100).unwrap();
    let (req, st) =
        issue_invite::request(&lox, &reach, 1014, &iss.lox_pub, &iss.reachability_pub).unwrap();
    let resp = issue_invite::handle(&mut iss, &req).unwrap();
    let (lox2, invite) =
        issue_invite::handle_response(st, &resp, &iss.lox_pub, &iss.invitation_pub).unwrap();
    assert_eq!(lox2.invites_remaining, 3);
    assert_eq!(lox2.trust_level, 2);
    assert_eq!(lox2.level_since, 1014);
    assert_eq!(lox2.bucket.b, lox.bucket.b);
    assert!(iss.verify_lox(&lox2));
    assert_eq!(invite.date, 1014);
    assert_eq!(invite.bucket.b, lox.bucket.b);
    assert!(iss.verify_invitation(&invite));

    // A friend redeems it ten days later.
    iss.set_today(1024);
    let (rreq, rst) = redeem_invite::request(&invite, 1024, &iss.invitation_pub).unwrap();
    let rresp = redeem_invite::handle(&mut iss, &rreq).unwrap();
    let friend = redeem_invite::handle_response(rst, &rresp, &iss.lox_pub).unwrap();
    assert_eq!(friend.trust_level, 1);
    assert_eq!(friend.level_since, 1024);
    assert_eq!(friend.invites_remaining, 0);
    assert_eq!(friend.bucket.b, lox.bucket.b);
    assert!(iss.verify_lox(&friend));

    // The invitation is single-use.
    let (rreq2, _rst2) = redeem_invite::request(&invite, 1024, &iss.invitation_pub).unwrap();
    assert_eq!(
        redeem_invite::handle(&mut iss, &rreq2).err(),
        Some(LoxError::VerificationFailure)
    );
}

#[test]
fn invitation_expiry_boundaries() {
    let (db, mut iss) = test_issuer(1000);
    let lox = level_two(&db, &mut iss);
    let reach = iss.reachability_cred(100).unwrap();
    let (req, st) =
        issue_invite::request(&lox, &reach, 1014, &iss.lox_pub, &iss.reachability_pub).unwrap();
    let resp = issue_invite::handle(&mut iss, &req).unwrap();
    let (_lox2, mut invite) =
        issue_invite::handle_response(st, &resp, &iss.lox_pub, &iss.invitation_pub).unwrap();
    // Pretend the invitation was issued at date 2000.
    invite.date = 2000;
    // Redeemable on the last day of the window.
    assert!(redeem_invite::request(&invite, 2015, &iss.invitation_pub).is_ok());
    // One day later it is expired.
    assert_eq!(
        redeem_invite::request(&invite, 2016, &iss.invitation_pub).err(),
        Some(LoxError::CredentialExpired)
    );
    // An apparent-future invitation is rejected as an invalid field.
    match redeem_invite::request(&invite, 1999, &iss.invitation_pub) {
        Err(LoxError::InvalidField(field, _)) => assert_eq!(field, "date"),
        other => panic!("expected InvalidField, got {:?}", other.map(|_| ())),
    }
}

#[test]
fn issue_invite_replay_rejected() {
    let (db, mut iss) = test_issuer(1000);
    let lox = level_two(&db, &mut iss);
    let reach = iss.reachability_cred(100).unwrap();
    let (req, _st) =
        issue_invite::request(&lox, &reach, 1014, &iss.lox_pub, &iss.reachability_pub).unwrap();
    issue_invite::handle(&mut iss, &req).unwrap();
    assert_eq!(
        issue_invite::handle(&mut iss, &req).err(),
        Some(LoxError::VerificationFailure)
    );
}
