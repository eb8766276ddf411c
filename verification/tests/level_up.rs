use lox_core::cred::{BridgeLine, Lox};
use lox_core::errors::LoxError;
use lox_core::issuer::{BridgeDb, BucketEntry, Issuer, MigEntry};
use lox_core::proto::{level_up, migration, open_invite, trust_promotion};

fn bucket(bucket_id: u32) -> BucketEntry {
    BucketEntry {
        bucket_id,
        key: [bucket_id as u8; 16],
        lines: vec![BridgeLine {
            addr: [1; 16],
            port: 443,
            info: vec![b'b'],
        }],
    }
}

fn test_issuer(today: u32) -> (BridgeDb, Issuer) {
    let db = BridgeDb::new();
    let table = vec![bucket(7), bucket(8), bucket(9), bucket(100), bucket(101)];
    let trustup = vec![
        MigEntry { from: 7, to: 100 },
        MigEntry { from: 8, to: 100 },
        MigEntry { from: 9, to: 101 },
    ];
    let blockage = vec![MigEntry { from: 100, to: 101 }];
    let iss = Issuer::new(db.pubkey(), table, trustup, blockage, today);
    (db, iss)
}

/// Bootstrap and upgrade to a level 1 credential on bucket 100.
fn level_one(db: &BridgeDb, iss: &mut Issuer) -> Lox {
    let token = db.invite(7);
    let (req, st) = open_invite::request(&token).unwrap();
    let resp = open_invite::handle(iss, &req).unwrap();
    let (lox, _line) = open_invite::handle_response(st, &resp, &iss.lox_pub).unwrap();
    let (req2, st2) = trust_promotion::request(&lox, &iss.lox_pub).unwrap();
    let resp2 = trust_promotion::handle(iss, &req2).unwrap();
    let mig = trust_promotion::handle_response(st2, &resp2).unwrap();
    let (req3, st3) = migration::request(&lox, &mig, &iss.lox_pub, &iss.migration_pub).unwrap();
    let resp3 = migration::handle(iss, &req3).unwrap();
    migration::handle_response(st3, &resp3, &iss.lox_pub).unwrap()
}

#[test]
fn level_up_one_day_short() {
    let (db, mut iss) = test_issuer(1000);
    let lox = level_one(&db, &mut iss);
    iss.set_today(1013);
    let reach = iss.reachability_cred(100).unwrap();
    assert_eq!(
        level_up::request(&lox, &reach, 1013, &iss.lox_pub, &iss.reachability_pub).err(),
        Some(LoxError::TimeThresholdNotMet(1))
    );
}

#[test]
fn level_up_after_interval() {
    let (db, mut iss) = test_issuer(1000);
    let lox = level_one(&db, &mut iss);
    iss.set_today(1014);
    let reach = iss.reachability_cred(100).unwrap();
    let (req, st) =
        level_up::request(&lox, &reach, 1014, &iss.lox_pub, &iss.reachability_pub).unwrap();
    let resp = level_up::handle(&mut iss, &req).unwrap();
    let lox2 = level_up::handle_response(st, &resp, &iss.lox_pub).unwrap();
    assert_eq!(lox2.trust_level, 2);
    assert_eq!(lox2.invites_remaining, 4);
    assert_eq!(lox2.level_since, 1014);
    assert_eq!(lox2.blockages, 0);
    assert_eq!(lox2.bucket.b, lox.bucket.b);
    assert!(iss.verify_lox(&lox2));
    // The old credential is spent now.
    let reach2 = iss.reachability_cred(100).unwrap();
    let (req2, _st2) =
        level_up::request(&lox, &reach2, 1014, &iss.lox_pub, &iss.reachability_pub).unwrap();
    assert_eq!(
        level_up::handle(&mut iss, &req2).err(),
        Some(LoxError::VerificationFailure)
    );
}

#[test]
fn level_up_needs_same_day_reachability() {
    let (db, mut iss) = test_issuer(1000);
    let lox = level_one(&db, &mut iss);
    iss.set_today(1013);
    let stale = iss.reachability_cred(100).unwrap();
    iss.set_today(1014);
    // Client-side: the reachability credential is dated 1013, not 1014.
    assert_eq!(
        level_up::request(&lox, &stale, 1014, &iss.lox_pub, &iss.reachability_pub).err(),
        Some(LoxError::InvalidField(
            "date",
            "reachability credential is not for today"
        ))
    );
    // Issuer-side: a request built as of 1014 fails once the day advances,
    // because the issuer recomputes the reachability date with its own day.
    let fresh = iss.reachability_cred(100).unwrap();
    let (req, _st) =
        level_up::request(&lox, &fresh, 1014, &iss.lox_pub, &iss.reachability_pub).unwrap();
    iss.set_today(1015);
    assert_eq!(
        level_up::handle(&mut iss, &req).err(),
        Some(LoxError::VerificationFailure)
    );
}

#[test]
fn level_up_wrong_bucket_reachability() {
    let (db, mut iss) = test_issuer(1000);
    let lox = level_one(&db, &mut iss);
    iss.set_today(1014);
    let reach = iss.reachability_cred(101).unwrap();
    assert_eq!(
        level_up::request(&lox, &reach, 1014, &iss.lox_pub, &iss.reachability_pub).err(),
        Some(LoxError::CredentialMismatch)
    );
}

#[test]
fn level_up_tampered_request_rejected() {
    let (db, mut iss) = test_issuer(1000);
    let lox = level_one(&db, &mut iss);
    iss.set_today(1014);
    let reach = iss.reachability_cred(100).unwrap();
    let (mut req, _st) =
        level_up::request(&lox, &reach, 1014, &iss.lox_pub, &iss.reachability_pub).unwrap();
    // Substitute one scalar of the request.
    req.id.b[0] ^= 1;
    assert_eq!(
        level_up::handle(&mut iss, &req).err(),
        Some(LoxError::VerificationFailure)
    );
}
