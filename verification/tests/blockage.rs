use lox_core::cred::{BridgeLine, Lox, MIGRATION_TYPE_BLOCKAGE};
use lox_core::errors::LoxError;
use lox_core::issuer::{BridgeDb, BucketEntry, Issuer, MigEntry};
use lox_core::proto::{
    blockage_migration, check_blockage, level_up, migration, open_invite, trust_promotion,
};

fn bucket(bucket_id: u32) -> BucketEntry {
    BucketEntry {
        bucket_id,
        key: [bucket_id as u8; 16],
        lines: vec![BridgeLine {
            addr: [1; 16],
            port: 443,
            info: vec![b'b'],
        }],
    }
}

fn test_issuer(today: u32) -> (BridgeDb, Issuer) {
    let db = BridgeDb::new();
    let table = vec![bucket(7), bucket(8), bucket(9), bucket(100), bucket(101)];
    let trustup = vec![MigEntry { from: 7, to: 100 }];
    let blockage = vec![MigEntry { from: 100, to: 101 }];
    let iss = Issuer::new(db.pubkey(), table, trustup, blockage, today);
    (db, iss)
}

/// Walk a fresh user up to trust level 3 on bucket 100.
fn level_three(db: &BridgeDb, iss: &mut Issuer) -> Lox {
    let token = db.invite(7);
    let (req, st) = open_invite::request(&token).unwrap();
    let resp = open_invite::handle(iss, &req).unwrap();
    let (lox, _line) = open_invite::handle_response(st, &resp, &iss.lox_pub).unwrap();
    let (req2, st2) = trust_promotion::request(&lox, &iss.lox_pub).unwrap();
    let resp2 = trust_promotion::handle(iss, &req2).unwrap();
    let mig = trust_promotion::handle_response(st2, &resp2).unwrap();
    let (req3, st3) = migration::request(&lox, &mig, &iss.lox_pub, &iss.migration_pub).unwrap();
    let resp3 = migration::handle(iss, &req3).unwrap();
    let mut cur = migration::handle_response(st3, &resp3, &iss.lox_pub).unwrap();
    // Level 1 -> 2 after 14 days, 2 -> 3 after 28 more.
    for today in [1014u32, 1042] {
        iss.set_today(today);
        let reach = iss.reachability_cred(100).unwrap();
        let (r, s) =
            level_up::request(&cur, &reach, today, &iss.lox_pub, &iss.reachability_pub).unwrap();
        let rp = level_up::handle(iss, &r).unwrap();
        cur = level_up::handle_response(s, &rp, &iss.lox_pub).unwrap();
    }
    assert_eq!(cur.trust_level, 3);
    cur
}

#[test]
fn check_blockage_and_migrate() {
    let (db, mut iss) = test_issuer(1000);
    let lox = level_three(&db, &mut iss);
    let old_blockages = lox.blockages;

    let (req, st) = check_blockage::request(&lox, &iss.lox_pub).unwrap();
    let resp = check_blockage::handle(&iss, &req).unwrap();
    let mig = check_blockage::handle_response(st, &resp).unwrap();
    assert_eq!(mig.migration_type, MIGRATION_TYPE_BLOCKAGE);
    assert!(iss.verify_migration(&mig));

    let (req2, st2) =
        blockage_migration::request(&lox, &mig, &iss.lox_pub, &iss.migration_pub).unwrap();
    let resp2 = blockage_migration::handle(&mut iss, &req2).unwrap();
    let lox2 = blockage_migration::handle_response(st2, &resp2, &iss.lox_pub).unwrap();
    assert_eq!(lox2.trust_level, 1);
    assert_eq!(lox2.blockages, old_blockages + 1);
    assert_eq!(lox2.invites_remaining, 0);
    assert_eq!(lox2.level_since, 1042);
    let target = lox_core::cred::bucket_attr(101, &[101u8; 16]);
    assert_eq!(lox2.bucket.b, target.b);
    assert!(iss.verify_lox(&lox2));

    // Replay of the successful blockage migration.
    assert_eq!(
        blockage_migration::handle(&mut iss, &req2).err(),
        Some(LoxError::VerificationFailure)
    );
}

#[test]
fn check_blockage_requires_level_three() {
    let (db, mut iss) = test_issuer(1000);
    let token = db.invite(7);
    let (req, st) = open_invite::request(&token).unwrap();
    let resp = open_invite::handle(&mut iss, &req).unwrap();
    let (lox, _line) = open_invite::handle_response(st, &resp, &iss.lox_pub).unwrap();
    match check_blockage::request(&lox, &iss.lox_pub) {
        Err(LoxError::InvalidField(field, _)) => assert_eq!(field, "trust_level"),
        other => panic!("expected InvalidField, got {:?}", other.map(|_| ())),
    }
}

#[test]
fn check_blockage_does_not_consume_the_id() {
    let (db, mut iss) = test_issuer(1000);
    let lox = level_three(&db, &mut iss);
    // Two runs in a row both succeed: the filter is consulted, not fed.
    let (req, st) = check_blockage::request(&lox, &iss.lox_pub).unwrap();
    let resp = check_blockage::handle(&iss, &req).unwrap();
    check_blockage::handle_response(st, &resp).unwrap();
    let (req2, st2) = check_blockage::request(&lox, &iss.lox_pub).unwrap();
    let resp2 = check_blockage::handle(&iss, &req2).unwrap();
    check_blockage::handle_response(st2, &resp2).unwrap();
}

#[test]
fn unblocked_bucket_has_no_row() {
    let (db, mut iss) = test_issuer(1000);
    let lox = level_three(&db, &mut iss);
    // Move the only blockage row away from this user's bucket.
    iss.blockage_migs = vec![MigEntry { from: 7, to: 101 }];
    let (req, st) = check_blockage::request(&lox, &iss.lox_pub).unwrap();
    let resp = check_blockage::handle(&iss, &req).unwrap();
    assert_eq!(
        check_blockage::handle_response(st, &resp).err(),
        Some(LoxError::InvalidField("bucket", "no migration for this bucket"))
    );
}
