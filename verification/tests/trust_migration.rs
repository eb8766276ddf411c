use lox_core::cred::{BridgeLine, Lox, MIGRATION_TYPE_TRUST_UPGRADE};
use lox_core::errors::LoxError;
use lox_core::issuer::{BridgeDb, BucketEntry, Issuer, MigEntry};
use lox_core::proto::{migration, open_invite, trust_promotion};

fn bucket(bucket_id: u32) -> BucketEntry {
    BucketEntry {
        bucket_id,
        key: [bucket_id as u8; 16],
        lines: vec![BridgeLine {
            addr: [1; 16],
            port: 443,
            info: vec![b'b'],
        }],
    }
}

fn test_issuer(today: u32) -> (BridgeDb, Issuer) {
    let db = BridgeDb::new();
    let table = vec![bucket(7), bucket(8), bucket(9), bucket(100), bucket(101)];
    let trustup = vec![
        MigEntry { from: 7, to: 100 },
        MigEntry { from: 8, to: 100 },
        MigEntry { from: 9, to: 101 },
    ];
    let blockage = vec![MigEntry { from: 100, to: 101 }];
    let iss = Issuer::new(db.pubkey(), table, trustup, blockage, today);
    (db, iss)
}

fn bootstrap(db: &BridgeDb, iss: &mut Issuer, bucket_id: u32) -> Lox {
    let token = db.invite(bucket_id);
    let (req, st) = open_invite::request(&token).unwrap();
    let resp = open_invite::handle(iss, &req).unwrap();
    let (lox, _line) = open_invite::handle_response(st, &resp, &iss.lox_pub).unwrap();
    lox
}

#[test]
fn trust_promotion_then_migration() {
    let (db, mut iss) = test_issuer(1000);
    let lox = bootstrap(&db, &mut iss, 7);

    let (req, st) = trust_promotion::request(&lox, &iss.lox_pub).unwrap();
    let resp = trust_promotion::handle(&iss, &req).unwrap();
    let mig = trust_promotion::handle_response(st, &resp).unwrap();
    assert_eq!(mig.migration_type, MIGRATION_TYPE_TRUST_UPGRADE);
    assert!(iss.verify_migration(&mig));

    let (req2, st2) = migration::request(&lox, &mig, &iss.lox_pub, &iss.migration_pub).unwrap();
    let resp2 = migration::handle(&mut iss, &req2).unwrap();
    let lox2 = migration::handle_response(st2, &resp2, &iss.lox_pub).unwrap();
    assert_eq!(lox2.trust_level, 1);
    assert_eq!(lox2.level_since, 1000);
    assert_eq!(lox2.invites_remaining, 0);
    assert_eq!(lox2.blockages, 0);
    // Bucket 7 migrates to bucket 100.
    let target = lox_core::cred::bucket_attr(100, &[100u8; 16]);
    assert_eq!(lox2.bucket.b, target.b);
    assert!(iss.verify_lox(&lox2));
}

#[test]
fn migration_replay_rejected() {
    let (db, mut iss) = test_issuer(1000);
    let lox = bootstrap(&db, &mut iss, 7);
    let (req, st) = trust_promotion::request(&lox, &iss.lox_pub).unwrap();
    let resp = trust_promotion::handle(&iss, &req).unwrap();
    let mig = trust_promotion::handle_response(st, &resp).unwrap();
    let (req2, _st2) = migration::request(&lox, &mig, &iss.lox_pub, &iss.migration_pub).unwrap();
    migration::handle(&mut iss, &req2).unwrap();
    // The id is now consumed: the same request and a fresh one both fail,
    // and so does a later trust promotion on the spent credential.
    assert_eq!(
        migration::handle(&mut iss, &req2).err(),
        Some(LoxError::VerificationFailure)
    );
    let (req3, _st3) = migration::request(&lox, &mig, &iss.lox_pub, &iss.migration_pub).unwrap();
    assert_eq!(
        migration::handle(&mut iss, &req3).err(),
        Some(LoxError::VerificationFailure)
    );
    let (req4, _st4) = trust_promotion::request(&lox, &iss.lox_pub).unwrap();
    assert_eq!(
        trust_promotion::handle(&iss, &req4).err(),
        Some(LoxError::VerificationFailure)
    );
}

#[test]
fn trust_promotion_wrong_level_rejected() {
    let (db, mut iss) = test_issuer(1000);
    let mut lox = bootstrap(&db, &mut iss, 7);
    lox.trust_level = 1;
    assert_eq!(
        trust_promotion::request(&lox, &iss.lox_pub).err(),
        Some(LoxError::InvalidField("trust_level", "must be 0"))
    );
}

#[test]
fn migration_mismatched_credentials_rejected() {
    let (db, mut iss) = test_issuer(1000);
    let lox = bootstrap(&db, &mut iss, 7);
    let other = bootstrap(&db, &mut iss, 8);
    let (req, st) = trust_promotion::request(&lox, &iss.lox_pub).unwrap();
    let resp = trust_promotion::handle(&iss, &req).unwrap();
    let mig = trust_promotion::handle_response(st, &resp).unwrap();
    // The Migration credential belongs to `lox`, not to `other`.
    assert_eq!(
        migration::request(&other, &mig, &iss.lox_pub, &iss.migration_pub).err(),
        Some(LoxError::CredentialMismatch)
    );
}

#[test]
fn migration_table_row_needs_matching_bucket() {
    let (db, mut iss) = test_issuer(1000);
    // Bucket 100 has no TrustUpgrade row.
    let lox = bootstrap(&db, &mut iss, 100);
    let (req, st) = trust_promotion::request(&lox, &iss.lox_pub).unwrap();
    let resp = trust_promotion::handle(&iss, &req).unwrap();
    assert_eq!(
        trust_promotion::handle_response(st, &resp).err(),
        Some(LoxError::InvalidField("bucket", "no migration for this bucket"))
    );
}
