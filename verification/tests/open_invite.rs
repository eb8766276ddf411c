use lox_core::cred::BridgeLine;
use lox_core::errors::LoxError;
use lox_core::issuer::{BridgeDb, BucketEntry, Issuer, MigEntry};
use lox_core::proto::open_invite;

fn bucket(bucket_id: u32) -> BucketEntry {
    BucketEntry {
        bucket_id,
        key: [bucket_id as u8; 16],
        lines: vec![BridgeLine {
            addr: [1; 16],
            port: 443,
            info: vec![b'b', b'r', b'i', b'd', b'g', b'e'],
        }],
    }
}

fn test_issuer(today: u32) -> (BridgeDb, Issuer) {
    let db = BridgeDb::new();
    let table = vec![bucket(7), bucket(8), bucket(9), bucket(100), bucket(101)];
    let trustup = vec![
        MigEntry { from: 7, to: 100 },
        MigEntry { from: 8, to: 100 },
        MigEntry { from: 9, to: 101 },
    ];
    let blockage = vec![MigEntry { from: 100, to: 101 }];
    let iss = Issuer::new(db.pubkey(), table, trustup, blockage, today);
    (db, iss)
}

#[test]
fn open_invite_bootstrap() {
    let (db, mut iss) = test_issuer(1000);
    let token = db.invite(7);
    let (req, st) = open_invite::request(&token).unwrap();
    let resp = open_invite::handle(&mut iss, &req).unwrap();
    let (lox, line) = open_invite::handle_response(st, &resp, &iss.lox_pub).unwrap();
    assert_eq!(lox.trust_level, 0);
    assert_eq!(lox.level_since, 1000);
    assert_eq!(lox.invites_remaining, 0);
    assert_eq!(lox.blockages, 0);
    assert!(iss.verify_lox(&lox));
    assert_eq!(line.port, 443);
}

#[test]
fn open_invite_replay_rejected() {
    let (db, mut iss) = test_issuer(1000);
    let token = db.invite(7);
    let (req, _st) = open_invite::request(&token).unwrap();
    open_invite::handle(&mut iss, &req).unwrap();
    let second = open_invite::handle(&mut iss, &req);
    assert_eq!(second.err(), Some(LoxError::VerificationFailure));
    // Even a fresh blinding of the same token is a replay.
    let (req2, _st2) = open_invite::request(&token).unwrap();
    assert_eq!(
        open_invite::handle(&mut iss, &req2).err(),
        Some(LoxError::VerificationFailure)
    );
}

#[test]
fn open_invite_tampered_request_rejected() {
    let (db, mut iss) = test_issuer(1000);
    let token = db.invite(7);
    let (mut req, _st) = open_invite::request(&token).unwrap();
    // Substitute one point of the request.
    req.enc_id.c1 = req.d_pub;
    assert_eq!(
        open_invite::handle(&mut iss, &req).err(),
        Some(LoxError::VerificationFailure)
    );
    // Flipping one bit of the challenge also breaks the proof.
    let (mut req2, _st2) = open_invite::request(&token).unwrap();
    req2.proof.c.b[0] ^= 1;
    assert_eq!(
        open_invite::handle(&mut iss, &req2).err(),
        Some(LoxError::VerificationFailure)
    );
}

#[test]
fn open_invite_tampered_response_rejected() {
    let (db, mut iss) = test_issuer(1000);
    let token = db.invite(7);
    let (req, st) = open_invite::request(&token).unwrap();
    let mut resp = open_invite::handle(&mut iss, &req).unwrap();
    // Substitute one point of the response: the user must refuse it.
    resp.issued.eq1 = resp.issued.eq0;
    assert_eq!(
        open_invite::handle_response(st, &resp, &iss.lox_pub).err(),
        Some(LoxError::VerificationFailure)
    );
}

#[test]
fn open_invite_unknown_bucket_rejected() {
    let (db, mut iss) = test_issuer(1000);
    let token = db.invite(4242);
    let (req, _st) = open_invite::request(&token).unwrap();
    assert_eq!(
        open_invite::handle(&mut iss, &req).err(),
        Some(LoxError::VerificationFailure)
    );
}

#[test]
fn open_invite_bad_signature_rejected() {
    let (db, mut iss) = test_issuer(1000);
    let mut token = db.invite(7);
    token[40] ^= 1;
    let (req, _st) = open_invite::request(&token).unwrap();
    assert_eq!(
        open_invite::handle(&mut iss, &req).err(),
        Some(LoxError::VerificationFailure)
    );
}

#[test]
fn open_invite_short_token_rejected() {
    let token = vec![0u8; 10];
    match open_invite::request(&token) {
        Err(LoxError::InvalidField(field, _)) => assert_eq!(field, "invite"),
        other => panic!("expected InvalidField, got {:?}", other.map(|_| ())),
    }
}
