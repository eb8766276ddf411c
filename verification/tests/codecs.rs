use lox_core::codec;
use lox_core::cred::{BridgeLine, bucket_attr, bucket_unpack};
use lox_core::issuer::{BridgeDb, BucketEntry, Issuer, MigEntry};
use lox_core::proto::{migration, open_invite, trust_promotion};

fn bucket(bucket_id: u32) -> BucketEntry {
    BucketEntry {
        bucket_id,
        key: [bucket_id as u8; 16],
        lines: vec![BridgeLine {
            addr: [1; 16],
            port: 443,
            info: vec![b'b'],
        }],
    }
}

fn test_issuer(today: u32) -> (BridgeDb, Issuer) {
    let db = BridgeDb::new();
    let table = vec![bucket(7), bucket(100)];
    let trustup = vec![MigEntry { from: 7, to: 100 }];
    let blockage = vec![MigEntry { from: 100, to: 7 }];
    let iss = Issuer::new(db.pubkey(), table, trustup, blockage, today);
    (db, iss)
}

#[test]
fn bucket_attribute_is_bijective() {
    let key = [0xabu8; 16];
    let attr = bucket_attr(0xdeadbeef, &key);
    let (id, key2) = bucket_unpack(&attr).unwrap();
    assert_eq!(id, 0xdeadbeef);
    assert_eq!(key2, key);
    // A scalar with non-zero high bytes is not a bucket attribute.
    let mut bad = attr;
    bad.b[25] = 1;
    assert!(bucket_unpack(&bad).is_none());
}

#[test]
fn lox_credential_round_trip() {
    let (db, mut iss) = test_issuer(1000);
    let token = db.invite(7);
    let (req, st) = open_invite::request(&token).unwrap();
    let resp = open_invite::handle(&mut iss, &req).unwrap();
    let (lox, _line) = open_invite::handle_response(st, &resp, &iss.lox_pub).unwrap();

    let bytes = codec::lox_encode(&lox);
    assert_eq!(bytes.len(), 144);
    let lox2 = codec::lox_decode(&bytes).unwrap();
    assert_eq!(lox2.p.b, lox.p.b);
    assert_eq!(lox2.q.b, lox.q.b);
    assert_eq!(lox2.id.b, lox.id.b);
    assert_eq!(lox2.bucket.b, lox.bucket.b);
    assert_eq!(lox2.trust_level, lox.trust_level);
    assert_eq!(lox2.level_since, lox.level_since);
    assert_eq!(lox2.invites_remaining, lox.invites_remaining);
    assert_eq!(lox2.blockages, lox.blockages);
    // The decoded credential still verifies.
    assert!(iss.verify_lox(&lox2));
    // A non-canonical point encoding is rejected, and so is a short input.
    let mut bad = bytes.clone();
    for i in 0..32 {
        bad[i] = 0xff;
    }
    assert!(codec::lox_decode(&bad).is_none());
    let short = bytes[..100].to_vec();
    assert!(codec::lox_decode(&short).is_none());
}

#[test]
fn migration_and_reachability_round_trip() {
    let (db, mut iss) = test_issuer(1000);
    let token = db.invite(7);
    let (req, st) = open_invite::request(&token).unwrap();
    let resp = open_invite::handle(&mut iss, &req).unwrap();
    let (lox, _line) = open_invite::handle_response(st, &resp, &iss.lox_pub).unwrap();
    let (req2, st2) = trust_promotion::request(&lox, &iss.lox_pub).unwrap();
    let resp2 = trust_promotion::handle(&iss, &req2).unwrap();
    let mig = trust_promotion::handle_response(st2, &resp2).unwrap();

    let mbytes = codec::migration_encode(&mig);
    assert_eq!(mbytes.len(), 164);
    let mig2 = codec::migration_decode(&mbytes).unwrap();
    assert_eq!(mig2.lox_id.b, mig.lox_id.b);
    assert_eq!(mig2.from_bucket.b, mig.from_bucket.b);
    assert_eq!(mig2.to_bucket.b, mig.to_bucket.b);
    assert_eq!(mig2.migration_type, mig.migration_type);
    assert!(iss.verify_migration(&mig2));

    let reach = iss.reachability_cred(7).unwrap();
    let rbytes = codec::reachability_encode(&reach);
    assert_eq!(rbytes.len(), 100);
    let reach2 = codec::reachability_decode(&rbytes).unwrap();
    assert_eq!(reach2.date, reach.date);
    assert_eq!(reach2.bucket.b, reach.bucket.b);
    assert!(iss.verify_reachability(&reach2));
}

#[test]
fn open_invite_wire_round_trip() {
    let (db, mut iss) = test_issuer(1000);
    let token = db.invite(7);
    let (req, st) = open_invite::request(&token).unwrap();

    let rb = codec::oi_request_encode(&req);
    assert_eq!(rb.len(), 324);
    let req2 = codec::oi_request_decode(&rb).unwrap();
    assert_eq!(req2.token, req.token);
    assert_eq!(req2.d_pub.b, req.d_pub.b);
    assert_eq!(req2.proof.c.b, req.proof.c.b);

    let sb = codec::oi_state_encode(&st);
    assert_eq!(sb.len(), 160);
    let st2 = codec::oi_state_decode(&sb).unwrap();
    assert_eq!(st2.d.b, st.d.b);
    assert_eq!(st2.id_client.b, st.id_client.b);

    // The decoded request is accepted by the issuer, and the decoded state
    // accepts the decoded response: wire round trips preserve the exchange.
    let resp = open_invite::handle(&mut iss, &req2).unwrap();
    let pb = codec::oi_response_encode(&resp);
    let resp2 = codec::oi_response_decode(&pb).unwrap();
    assert_eq!(resp2.id_server.b, resp.id_server.b);
    assert_eq!(resp2.bucket.b, resp.bucket.b);
    assert_eq!(resp2.level_since, resp.level_since);
    assert_eq!(resp2.bridge_line.port, resp.bridge_line.port);
    assert_eq!(resp2.bridge_line.info, resp.bridge_line.info);
    let (lox, _line) = open_invite::handle_response(st2, &resp2, &iss.lox_pub).unwrap();
    assert_eq!(lox.trust_level, 0);
    assert!(iss.verify_lox(&lox));

    // A truncated or oversized blob is rejected.
    assert!(codec::oi_request_decode(&rb[..300].to_vec()).is_none());
    assert!(codec::oi_response_decode(&pb[..900].to_vec()).is_none());
}

#[test]
fn migration_key_wire_round_trip() {
    let (db, mut iss) = test_issuer(1000);
    let token = db.invite(7);
    let (req, st) = open_invite::request(&token).unwrap();
    let resp = open_invite::handle(&mut iss, &req).unwrap();
    let (lox, _line) = open_invite::handle_response(st, &resp, &iss.lox_pub).unwrap();

    let (treq, tst) = trust_promotion::request(&lox, &iss.lox_pub).unwrap();
    let rb = codec::mk_request_encode(&treq);
    assert_eq!(rb.len(), 708);
    let treq2 = codec::mk_request_decode(&rb).unwrap();
    assert_eq!(treq2.id.b, treq.id.b);
    assert_eq!(treq2.trust_level, treq.trust_level);

    let sb = codec::mk_state_encode(&tst);
    assert_eq!(sb.len(), 96);
    let tst2 = codec::mk_state_decode(&sb).unwrap();
    assert_eq!(tst2.id.b, tst.id.b);
    assert_eq!(tst2.bucket.b, tst.bucket.b);

    // The decoded request is served, the response survives the wire, and
    // the decoded state still opens its row.
    let tresp = trust_promotion::handle(&iss, &treq2).unwrap();
    let pb = codec::mk_response_encode(&tresp);
    let tresp2 = codec::mk_response_decode(&pb).unwrap();
    assert_eq!(tresp2.pk.b, tresp.pk.b);
    assert_eq!(tresp2.table.len(), tresp.table.len());
    let mig = trust_promotion::handle_response(tst2, &tresp2).unwrap();
    assert!(iss.verify_migration(&mig));
    let (mreq, mst) = migration::request(&lox, &mig, &iss.lox_pub, &iss.migration_pub).unwrap();
    let mresp = migration::handle(&mut iss, &mreq).unwrap();
    let lox2 = migration::handle_response(mst, &mresp, &iss.lox_pub).unwrap();
    assert_eq!(lox2.trust_level, 1);

    // Truncation and a wrong row count are rejected.
    assert!(codec::mk_request_decode(&rb[..700].to_vec()).is_none());
    assert!(codec::mk_response_decode(&pb[..pb.len() - 1].to_vec()).is_none());
}
