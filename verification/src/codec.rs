//! Canonical byte encodings: a deterministic field-order serialization of
//! the credential records, with scalars and group elements as their 32-byte
//! canonical encodings and day numbers and counters as 4 little-endian
//! bytes.  Decoding rejects non-canonical point and scalar encodings, and
//! decoding an encoding returns the record unchanged.
use vstd::prelude::*;

use crate::cred::{BucketReachability, Invitation, Lox, Migration};
use crate::group::{pt_check, pt_ok_of, sc_check, sc_ok_of, Pt, Sc};
use crate::zkp::push_bytes32;

verus! {

/// Four little-endian bytes of a 32-bit value.
pub open spec fn u32_le4(x: u32) -> Seq<u8> {
    seq![
        (x & 0xff) as u8,
        ((x >> 8) & 0xff) as u8,
        ((x >> 16) & 0xff) as u8,
        ((x >> 24) & 0xff) as u8,
    ]
}

/// The 32-bit value four little-endian bytes carry.
pub open spec fn u32_from_le(s: Seq<u8>) -> u32 {
    ((s[0] as u32) | ((s[1] as u32) << 8) | ((s[2] as u32) << 16) | ((s[3] as u32) << 24)) as u32
}

/// Reading back four written bytes gives the value written.
pub proof fn lemma_u32_le_roundtrip(x: u32)
    ensures
        u32_from_le(u32_le4(x)) == x,
{
    assert((((x & 0xff) as u8) as u32) | (((((x >> 8) & 0xff) as u8) as u32) << 8) | (((((x >> 16)
        & 0xff) as u8) as u32) << 16) | (((((x >> 24) & 0xff) as u8) as u32) << 24) == x)
        by (bit_vector);
}

fn put_u32(out: &mut Vec<u8>, x: u32)
    ensures
        final(out)@ == old(out)@ + u32_le4(x),
{
    out.push(#[verifier::truncate] ((x & 0xff) as u8));
    out.push(#[verifier::truncate] (((x >> 8) & 0xff) as u8));
    out.push(#[verifier::truncate] (((x >> 16) & 0xff) as u8));
    out.push(#[verifier::truncate] (((x >> 24) & 0xff) as u8));
    proof {
        assert(out@ =~= old(out)@ + u32_le4(x));
    }
}

fn read32(b: &Vec<u8>, off: usize) -> (r: [u8; 32])
    requires
        off + 32 <= b@.len(),
    ensures
        r@ == b@.subrange(off as int, off + 32),
{
    let n = b.len();
    let mut out: [u8; 32] = [0u8; 32];
    let mut i: usize = 0;
    while i < 32
        invariant
            n == b@.len(),
            off + 32 <= n,
            i <= 32,
            out@.len() == 32,
            forall|k: int| 0 <= k < i ==> out@[k] == b@[off + k],
        decreases 32 - i,
    {
        out[i] = b[off + i];
        i += 1;
    }
    proof {
        assert(out@ =~= b@.subrange(off as int, off + 32));
    }
    out
}

fn read_u32(b: &Vec<u8>, off: usize) -> (r: u32)
    requires
        off + 4 <= b@.len(),
    ensures
        r == u32_from_le(b@.subrange(off as int, off + 4)),
{
    let n = b.len();
    assert(off + 4 <= n);
    let r = (b[off] as u32) | ((b[off + 1] as u32) << 8) | ((b[off + 2] as u32) << 16) | ((b[off
        + 3] as u32) << 24);
    proof {
        let s = b@.subrange(off as int, off + 4);
        assert(s[0] == b@[off as int] && s[1] == b@[off + 1] && s[2] == b@[off + 2] && s[3] == b@[
        off + 3]);
    }
    r
}

/// The encoding of a Lox credential: `P, Q, id, bucket` then the four
/// counters, 144 bytes.
pub open spec fn lox_enc_spec(c: Lox) -> Seq<u8> {
    c.p@ + c.q@ + c.id@ + c.bucket@ + u32_le4(c.trust_level) + u32_le4(c.level_since) + u32_le4(
        c.invites_remaining,
    ) + u32_le4(c.blockages)
}

/// Whether 144 bytes are a valid Lox encoding: the points and scalars are
/// canonical.
pub open spec fn lox_bytes_ok(b: Seq<u8>) -> bool {
    &&& b.len() == 144
    &&& pt_ok_of(b.subrange(0, 32))
    &&& pt_ok_of(b.subrange(32, 64))
    &&& sc_ok_of(b.subrange(64, 96))
    &&& sc_ok_of(b.subrange(96, 128))
}

/// How a Lox credential relates to bytes it was decoded from.
pub open spec fn lox_dec_rel(b: Seq<u8>, c: Lox) -> bool {
    &&& c.p@ == b.subrange(0, 32)
    &&& c.q@ == b.subrange(32, 64)
    &&& c.id@ == b.subrange(64, 96)
    &&& c.bucket@ == b.subrange(96, 128)
    &&& c.trust_level == u32_from_le(b.subrange(128, 132))
    &&& c.level_since == u32_from_le(b.subrange(132, 136))
    &&& c.invites_remaining == u32_from_le(b.subrange(136, 140))
    &&& c.blockages == u32_from_le(b.subrange(140, 144))
}

/// Serialize a Lox credential.
pub fn lox_encode(c: &Lox) -> (r: Vec<u8>)
    ensures
        r@ == lox_enc_spec(*c),
{
    let mut out: Vec<u8> = Vec::new();
    push_bytes32(&mut out, &c.p.b);
    push_bytes32(&mut out, &c.q.b);
    push_bytes32(&mut out, &c.id.b);
    push_bytes32(&mut out, &c.bucket.b);
    put_u32(&mut out, c.trust_level);
    put_u32(&mut out, c.level_since);
    put_u32(&mut out, c.invites_remaining);
    put_u32(&mut out, c.blockages);
    proof {
        assert(out@ =~= lox_enc_spec(*c));
    }
    out
}

/// Deserialize a Lox credential; succeeds exactly on valid encodings.
pub fn lox_decode(b: &Vec<u8>) -> (r: Option<Lox>)
    ensures
        r is Some <==> lox_bytes_ok(b@),
        r is Some ==> lox_dec_rel(b@, r.unwrap()),
{
    if b.len() != 144 {
        return None;
    }
    let p = read32(b, 0);
    let q = read32(b, 32);
    let id = read32(b, 64);
    let bucket = read32(b, 96);
    if !pt_check(&p) || !pt_check(&q) || !sc_check(&id) || !sc_check(&bucket) {
        return None;
    }
    Some(
        Lox {
            p: Pt { b: p },
            q: Pt { b: q },
            id: Sc { b: id },
            bucket: Sc { b: bucket },
            trust_level: read_u32(b, 128),
            level_since: read_u32(b, 132),
            invites_remaining: read_u32(b, 136),
            blockages: read_u32(b, 140),
        },
    )
}

/// Round trip: decoding an encoded Lox credential gives its fields back
/// unchanged, and the encoding is valid whenever the points and scalars
/// are canonical.
pub proof fn lemma_lox_roundtrip(c: Lox, c2: Lox)
    requires
        pt_ok_of(c.p@),
        pt_ok_of(c.q@),
        sc_ok_of(c.id@),
        sc_ok_of(c.bucket@),
        lox_dec_rel(lox_enc_spec(c), c2),
    ensures
        lox_bytes_ok(lox_enc_spec(c)),
        c2.p@ == c.p@,
        c2.q@ == c.q@,
        c2.id@ == c.id@,
        c2.bucket@ == c.bucket@,
        c2.trust_level == c.trust_level,
        c2.level_since == c.level_since,
        c2.invites_remaining == c.invites_remaining,
        c2.blockages == c.blockages,
{
    let b = lox_enc_spec(c);
    assert(b.subrange(0, 32) =~= c.p@);
    assert(b.subrange(32, 64) =~= c.q@);
    assert(b.subrange(64, 96) =~= c.id@);
    assert(b.subrange(96, 128) =~= c.bucket@);
    assert(b.subrange(128, 132) =~= u32_le4(c.trust_level));
    assert(b.subrange(132, 136) =~= u32_le4(c.level_since));
    assert(b.subrange(136, 140) =~= u32_le4(c.invites_remaining));
    assert(b.subrange(140, 144) =~= u32_le4(c.blockages));
    lemma_u32_le_roundtrip(c.trust_level);
    lemma_u32_le_roundtrip(c.level_since);
    lemma_u32_le_roundtrip(c.invites_remaining);
    lemma_u32_le_roundtrip(c.blockages);
}

/// The encoding of a Migration credential: `P, Q, lox_id, from, to, type`,
/// 164 bytes.
pub open spec fn migration_enc_spec(c: Migration) -> Seq<u8> {
    c.p@ + c.q@ + c.lox_id@ + c.from_bucket@ + c.to_bucket@ + u32_le4(c.migration_type)
}

pub open spec fn migration_bytes_ok(b: Seq<u8>) -> bool {
    &&& b.len() == 164
    &&& pt_ok_of(b.subrange(0, 32))
    &&& pt_ok_of(b.subrange(32, 64))
    &&& sc_ok_of(b.subrange(64, 96))
    &&& sc_ok_of(b.subrange(96, 128))
    &&& sc_ok_of(b.subrange(128, 160))
}

pub open spec fn migration_dec_rel(b: Seq<u8>, c: Migration) -> bool {
    &&& c.p@ == b.subrange(0, 32)
    &&& c.q@ == b.subrange(32, 64)
    &&& c.lox_id@ == b.subrange(64, 96)
    &&& c.from_bucket@ == b.subrange(96, 128)
    &&& c.to_bucket@ == b.subrange(128, 160)
    &&& c.migration_type == u32_from_le(b.subrange(160, 164))
}

/// Serialize a Migration credential.
pub fn migration_encode(c: &Migration) -> (r: Vec<u8>)
    ensures
        r@ == migration_enc_spec(*c),
{
    let mut out: Vec<u8> = Vec::new();
    push_bytes32(&mut out, &c.p.b);
    push_bytes32(&mut out, &c.q.b);
    push_bytes32(&mut out, &c.lox_id.b);
    push_bytes32(&mut out, &c.from_bucket.b);
    push_bytes32(&mut out, &c.to_bucket.b);
    put_u32(&mut out, c.migration_type);
    proof {
        assert(out@ =~= migration_enc_spec(*c));
    }
    out
}

/// Deserialize a Migration credential; succeeds exactly on valid encodings.
pub fn migration_decode(b: &Vec<u8>) -> (r: Option<Migration>)
    ensures
        r is Some <==> migration_bytes_ok(b@),
        r is Some ==> migration_dec_rel(b@, r.unwrap()),
{
    if b.len() != 164 {
        return None;
    }
    let p = read32(b, 0);
    let q = read32(b, 32);
    let lox_id = read32(b, 64);
    let from_bucket = read32(b, 96);
    let to_bucket = read32(b, 128);
    if !pt_check(&p) || !pt_check(&q) || !sc_check(&lox_id) || !sc_check(&from_bucket)
        || !sc_check(&to_bucket) {
        return None;
    }
    Some(
        Migration {
            p: Pt { b: p },
            q: Pt { b: q },
            lox_id: Sc { b: lox_id },
            from_bucket: Sc { b: from_bucket },
            to_bucket: Sc { b: to_bucket },
            migration_type: read_u32(b, 160),
        },
    )
}

/// Round trip for Migration credentials.
pub proof fn lemma_migration_roundtrip(c: Migration, c2: Migration)
    requires
        pt_ok_of(c.p@),
        pt_ok_of(c.q@),
        sc_ok_of(c.lox_id@),
        sc_ok_of(c.from_bucket@),
        sc_ok_of(c.to_bucket@),
        migration_dec_rel(migration_enc_spec(c), c2),
    ensures
        migration_bytes_ok(migration_enc_spec(c)),
        c2.p@ == c.p@,
        c2.q@ == c.q@,
        c2.lox_id@ == c.lox_id@,
        c2.from_bucket@ == c.from_bucket@,
        c2.to_bucket@ == c.to_bucket@,
        c2.migration_type == c.migration_type,
{
    let b = migration_enc_spec(c);
    assert(b.subrange(0, 32) =~= c.p@);
    assert(b.subrange(32, 64) =~= c.q@);
    assert(b.subrange(64, 96) =~= c.lox_id@);
    assert(b.subrange(96, 128) =~= c.from_bucket@);
    assert(b.subrange(128, 160) =~= c.to_bucket@);
    assert(b.subrange(160, 164) =~= u32_le4(c.migration_type));
    lemma_u32_le_roundtrip(c.migration_type);
}

/// The encoding of an Invitation credential: `P, Q, inv_id, bucket, date,
/// blockages`, 136 bytes.
pub open spec fn invitation_enc_spec(c: Invitation) -> Seq<u8> {
    c.p@ + c.q@ + c.inv_id@ + c.bucket@ + u32_le4(c.date) + u32_le4(c.blockages)
}

pub open spec fn invitation_bytes_ok(b: Seq<u8>) -> bool {
    &&& b.len() == 136
    &&& pt_ok_of(b.subrange(0, 32))
    &&& pt_ok_of(b.subrange(32, 64))
    &&& sc_ok_of(b.subrange(64, 96))
    &&& sc_ok_of(b.subrange(96, 128))
}

pub open spec fn invitation_dec_rel(b: Seq<u8>, c: Invitation) -> bool {
    &&& c.p@ == b.subrange(0, 32)
    &&& c.q@ == b.subrange(32, 64)
    &&& c.inv_id@ == b.subrange(64, 96)
    &&& c.bucket@ == b.subrange(96, 128)
    &&& c.date == u32_from_le(b.subrange(128, 132))
    &&& c.blockages == u32_from_le(b.subrange(132, 136))
}

/// Serialize an Invitation credential.
pub fn invitation_encode(c: &Invitation) -> (r: Vec<u8>)
    ensures
        r@ == invitation_enc_spec(*c),
{
    let mut out: Vec<u8> = Vec::new();
    push_bytes32(&mut out, &c.p.b);
    push_bytes32(&mut out, &c.q.b);
    push_bytes32(&mut out, &c.inv_id.b);
    push_bytes32(&mut out, &c.bucket.b);
    put_u32(&mut out, c.date);
    put_u32(&mut out, c.blockages);
    proof {
        assert(out@ =~= invitation_enc_spec(*c));
    }
    out
}

/// Deserialize an Invitation credential; succeeds exactly on valid
/// encodings.
pub fn invitation_decode(b: &Vec<u8>) -> (r: Option<Invitation>)
    ensures
        r is Some <==> invitation_bytes_ok(b@),
        r is Some ==> invitation_dec_rel(b@, r.unwrap()),
{
    if b.len() != 136 {
        return None;
    }
    let p = read32(b, 0);
    let q = read32(b, 32);
    let inv_id = read32(b, 64);
    let bucket = read32(b, 96);
    if !pt_check(&p) || !pt_check(&q) || !sc_check(&inv_id) || !sc_check(&bucket) {
        return None;
    }
    Some(
        Invitation {
            p: Pt { b: p },
            q: Pt { b: q },
            inv_id: Sc { b: inv_id },
            bucket: Sc { b: bucket },
            date: read_u32(b, 128),
            blockages: read_u32(b, 132),
        },
    )
}

/// Round trip for Invitation credentials.
pub proof fn lemma_invitation_roundtrip(c: Invitation, c2: Invitation)
    requires
        pt_ok_of(c.p@),
        pt_ok_of(c.q@),
        sc_ok_of(c.inv_id@),
        sc_ok_of(c.bucket@),
        invitation_dec_rel(invitation_enc_spec(c), c2),
    ensures
        invitation_bytes_ok(invitation_enc_spec(c)),
        c2.p@ == c.p@,
        c2.q@ == c.q@,
        c2.inv_id@ == c.inv_id@,
        c2.bucket@ == c.bucket@,
        c2.date == c.date,
        c2.blockages == c.blockages,
{
    let b = invitation_enc_spec(c);
    assert(b.subrange(0, 32) =~= c.p@);
    assert(b.subrange(32, 64) =~= c.q@);
    assert(b.subrange(64, 96) =~= c.inv_id@);
    assert(b.subrange(96, 128) =~= c.bucket@);
    assert(b.subrange(128, 132) =~= u32_le4(c.date));
    assert(b.subrange(132, 136) =~= u32_le4(c.blockages));
    lemma_u32_le_roundtrip(c.date);
    lemma_u32_le_roundtrip(c.blockages);
}

/// The encoding of a BucketReachability credential: `P, Q, bucket, date`,
/// 100 bytes.
pub open spec fn reachability_enc_spec(c: BucketReachability) -> Seq<u8> {
    c.p@ + c.q@ + c.bucket@ + u32_le4(c.date)
}

pub open spec fn reachability_bytes_ok(b: Seq<u8>) -> bool {
    &&& b.len() == 100
    &&& pt_ok_of(b.subrange(0, 32))
    &&& pt_ok_of(b.subrange(32, 64))
    &&& sc_ok_of(b.subrange(64, 96))
}

pub open spec fn reachability_dec_rel(b: Seq<u8>, c: BucketReachability) -> bool {
    &&& c.p@ == b.subrange(0, 32)
    &&& c.q@ == b.subrange(32, 64)
    &&& c.bucket@ == b.subrange(64, 96)
    &&& c.date == u32_from_le(b.subrange(96, 100))
}

/// Serialize a BucketReachability credential.
pub fn reachability_encode(c: &BucketReachability) -> (r: Vec<u8>)
    ensures
        r@ == reachability_enc_spec(*c),
{
    let mut out: Vec<u8> = Vec::new();
    push_bytes32(&mut out, &c.p.b);
    push_bytes32(&mut out, &c.q.b);
    push_bytes32(&mut out, &c.bucket.b);
    put_u32(&mut out, c.date);
    proof {
        assert(out@ =~= reachability_enc_spec(*c));
    }
    out
}

/// Deserialize a BucketReachability credential; succeeds exactly on valid
/// encodings.
pub fn reachability_decode(b: &Vec<u8>) -> (r: Option<BucketReachability>)
    ensures
        r is Some <==> reachability_bytes_ok(b@),
        r is Some ==> reachability_dec_rel(b@, r.unwrap()),
{
    if b.len() != 100 {
        return None;
    }
    let p = read32(b, 0);
    let q = read32(b, 32);
    let bucket = read32(b, 64);
    if !pt_check(&p) || !pt_check(&q) || !sc_check(&bucket) {
        return None;
    }
    Some(
        BucketReachability {
            p: Pt { b: p },
            q: Pt { b: q },
            bucket: Sc { b: bucket },
            date: read_u32(b, 96),
        },
    )
}

/// Round trip for BucketReachability credentials.
pub proof fn lemma_reachability_roundtrip(c: BucketReachability, c2: BucketReachability)
    requires
        pt_ok_of(c.p@),
        pt_ok_of(c.q@),
        sc_ok_of(c.bucket@),
        reachability_dec_rel(reachability_enc_spec(c), c2),
    ensures
        reachability_bytes_ok(reachability_enc_spec(c)),
        c2.p@ == c.p@,
        c2.q@ == c.q@,
        c2.bucket@ == c.bucket@,
        c2.date == c.date,
{
    let b = reachability_enc_spec(c);
    assert(b.subrange(0, 32) =~= c.p@);
    assert(b.subrange(32, 64) =~= c.q@);
    assert(b.subrange(64, 96) =~= c.bucket@);
    assert(b.subrange(96, 100) =~= u32_le4(c.date));
    lemma_u32_le_roundtrip(c.date);
}


/// Eight little-endian bytes of a 64-bit length.
pub open spec fn u64_from_le(s: Seq<u8>) -> u64 {
    ((s[0] as u64) | ((s[1] as u64) << 8) | ((s[2] as u64) << 16) | ((s[3] as u64) << 24) | ((
    s[4] as u64) << 32) | ((s[5] as u64) << 40) | ((s[6] as u64) << 48) | ((s[7] as u64) << 56))
        as u64
}

/// Reading back eight written bytes gives the value written.
pub proof fn lemma_u64_le_roundtrip(x: u64)
    ensures
        u64_from_le(crate::zkp::u64_le(x)) == x,
{
    assert((((x & 0xff) as u8) as u64) | (((((x >> 8) & 0xff) as u8) as u64) << 8) | (((((x >> 16)
        & 0xff) as u8) as u64) << 16) | (((((x >> 24) & 0xff) as u8) as u64) << 24) | (((((x >> 32)
        & 0xff) as u8) as u64) << 32) | (((((x >> 40) & 0xff) as u8) as u64) << 40) | (((((x >> 48)
        & 0xff) as u8) as u64) << 48) | (((((x >> 56) & 0xff) as u8) as u64) << 56) == x)
        by (bit_vector);
}

fn put_u64(out: &mut Vec<u8>, x: u64)
    ensures
        final(out)@ == old(out)@ + crate::zkp::u64_le(x),
{
    out.push(#[verifier::truncate] ((x & 0xff) as u8));
    out.push(#[verifier::truncate] (((x >> 8) & 0xff) as u8));
    out.push(#[verifier::truncate] (((x >> 16) & 0xff) as u8));
    out.push(#[verifier::truncate] (((x >> 24) & 0xff) as u8));
    out.push(#[verifier::truncate] (((x >> 32) & 0xff) as u8));
    out.push(#[verifier::truncate] (((x >> 40) & 0xff) as u8));
    out.push(#[verifier::truncate] (((x >> 48) & 0xff) as u8));
    out.push(#[verifier::truncate] (((x >> 56) & 0xff) as u8));
    proof {
        assert(out@ =~= old(out)@ + crate::zkp::u64_le(x));
    }
}

fn read_u64(b: &Vec<u8>, off: usize) -> (r: u64)
    requires
        off + 8 <= b@.len(),
    ensures
        r == u64_from_le(b@.subrange(off as int, off + 8)),
{
    let n = b.len();
    assert(off + 8 <= n);
    let r = (b[off] as u64) | ((b[off + 1] as u64) << 8) | ((b[off + 2] as u64) << 16) | ((b[off
        + 3] as u64) << 24) | ((b[off + 4] as u64) << 32) | ((b[off + 5] as u64) << 40) | ((b[off
        + 6] as u64) << 48) | ((b[off + 7] as u64) << 56);
    proof {
        let s = b@.subrange(off as int, off + 8);
        assert(s[0] == b@[off as int] && s[1] == b@[off + 1] && s[2] == b@[off + 2] && s[3] == b@[
        off + 3] && s[4] == b@[off + 4] && s[5] == b@[off + 5] && s[6] == b@[off + 6] && s[7]
            == b@[off + 7]);
    }
    r
}

/// The concatenation of 32-byte strings has 32 bytes per element, and the
/// `i`-th element sits at offset `32*i`.
pub proof fn lemma_cat32_slice(s: Seq<Seq<u8>>, i: int)
    requires
        forall|k: int| 0 <= k < s.len() ==> (#[trigger] s[k]).len() == 32,
    ensures
        crate::zkp::cat_of(s).len() == 32 * s.len(),
        0 <= i < s.len() ==> crate::zkp::cat_of(s).subrange(32 * i, 32 * i + 32) == s[i],
    decreases s.len(),
{
    if s.len() > 0 {
        lemma_cat32_slice(s.drop_last(), i);
        assert(crate::zkp::cat_of(s) == crate::zkp::cat_of(s.drop_last()) + s.last());
        if 0 <= i < s.len() {
            if i < s.len() - 1 {
                assert(crate::zkp::cat_of(s).subrange(32 * i, 32 * i + 32) =~= crate::zkp::cat_of(
                    s.drop_last(),
                ).subrange(32 * i, 32 * i + 32));
            } else {
                assert(crate::zkp::cat_of(s).subrange(32 * i, 32 * i + 32) =~= s.last());
            }
        }
    }
}

fn put_scs(out: &mut Vec<u8>, v: &Vec<Sc>)
    ensures
        final(out)@ == old(out)@ + crate::zkp::cat_of(crate::zkp::scs_view(v@)),
{
    let ghost pre = out@;
    proof {
        assert(out@ =~= pre + crate::zkp::cat_of(crate::zkp::scs_view(v@).take(0)));
    }
    let mut i: usize = 0;
    while i < v.len()
        invariant
            i <= v@.len(),
            out@ == pre + crate::zkp::cat_of(crate::zkp::scs_view(v@).take(i as int)),
        decreases v@.len() - i,
    {
        push_bytes32(out, &v[i].b);
        proof {
            let m = crate::zkp::scs_view(v@);
            assert(m.take(i + 1).drop_last() =~= m.take(i as int));
            assert(m.take(i + 1).last() == v@[i as int]@);
            assert(out@ =~= pre + crate::zkp::cat_of(m.take(i + 1)));
        }
        i += 1;
    }
    proof {
        assert(crate::zkp::scs_view(v@).take(v@.len() as int) =~= crate::zkp::scs_view(v@));
    }
}

fn put_pts(out: &mut Vec<u8>, v: &Vec<Pt>)
    ensures
        final(out)@ == old(out)@ + crate::zkp::cat_of(crate::zkp::pts_view(v@)),
{
    let ghost pre = out@;
    proof {
        assert(out@ =~= pre + crate::zkp::cat_of(crate::zkp::pts_view(v@).take(0)));
    }
    let mut i: usize = 0;
    while i < v.len()
        invariant
            i <= v@.len(),
            out@ == pre + crate::zkp::cat_of(crate::zkp::pts_view(v@).take(i as int)),
        decreases v@.len() - i,
    {
        push_bytes32(out, &v[i].b);
        proof {
            let m = crate::zkp::pts_view(v@);
            assert(m.take(i + 1).drop_last() =~= m.take(i as int));
            assert(m.take(i + 1).last() == v@[i as int]@);
            assert(out@ =~= pre + crate::zkp::cat_of(m.take(i + 1)));
        }
        i += 1;
    }
    proof {
        assert(crate::zkp::pts_view(v@).take(v@.len() as int) =~= crate::zkp::pts_view(v@));
    }
}

/// Read `count` canonical scalars from offset `off`; succeeds exactly when
/// every one is canonical.
fn read_sc_vec(b: &Vec<u8>, off: usize, count: usize) -> (r: Option<Vec<Sc>>)
    requires
        off + 32 * count <= b@.len(),
    ensures
        match r {
            Some(v) => {
                &&& v@.len() == count
                &&& forall|i: int|
                    0 <= i < count ==> (#[trigger] v@[i])@ == b@.subrange(
                        off + 32 * i,
                        off + 32 * i + 32,
                    ) && sc_ok_of(v@[i]@)
            },
            None => exists|i: int|
                0 <= i < count && !sc_ok_of(#[trigger] b@.subrange(off + 32 * i, off + 32 * i + 32)),
        },
{
    let n = b.len();
    let mut v: Vec<Sc> = Vec::new();
    let mut i: usize = 0;
    while i < count
        invariant
            n == b@.len(),
            off + 32 * count <= n,
            i <= count,
            v@.len() == i,
            forall|k: int|
                0 <= k < i ==> (#[trigger] v@[k])@ == b@.subrange(off + 32 * k, off + 32 * k + 32)
                    && sc_ok_of(v@[k]@),
        decreases count - i,
    {
        let sb = read32(b, off + 32 * i);
        if !sc_check(&sb) {
            proof {
                assert(!sc_ok_of(b@.subrange(off + 32 * (i as int), off + 32 * (i as int) + 32)));
            }
            return None;
        }
        v.push(Sc { b: sb });
        i += 1;
    }
    Some(v)
}

/// Read `count` canonical group elements from offset `off`; succeeds
/// exactly when every one decodes.
fn read_pt_vec(b: &Vec<u8>, off: usize, count: usize) -> (r: Option<Vec<Pt>>)
    requires
        off + 32 * count <= b@.len(),
    ensures
        match r {
            Some(v) => {
                &&& v@.len() == count
                &&& forall|i: int|
                    0 <= i < count ==> (#[trigger] v@[i])@ == b@.subrange(
                        off + 32 * i,
                        off + 32 * i + 32,
                    ) && pt_ok_of(v@[i]@)
            },
            None => exists|i: int|
                0 <= i < count && !pt_ok_of(#[trigger] b@.subrange(off + 32 * i, off + 32 * i + 32)),
        },
{
    let n = b.len();
    let mut v: Vec<Pt> = Vec::new();
    let mut i: usize = 0;
    while i < count
        invariant
            n == b@.len(),
            off + 32 * count <= n,
            i <= count,
            v@.len() == i,
            forall|k: int|
                0 <= k < i ==> (#[trigger] v@[k])@ == b@.subrange(off + 32 * k, off + 32 * k + 32)
                    && pt_ok_of(v@[k]@),
        decreases count - i,
    {
        let pb = read32(b, off + 32 * i);
        if !pt_check(&pb) {
            proof {
                assert(!pt_ok_of(b@.subrange(off + 32 * (i as int), off + 32 * (i as int) + 32)));
            }
            return None;
        }
        v.push(Pt { b: pb });
        i += 1;
    }
    Some(v)
}


/// Two little-endian bytes of a port number.
pub open spec fn u16_le2(x: u16) -> Seq<u8> {
    seq![(x & 0xff) as u8, ((x >> 8) & 0xff) as u8]
}

pub open spec fn u16_from_le(s: Seq<u8>) -> u16 {
    ((s[0] as u16) | ((s[1] as u16) << 8)) as u16
}

pub proof fn lemma_u16_le_roundtrip(x: u16)
    ensures
        u16_from_le(u16_le2(x)) == x,
{
    assert((((x & 0xff) as u8) as u16) | (((((x >> 8) & 0xff) as u8) as u16) << 8) == x)
        by (bit_vector);
}

fn put_u16(out: &mut Vec<u8>, x: u16)
    ensures
        final(out)@ == old(out)@ + u16_le2(x),
{
    out.push(#[verifier::truncate] ((x & 0xff) as u8));
    out.push(#[verifier::truncate] (((x >> 8) & 0xff) as u8));
    proof {
        assert(out@ =~= old(out)@ + u16_le2(x));
    }
}

fn read_u16(b: &Vec<u8>, off: usize) -> (r: u16)
    requires
        off + 2 <= b@.len(),
    ensures
        r == u16_from_le(b@.subrange(off as int, off + 2)),
{
    let n = b.len();
    assert(off + 2 <= n);
    let r = (b[off] as u16) | ((b[off + 1] as u16) << 8);
    proof {
        let s = b@.subrange(off as int, off + 2);
        assert(s[0] == b@[off as int] && s[1] == b@[off + 1]);
    }
    r
}

fn put_bytes(out: &mut Vec<u8>, v: &Vec<u8>)
    ensures
        final(out)@ == old(out)@ + v@,
{
    let mut i: usize = 0;
    while i < v.len()
        invariant
            i <= v@.len(),
            out@ == old(out)@ + v@.take(i as int),
        decreases v@.len() - i,
    {
        out.push(v[i]);
        proof {
            assert(v@.take(i + 1) =~= v@.take(i as int).push(v@[i as int]));
        }
        i += 1;
    }
    proof {
        assert(v@.take(v@.len() as int) =~= v@);
    }
}

fn push_bytes16(out: &mut Vec<u8>, b: &[u8; 16])
    ensures
        final(out)@ == old(out)@ + b@,
{
    let mut i: usize = 0;
    while i < 16
        invariant
            i <= 16,
            out@ == old(out)@ + b@.take(i as int),
        decreases 16 - i,
    {
        out.push(b[i]);
        proof {
            assert(b@.take(i + 1) =~= b@.take(i as int).push(b@[i as int]));
        }
        i += 1;
    }
    proof {
        assert(b@.take(16) =~= b@);
    }
}

fn read16(b: &Vec<u8>, off: usize) -> (r: [u8; 16])
    requires
        off + 16 <= b@.len(),
    ensures
        r@ == b@.subrange(off as int, off + 16),
{
    let n = b.len();
    let mut out: [u8; 16] = [0u8; 16];
    let mut i: usize = 0;
    while i < 16
        invariant
            n == b@.len(),
            off + 16 <= n,
            i <= 16,
            out@.len() == 16,
            forall|k: int| 0 <= k < i ==> out@[k] == b@[off + k],
        decreases 16 - i,
    {
        out[i] = b[off + i];
        i += 1;
    }
    proof {
        assert(out@ =~= b@.subrange(off as int, off + 16));
    }
    out
}

/// The encoding of a bootstrap request: the token, the ephemeral key, the
/// encrypted id share, and the compact proof, 324 bytes.
pub open spec fn oi_request_enc_spec(req: crate::proto::open_invite::Request) -> Seq<u8> {
    req.token@ + req.d_pub@ + req.enc_id.c0@ + req.enc_id.c1@ + req.proof.c@ + crate::zkp::cat_of(
        crate::zkp::scs_view(req.proof.zs@),
    )
}

pub open spec fn oi_request_bytes_ok(b: Seq<u8>) -> bool {
    &&& b.len() == 324
    &&& pt_ok_of(b.subrange(100, 132))
    &&& pt_ok_of(b.subrange(132, 164))
    &&& pt_ok_of(b.subrange(164, 196))
    &&& sc_ok_of(b.subrange(196, 228))
    &&& forall|i: int| 0 <= i < 3 ==> sc_ok_of(#[trigger] b.subrange(228 + 32 * i, 228 + 32 * i + 32))
}

pub open spec fn oi_request_dec_rel(b: Seq<u8>, req: crate::proto::open_invite::Request) -> bool {
    &&& req.token@ == b.subrange(0, 100)
    &&& req.d_pub@ == b.subrange(100, 132)
    &&& req.enc_id.c0@ == b.subrange(132, 164)
    &&& req.enc_id.c1@ == b.subrange(164, 196)
    &&& req.proof.c@ == b.subrange(196, 228)
    &&& req.proof.zs@.len() == 3
    &&& forall|i: int|
        0 <= i < 3 ==> (#[trigger] req.proof.zs@[i])@ == b.subrange(228 + 32 * i, 228 + 32 * i + 32)
}

/// Serialize a bootstrap request.
pub fn oi_request_encode(req: &crate::proto::open_invite::Request) -> (r: Vec<u8>)
    ensures
        r@ == oi_request_enc_spec(*req),
{
    let mut out: Vec<u8> = Vec::new();
    put_bytes(&mut out, &req.token);
    push_bytes32(&mut out, &req.d_pub.b);
    push_bytes32(&mut out, &req.enc_id.c0.b);
    push_bytes32(&mut out, &req.enc_id.c1.b);
    push_bytes32(&mut out, &req.proof.c.b);
    put_scs(&mut out, &req.proof.zs);
    proof {
        assert(out@ =~= oi_request_enc_spec(*req));
    }
    out
}

/// Deserialize a bootstrap request; succeeds exactly on valid encodings.
pub fn oi_request_decode(b: &Vec<u8>) -> (r: Option<crate::proto::open_invite::Request>)
    ensures
        r is Some <==> oi_request_bytes_ok(b@),
        r is Some ==> oi_request_dec_rel(b@, r.unwrap()),
{
    if b.len() != 324 {
        return None;
    }
    let d_pub = read32(b, 100);
    let c0 = read32(b, 132);
    let c1 = read32(b, 164);
    let c = read32(b, 196);
    if !pt_check(&d_pub) || !pt_check(&c0) || !pt_check(&c1) || !sc_check(&c) {
        return None;
    }
    let zs = match read_sc_vec(b, 228, 3) {
        Some(v) => v,
        None => {
            return None;
        },
    };
    let mut token: Vec<u8> = Vec::new();
    let mut i: usize = 0;
    while i < 100
        invariant
            b@.len() == 324,
            i <= 100,
            token@ == b@.subrange(0, i as int),
        decreases 100 - i,
    {
        token.push(b[i]);
        proof {
            assert(b@.subrange(0, i + 1) =~= b@.subrange(0, i as int).push(b@[i as int]));
        }
        i += 1;
    }
    proof {
        assert forall|i: int| 0 <= i < 3 implies sc_ok_of(
            #[trigger] b@.subrange(228 + 32 * i, 228 + 32 * i + 32),
        ) by {
            assert(zs@[i]@ == b@.subrange(228 + 32 * i, 228 + 32 * i + 32));
        }
    }
    Some(
        crate::proto::open_invite::Request {
            token,
            d_pub: Pt { b: d_pub },
            enc_id: crate::issuance::EncAttr { c0: Pt { b: c0 }, c1: Pt { b: c1 } },
            proof: crate::zkp::CompactProof { c: Sc { b: c }, zs },
        },
    )
}

/// Round trip for bootstrap requests with the normative token length and
/// one response per request secret.
pub proof fn lemma_oi_request_roundtrip(
    req: crate::proto::open_invite::Request,
    req2: crate::proto::open_invite::Request,
)
    requires
        req.token@.len() == 100,
        req.proof.zs@.len() == 3,
        pt_ok_of(req.d_pub@),
        pt_ok_of(req.enc_id.c0@),
        pt_ok_of(req.enc_id.c1@),
        sc_ok_of(req.proof.c@),
        forall|i: int| 0 <= i < 3 ==> sc_ok_of((#[trigger] req.proof.zs@[i])@),
        oi_request_dec_rel(oi_request_enc_spec(req), req2),
    ensures
        oi_request_bytes_ok(oi_request_enc_spec(req)),
        req2.token@ == req.token@,
        req2.d_pub@ == req.d_pub@,
        req2.enc_id.c0@ == req.enc_id.c0@,
        req2.enc_id.c1@ == req.enc_id.c1@,
        req2.proof.c@ == req.proof.c@,
        req2.proof.zs@.len() == req.proof.zs@.len(),
        forall|i: int| 0 <= i < 3 ==> (#[trigger] req2.proof.zs@[i])@ == req.proof.zs@[i]@,
{
    let b = oi_request_enc_spec(req);
    let zv = crate::zkp::scs_view(req.proof.zs@);
    assert(forall|k: int| 0 <= k < zv.len() ==> (#[trigger] zv[k]).len() == 32);
    lemma_cat32_slice(zv, 0);
    assert(b.subrange(0, 100) =~= req.token@);
    assert(b.subrange(100, 132) =~= req.d_pub@);
    assert(b.subrange(132, 164) =~= req.enc_id.c0@);
    assert(b.subrange(164, 196) =~= req.enc_id.c1@);
    assert(b.subrange(196, 228) =~= req.proof.c@);
    assert forall|i: int| 0 <= i < 3 implies #[trigger] b.subrange(
        228 + 32 * i,
        228 + 32 * i + 32,
    ) == req.proof.zs@[i]@ by {
        lemma_cat32_slice(zv, i);
        assert(b.subrange(228 + 32 * i, 228 + 32 * i + 32) =~= crate::zkp::cat_of(zv).subrange(
            32 * i,
            32 * i + 32,
        ));
    }
}

/// The encoding of the pending bootstrap state: the decryption key, the
/// ephemeral public key, the client id share and its encryption, 160 bytes.
pub open spec fn oi_state_enc_spec(st: crate::proto::open_invite::State) -> Seq<u8> {
    st.d@ + st.d_pub@ + st.id_client@ + st.enc_id.c0@ + st.enc_id.c1@
}

pub open spec fn oi_state_bytes_ok(b: Seq<u8>) -> bool {
    &&& b.len() == 160
    &&& sc_ok_of(b.subrange(0, 32))
    &&& pt_ok_of(b.subrange(32, 64))
    &&& sc_ok_of(b.subrange(64, 96))
    &&& pt_ok_of(b.subrange(96, 128))
    &&& pt_ok_of(b.subrange(128, 160))
}

pub open spec fn oi_state_dec_rel(b: Seq<u8>, st: crate::proto::open_invite::State) -> bool {
    &&& st.d@ == b.subrange(0, 32)
    &&& st.d_pub@ == b.subrange(32, 64)
    &&& st.id_client@ == b.subrange(64, 96)
    &&& st.enc_id.c0@ == b.subrange(96, 128)
    &&& st.enc_id.c1@ == b.subrange(128, 160)
}

/// Serialize a pending bootstrap state.
pub fn oi_state_encode(st: &crate::proto::open_invite::State) -> (r: Vec<u8>)
    ensures
        r@ == oi_state_enc_spec(*st),
{
    let mut out: Vec<u8> = Vec::new();
    push_bytes32(&mut out, &st.d.b);
    push_bytes32(&mut out, &st.d_pub.b);
    push_bytes32(&mut out, &st.id_client.b);
    push_bytes32(&mut out, &st.enc_id.c0.b);
    push_bytes32(&mut out, &st.enc_id.c1.b);
    proof {
        assert(out@ =~= oi_state_enc_spec(*st));
    }
    out
}

/// Deserialize a pending bootstrap state; succeeds exactly on valid
/// encodings.
pub fn oi_state_decode(b: &Vec<u8>) -> (r: Option<crate::proto::open_invite::State>)
    ensures
        r is Some <==> oi_state_bytes_ok(b@),
        r is Some ==> oi_state_dec_rel(b@, r.unwrap()),
{
    if b.len() != 160 {
        return None;
    }
    let d = read32(b, 0);
    let d_pub = read32(b, 32);
    let id_client = read32(b, 64);
    let c0 = read32(b, 96);
    let c1 = read32(b, 128);
    if !sc_check(&d) || !pt_check(&d_pub) || !sc_check(&id_client) || !pt_check(&c0) || !pt_check(
        &c1,
    ) {
        return None;
    }
    Some(
        crate::proto::open_invite::State {
            d: Sc { b: d },
            d_pub: Pt { b: d_pub },
            id_client: Sc { b: id_client },
            enc_id: crate::issuance::EncAttr { c0: Pt { b: c0 }, c1: Pt { b: c1 } },
        },
    )
}

/// Round trip for pending bootstrap states.
pub proof fn lemma_oi_state_roundtrip(
    st: crate::proto::open_invite::State,
    st2: crate::proto::open_invite::State,
)
    requires
        sc_ok_of(st.d@),
        pt_ok_of(st.d_pub@),
        sc_ok_of(st.id_client@),
        pt_ok_of(st.enc_id.c0@),
        pt_ok_of(st.enc_id.c1@),
        oi_state_dec_rel(oi_state_enc_spec(st), st2),
    ensures
        oi_state_bytes_ok(oi_state_enc_spec(st)),
        st2.d@ == st.d@,
        st2.d_pub@ == st.d_pub@,
        st2.id_client@ == st.id_client@,
        st2.enc_id.c0@ == st.enc_id.c0@,
        st2.enc_id.c1@ == st.enc_id.c1@,
{
    let b = oi_state_enc_spec(st);
    assert(b.subrange(0, 32) =~= st.d@);
    assert(b.subrange(32, 64) =~= st.d_pub@);
    assert(b.subrange(64, 96) =~= st.id_client@);
    assert(b.subrange(96, 128) =~= st.enc_id.c0@);
    assert(b.subrange(128, 160) =~= st.enc_id.c1@);
}


/// The encoding of a bootstrap response: the issuer's id share, the bucket
/// attribute, the date, the blind issuance (base, encrypted MAC, helper
/// points, proof), and the bridge line, 926 bytes plus the line's info.
pub open spec fn oi_response_enc_spec(resp: crate::proto::open_invite::Response) -> Seq<u8> {
    resp.id_server@ + resp.bucket@ + u32_le4(resp.level_since) + resp.issued.p@ + resp.issued.eq0@
        + resp.issued.eq1@ + crate::zkp::cat_of(crate::zkp::pts_view(resp.issued.ts@))
        + resp.issued.proof.c@ + crate::zkp::cat_of(crate::zkp::scs_view(resp.issued.proof.zs@))
        + resp.bridge_line.addr@ + u16_le2(resp.bridge_line.port) + crate::zkp::u64_le(
        resp.bridge_line.info@.len() as u64,
    ) + resp.bridge_line.info@
}

pub open spec fn oi_response_bytes_ok(b: Seq<u8>) -> bool {
    &&& b.len() >= 926
    &&& sc_ok_of(b.subrange(0, 32))
    &&& sc_ok_of(b.subrange(32, 64))
    &&& pt_ok_of(b.subrange(68, 100))
    &&& pt_ok_of(b.subrange(100, 132))
    &&& pt_ok_of(b.subrange(132, 164))
    &&& forall|i: int| 0 <= i < 6 ==> pt_ok_of(#[trigger] b.subrange(164 + 32 * i, 164 + 32 * i + 32))
    &&& sc_ok_of(b.subrange(356, 388))
    &&& forall|i: int|
        0 <= i < 16 ==> sc_ok_of(#[trigger] b.subrange(388 + 32 * i, 388 + 32 * i + 32))
    &&& u64_from_le(b.subrange(918, 926)) == b.len() - 926
}

pub open spec fn oi_response_dec_rel(b: Seq<u8>, resp: crate::proto::open_invite::Response) -> bool {
    &&& resp.id_server@ == b.subrange(0, 32)
    &&& resp.bucket@ == b.subrange(32, 64)
    &&& resp.level_since == u32_from_le(b.subrange(64, 68))
    &&& resp.issued.p@ == b.subrange(68, 100)
    &&& resp.issued.eq0@ == b.subrange(100, 132)
    &&& resp.issued.eq1@ == b.subrange(132, 164)
    &&& resp.issued.ts@.len() == 6
    &&& forall|i: int|
        0 <= i < 6 ==> (#[trigger] resp.issued.ts@[i])@ == b.subrange(
            164 + 32 * i,
            164 + 32 * i + 32,
        )
    &&& resp.issued.proof.c@ == b.subrange(356, 388)
    &&& resp.issued.proof.zs@.len() == 16
    &&& forall|i: int|
        0 <= i < 16 ==> (#[trigger] resp.issued.proof.zs@[i])@ == b.subrange(
            388 + 32 * i,
            388 + 32 * i + 32,
        )
    &&& resp.bridge_line.addr@ == b.subrange(900, 916)
    &&& resp.bridge_line.port == u16_from_le(b.subrange(916, 918))
    &&& resp.bridge_line.info@ == b.subrange(926, b.len() as int)
}

/// Serialize a bootstrap response.
pub fn oi_response_encode(resp: &crate::proto::open_invite::Response) -> (r: Vec<u8>)
    ensures
        r@ == oi_response_enc_spec(*resp),
{
    let mut out: Vec<u8> = Vec::new();
    push_bytes32(&mut out, &resp.id_server.b);
    push_bytes32(&mut out, &resp.bucket.b);
    put_u32(&mut out, resp.level_since);
    push_bytes32(&mut out, &resp.issued.p.b);
    push_bytes32(&mut out, &resp.issued.eq0.b);
    push_bytes32(&mut out, &resp.issued.eq1.b);
    put_pts(&mut out, &resp.issued.ts);
    push_bytes32(&mut out, &resp.issued.proof.c.b);
    put_scs(&mut out, &resp.issued.proof.zs);
    push_bytes16(&mut out, &resp.bridge_line.addr);
    put_u16(&mut out, resp.bridge_line.port);
    put_u64(&mut out, resp.bridge_line.info.len() as u64);
    put_bytes(&mut out, &resp.bridge_line.info);
    proof {
        assert(out@ =~= oi_response_enc_spec(*resp));
    }
    out
}

/// Deserialize a bootstrap response; succeeds exactly on valid encodings.
pub fn oi_response_decode(b: &Vec<u8>) -> (r: Option<crate::proto::open_invite::Response>)
    ensures
        r is Some <==> oi_response_bytes_ok(b@),
        r is Some ==> oi_response_dec_rel(b@, r.unwrap()),
{
    let n = b.len();
    if n < 926 {
        return None;
    }
    let id_server = read32(b, 0);
    let bucket = read32(b, 32);
    let level_since = read_u32(b, 64);
    let p = read32(b, 68);
    let eq0 = read32(b, 100);
    let eq1 = read32(b, 132);
    let c = read32(b, 356);
    if !sc_check(&id_server) || !sc_check(&bucket) || !pt_check(&p) || !pt_check(&eq0)
        || !pt_check(&eq1) || !sc_check(&c) {
        return None;
    }
    let ts = match read_pt_vec(b, 164, 6) {
        Some(v) => v,
        None => {
            return None;
        },
    };
    let zs = match read_sc_vec(b, 388, 16) {
        Some(v) => v,
        None => {
            return None;
        },
    };
    let info_len = read_u64(b, 918);
    if info_len != (n - 926) as u64 {
        proof {
            assert(u64_from_le(b@.subrange(918, 926)) != b@.len() - 926);
        }
        return None;
    }
    let addr = read16(b, 900);
    let port = read_u16(b, 916);
    let mut info: Vec<u8> = Vec::new();
    let mut i: usize = 926;
    while i < n
        invariant
            n == b@.len(),
            926 <= i <= n,
            info@ == b@.subrange(926, i as int),
        decreases n - i,
    {
        info.push(b[i]);
        proof {
            assert(b@.subrange(926, i + 1) =~= b@.subrange(926, i as int).push(b@[i as int]));
        }
        i += 1;
    }
    proof {
        assert forall|k: int| 0 <= k < 6 implies pt_ok_of(
            #[trigger] b@.subrange(164 + 32 * k, 164 + 32 * k + 32),
        ) by {
            assert(ts@[k]@ == b@.subrange(164 + 32 * k, 164 + 32 * k + 32));
        }
        assert forall|k: int| 0 <= k < 16 implies sc_ok_of(
            #[trigger] b@.subrange(388 + 32 * k, 388 + 32 * k + 32),
        ) by {
            assert(zs@[k]@ == b@.subrange(388 + 32 * k, 388 + 32 * k + 32));
        }
    }
    Some(
        crate::proto::open_invite::Response {
            id_server: Sc { b: id_server },
            bucket: Sc { b: bucket },
            level_since,
            issued: crate::issuance::BlindIssued {
                p: Pt { b: p },
                eq0: Pt { b: eq0 },
                eq1: Pt { b: eq1 },
                ts,
                proof: crate::zkp::CompactProof { c: Sc { b: c }, zs },
            },
            bridge_line: crate::cred::BridgeLine { addr, port, info },
        },
    )
}

/// Round trip for bootstrap responses with the fixed helper-point and
/// response counts of this protocol's issuance.
#[verifier::rlimit(80)]
pub proof fn lemma_oi_response_roundtrip(
    resp: crate::proto::open_invite::Response,
    resp2: crate::proto::open_invite::Response,
)
    requires
        resp.issued.ts@.len() == 6,
        resp.issued.proof.zs@.len() == 16,
        resp.bridge_line.info@.len() <= 0xffffffffffffffff,
        sc_ok_of(resp.id_server@),
        sc_ok_of(resp.bucket@),
        pt_ok_of(resp.issued.p@),
        pt_ok_of(resp.issued.eq0@),
        pt_ok_of(resp.issued.eq1@),
        sc_ok_of(resp.issued.proof.c@),
        forall|i: int| 0 <= i < 6 ==> pt_ok_of((#[trigger] resp.issued.ts@[i])@),
        forall|i: int| 0 <= i < 16 ==> sc_ok_of((#[trigger] resp.issued.proof.zs@[i])@),
        oi_response_dec_rel(oi_response_enc_spec(resp), resp2),
    ensures
        oi_response_bytes_ok(oi_response_enc_spec(resp)),
        resp2.id_server@ == resp.id_server@,
        resp2.bucket@ == resp.bucket@,
        resp2.level_since == resp.level_since,
        resp2.issued.p@ == resp.issued.p@,
        resp2.issued.eq0@ == resp.issued.eq0@,
        resp2.issued.eq1@ == resp.issued.eq1@,
        forall|i: int| 0 <= i < 6 ==> (#[trigger] resp2.issued.ts@[i])@ == resp.issued.ts@[i]@,
        resp2.issued.proof.c@ == resp.issued.proof.c@,
        forall|i: int|
            0 <= i < 16 ==> (#[trigger] resp2.issued.proof.zs@[i])@ == resp.issued.proof.zs@[i]@,
        resp2.bridge_line.addr@ == resp.bridge_line.addr@,
        resp2.bridge_line.port == resp.bridge_line.port,
        resp2.bridge_line.info@ == resp.bridge_line.info@,
{
    let b = oi_response_enc_spec(resp);
    let tv = crate::zkp::pts_view(resp.issued.ts@);
    let zv = crate::zkp::scs_view(resp.issued.proof.zs@);
    assert(forall|k: int| 0 <= k < tv.len() ==> (#[trigger] tv[k]).len() == 32);
    assert(forall|k: int| 0 <= k < zv.len() ==> (#[trigger] zv[k]).len() == 32);
    lemma_cat32_slice(tv, 0);
    lemma_cat32_slice(zv, 0);
    assert(b.len() == 926 + resp.bridge_line.info@.len());
    assert(b.subrange(0, 32) =~= resp.id_server@);
    assert(b.subrange(32, 64) =~= resp.bucket@);
    assert(b.subrange(64, 68) =~= u32_le4(resp.level_since));
    assert(b.subrange(68, 100) =~= resp.issued.p@);
    assert(b.subrange(100, 132) =~= resp.issued.eq0@);
    assert(b.subrange(132, 164) =~= resp.issued.eq1@);
    assert(b.subrange(356, 388) =~= resp.issued.proof.c@);
    assert(b.subrange(900, 916) =~= resp.bridge_line.addr@);
    assert(b.subrange(916, 918) =~= u16_le2(resp.bridge_line.port));
    assert(b.subrange(918, 926) =~= crate::zkp::u64_le(resp.bridge_line.info@.len() as u64));
    assert(b.subrange(926, b.len() as int) =~= resp.bridge_line.info@);
    lemma_u32_le_roundtrip(resp.level_since);
    lemma_u16_le_roundtrip(resp.bridge_line.port);
    lemma_u64_le_roundtrip(resp.bridge_line.info@.len() as u64);
    assert forall|i: int| 0 <= i < 6 implies #[trigger] b.subrange(
        164 + 32 * i,
        164 + 32 * i + 32,
    ) == resp.issued.ts@[i]@ by {
        lemma_cat32_slice(tv, i);
        assert(b.subrange(164 + 32 * i, 164 + 32 * i + 32) =~= crate::zkp::cat_of(tv).subrange(
            32 * i,
            32 * i + 32,
        ));
    }
    assert forall|i: int| 0 <= i < 16 implies #[trigger] b.subrange(
        388 + 32 * i,
        388 + 32 * i + 32,
    ) == resp.issued.proof.zs@[i]@ by {
        lemma_cat32_slice(zv, i);
        assert(b.subrange(388 + 32 * i, 388 + 32 * i + 32) =~= crate::zkp::cat_of(zv).subrange(
            32 * i,
            32 * i + 32,
        ));
    }
}


fn read_vec_bytes(b: &Vec<u8>, off: usize, len: usize) -> (r: Vec<u8>)
    requires
        off + len <= b@.len(),
    ensures
        r@ == b@.subrange(off as int, off + len),
{
    let n = b.len();
    let mut out: Vec<u8> = Vec::new();
    let mut i: usize = 0;
    while i < len
        invariant
            n == b@.len(),
            off + len <= n,
            i <= len,
            out@ == b@.subrange(off as int, off + i),
        decreases len - i,
    {
        out.push(b[off + i]);
        proof {
            assert(b@.subrange(off as int, off + i + 1) =~= b@.subrange(
                off as int,
                off + i,
            ).push(b@[off + i]));
        }
        i += 1;
    }
    out
}

/// The flat encoding of encrypted migration rows: per row the 16-byte
/// label then the 124-byte value.
pub open spec fn mig_rows_enc(s: Seq<crate::migtable::EncMigEntry>) -> Seq<u8>
    decreases s.len(),
{
    if s.len() == 0 {
        Seq::empty()
    } else {
        mig_rows_enc(s.drop_last()) + s.last().label@ + s.last().data@
    }
}

/// Rows of the normative length occupy 140 bytes each, label first.
pub proof fn lemma_mig_rows_slice(s: Seq<crate::migtable::EncMigEntry>, i: int)
    requires
        forall|k: int|
            0 <= k < s.len() ==> (#[trigger] s[k]).data@.len()
                == crate::cred::ENC_MIGRATION_BYTES,
    ensures
        mig_rows_enc(s).len() == 140 * s.len(),
        0 <= i < s.len() ==> mig_rows_enc(s).subrange(140 * i, 140 * i + 16) == s[i].label@,
        0 <= i < s.len() ==> mig_rows_enc(s).subrange(140 * i + 16, 140 * i + 140) == s[i].data@,
    decreases s.len(),
{
    if s.len() > 0 {
        lemma_mig_rows_slice(s.drop_last(), i);
        assert(mig_rows_enc(s) == mig_rows_enc(s.drop_last()) + s.last().label@ + s.last().data@);
        if 0 <= i < s.len() {
            if i < s.len() - 1 {
                assert(mig_rows_enc(s).subrange(140 * i, 140 * i + 16) =~= mig_rows_enc(
                    s.drop_last(),
                ).subrange(140 * i, 140 * i + 16));
                assert(mig_rows_enc(s).subrange(140 * i + 16, 140 * i + 140) =~= mig_rows_enc(
                    s.drop_last(),
                ).subrange(140 * i + 16, 140 * i + 140));
            } else {
                assert(mig_rows_enc(s).subrange(140 * i, 140 * i + 16) =~= s.last().label@);
                assert(mig_rows_enc(s).subrange(140 * i + 16, 140 * i + 140) =~= s.last().data@);
            }
        }
    }
}

/// The encoding of a MigrationKey-exchange request (trust promotion and
/// blockage checking): the revealed attributes, the showing, the bucket
/// encryption and the compact proof, 708 bytes.
pub open spec fn mk_request_enc_spec(req: crate::proto::migkey::Request) -> Seq<u8> {
    req.id@ + u32_le4(req.trust_level) + req.p@ + req.cq@ + req.c_bucket@ + req.c_since@
        + req.c_invrem@ + req.c_blockages@ + req.d_pub@ + req.enc_bucket.c0@ + req.enc_bucket.c1@
        + req.proof.c@ + crate::zkp::cat_of(crate::zkp::scs_view(req.proof.zs@))
}

pub open spec fn mk_request_bytes_ok(b: Seq<u8>) -> bool {
    &&& b.len() == 708
    &&& sc_ok_of(b.subrange(0, 32))
    &&& pt_ok_of(b.subrange(36, 68))
    &&& pt_ok_of(b.subrange(68, 100))
    &&& pt_ok_of(b.subrange(100, 132))
    &&& pt_ok_of(b.subrange(132, 164))
    &&& pt_ok_of(b.subrange(164, 196))
    &&& pt_ok_of(b.subrange(196, 228))
    &&& pt_ok_of(b.subrange(228, 260))
    &&& pt_ok_of(b.subrange(260, 292))
    &&& pt_ok_of(b.subrange(292, 324))
    &&& sc_ok_of(b.subrange(324, 356))
    &&& forall|i: int|
        0 <= i < 11 ==> sc_ok_of(#[trigger] b.subrange(356 + 32 * i, 356 + 32 * i + 32))
}

pub open spec fn mk_request_dec_rel(b: Seq<u8>, req: crate::proto::migkey::Request) -> bool {
    &&& req.id@ == b.subrange(0, 32)
    &&& req.trust_level == u32_from_le(b.subrange(32, 36))
    &&& req.p@ == b.subrange(36, 68)
    &&& req.cq@ == b.subrange(68, 100)
    &&& req.c_bucket@ == b.subrange(100, 132)
    &&& req.c_since@ == b.subrange(132, 164)
    &&& req.c_invrem@ == b.subrange(164, 196)
    &&& req.c_blockages@ == b.subrange(196, 228)
    &&& req.d_pub@ == b.subrange(228, 260)
    &&& req.enc_bucket.c0@ == b.subrange(260, 292)
    &&& req.enc_bucket.c1@ == b.subrange(292, 324)
    &&& req.proof.c@ == b.subrange(324, 356)
    &&& req.proof.zs@.len() == 11
    &&& forall|i: int|
        0 <= i < 11 ==> (#[trigger] req.proof.zs@[i])@ == b.subrange(
            356 + 32 * i,
            356 + 32 * i + 32,
        )
}

/// Serialize a MigrationKey-exchange request.
pub fn mk_request_encode(req: &crate::proto::migkey::Request) -> (r: Vec<u8>)
    ensures
        r@ == mk_request_enc_spec(*req),
{
    let mut out: Vec<u8> = Vec::new();
    push_bytes32(&mut out, &req.id.b);
    put_u32(&mut out, req.trust_level);
    push_bytes32(&mut out, &req.p.b);
    push_bytes32(&mut out, &req.cq.b);
    push_bytes32(&mut out, &req.c_bucket.b);
    push_bytes32(&mut out, &req.c_since.b);
    push_bytes32(&mut out, &req.c_invrem.b);
    push_bytes32(&mut out, &req.c_blockages.b);
    push_bytes32(&mut out, &req.d_pub.b);
    push_bytes32(&mut out, &req.enc_bucket.c0.b);
    push_bytes32(&mut out, &req.enc_bucket.c1.b);
    push_bytes32(&mut out, &req.proof.c.b);
    put_scs(&mut out, &req.proof.zs);
    proof {
        assert(out@ =~= mk_request_enc_spec(*req));
    }
    out
}

/// Deserialize a MigrationKey-exchange request; succeeds exactly on valid
/// encodings.
pub fn mk_request_decode(b: &Vec<u8>) -> (r: Option<crate::proto::migkey::Request>)
    ensures
        r is Some <==> mk_request_bytes_ok(b@),
        r is Some ==> mk_request_dec_rel(b@, r.unwrap()),
{
    if b.len() != 708 {
        return None;
    }
    let id = read32(b, 0);
    let trust_level = read_u32(b, 32);
    let p = read32(b, 36);
    let cq = read32(b, 68);
    let c_bucket = read32(b, 100);
    let c_since = read32(b, 132);
    let c_invrem = read32(b, 164);
    let c_blockages = read32(b, 196);
    let d_pub = read32(b, 228);
    let c0 = read32(b, 260);
    let c1 = read32(b, 292);
    let c = read32(b, 324);
    if !sc_check(&id) || !pt_check(&p) || !pt_check(&cq) || !pt_check(&c_bucket) || !pt_check(
        &c_since,
    ) || !pt_check(&c_invrem) || !pt_check(&c_blockages) || !pt_check(&d_pub) || !pt_check(&c0)
        || !pt_check(&c1) || !sc_check(&c) {
        return None;
    }
    let zs = match read_sc_vec(b, 356, 11) {
        Some(v) => v,
        None => {
            return None;
        },
    };
    proof {
        assert forall|i: int| 0 <= i < 11 implies sc_ok_of(
            #[trigger] b@.subrange(356 + 32 * i, 356 + 32 * i + 32),
        ) by {
            assert(zs@[i]@ == b@.subrange(356 + 32 * i, 356 + 32 * i + 32));
        }
    }
    Some(
        crate::proto::migkey::Request {
            id: Sc { b: id },
            trust_level,
            p: Pt { b: p },
            cq: Pt { b: cq },
            c_bucket: Pt { b: c_bucket },
            c_since: Pt { b: c_since },
            c_invrem: Pt { b: c_invrem },
            c_blockages: Pt { b: c_blockages },
            d_pub: Pt { b: d_pub },
            enc_bucket: crate::issuance::EncAttr { c0: Pt { b: c0 }, c1: Pt { b: c1 } },
            proof: crate::zkp::CompactProof { c: Sc { b: c }, zs },
        },
    )
}

/// Round trip for MigrationKey-exchange requests.
#[verifier::rlimit(60)]
pub proof fn lemma_mk_request_roundtrip(
    req: crate::proto::migkey::Request,
    req2: crate::proto::migkey::Request,
)
    requires
        req.proof.zs@.len() == 11,
        sc_ok_of(req.id@),
        pt_ok_of(req.p@),
        pt_ok_of(req.cq@),
        pt_ok_of(req.c_bucket@),
        pt_ok_of(req.c_since@),
        pt_ok_of(req.c_invrem@),
        pt_ok_of(req.c_blockages@),
        pt_ok_of(req.d_pub@),
        pt_ok_of(req.enc_bucket.c0@),
        pt_ok_of(req.enc_bucket.c1@),
        sc_ok_of(req.proof.c@),
        forall|i: int| 0 <= i < 11 ==> sc_ok_of((#[trigger] req.proof.zs@[i])@),
        mk_request_dec_rel(mk_request_enc_spec(req), req2),
    ensures
        mk_request_bytes_ok(mk_request_enc_spec(req)),
        req2.id@ == req.id@,
        req2.trust_level == req.trust_level,
        req2.p@ == req.p@,
        req2.cq@ == req.cq@,
        req2.c_bucket@ == req.c_bucket@,
        req2.c_since@ == req.c_since@,
        req2.c_invrem@ == req.c_invrem@,
        req2.c_blockages@ == req.c_blockages@,
        req2.d_pub@ == req.d_pub@,
        req2.enc_bucket.c0@ == req.enc_bucket.c0@,
        req2.enc_bucket.c1@ == req.enc_bucket.c1@,
        req2.proof.c@ == req.proof.c@,
        forall|i: int| 0 <= i < 11 ==> (#[trigger] req2.proof.zs@[i])@ == req.proof.zs@[i]@,
{
    let b = mk_request_enc_spec(req);
    let zv = crate::zkp::scs_view(req.proof.zs@);
    assert(forall|k: int| 0 <= k < zv.len() ==> (#[trigger] zv[k]).len() == 32);
    lemma_cat32_slice(zv, 0);
    assert(b.subrange(0, 32) =~= req.id@);
    assert(b.subrange(32, 36) =~= u32_le4(req.trust_level));
    assert(b.subrange(36, 68) =~= req.p@);
    assert(b.subrange(68, 100) =~= req.cq@);
    assert(b.subrange(100, 132) =~= req.c_bucket@);
    assert(b.subrange(132, 164) =~= req.c_since@);
    assert(b.subrange(164, 196) =~= req.c_invrem@);
    assert(b.subrange(196, 228) =~= req.c_blockages@);
    assert(b.subrange(228, 260) =~= req.d_pub@);
    assert(b.subrange(260, 292) =~= req.enc_bucket.c0@);
    assert(b.subrange(292, 324) =~= req.enc_bucket.c1@);
    assert(b.subrange(324, 356) =~= req.proof.c@);
    lemma_u32_le_roundtrip(req.trust_level);
    assert forall|i: int| 0 <= i < 11 implies #[trigger] b.subrange(
        356 + 32 * i,
        356 + 32 * i + 32,
    ) == req.proof.zs@[i]@ by {
        lemma_cat32_slice(zv, i);
        assert(b.subrange(356 + 32 * i, 356 + 32 * i + 32) =~= crate::zkp::cat_of(zv).subrange(
            32 * i,
            32 * i + 32,
        ));
    }
}

/// The encoding of a MigrationKey-exchange state: the decryption key and
/// the lookup attributes, 96 bytes.
pub open spec fn mk_state_enc_spec(st: crate::proto::migkey::State) -> Seq<u8> {
    st.d@ + st.id@ + st.bucket@
}

pub open spec fn mk_state_bytes_ok(b: Seq<u8>) -> bool {
    &&& b.len() == 96
    &&& sc_ok_of(b.subrange(0, 32))
    &&& sc_ok_of(b.subrange(32, 64))
    &&& sc_ok_of(b.subrange(64, 96))
}

pub open spec fn mk_state_dec_rel(b: Seq<u8>, st: crate::proto::migkey::State) -> bool {
    &&& st.d@ == b.subrange(0, 32)
    &&& st.id@ == b.subrange(32, 64)
    &&& st.bucket@ == b.subrange(64, 96)
}

/// Serialize a MigrationKey-exchange state.
pub fn mk_state_encode(st: &crate::proto::migkey::State) -> (r: Vec<u8>)
    ensures
        r@ == mk_state_enc_spec(*st),
{
    let mut out: Vec<u8> = Vec::new();
    push_bytes32(&mut out, &st.d.b);
    push_bytes32(&mut out, &st.id.b);
    push_bytes32(&mut out, &st.bucket.b);
    proof {
        assert(out@ =~= mk_state_enc_spec(*st));
    }
    out
}

/// Deserialize a MigrationKey-exchange state; succeeds exactly on valid
/// encodings.
pub fn mk_state_decode(b: &Vec<u8>) -> (r: Option<crate::proto::migkey::State>)
    ensures
        r is Some <==> mk_state_bytes_ok(b@),
        r is Some ==> mk_state_dec_rel(b@, r.unwrap()),
{
    if b.len() != 96 {
        return None;
    }
    let d = read32(b, 0);
    let id = read32(b, 32);
    let bucket = read32(b, 64);
    if !sc_check(&d) || !sc_check(&id) || !sc_check(&bucket) {
        return None;
    }
    Some(
        crate::proto::migkey::State { d: Sc { b: d }, id: Sc { b: id }, bucket: Sc { b: bucket } },
    )
}

/// Round trip for MigrationKey-exchange states.
pub proof fn lemma_mk_state_roundtrip(
    st: crate::proto::migkey::State,
    st2: crate::proto::migkey::State,
)
    requires
        sc_ok_of(st.d@),
        sc_ok_of(st.id@),
        sc_ok_of(st.bucket@),
        mk_state_dec_rel(mk_state_enc_spec(st), st2),
    ensures
        mk_state_bytes_ok(mk_state_enc_spec(st)),
        st2.d@ == st.d@,
        st2.id@ == st.id@,
        st2.bucket@ == st.bucket@,
{
    let b = mk_state_enc_spec(st);
    assert(b.subrange(0, 32) =~= st.d@);
    assert(b.subrange(32, 64) =~= st.id@);
    assert(b.subrange(64, 96) =~= st.bucket@);
}

/// The encoding of a MigrationKey-exchange response: the per-request base,
/// the encrypted MAC, and the table rows, 104 bytes plus 140 per row.
pub open spec fn mk_response_enc_spec(resp: crate::proto::migkey::Response) -> Seq<u8> {
    resp.pk@ + resp.eqk0@ + resp.eqk1@ + crate::zkp::u64_le(resp.table@.len() as u64)
        + mig_rows_enc(resp.table@)
}

pub open spec fn mk_response_bytes_ok(b: Seq<u8>) -> bool {
    &&& b.len() >= 104
    &&& pt_ok_of(b.subrange(0, 32))
    &&& pt_ok_of(b.subrange(32, 64))
    &&& pt_ok_of(b.subrange(64, 96))
    &&& 140 * (u64_from_le(b.subrange(96, 104)) as int) == b.len() - 104
}

pub open spec fn mk_response_dec_rel(b: Seq<u8>, resp: crate::proto::migkey::Response) -> bool {
    &&& resp.pk@ == b.subrange(0, 32)
    &&& resp.eqk0@ == b.subrange(32, 64)
    &&& resp.eqk1@ == b.subrange(64, 96)
    &&& resp.table@.len() == u64_from_le(b.subrange(96, 104))
    &&& forall|i: int|
        0 <= i < resp.table@.len() ==> (#[trigger] resp.table@[i]).label@ == b.subrange(
            104 + 140 * i,
            104 + 140 * i + 16,
        ) && resp.table@[i].data@ == b.subrange(104 + 140 * i + 16, 104 + 140 * i + 140)
}

/// Serialize a MigrationKey-exchange response.
pub fn mk_response_encode(resp: &crate::proto::migkey::Response) -> (r: Vec<u8>)
    ensures
        r@ == mk_response_enc_spec(*resp),
{
    let mut out: Vec<u8> = Vec::new();
    push_bytes32(&mut out, &resp.pk.b);
    push_bytes32(&mut out, &resp.eqk0.b);
    push_bytes32(&mut out, &resp.eqk1.b);
    put_u64(&mut out, resp.table.len() as u64);
    let ghost pre = out@;
    proof {
        assert(out@ =~= pre + mig_rows_enc(resp.table@.take(0)));
    }
    let mut i: usize = 0;
    while i < resp.table.len()
        invariant
            i <= resp.table@.len(),
            out@ == pre + mig_rows_enc(resp.table@.take(i as int)),
        decreases resp.table@.len() - i,
    {
        push_bytes16(&mut out, &resp.table[i].label);
        put_bytes(&mut out, &resp.table[i].data);
        proof {
            let t = resp.table@;
            assert(t.take(i + 1).drop_last() =~= t.take(i as int));
            assert(t.take(i + 1).last() == t[i as int]);
            assert(out@ =~= pre + mig_rows_enc(t.take(i + 1)));
        }
        i += 1;
    }
    proof {
        assert(resp.table@.take(resp.table@.len() as int) =~= resp.table@);
        assert(out@ =~= mk_response_enc_spec(*resp));
    }
    out
}

/// Deserialize a MigrationKey-exchange response; succeeds exactly on valid
/// encodings.
pub fn mk_response_decode(b: &Vec<u8>) -> (r: Option<crate::proto::migkey::Response>)
    ensures
        r is Some <==> mk_response_bytes_ok(b@),
        r is Some ==> mk_response_dec_rel(b@, r.unwrap()),
{
    let n = b.len();
    if n < 104 {
        return None;
    }
    let pk = read32(b, 0);
    let eqk0 = read32(b, 32);
    let eqk1 = read32(b, 64);
    if !pt_check(&pk) || !pt_check(&eqk0) || !pt_check(&eqk1) {
        return None;
    }
    let count = read_u64(b, 96);
    let rows_n = (n - 104) / 140;
    if (n - 104) % 140 != 0 || count != rows_n as u64 {
        proof {
            assert(140 * (u64_from_le(b@.subrange(96, 104)) as int) != b@.len() - 104);
        }
        return None;
    }
    let mut table: Vec<crate::migtable::EncMigEntry> = Vec::new();
    let mut i: usize = 0;
    while i < rows_n
        invariant
            n == b@.len(),
            104 + 140 * rows_n <= n,
            i <= rows_n,
            table@.len() == i,
            forall|k: int|
                0 <= k < i ==> (#[trigger] table@[k]).label@ == b@.subrange(
                    104 + 140 * k,
                    104 + 140 * k + 16,
                ) && table@[k].data@ == b@.subrange(104 + 140 * k + 16, 104 + 140 * k + 140),
        decreases rows_n - i,
    {
        let label = read16(b, 104 + 140 * i);
        let data = read_vec_bytes(b, 104 + 140 * i + 16, 124);
        table.push(crate::migtable::EncMigEntry { label, data });
        i += 1;
    }
    Some(
        crate::proto::migkey::Response {
            pk: Pt { b: pk },
            eqk0: Pt { b: eqk0 },
            eqk1: Pt { b: eqk1 },
            table,
        },
    )
}

/// Round trip for MigrationKey-exchange responses whose rows have the
/// normative length.
pub proof fn lemma_mk_response_roundtrip(
    resp: crate::proto::migkey::Response,
    resp2: crate::proto::migkey::Response,
)
    requires
        pt_ok_of(resp.pk@),
        pt_ok_of(resp.eqk0@),
        pt_ok_of(resp.eqk1@),
        resp.table@.len() <= 0xffffffffffffffff,
        forall|k: int|
            0 <= k < resp.table@.len() ==> (#[trigger] resp.table@[k]).data@.len()
                == crate::cred::ENC_MIGRATION_BYTES,
        mk_response_dec_rel(mk_response_enc_spec(resp), resp2),
    ensures
        mk_response_bytes_ok(mk_response_enc_spec(resp)),
        resp2.pk@ == resp.pk@,
        resp2.eqk0@ == resp.eqk0@,
        resp2.eqk1@ == resp.eqk1@,
        resp2.table@.len() == resp.table@.len(),
        forall|i: int|
            0 <= i < resp.table@.len() ==> (#[trigger] resp2.table@[i]).label@
                == resp.table@[i].label@ && resp2.table@[i].data@ == resp.table@[i].data@,
{
    let b = mk_response_enc_spec(resp);
    lemma_mig_rows_slice(resp.table@, 0);
    assert(b.subrange(0, 32) =~= resp.pk@);
    assert(b.subrange(32, 64) =~= resp.eqk0@);
    assert(b.subrange(64, 96) =~= resp.eqk1@);
    assert(b.subrange(96, 104) =~= crate::zkp::u64_le(resp.table@.len() as u64));
    lemma_u64_le_roundtrip(resp.table@.len() as u64);
    assert forall|i: int| 0 <= i < resp.table@.len() implies #[trigger] b.subrange(
        104 + 140 * i,
        104 + 140 * i + 16,
    ) == resp.table@[i].label@ && b.subrange(104 + 140 * i + 16, 104 + 140 * i + 140)
        == resp.table@[i].data@ by {
        lemma_mig_rows_slice(resp.table@, i);
        assert(b.subrange(104 + 140 * i, 104 + 140 * i + 16) =~= mig_rows_enc(
            resp.table@,
        ).subrange(140 * i, 140 * i + 16));
        assert(b.subrange(104 + 140 * i + 16, 104 + 140 * i + 140) =~= mig_rows_enc(
            resp.table@,
        ).subrange(140 * i + 16, 140 * i + 140));
    }
}

} // verus!
