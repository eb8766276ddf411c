//! Credential records: typed attribute tuples carrying an embedded MAC
//! `(P, Q)`, the protocol constants, and the packed bucket attribute.
use vstd::prelude::*;

use crate::group::{pt_id_seq, pt_ok_of, Pt, Sc};

verus! {

/// The highest trust level a Lox credential can reach.
pub const MAX_LEVEL: u32 = 4;

/// The least trust level at which blockage checking is allowed.
pub const MIN_TRUST_LEVEL_FOR_BLOCKAGE_CHECK: u32 = 3;

/// Days an invitation stays redeemable after its issuance date.
pub const INVITATION_EXPIRY: u32 = 15;

/// Bytes of a plaintext migration-table entry.
pub const MIGRATION_BYTES: usize = 96;

/// Bytes of an encrypted migration-table entry (nonce, ciphertext, tag).
pub const ENC_MIGRATION_BYTES: usize = 124;

/// Migration type for the level 0 to level 1 upgrade path.
pub const MIGRATION_TYPE_TRUST_UPGRADE: u32 = 0;

/// Migration type for moving away from a blocked bucket.
pub const MIGRATION_TYPE_BLOCKAGE: u32 = 1;

/// Minimum days between promotions, by current trust level.
pub open spec fn level_interval_spec(l: u32) -> u32 {
    if l == 1 {
        14
    } else if l == 2 {
        28
    } else if l == 3 {
        56
    } else if l == 4 {
        84
    } else {
        0
    }
}

pub fn level_interval(l: u32) -> (r: u32)
    ensures
        r == level_interval_spec(l),
{
    if l == 1 {
        14
    } else if l == 2 {
        28
    } else if l == 3 {
        56
    } else if l == 4 {
        84
    } else {
        0
    }
}

/// Invitations granted on reaching a trust level.
pub open spec fn level_invitations_spec(l: u32) -> u32 {
    if l == 1 {
        2
    } else if l == 2 {
        4
    } else if l == 3 {
        6
    } else if l == 4 {
        8
    } else {
        0
    }
}

pub fn level_invitations(l: u32) -> (r: u32)
    ensures
        r == level_invitations_spec(l),
{
    if l == 1 {
        2
    } else if l == 2 {
        4
    } else if l == 3 {
        6
    } else if l == 4 {
        8
    } else {
        0
    }
}

/// Most blockages a credential of a given level may carry into a level-up.
pub open spec fn max_blockages_spec(l: u32) -> u32 {
    if l == 1 {
        4
    } else if l == 2 {
        3
    } else if l == 3 {
        2
    } else if l == 4 {
        2
    } else {
        0
    }
}

pub fn max_blockages(l: u32) -> (r: u32)
    ensures
        r == max_blockages_spec(l),
{
    if l == 1 {
        4
    } else if l == 2 {
        3
    } else if l == 3 {
        2
    } else if l == 4 {
        2
    } else {
        0
    }
}

/// The main credential: bucket membership with a trust history.
/// Attribute order for its MAC: `id, bucket, trust_level, level_since,
/// invites_remaining, blockages`.
#[derive(Clone, Copy)]
pub struct Lox {
    pub p: Pt,
    pub q: Pt,
    pub id: Sc,
    pub bucket: Sc,
    pub trust_level: u32,
    pub level_since: u32,
    pub invites_remaining: u32,
    pub blockages: u32,
}

/// A one-shot permission to move between buckets.
/// Attribute order: `lox_id, from_bucket, to_bucket, migration_type`.
#[derive(Clone, Copy)]
pub struct Migration {
    pub p: Pt,
    pub q: Pt,
    pub lox_id: Sc,
    pub from_bucket: Sc,
    pub to_bucket: Sc,
    pub migration_type: u32,
}

/// A peer invitation. Attribute order: `inv_id, date, bucket, blockages`.
#[derive(Clone, Copy)]
pub struct Invitation {
    pub p: Pt,
    pub q: Pt,
    pub inv_id: Sc,
    pub date: u32,
    pub bucket: Sc,
    pub blockages: u32,
}

/// The issuer's daily statement that a bucket is reachable.
/// Attribute order: `date, bucket`.
#[derive(Clone, Copy)]
pub struct BucketReachability {
    pub p: Pt,
    pub q: Pt,
    pub date: u32,
    pub bucket: Sc,
}

/// The MAC part of a credential decodes and `P` is not the identity.
pub open spec fn mac_part_wf(p: Seq<u8>, q: Seq<u8>) -> bool {
    &&& pt_ok_of(p)
    &&& pt_ok_of(q)
    &&& p != pt_id_seq()
}

/// A user-consumable description of one bridge; opaque to the algebra.
pub struct BridgeLine {
    pub addr: [u8; 16],
    pub port: u16,
    pub info: Vec<u8>,
}

impl BridgeLine {
    /// A field-for-field copy.
    pub fn duplicate(&self) -> (r: BridgeLine)
        ensures
            r.addr@ == self.addr@,
            r.port == self.port,
            r.info@ == self.info@,
    {
        BridgeLine { addr: self.addr, port: self.port, info: self.info.clone() }
    }
}

/// The bucket attribute packs a 32-bit bucket id and its 128-bit key into
/// one scalar: id little-endian in bytes 0..4, key in bytes 4..20, zero
/// bytes above.  The encoding is bijective and stable.
pub open spec fn bucket_attr_spec(bucket_id: u32, key: Seq<u8>) -> Seq<u8> {
    Seq::new(
        32,
        |i: int|
            if i < 4 {
                (bucket_id >> (8 * i)) as u8
            } else if i < 20 {
                key[i - 4]
            } else {
                0u8
            },
    )
}

/// Pack a bucket id and bucket key into the bucket attribute scalar.
pub fn bucket_attr(bucket_id: u32, key: &[u8; 16]) -> (r: Sc)
    ensures
        r@ == bucket_attr_spec(bucket_id, key@),
{
    let mut b: [u8; 32] = [0u8; 32];
    b[0] = #[verifier::truncate] (bucket_id as u8);
    b[1] = #[verifier::truncate] ((bucket_id >> 8) as u8);
    b[2] = #[verifier::truncate] ((bucket_id >> 16) as u8);
    b[3] = #[verifier::truncate] ((bucket_id >> 24) as u8);
    let mut i: usize = 0;
    while i < 16
        invariant
            i <= 16,
            b@.len() == 32,
            b@[0] == bucket_id as u8,
            b@[1] == (bucket_id >> 8) as u8,
            b@[2] == (bucket_id >> 16) as u8,
            b@[3] == (bucket_id >> 24) as u8,
            forall|j: int| 4 <= j < 4 + i ==> b@[j] == key@[j - 4],
            forall|j: int| 4 + i <= j < 32 ==> b@[j] == 0u8,
        decreases 16 - i,
    {
        b[4 + i] = key[i];
        i += 1;
    }
    proof {
        assert((bucket_id >> 0) as u8 == bucket_id as u8) by (bit_vector);
        assert(b@ =~= bucket_attr_spec(bucket_id, key@));
    }
    Sc { b }
}

/// What a bucket attribute unpacks to, when its high bytes are zero.
pub open spec fn bucket_unpack_spec(s: Seq<u8>) -> Option<(u32, Seq<u8>)> {
    if s.len() == 32 && (forall|j: int| 20 <= j < 32 ==> s[j] == 0u8) {
        Some(
            (
                (s[0] as u32) | ((s[1] as u32) << 8) | ((s[2] as u32) << 16) | (
                (s[3] as u32) << 24),
                s.subrange(4, 20),
            ),
        )
    } else {
        None
    }
}

/// Unpack a bucket attribute scalar into the bucket id and bucket key.
pub fn bucket_unpack(s: &Sc) -> (r: Option<(u32, [u8; 16])>)
    ensures
        match r {
            Some((id, key)) => bucket_unpack_spec(s@) == Some((id, key@)),
            None => bucket_unpack_spec(s@) is None,
        },
{
    let mut j: usize = 20;
    while j < 32
        invariant
            20 <= j <= 32,
            forall|j2: int| 20 <= j2 < j ==> s@[j2] == 0u8,
        decreases 32 - j,
    {
        if s.b[j] != 0 {
            assert(s@[j as int] != 0u8);
            return None;
        }
        j += 1;
    }
    let id: u32 = (s.b[0] as u32) | ((s.b[1] as u32) << 8) | ((s.b[2] as u32) << 16) | ((s.b[3]
        as u32) << 24);
    let mut key: [u8; 16] = [0u8; 16];
    let mut i: usize = 0;
    while i < 16
        invariant
            i <= 16,
            key@.len() == 16,
            forall|k: int| 0 <= k < i ==> key@[k] == s@[4 + k],
        decreases 16 - i,
    {
        key[i] = s.b[4 + i];
        i += 1;
    }
    proof {
        assert(key@ =~= s@.subrange(4, 20));
    }
    Some((id, key))
}

/// The bucket attribute encoding is bijective: packing then unpacking
/// returns the bucket id and key unchanged.
pub proof fn lemma_bucket_attr_roundtrip(bucket_id: u32, key: Seq<u8>)
    requires
        key.len() == 16,
    ensures
        bucket_unpack_spec(bucket_attr_spec(bucket_id, key)) == Some((bucket_id, key)),
{
    let s = bucket_attr_spec(bucket_id, key);
    assert(s.subrange(4, 20) =~= key);
    assert((((bucket_id >> 0) as u8) as u32) | ((((bucket_id >> 8) as u8) as u32) << 8) | ((((
    bucket_id >> 16) as u8) as u32) << 16) | ((((bucket_id >> 24) as u8) as u32) << 24)
        == bucket_id) by (bit_vector);
    assert(s[0] == (bucket_id >> 0) as u8 && s[1] == (bucket_id >> 8) as u8 && s[2] == (bucket_id
        >> 16) as u8 && s[3] == (bucket_id >> 24) as u8);
}

} // verus!
