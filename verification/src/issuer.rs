//! The issuer: per-credential-type key material, replay filters (current
//! and per retired generation), the bucket inventory, the migration
//! tables, and the day counter.  Key rotation retires the active key and
//! filter together, so credentials minted under a retired key stay
//! redeemable exactly once.
use vstd::prelude::*;

use crate::cred::{
    bucket_attr, BridgeLine, BucketReachability, Invitation, Lox, Migration,
};
use crate::group::{sc_from_u64, sc_from_u64_of, Pt, Sc};
use crate::hashes::random32;
use crate::keys::{keygen, keypair_wf, mac_new, mac_valid_spec, mac_verify, IssuerPrivKey, IssuerPubKey};
use crate::filters::SeenSet;
use crate::sig::{ed_pub, ed_pub_of, ed_sign, ed_verify, ed_verify_of};
use crate::zkp::scs_view;

verus! {

/// Relies on `core::mem::replace`: moves `src` into the referenced `dest`
/// and returns the previous `dest` value.
pub assume_specification<T>[ core::mem::replace ](dest: &mut T, src: T) -> (r: T)
    ensures
        *final(dest) == src,
        r == *old(dest),
;

/// The byte length of an open-invitation token: a 32-byte invite id, a
/// 4-byte bucket id, and a 64-byte signature over the first 36 bytes.
pub const OPENINV_LENGTH: usize = 100;

/// The attribute scalars of a Lox credential, in MAC order.
pub open spec fn lox_attrs_spec(c: Lox) -> Seq<Seq<u8>> {
    seq![
        c.id@,
        c.bucket@,
        sc_from_u64_of(c.trust_level as u64),
        sc_from_u64_of(c.level_since as u64),
        sc_from_u64_of(c.invites_remaining as u64),
        sc_from_u64_of(c.blockages as u64),
    ]
}

/// The attribute scalars of a Lox credential.
pub fn lox_attrs(c: &Lox) -> (r: Vec<Sc>)
    ensures
        scs_view(r@) == lox_attrs_spec(*c),
{
    let mut v: Vec<Sc> = Vec::new();
    v.push(c.id);
    v.push(c.bucket);
    v.push(sc_from_u64(c.trust_level as u64));
    v.push(sc_from_u64(c.level_since as u64));
    v.push(sc_from_u64(c.invites_remaining as u64));
    v.push(sc_from_u64(c.blockages as u64));
    proof {
        assert(scs_view(v@) =~= lox_attrs_spec(*c));
    }
    v
}

/// The attribute scalars of a Migration credential, in MAC order.
pub open spec fn migration_attrs_spec(c: Migration) -> Seq<Seq<u8>> {
    seq![c.lox_id@, c.from_bucket@, c.to_bucket@, sc_from_u64_of(c.migration_type as u64)]
}

pub fn migration_attrs(c: &Migration) -> (r: Vec<Sc>)
    ensures
        scs_view(r@) == migration_attrs_spec(*c),
{
    let mut v: Vec<Sc> = Vec::new();
    v.push(c.lox_id);
    v.push(c.from_bucket);
    v.push(c.to_bucket);
    v.push(sc_from_u64(c.migration_type as u64));
    proof {
        assert(scs_view(v@) =~= migration_attrs_spec(*c));
    }
    v
}

/// The attribute scalars of an Invitation credential, in MAC order.
pub open spec fn invitation_attrs_spec(c: Invitation) -> Seq<Seq<u8>> {
    seq![
        c.inv_id@,
        sc_from_u64_of(c.date as u64),
        c.bucket@,
        sc_from_u64_of(c.blockages as u64),
    ]
}

pub fn invitation_attrs(c: &Invitation) -> (r: Vec<Sc>)
    ensures
        scs_view(r@) == invitation_attrs_spec(*c),
{
    let mut v: Vec<Sc> = Vec::new();
    v.push(c.inv_id);
    v.push(sc_from_u64(c.date as u64));
    v.push(c.bucket);
    v.push(sc_from_u64(c.blockages as u64));
    proof {
        assert(scs_view(v@) =~= invitation_attrs_spec(*c));
    }
    v
}

/// The attribute scalars of a BucketReachability credential, in MAC order.
pub open spec fn reachability_attrs_spec(c: BucketReachability) -> Seq<Seq<u8>> {
    seq![sc_from_u64_of(c.date as u64), c.bucket@]
}

pub fn reachability_attrs(c: &BucketReachability) -> (r: Vec<Sc>)
    ensures
        scs_view(r@) == reachability_attrs_spec(*c),
{
    let mut v: Vec<Sc> = Vec::new();
    v.push(sc_from_u64(c.date as u64));
    v.push(c.bucket);
    proof {
        assert(scs_view(v@) =~= reachability_attrs_spec(*c));
    }
    v
}

/// One bucket of the inventory: its id, its 128-bit key, and its bridges.
pub struct BucketEntry {
    pub bucket_id: u32,
    pub key: [u8; 16],
    pub lines: Vec<BridgeLine>,
}

/// One migration-table row: move from one bucket id to another.
#[derive(Clone, Copy, PartialEq, Eq, Structural)]
pub struct MigEntry {
    pub from: u32,
    pub to: u32,
}

/// A retired key generation: its keys and the filter that still guards the
/// credentials minted under it.
pub struct Retired {
    pub priv_key: IssuerPrivKey,
    pub pub_key: IssuerPubKey,
    pub filter: SeenSet,
}

/// The bridge-distribution authority: it signs open-invitation tokens.
/// Its signature, not the credential algebra, authenticates bootstrap
/// invitations.
pub struct BridgeDb {
    sk: [u8; 32],
    vk: [u8; 32],
}

impl BridgeDb {
    /// A fresh signing key.
    pub fn new() -> (r: BridgeDb)
        ensures
            r.pubkey_spec() == ed_pub_of(r.sk_spec()),
    {
        let sk = random32();
        let vk = ed_pub(&sk);
        BridgeDb { sk, vk }
    }

    /// The signing key, for contracts only.
    pub closed spec fn sk_spec(&self) -> Seq<u8> {
        self.sk@
    }

    /// The verifying key, for contracts.
    pub closed spec fn pubkey_spec(&self) -> Seq<u8> {
        self.vk@
    }

    /// The verifying key, to hand to the issuer.
    pub fn pubkey(&self) -> (r: [u8; 32])
        ensures
            r@ == self.pubkey_spec(),
    {
        self.vk
    }

    /// Issue an open-invitation token for a bucket: a fresh invite id, the
    /// bucket id, and a signature over both.  The signature verifies under
    /// this authority's public key.
    pub fn invite(&self, bucket_id: u32) -> (r: Vec<u8>)
        ensures
            r@.len() == OPENINV_LENGTH,
            ed_verify_of(ed_pub_of(self.sk_spec()), r@.take(36), r@.skip(36)),
    {
        let inv = random32();
        let mut msg: Vec<u8> = Vec::new();
        let mut i: usize = 0;
        while i < 32
            invariant
                i <= 32,
                msg@ == inv@.take(i as int),
            decreases 32 - i,
        {
            msg.push(inv[i]);
            proof {
                assert(inv@.take(i + 1) =~= inv@.take(i as int).push(inv@[i as int]));
            }
            i += 1;
        }
        msg.push(#[verifier::truncate] (bucket_id as u8));
        msg.push(#[verifier::truncate] ((bucket_id >> 8) as u8));
        msg.push(#[verifier::truncate] ((bucket_id >> 16) as u8));
        msg.push(#[verifier::truncate] ((bucket_id >> 24) as u8));
        let sig = ed_sign(&self.sk, &msg);
        let mut out = msg;
        let ghost msg36 = out@;
        proof {
            assert(out@ =~= msg36 + sig@.take(0));
        }
        let mut j: usize = 0;
        while j < 64
            invariant
                j <= 64,
                msg36.len() == 36,
                out@ == msg36 + sig@.take(j as int),
                ed_verify_of(ed_pub_of(self.sk_spec()), msg36, sig@),
            decreases 64 - j,
        {
            out.push(sig[j]);
            proof {
                assert(sig@.take(j + 1) =~= sig@.take(j as int).push(sig@[j as int]));
                assert(out@ =~= msg36 + sig@.take(j + 1));
            }
            j += 1;
        }
        proof {
            assert(sig@.take(64) =~= sig@);
            assert(out@.take(36) =~= msg36);
            assert(out@.skip(36) =~= sig@);
        }
        out
    }
}

/// Parse and check an open-invitation token under one verifying key.
/// Succeeds exactly when the token has the right length and the signature
/// verifies; yields the invite id as a filter key and the bucket id.
pub fn bridgedb_verify(token: &Vec<u8>, vk: &[u8; 32]) -> (r: Option<(Sc, u32)>)
    ensures
        match r {
            Some((inv, bid)) => {
                &&& token@.len() == OPENINV_LENGTH
                &&& ed_verify_of(vk@, token@.take(36), token@.skip(36))
                &&& inv@ == token@.take(32)
                &&& bid == (token@[32] as u32) | ((token@[33] as u32) << 8) | ((
                token@[34] as u32) << 16) | ((token@[35] as u32) << 24)
            },
            None => token@.len() != OPENINV_LENGTH || !ed_verify_of(
                vk@,
                token@.take(36),
                token@.skip(36),
            ),
        },
{
    if token.len() != OPENINV_LENGTH {
        return None;
    }
    let mut msg: Vec<u8> = Vec::new();
    let mut i: usize = 0;
    while i < 36
        invariant
            token@.len() == 100,
            i <= 36,
            msg@ == token@.take(i as int),
        decreases 36 - i,
    {
        msg.push(token[i]);
        proof {
            assert(token@.take(i + 1) =~= token@.take(i as int).push(token@[i as int]));
        }
        i += 1;
    }
    let mut sig: [u8; 64] = [0u8; 64];
    let mut j: usize = 0;
    while j < 64
        invariant
            token@.len() == 100,
            j <= 64,
            sig@.len() == 64,
            forall|k: int| 0 <= k < j ==> sig@[k] == token@[36 + k],
        decreases 64 - j,
    {
        sig[j] = token[36 + j];
        j += 1;
    }
    proof {
        assert(sig@ =~= token@.skip(36));
    }
    if !ed_verify(vk, &msg, &sig) {
        return None;
    }
    let mut inv: [u8; 32] = [0u8; 32];
    let mut k: usize = 0;
    while k < 32
        invariant
            token@.len() == 100,
            k <= 32,
            inv@.len() == 32,
            forall|k2: int| 0 <= k2 < k ==> inv@[k2] == token@[k2],
        decreases 32 - k,
    {
        inv[k] = token[k];
        k += 1;
    }
    proof {
        assert(inv@ =~= token@.take(32));
    }
    let bid: u32 = (token[32] as u32) | ((token[33] as u32) << 8) | ((token[34] as u32) << 16) | ((
    token[35] as u32) << 24);
    Some((Sc { b: inv }, bid))
}

/// The issuer's whole mutable state.
pub struct Issuer {
    pub lox_priv: IssuerPrivKey,
    pub lox_pub: IssuerPubKey,
    pub migration_priv: IssuerPrivKey,
    pub migration_pub: IssuerPubKey,
    pub migrationkey_priv: IssuerPrivKey,
    pub invitation_priv: IssuerPrivKey,
    pub invitation_pub: IssuerPubKey,
    pub reachability_priv: IssuerPrivKey,
    pub reachability_pub: IssuerPubKey,
    pub id_filter: SeenSet,
    pub inv_id_filter: SeenSet,
    pub bridgedb_pub_filter: SeenSet,
    pub retired_lox: Vec<Retired>,
    pub retired_invitation: Vec<Retired>,
    pub bridgedb_pub: [u8; 32],
    pub retired_bridgedb_pubs: Vec<[u8; 32]>,
    pub openinv_filters: Vec<SeenSet>,
    pub bridge_table: Vec<BucketEntry>,
    pub trustup_migs: Vec<MigEntry>,
    pub blockage_migs: Vec<MigEntry>,
    pub today: u32,
}

impl Issuer {
    /// A fresh issuer: new keys for every credential type, empty filters,
    /// the given bridge-distribution key, inventory and migration tables.
    pub fn new(
        bridgedb_pub: [u8; 32],
        bridge_table: Vec<BucketEntry>,
        trustup_migs: Vec<MigEntry>,
        blockage_migs: Vec<MigEntry>,
        today: u32,
    ) -> (r: Issuer)
        ensures
            keypair_wf(r.lox_priv, r.lox_pub, 6),
            keypair_wf(r.migration_priv, r.migration_pub, 4),
            r.migrationkey_priv.x@.len() == 3,
            keypair_wf(r.invitation_priv, r.invitation_pub, 4),
            keypair_wf(r.reachability_priv, r.reachability_pub, 2),
            r.id_filter@.len() == 0,
            r.inv_id_filter@.len() == 0,
            r.bridgedb_pub_filter@.len() == 0,
            r.retired_lox@.len() == 0,
            r.retired_invitation@.len() == 0,
            r.retired_bridgedb_pubs@.len() == 0,
            r.openinv_filters@.len() == 0,
            r.bridgedb_pub == bridgedb_pub,
            r.bridge_table == bridge_table,
            r.trustup_migs == trustup_migs,
            r.blockage_migs == blockage_migs,
            r.today == today,
    {
        let (lox_priv, lox_pub) = keygen(6);
        let (migration_priv, migration_pub) = keygen(4);
        let (migrationkey_priv, _migrationkey_pub) = keygen(2);
        let (invitation_priv, invitation_pub) = keygen(4);
        let (reachability_priv, reachability_pub) = keygen(2);
        Issuer {
            lox_priv,
            lox_pub,
            migration_priv,
            migration_pub,
            migrationkey_priv,
            invitation_priv,
            invitation_pub,
            reachability_priv,
            reachability_pub,
            id_filter: SeenSet::new(),
            inv_id_filter: SeenSet::new(),
            bridgedb_pub_filter: SeenSet::new(),
            retired_lox: Vec::new(),
            retired_invitation: Vec::new(),
            bridgedb_pub,
            retired_bridgedb_pubs: Vec::new(),
            openinv_filters: Vec::new(),
            bridge_table,
            trustup_migs,
            blockage_migs,
            today,
        }
    }

    /// Advance the day counter (the `today` oracle is fed from outside).
    pub fn set_today(&mut self, today: u32)
        ensures
            final(self).today == today,
            final(self).id_filter@ == old(self).id_filter@,
            final(self).inv_id_filter@ == old(self).inv_id_filter@,
    {
        self.today = today;
    }

    /// Find a bucket of the inventory.
    pub fn lookup_bucket(&self, bucket_id: u32) -> (r: Option<usize>)
        ensures
            match r {
                Some(i) => i < self.bridge_table@.len() && self.bridge_table@[i as int].bucket_id
                    == bucket_id,
                None => forall|k: int|
                    0 <= k < self.bridge_table@.len() ==> (#[trigger] self.bridge_table@[k]).bucket_id
                        != bucket_id,
            },
    {
        let mut i: usize = 0;
        while i < self.bridge_table.len()
            invariant
                i <= self.bridge_table@.len(),
                forall|k: int|
                    0 <= k < i ==> (#[trigger] self.bridge_table@[k]).bucket_id != bucket_id,
            decreases self.bridge_table@.len() - i,
        {
            if self.bridge_table[i].bucket_id == bucket_id {
                return Some(i);
            }
            i += 1;
        }
        None
    }

    /// Rotate the Lox credential keys: the active key and its filter are
    /// pushed whole onto the retired vector (retirement never mutates past
    /// records) and a fresh pair with an empty filter takes over.
    pub fn rotate_lox_keys(&mut self)
        ensures
            keypair_wf(final(self).lox_priv, final(self).lox_pub, 6),
            final(self).retired_lox@.len() == old(self).retired_lox@.len() + 1,
            final(self).retired_lox@.last().filter@ == old(self).id_filter@,
            forall|k: int|
                0 <= k < old(self).retired_lox@.len() ==> final(self).retired_lox@[k]
                    == old(self).retired_lox@[k],
            final(self).id_filter@.len() == 0,
            final(self).inv_id_filter@ == old(self).inv_id_filter@,
            final(self).today == old(self).today,
    {
        let (new_priv, new_pub) = keygen(6);
        let old_priv = core::mem::replace(&mut self.lox_priv, new_priv);
        let old_pub = core::mem::replace(&mut self.lox_pub, new_pub);
        let old_filter = core::mem::replace(&mut self.id_filter, SeenSet::new());
        self.retired_lox.push(
            Retired { priv_key: old_priv, pub_key: old_pub, filter: old_filter },
        );
    }

    /// Rotate the Invitation credential keys, as `rotate_lox_keys` does for
    /// Lox.
    pub fn rotate_invitation_keys(&mut self)
        ensures
            keypair_wf(final(self).invitation_priv, final(self).invitation_pub, 4),
            final(self).retired_invitation@.len() == old(self).retired_invitation@.len() + 1,
            final(self).retired_invitation@.last().filter@ == old(self).inv_id_filter@,
            final(self).inv_id_filter@.len() == 0,
            final(self).id_filter@ == old(self).id_filter@,
            final(self).today == old(self).today,
    {
        let (new_priv, new_pub) = keygen(4);
        let old_priv = core::mem::replace(&mut self.invitation_priv, new_priv);
        let old_pub = core::mem::replace(&mut self.invitation_pub, new_pub);
        let old_filter = core::mem::replace(&mut self.inv_id_filter, SeenSet::new());
        self.retired_invitation.push(
            Retired { priv_key: old_priv, pub_key: old_pub, filter: old_filter },
        );
    }

    /// Rotate the bridge-distribution key: the old verifying key keeps its
    /// own open-invitation filter.
    pub fn rotate_bridgedb_pub(&mut self, new_pub: [u8; 32])
        ensures
            final(self).bridgedb_pub == new_pub,
            final(self).retired_bridgedb_pubs@.len() == old(self).retired_bridgedb_pubs@.len() + 1,
            final(self).openinv_filters@.len() == old(self).openinv_filters@.len() + 1,
            final(self).bridgedb_pub_filter@.len() == 0,
    {
        let old_pub = core::mem::replace(&mut self.bridgedb_pub, new_pub);
        let old_filter = core::mem::replace(&mut self.bridgedb_pub_filter, SeenSet::new());
        self.retired_bridgedb_pubs.push(old_pub);
        self.openinv_filters.push(old_filter);
    }

    /// Drop the oldest retired Lox generations, keeping the newest `keep`.
    /// Whether and when to truncate the grace window is the operator's
    /// policy; credentials of a dropped generation can no longer be updated.
    pub fn truncate_retired_lox(&mut self, keep: usize)
        ensures
            final(self).retired_lox@.len() == (if old(self).retired_lox@.len() <= keep {
                old(self).retired_lox@.len() as int
            } else {
                keep as int
            }),
            forall|k: int|
                0 <= k < final(self).retired_lox@.len() ==> final(self).retired_lox@[k] == old(
                    self,
                ).retired_lox@[old(self).retired_lox@.len() - final(self).retired_lox@.len() + k],
            final(self).id_filter@ == old(self).id_filter@,
            final(self).inv_id_filter@ == old(self).inv_id_filter@,
            final(self).today == old(self).today,
    {
        while self.retired_lox.len() > keep
            invariant
                self.retired_lox@.len() >= keep || self.retired_lox@.len() == old(
                    self,
                ).retired_lox@.len(),
                self.retired_lox@.len() <= old(self).retired_lox@.len(),
                forall|k: int|
                    0 <= k < self.retired_lox@.len() ==> self.retired_lox@[k] == old(
                        self,
                    ).retired_lox@[old(self).retired_lox@.len() - self.retired_lox@.len() + k],
                self.id_filter@ == old(self).id_filter@,
                self.inv_id_filter@ == old(self).inv_id_filter@,
                self.today == old(self).today,
                self.lox_priv == old(self).lox_priv,
            decreases self.retired_lox@.len(),
        {
            let _dropped = self.retired_lox.remove(0);
        }
    }

    /// The issuer's daily statement that a bucket is reachable: a
    /// BucketReachability credential dated today on that bucket.
    pub fn reachability_cred(&self, bucket_id: u32) -> (r: Option<BucketReachability>)
        ensures
            match r {
                Some(c) => {
                    &&& c.date == self.today
                    &&& mac_valid_spec(
                        scs_view(self.reachability_priv.x@),
                        self.reachability_priv.x@.len(),
                        reachability_attrs_spec(c),
                        c.p@,
                        c.q@,
                    )
                },
                None => true,
            },
    {
        let idx = match self.lookup_bucket(bucket_id) {
            Some(i) => i,
            None => {
                return None;
            },
        };
        let bucket = bucket_attr(bucket_id, &self.bridge_table[idx].key);
        let cred0 = BucketReachability {
            p: Pt { b: [0u8; 32] },
            q: Pt { b: [0u8; 32] },
            date: self.today,
            bucket,
        };
        let attrs = reachability_attrs(&cred0);
        match mac_new(&self.reachability_priv, &attrs) {
            Some((p, q)) => {
                let c = BucketReachability { p, q, date: self.today, bucket };
                proof {
                    assert(reachability_attrs_spec(c) =~= reachability_attrs_spec(cred0));
                }
                Some(c)
            },
            None => None,
        }
    }

    /// Verify a Lox credential under the active key (issuer-side check,
    /// used by tests and by nothing on the wire).
    pub fn verify_lox(&self, c: &Lox) -> (r: bool)
        ensures
            r == mac_valid_spec(
                scs_view(self.lox_priv.x@),
                self.lox_priv.x@.len(),
                lox_attrs_spec(*c),
                c.p@,
                c.q@,
            ),
    {
        let attrs = lox_attrs(c);
        mac_verify(&self.lox_priv, &attrs, &c.p, &c.q)
    }

    /// Verify a Migration credential under the active key.
    pub fn verify_migration(&self, c: &Migration) -> (r: bool)
        ensures
            r == mac_valid_spec(
                scs_view(self.migration_priv.x@),
                self.migration_priv.x@.len(),
                migration_attrs_spec(*c),
                c.p@,
                c.q@,
            ),
    {
        let attrs = migration_attrs(c);
        mac_verify(&self.migration_priv, &attrs, &c.p, &c.q)
    }

    /// Verify an Invitation credential under the active key.
    pub fn verify_invitation(&self, c: &Invitation) -> (r: bool)
        ensures
            r == mac_valid_spec(
                scs_view(self.invitation_priv.x@),
                self.invitation_priv.x@.len(),
                invitation_attrs_spec(*c),
                c.p@,
                c.q@,
            ),
    {
        let attrs = invitation_attrs(c);
        mac_verify(&self.invitation_priv, &attrs, &c.p, &c.q)
    }

    /// Verify a BucketReachability credential under the active key.
    pub fn verify_reachability(&self, c: &BucketReachability) -> (r: bool)
        ensures
            r == mac_valid_spec(
                scs_view(self.reachability_priv.x@),
                self.reachability_priv.x@.len(),
                reachability_attrs_spec(*c),
                c.p@,
                c.q@,
            ),
    {
        let attrs = reachability_attrs(c);
        mac_verify(&self.reachability_priv, &attrs, &c.p, &c.q)
    }
}

} // verus!
