//! The encrypted migration table.  For a requesting user with a revealed
//! `id`, each row maps a source bucket to a target bucket: the row's label
//! and encryption key are the two halves of `SHA-256(id || from_bucket ||
//! Qk)`, where `Qk` is the MigrationKey MAC on `(id, from_bucket)` over the
//! per-request base; the value is the AES-128-GCM sealing of
//! `to_bucket || P || Q`, a Migration credential.  Only the user whose
//! derived `Qk` matches a row can find and open it.
use vstd::prelude::*;

use crate::cred::{bucket_attr, bucket_attr_spec, Migration, ENC_MIGRATION_BYTES, MIGRATION_BYTES};
use crate::group::{pt_check, pt_id_seq, pt_ok_of, Pt, Sc};
use crate::hashes::{aes128gcm_open, aes128gcm_seal, aes_open_of, random12, sha256, sha256_of};
use crate::issuer::{BucketEntry, MigEntry};
use crate::keys::{mac_new, mac_q_spec, mac_sum, mac_valid_spec, IssuerPrivKey};
use crate::zkp::{push_bytes32, scs_view};

verus! {

/// One encrypted row: a 16-byte label and `nonce || ciphertext+tag`.
pub struct EncMigEntry {
    pub label: [u8; 16],
    pub data: Vec<u8>,
}

/// The hash both sides derive a row's label and key from.
pub open spec fn mig_hash_of(id: Seq<u8>, from_bucket: Seq<u8>, qk: Seq<u8>) -> Seq<u8> {
    sha256_of(id + from_bucket + qk)
}

/// The row label: the digest's first half.
pub open spec fn mig_label_of(id: Seq<u8>, from_bucket: Seq<u8>, qk: Seq<u8>) -> Seq<u8> {
    mig_hash_of(id, from_bucket, qk).take(16)
}

/// The row key: the digest's second half.
pub open spec fn mig_key_of(id: Seq<u8>, from_bucket: Seq<u8>, qk: Seq<u8>) -> Seq<u8> {
    mig_hash_of(id, from_bucket, qk).skip(16)
}

/// What a row's value decrypts to under a derived key: the target bucket
/// attribute and the Migration MAC, when the tag authenticates and the
/// plaintext has the normative 96 bytes.
pub open spec fn decrypt_entry_spec(
    id: Seq<u8>,
    from_bucket: Seq<u8>,
    qk: Seq<u8>,
    nonce: Seq<u8>,
    ct: Seq<u8>,
) -> Option<(Seq<u8>, Seq<u8>, Seq<u8>)> {
    match aes_open_of(mig_key_of(id, from_bucket, qk), nonce, ct) {
        Some(p) => if p.len() == MIGRATION_BYTES {
            Some((p.take(32), p.subrange(32, 64), p.subrange(64, 96)))
        } else {
            None
        },
        None => None,
    }
}

/// A row sealed for a given user, bucket and `Qk` opens to what was sealed.
pub proof fn lemma_mig_entry_roundtrip(
    id: Seq<u8>,
    from_bucket: Seq<u8>,
    qk: Seq<u8>,
    nonce: Seq<u8>,
    pt: Seq<u8>,
    ct: Seq<u8>,
)
    requires
        pt.len() == MIGRATION_BYTES,
        aes_open_of(mig_key_of(id, from_bucket, qk), nonce, ct) == Some(pt),
    ensures
        decrypt_entry_spec(id, from_bucket, qk, nonce, ct) == Some(
            (pt.take(32), pt.subrange(32, 64), pt.subrange(64, 96)),
        ),
{
}

/// What `encrypt_mig_entry` promises of a sealed row for a pair of bucket
/// attributes: the label is derived from the requester's id, the source
/// bucket and the MigrationKey MAC over the request base, and the value
/// opens to the target bucket attribute and a valid Migration MAC.
pub open spec fn entry_matches(
    e: EncMigEntry,
    mk_xs: Seq<Seq<u8>>,
    mig_xs: Seq<Seq<u8>>,
    mig_n: nat,
    id: Seq<u8>,
    from_attr: Seq<u8>,
    to_attr: Seq<u8>,
    pk: Seq<u8>,
    migration_type: u32,
) -> bool {
    let qk = mac_q_spec(mk_xs, seq![id, from_attr], pk);
    &&& e.label@ == mig_label_of(id, from_attr, qk)
    &&& e.data@.len() == ENC_MIGRATION_BYTES
    &&& exists|pm: Seq<u8>, qm: Seq<u8>|
        decrypt_entry_spec(id, from_attr, qk, e.data@.take(12), e.data@.skip(12)) == Some(
            (to_attr, pm, qm),
        ) && mac_valid_spec(
            mig_xs,
            mig_n,
            seq![id, from_attr, to_attr, crate::group::sc_from_u64_of(migration_type as u64)],
            pm,
            qm,
        )
}

/// Whether a row can be found and opened by a user holding `(id, bucket)`
/// and the decrypted `Qk`: the label matches, the value has the normative
/// length, and the tag authenticates to a 96-byte plaintext.
pub open spec fn row_opens(e: EncMigEntry, id: Seq<u8>, bucket: Seq<u8>, qk: Seq<u8>) -> bool {
    &&& e.label@ == mig_label_of(id, bucket, qk)
    &&& e.data@.len() == ENC_MIGRATION_BYTES
    &&& decrypt_entry_spec(id, bucket, qk, e.data@.take(12), e.data@.skip(12)) is Some
}

/// Whether a row that opens yields a usable Migration MAC: the embedded
/// `P` and `Q` decode and `P` is not the identity.
pub open spec fn row_opens_valid(e: EncMigEntry, id: Seq<u8>, bucket: Seq<u8>, qk: Seq<u8>) -> bool {
    match decrypt_entry_spec(id, bucket, qk, e.data@.take(12), e.data@.skip(12)) {
        Some((tb, pm, qm)) => pt_ok_of(pm) && pm != pt_id_seq() && pt_ok_of(qm),
        None => false,
    }
}

/// The bucket key of the first inventory entry with a given id.
pub open spec fn bucket_key_of(buckets: Seq<BucketEntry>, bucket_id: u32) -> Option<Seq<u8>>
    decreases buckets.len(),
{
    if buckets.len() == 0 {
        None
    } else if buckets[0].bucket_id == bucket_id {
        Some(buckets[0].key@)
    } else {
        bucket_key_of(buckets.skip(1), bucket_id)
    }
}

/// The first matching index determines `bucket_key_of`.
proof fn lemma_bucket_key_first(buckets: Seq<BucketEntry>, bucket_id: u32, i: int)
    requires
        0 <= i < buckets.len(),
        buckets[i].bucket_id == bucket_id,
        forall|j: int| 0 <= j < i ==> (#[trigger] buckets[j]).bucket_id != bucket_id,
    ensures
        bucket_key_of(buckets, bucket_id) == Some(buckets[i].key@),
    decreases i,
{
    if i > 0 {
        lemma_bucket_key_first(buckets.skip(1), bucket_id, i - 1);
        assert(buckets.skip(1)[i - 1] == buckets[i]);
        assert(forall|j: int|
            0 <= j < i - 1 ==> (#[trigger] buckets.skip(1)[j]).bucket_id != bucket_id) by {
            assert(forall|j: int| 0 <= j < i - 1 ==> buckets.skip(1)[j] == buckets[j + 1]);
        }
    }
}

/// With no matching entry, `bucket_key_of` finds nothing.
proof fn lemma_bucket_key_none(buckets: Seq<BucketEntry>, bucket_id: u32)
    requires
        forall|j: int| 0 <= j < buckets.len() ==> (#[trigger] buckets[j]).bucket_id != bucket_id,
    ensures
        bucket_key_of(buckets, bucket_id) is None,
    decreases buckets.len(),
{
    if buckets.len() > 0 {
        assert(forall|j: int|
            0 <= j < buckets.len() - 1 ==> (#[trigger] buckets.skip(1)[j]).bucket_id
                != bucket_id) by {
            assert(forall|j: int|
                0 <= j < buckets.len() - 1 ==> buckets.skip(1)[j] == buckets[j + 1]);
        }
        lemma_bucket_key_none(buckets.skip(1), bucket_id);
    }
}

/// How a built table relates to the migration pairs: one row, in order,
/// per pair whose source and target buckets are both in the inventory,
/// each row matching its pair as `entry_matches` states.
pub open spec fn mig_rows_rel(
    migs: Seq<MigEntry>,
    buckets: Seq<BucketEntry>,
    mk_xs: Seq<Seq<u8>>,
    mig_xs: Seq<Seq<u8>>,
    mig_n: nat,
    id: Seq<u8>,
    pk: Seq<u8>,
    migration_type: u32,
    t: Seq<EncMigEntry>,
) -> bool
    decreases migs.len(),
{
    if migs.len() == 0 {
        t.len() == 0
    } else {
        let m = migs.last();
        match (bucket_key_of(buckets, m.from), bucket_key_of(buckets, m.to)) {
            (Some(fk), Some(tk)) => {
                &&& t.len() >= 1
                &&& mig_rows_rel(
                    migs.drop_last(),
                    buckets,
                    mk_xs,
                    mig_xs,
                    mig_n,
                    id,
                    pk,
                    migration_type,
                    t.drop_last(),
                )
                &&& entry_matches(
                    t.last(),
                    mk_xs,
                    mig_xs,
                    mig_n,
                    id,
                    bucket_attr_spec(m.from, fk),
                    bucket_attr_spec(m.to, tk),
                    pk,
                    migration_type,
                )
            },
            _ => mig_rows_rel(
                migs.drop_last(),
                buckets,
                mk_xs,
                mig_xs,
                mig_n,
                id,
                pk,
                migration_type,
                t,
            ),
        }
    }
}

/// Derive a row's label and key for `(id, from_bucket, Qk)`.
fn derive_label_key(id: &Sc, from_bucket: &Sc, qk: &Pt) -> (r: ([u8; 16], [u8; 16]))
    ensures
        r.0@ == mig_label_of(id@, from_bucket@, qk@),
        r.1@ == mig_key_of(id@, from_bucket@, qk@),
{
    let mut msg: Vec<u8> = Vec::new();
    push_bytes32(&mut msg, &id.b);
    push_bytes32(&mut msg, &from_bucket.b);
    push_bytes32(&mut msg, &qk.b);
    proof {
        assert(msg@ =~= id@ + from_bucket@ + qk@);
    }
    let h = sha256(&msg);
    let mut label: [u8; 16] = [0u8; 16];
    let mut key: [u8; 16] = [0u8; 16];
    let mut i: usize = 0;
    while i < 16
        invariant
            i <= 16,
            label@.len() == 16,
            key@.len() == 16,
            forall|k: int| 0 <= k < i ==> label@[k] == h@[k],
            forall|k: int| 0 <= k < i ==> key@[k] == h@[16 + k],
        decreases 16 - i,
    {
        label[i] = h[i];
        key[i] = h[16 + i];
        i += 1;
    }
    proof {
        assert(label@ =~= mig_label_of(id@, from_bucket@, qk@));
        assert(key@ =~= mig_key_of(id@, from_bucket@, qk@));
    }
    (label, key)
}

/// Seal one migration row for a user: compute the user's `Qk` for the
/// source bucket, mint the Migration MAC, and store
/// `to_bucket || P || Q` under the derived label.
pub fn encrypt_mig_entry(
    mk_priv: &IssuerPrivKey,
    mig_priv: &IssuerPrivKey,
    id: &Sc,
    pk_base: &Pt,
    from_bucket: &Sc,
    to_bucket: &Sc,
    migration_type: u32,
) -> (r: Option<EncMigEntry>)
    ensures
        match r {
            Some(e) => entry_matches(
                e,
                scs_view(mk_priv.x@),
                scs_view(mig_priv.x@),
                mig_priv.x@.len(),
                id@,
                from_bucket@,
                to_bucket@,
                pk_base@,
                migration_type,
            ),
            None => true,
        },
{
    if mk_priv.x.len() != 3 || !pt_check(&pk_base.b) {
        return None;
    }
    // Qk: the MigrationKey MAC on (id, from_bucket) over the request base.
    let mut mk_attrs: Vec<Sc> = Vec::new();
    mk_attrs.push(*id);
    mk_attrs.push(*from_bucket);
    let s = mac_sum(mk_priv, &mk_attrs);
    let qk = crate::group::pt_mul(&s, pk_base);
    proof {
        assert(scs_view(mk_attrs@) =~= seq![id@, from_bucket@]);
    }
    // The Migration MAC on (id, from_bucket, to_bucket, migration_type).
    let mut mig_attrs: Vec<Sc> = Vec::new();
    mig_attrs.push(*id);
    mig_attrs.push(*from_bucket);
    mig_attrs.push(*to_bucket);
    mig_attrs.push(crate::group::sc_from_u64(migration_type as u64));
    let (pm, qm) = match mac_new(mig_priv, &mig_attrs) {
        Some(x) => x,
        None => {
            return None;
        },
    };
    // The 96-byte plaintext and its sealing.
    let mut plain: Vec<u8> = Vec::new();
    push_bytes32(&mut plain, &to_bucket.b);
    push_bytes32(&mut plain, &pm.b);
    push_bytes32(&mut plain, &qm.b);
    let (label, key) = derive_label_key(id, from_bucket, &qk);
    let nonce = random12();
    let ct = aes128gcm_seal(&key, &nonce, &plain);
    let mut data: Vec<u8> = Vec::new();
    let mut i: usize = 0;
    while i < 12
        invariant
            i <= 12,
            data@ == nonce@.take(i as int),
        decreases 12 - i,
    {
        data.push(nonce[i]);
        proof {
            assert(nonce@.take(i + 1) =~= nonce@.take(i as int).push(nonce@[i as int]));
        }
        i += 1;
    }
    proof {
        assert(nonce@.take(12) =~= nonce@);
    }
    let ghost n12 = data@;
    let mut j: usize = 0;
    while j < ct.len()
        invariant
            j <= ct@.len(),
            n12.len() == 12,
            data@ == n12 + ct@.take(j as int),
        decreases ct@.len() - j,
    {
        data.push(ct[j]);
        proof {
            assert(ct@.take(j + 1) =~= ct@.take(j as int).push(ct@[j as int]));
            assert(data@ =~= n12 + ct@.take(j + 1));
        }
        j += 1;
    }
    proof {
        assert(ct@.take(ct@.len() as int) =~= ct@);
        assert(data@.take(12) =~= nonce@);
        assert(data@.skip(12) =~= ct@);
        assert(plain@ =~= to_bucket@ + pm@ + qm@);
        assert(plain@.take(32) =~= to_bucket@);
        assert(plain@.subrange(32, 64) =~= pm@);
        assert(plain@.subrange(64, 96) =~= qm@);
        assert(scs_view(mig_attrs@) =~= seq![
            id@,
            from_bucket@,
            to_bucket@,
            crate::group::sc_from_u64_of(migration_type as u64),
        ]);
        let qkv = mac_q_spec(scs_view(mk_priv.x@), seq![id@, from_bucket@], pk_base@);
        assert(qk@ == qkv);
        assert(plain@.len() == MIGRATION_BYTES);
        assert(aes_open_of(mig_key_of(id@, from_bucket@, qkv), data@.take(12), data@.skip(12))
            == Some(plain@));
        assert(decrypt_entry_spec(id@, from_bucket@, qkv, data@.take(12), data@.skip(12)) == Some(
            (to_bucket@, pm@, qm@),
        ));
        assert(mac_valid_spec(
            scs_view(mig_priv.x@),
            mig_priv.x@.len(),
            seq![
                id@,
                from_bucket@,
                to_bucket@,
                crate::group::sc_from_u64_of(migration_type as u64),
            ],
            pm@,
            qm@,
        ));
    }
    Some(EncMigEntry { label, data })
}

/// Build the whole encrypted table for one requesting user: one row, in
/// order, per migration pair whose buckets are both in the inventory.
pub fn build_mig_table(
    mk_priv: &IssuerPrivKey,
    mig_priv: &IssuerPrivKey,
    id: &Sc,
    pk_base: &Pt,
    migs: &Vec<MigEntry>,
    buckets: &Vec<BucketEntry>,
    migration_type: u32,
) -> (r: Option<Vec<EncMigEntry>>)
    ensures
        match r {
            Some(t) => mig_rows_rel(
                migs@,
                buckets@,
                scs_view(mk_priv.x@),
                scs_view(mig_priv.x@),
                mig_priv.x@.len(),
                id@,
                pk_base@,
                migration_type,
                t@,
            ),
            None => true,
        },
{
    let ghost mk_xs = scs_view(mk_priv.x@);
    let ghost mig_xs = scs_view(mig_priv.x@);
    let ghost mig_n = mig_priv.x@.len();
    let mut out: Vec<EncMigEntry> = Vec::new();
    proof {
        assert(migs@.take(0) =~= Seq::<MigEntry>::empty());
    }
    let mut i: usize = 0;
    while i < migs.len()
        invariant
            i <= migs@.len(),
            mk_xs == scs_view(mk_priv.x@),
            mig_xs == scs_view(mig_priv.x@),
            mig_n == mig_priv.x@.len(),
            mig_rows_rel(
                migs@.take(i as int),
                buckets@,
                mk_xs,
                mig_xs,
                mig_n,
                id@,
                pk_base@,
                migration_type,
                out@,
            ),
        decreases migs@.len() - i,
    {
        let ghost pre = out@;
        let me = migs[i];
        let from_idx = lookup(buckets, me.from);
        let to_idx = lookup(buckets, me.to);
        match (from_idx, to_idx) {
            (Some(fi), Some(ti)) => {
                let from_attr = bucket_attr(me.from, &buckets[fi].key);
                let to_attr = bucket_attr(me.to, &buckets[ti].key);
                match encrypt_mig_entry(
                    mk_priv,
                    mig_priv,
                    id,
                    pk_base,
                    &from_attr,
                    &to_attr,
                    migration_type,
                ) {
                    Some(e) => out.push(e),
                    None => {
                        return None;
                    },
                }
            },
            _ => {},
        }
        proof {
            let p = migs@.take(i + 1);
            assert(p.last() == migs@[i as int]);
            assert(p.drop_last() =~= migs@.take(i as int));
            assert(out@.len() >= 1 ==> out@.drop_last() =~= pre || out@ == pre);
            if out@.len() > pre.len() {
                assert(out@.drop_last() =~= pre);
            }
        }
        i += 1;
    }
    proof {
        assert(migs@.take(migs@.len() as int) =~= migs@);
    }
    Some(out)
}

fn lookup(buckets: &Vec<BucketEntry>, bucket_id: u32) -> (r: Option<usize>)
    ensures
        match r {
            Some(i) => i < buckets@.len() && buckets@[i as int].bucket_id == bucket_id
                && bucket_key_of(buckets@, bucket_id) == Some(buckets@[i as int].key@),
            None => bucket_key_of(buckets@, bucket_id) is None,
        },
{
    let mut i: usize = 0;
    while i < buckets.len()
        invariant
            i <= buckets@.len(),
            forall|j: int| 0 <= j < i ==> (#[trigger] buckets@[j]).bucket_id != bucket_id,
        decreases buckets@.len() - i,
    {
        if buckets[i].bucket_id == bucket_id {
            proof {
                lemma_bucket_key_first(buckets@, bucket_id, i as int);
            }
            return Some(i);
        }
        i += 1;
    }
    proof {
        lemma_bucket_key_none(buckets@, bucket_id);
    }
    None
}

/// Find and open the row for `(id, bucket)` with the decrypted `Qk`, and
/// reassemble the Migration credential it holds.  Succeeds whenever some
/// row opens under the derived label and key.
pub fn lookup_and_decrypt(
    id: &Sc,
    bucket: &Sc,
    qk: &Pt,
    table: &Vec<EncMigEntry>,
    migration_type: u32,
) -> (r: Option<Migration>)
    ensures
        match r {
            Some(m) => {
                &&& m.lox_id@ == id@
                &&& m.from_bucket@ == bucket@
                &&& m.migration_type == migration_type
                &&& exists|k: int|
                    0 <= k < table@.len() && row_opens(#[trigger] table@[k], id@, bucket@, qk@)
                        && decrypt_entry_spec(
                        id@,
                        bucket@,
                        qk@,
                        table@[k].data@.take(12),
                        table@[k].data@.skip(12),
                    ) == Some((m.to_bucket@, m.p@, m.q@))
            },
            None => forall|k: int|
                0 <= k < table@.len() ==> !row_opens(#[trigger] table@[k], id@, bucket@, qk@),
        },
{
    let (label, key) = derive_label_key(id, bucket, qk);
    let mut k: usize = 0;
    while k < table.len()
        invariant
            k <= table@.len(),
            label@ == mig_label_of(id@, bucket@, qk@),
            key@ == mig_key_of(id@, bucket@, qk@),
            forall|j: int| 0 <= j < k ==> !row_opens(#[trigger] table@[j], id@, bucket@, qk@),
        decreases table@.len() - k,
    {
        if label16_eq(&table[k].label, &label) && table[k].data.len() == ENC_MIGRATION_BYTES {
            let mut nonce: [u8; 12] = [0u8; 12];
            let mut i: usize = 0;
            while i < 12
                invariant
                    k < table@.len(),
                    table@[k as int].data@.len() == ENC_MIGRATION_BYTES,
                    i <= 12,
                    nonce@.len() == 12,
                    forall|j: int| 0 <= j < i ==> nonce@[j] == table@[k as int].data@[j],
                decreases 12 - i,
            {
                nonce[i] = table[k].data[i];
                i += 1;
            }
            let mut ct: Vec<u8> = Vec::new();
            let mut j: usize = 12;
            while j < ENC_MIGRATION_BYTES
                invariant
                    k < table@.len(),
                    table@[k as int].data@.len() == ENC_MIGRATION_BYTES,
                    12 <= j <= ENC_MIGRATION_BYTES,
                    ct@ == table@[k as int].data@.subrange(12, j as int),
                decreases ENC_MIGRATION_BYTES - j,
            {
                ct.push(table[k].data[j]);
                proof {
                    let d = table@[k as int].data@;
                    assert(d.subrange(12, j + 1) =~= d.subrange(12, j as int).push(d[j as int]));
                }
                j += 1;
            }
            proof {
                assert(nonce@ =~= table@[k as int].data@.take(12));
                assert(ct@ =~= table@[k as int].data@.skip(12));
            }
            match aes128gcm_open(&key, &nonce, &ct) {
                Some(plain) => {
                    if plain.len() == MIGRATION_BYTES {
                        proof {
                            assert(row_opens(table@[k as int], id@, bucket@, qk@));
                        }
                        let mut tb: [u8; 32] = [0u8; 32];
                        let mut pb: [u8; 32] = [0u8; 32];
                        let mut qb: [u8; 32] = [0u8; 32];
                        let mut z: usize = 0;
                        while z < 32
                            invariant
                                plain@.len() == MIGRATION_BYTES,
                                z <= 32,
                                tb@.len() == 32,
                                pb@.len() == 32,
                                qb@.len() == 32,
                                forall|w: int| 0 <= w < z ==> tb@[w] == plain@[w],
                                forall|w: int| 0 <= w < z ==> pb@[w] == plain@[32 + w],
                                forall|w: int| 0 <= w < z ==> qb@[w] == plain@[64 + w],
                            decreases 32 - z,
                        {
                            tb[z] = plain[z];
                            pb[z] = plain[32 + z];
                            qb[z] = plain[64 + z];
                            z += 1;
                        }
                        proof {
                            assert(tb@ =~= plain@.take(32));
                            assert(pb@ =~= plain@.subrange(32, 64));
                            assert(qb@ =~= plain@.subrange(64, 96));
                        }
                        return Some(
                            Migration {
                                p: Pt { b: pb },
                                q: Pt { b: qb },
                                lox_id: *id,
                                from_bucket: *bucket,
                                to_bucket: Sc { b: tb },
                                migration_type,
                            },
                        );
                    }
                },
                None => {},
            }
        }
        proof {
            assert(!row_opens(table@[k as int], id@, bucket@, qk@));
        }
        k += 1;
    }
    None
}

fn label16_eq(a: &[u8; 16], b: &[u8; 16]) -> (r: bool)
    ensures
        r == (a@ == b@),
{
    let mut i: usize = 0;
    while i < 16
        invariant
            i <= 16,
            forall|j: int| 0 <= j < i ==> a@[j] == b@[j],
        decreases 16 - i,
    {
        if a[i] != b[i] {
            assert(a@[i as int] != b@[i as int]);
            return false;
        }
        i += 1;
    }
    proof {
        assert(a@ =~= b@);
    }
    true
}

} // verus!
