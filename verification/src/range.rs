//! Range assertions from bit commitments.  To show `0 <= diff < 2^k` for a
//! committed difference, the prover commits to each bit `g_i` as
//! `CG_i = g_i*P' + zg_i*A` and shows `g_i*(g_i - 1) = 0` through an
//! auxiliary commitment; the verifier recomputes `CG_0` from the target
//! commitment and the higher bits, collapsing the bit sum into the existing
//! statement.  Both sides extend the statement through the same code, so
//! the transcripts agree.
use vstd::prelude::*;

use crate::group::{
    pt_add, pt_check, pt_mul, pt_ok_of, pt_sub, sc_from_u64, sc_mul, sc_random, sc_sub, Pt, Sc,
};
use crate::zkp::{Constraint, Term};

verus! {

/// Extend a statement with one range assertion of `kbits` bits.  Appends to
/// `publics`, per bit `i`: the commitment `CG_i` (with `CG_0` recomputed
/// from the target `c_diff`) and the helper point `NegD_i = P' - CG_i`;
/// and to `cons`, per bit: `CG_i = g_i*P' + zg_i*A` and
/// `identity = y_i*A + g_i*NegD_i`.  Secrets per bit, from `sec_base`:
/// `g_i, zg_i, y_i`.  Yields nothing when a commitment does not decode.
pub(crate) fn range_stmt(
    publics: &mut Vec<Pt>,
    cons: &mut Vec<Constraint>,
    sl_a: usize,
    sl_pr: usize,
    sl_id: usize,
    c_diff: &Pt,
    cg_tail: &Vec<Pt>,
    p_r: &Pt,
    kbits: usize,
    sec_base: usize,
) -> (r: Option<()>)
    requires
        pt_ok_of(c_diff@),
        pt_ok_of(p_r@),
        1 <= kbits <= 16,
        cg_tail@.len() + 1 == kbits,
        old(publics)@.len() + 100 < usize::MAX,
        sec_base + 100 < usize::MAX,
{
    let k = kbits;
    // Every sent commitment must decode.
    let mut i: usize = 0;
    while i < cg_tail.len()
        invariant
            cg_tail@.len() + 1 == k,
            i <= cg_tail@.len(),
            forall|j: int| 0 <= j < i ==> pt_ok_of((#[trigger] cg_tail@[j])@),
        decreases cg_tail@.len() - i,
    {
        if !pt_check(&cg_tail[i].b) {
            return None;
        }
        i += 1;
    }
    // CG_0 = c_diff - sum over i >= 1 of 2^i * CG_i.
    let mut cg0 = *c_diff;
    let mut i2: usize = 0;
    while i2 < cg_tail.len()
        invariant
            cg_tail@.len() + 1 == k,
            k <= 16,
            i2 <= cg_tail@.len(),
            pt_ok_of(cg0@),
            forall|j: int| 0 <= j < cg_tail@.len() ==> pt_ok_of((#[trigger] cg_tail@[j])@),
        decreases cg_tail@.len() - i2,
    {
        let two_i = sc_from_u64(1u64 << ((i2 + 1) as u64));
        let m = pt_mul(&two_i, &cg_tail[i2]);
        cg0 = pt_sub(&cg0, &m);
        i2 += 1;
    }
    let base = publics.len();
    let mut b: usize = 0;
    while b < k
        invariant
            cg_tail@.len() + 1 == k,
            k <= 16,
            b <= k,
            pt_ok_of(cg0@),
            pt_ok_of(p_r@),
            publics@.len() == base + 2 * b,
            base + 100 < usize::MAX,
            sec_base + 100 < usize::MAX,
            forall|j: int| 0 <= j < cg_tail@.len() ==> pt_ok_of((#[trigger] cg_tail@[j])@),
        decreases k - b,
    {
        let cg = if b == 0 {
            cg0
        } else {
            cg_tail[b - 1]
        };
        let negd = pt_sub(p_r, &cg);
        publics.push(cg);
        publics.push(negd);
        let sl_cg = base + 2 * b;
        let sl_negd = base + 2 * b + 1;
        let sec_g = sec_base + 3 * b;
        let sec_zg = sec_base + 3 * b + 1;
        let sec_y = sec_base + 3 * b + 2;
        let mut t: Vec<Term> = Vec::new();
        t.push(Term { sec: sec_g, pt: sl_pr });
        t.push(Term { sec: sec_zg, pt: sl_a });
        cons.push(Constraint { lhs: sl_cg, terms: t });
        let mut t2: Vec<Term> = Vec::new();
        t2.push(Term { sec: sec_y, pt: sl_a });
        t2.push(Term { sec: sec_g, pt: sl_negd });
        cons.push(Constraint { lhs: sl_id, terms: t2 });
        b += 1;
    }
    Some(())
}

/// The prover's side of one range assertion: draw the bit blindings so
/// they sum (weighted by powers of two) to the target blinding, commit to
/// the bits of `value`, and append the per-bit secrets `g_i, zg_i, y_i`.
/// Returns the commitments `CG_1 ..` that travel in the request.
pub(crate) fn range_secrets(
    value: u32,
    kbits: usize,
    target_blind: &Sc,
    p_r: &Pt,
    a_gen: &Pt,
    secrets: &mut Vec<Sc>,
) -> (r: Vec<Pt>)
    requires
        1 <= kbits <= 16,
        value < (1u32 << (kbits as u32)),
        pt_ok_of(p_r@),
        pt_ok_of(a_gen@),
    ensures
        r@.len() + 1 == kbits,
        final(secrets)@.len() == old(secrets)@.len() + 3 * kbits,
        forall|j: int| 0 <= j < r@.len() ==> pt_ok_of((#[trigger] r@[j])@),
{
    let k = kbits;
    // Blindings for bits 1 .. k-1, then the forced blinding of bit 0.
    let mut zgs: Vec<Sc> = Vec::new();
    let mut acc = *target_blind;
    let mut i: usize = 1;
    while i < k
        invariant
            k <= 16,
            1 <= i <= k,
            zgs@.len() == i - 1,
        decreases k - i,
    {
        let zg = sc_random();
        let two_i = sc_from_u64(1u64 << (i as u64));
        let w = sc_mul(&two_i, &zg);
        acc = sc_sub(&acc, &w);
        zgs.push(zg);
        i += 1;
    }
    let zg0 = acc;
    let mut cg_tail: Vec<Pt> = Vec::new();
    let mut b: usize = 0;
    while b < k
        invariant
            k <= 16,
            b <= k,
            zgs@.len() == k - 1,
            b == 0 ==> cg_tail@.len() == 0,
            b >= 1 ==> cg_tail@.len() == b - 1,
            pt_ok_of(p_r@),
            pt_ok_of(a_gen@),
            secrets@.len() == old(secrets)@.len() + 3 * b,
            forall|j: int| 0 <= j < cg_tail@.len() ==> pt_ok_of((#[trigger] cg_tail@[j])@),
        decreases k - b,
    {
        let g: u32 = (value >> (b as u32)) & 1;
        let g_sc = sc_from_u64(g as u64);
        let zg = if b == 0 {
            zg0
        } else {
            zgs[b - 1]
        };
        let y = sc_mul(&g_sc, &zg);
        if b > 0 {
            let gp = pt_mul(&g_sc, p_r);
            let za = pt_mul(&zg, a_gen);
            cg_tail.push(pt_add(&gp, &za));
        }
        secrets.push(g_sc);
        secrets.push(zg);
        secrets.push(y);
        b += 1;
    }
    cg_tail
}

} // verus!
