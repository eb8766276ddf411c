//! Blind issuance, shared by every protocol.  The user sends an ephemeral
//! ElGamal key `D = d*B` and encryptions of the attributes the issuer must
//! not see; the issuer picks a fresh base `P = b*B`, homomorphically builds
//! an encryption of the MAC value `Q`, and proves the construction correct.
//! The statement layout is fixed: four public slots and two constraints per
//! attribute, padded with the identity where an attribute is issuer-known,
//! so user and issuer assemble the same transcript.
use vstd::prelude::*;

use crate::group::{
    gen_a, gen_a_spec, gen_b, gen_b_spec, pt_add, pt_add_of, pt_check, pt_id_seq, pt_identity, pt_is_identity,
    pt_mul, pt_mul_of, pt_ok_of, pt_sub, pt_sub_of, sc_from_u64, sc_mul, sc_random, Pt, Sc,
};
use crate::keys::IssuerPrivKey;
use crate::zkp::{
    cons_view, prove_compact, pts_view, scs_view, spec_verify, verify_compact, CompactProof,
    Constraint, ConstraintV, Term,
};

verus! {

/// An ElGamal encryption of an attribute times `B`.
#[derive(Clone, Copy)]
pub struct EncAttr {
    pub c0: Pt,
    pub c1: Pt,
}

/// One attribute of a blind issuance as the statement sees it: either
/// issuer-known in the clear, or blinded, with the helper point `T = b*X`
/// and the two halves of the user's encryption.
#[derive(Clone, Copy)]
pub enum IssueAttr {
    Known(Sc),
    Blinded(Pt, Pt, Pt),
}

/// The mathematical image of an `IssueAttr`.
pub enum IssueAttrV {
    Known(Seq<u8>),
    Blinded(Seq<u8>, Seq<u8>, Seq<u8>),
}

impl View for IssueAttr {
    type V = IssueAttrV;

    open spec fn view(&self) -> IssueAttrV {
        match *self {
            IssueAttr::Known(m) => IssueAttrV::Known(m@),
            IssueAttr::Blinded(t, c0, c1) => IssueAttrV::Blinded(t@, c0@, c1@),
        }
    }
}

pub open spec fn attrs_view(s: Seq<IssueAttr>) -> Seq<IssueAttrV> {
    s.map_values(|a: IssueAttr| a@)
}

/// The four public slots of one attribute: `m*P` for a known attribute,
/// `T`, `EncA.0`, `EncA.1` for a blinded one, identity elsewhere.
pub open spec fn attr_four(a: IssueAttrV, p: Seq<u8>) -> Seq<Seq<u8>> {
    match a {
        IssueAttrV::Known(m) => seq![pt_mul_of(m, p), pt_id_seq(), pt_id_seq(), pt_id_seq()],
        IssueAttrV::Blinded(t, c0, c1) => seq![pt_id_seq(), t, c0, c1],
    }
}

/// The slots of the first `k` attributes.
pub open spec fn attr_slots(attrs: Seq<IssueAttrV>, p: Seq<u8>, k: nat) -> Seq<Seq<u8>>
    decreases k,
{
    if k == 0 {
        Seq::empty()
    } else {
        attr_slots(attrs, p, (k - 1) as nat) + attr_four(attrs[k - 1], p)
    }
}

/// The public points of an issuance statement: `A, B, D, P, EncQ.0, EncQ.1`,
/// the public key, then four slots per attribute.
pub open spec fn issue_publics(
    attrs: Seq<IssueAttrV>,
    xs: Seq<Seq<u8>>,
    d: Seq<u8>,
    p: Seq<u8>,
    eq0: Seq<u8>,
    eq1: Seq<u8>,
) -> Seq<Seq<u8>> {
    seq![gen_a_spec(), gen_b_spec(), d, p, eq0, eq1] + xs + attr_slots(attrs, p, attrs.len())
}

/// The two per-attribute constraints of the first `k` attributes: for a
/// blinded attribute, `T = b*X` and `T = t*A`; for a known one, a vacuous
/// pair on its identity slot.
pub open spec fn attr_pair_cons(attrs: Seq<IssueAttrV>, n: nat, k: nat) -> Seq<ConstraintV>
    decreases k,
{
    if k == 0 {
        Seq::empty()
    } else {
        let i0 = (k - 1) as int;
        attr_pair_cons(attrs, n, (k - 1) as nat) + (if attrs[i0] is Blinded {
            seq![
                ConstraintV {
                    lhs: (8 + n + 4 * i0) as usize,
                    terms: seq![Term { sec: (n + 2) as usize, pt: (7 + i0) as usize }],
                },
                ConstraintV {
                    lhs: (8 + n + 4 * i0) as usize,
                    terms: seq![Term { sec: (n + 4 + i0) as usize, pt: 0 }],
                },
            ]
        } else {
            seq![
                ConstraintV { lhs: (8 + n + 4 * i0) as usize, terms: Seq::empty() },
                ConstraintV { lhs: (8 + n + 4 * i0) as usize, terms: Seq::empty() },
            ]
        })
    }
}

/// The terms of the `EncQ.0` constraint beyond `s*B`, for the first `k`
/// attributes: `t_i` times the encryption's first half (or an identity slot).
pub open spec fn eq0_terms(attrs: Seq<IssueAttrV>, n: nat, k: nat) -> Seq<Term>
    decreases k,
{
    if k == 0 {
        Seq::empty()
    } else {
        let i0 = (k - 1) as int;
        eq0_terms(attrs, n, (k - 1) as nat).push(
            Term {
                sec: (n + 4 + i0) as usize,
                pt: if attrs[i0] is Blinded {
                    (9 + n + 4 * i0) as usize
                } else {
                    (8 + n + 4 * i0) as usize
                },
            },
        )
    }
}

/// The terms of the `EncQ.1` constraint beyond `s*D + x0*P`, for the first
/// `k` attributes: per blinded attribute `t_i` times the encryption's second
/// half, per known attribute `x_i` times its `m*P` slot.
pub open spec fn eq1_terms(attrs: Seq<IssueAttrV>, n: nat, k: nat) -> Seq<Term>
    decreases k,
{
    if k == 0 {
        Seq::empty()
    } else {
        let i0 = (k - 1) as int;
        eq1_terms(attrs, n, (k - 1) as nat).push(
            if attrs[i0] is Blinded {
                Term { sec: (n + 4 + i0) as usize, pt: (10 + n + 4 * i0) as usize }
            } else {
                Term { sec: (2 + i0) as usize, pt: (7 + n + 4 * i0) as usize }
            },
        )
    }
}

/// The constraints of an issuance statement with `n` attributes.
/// Secrets: `x0tilde`, `x[0..=n]`, `b`, `s`, then `t_i` per attribute.
pub open spec fn issue_cons(attrs: Seq<IssueAttrV>) -> Seq<ConstraintV> {
    let n = attrs.len();
    seq![ConstraintV { lhs: 6, terms: seq![Term { sec: 1, pt: 1 }, Term { sec: 0, pt: 0 }] }]
        + Seq::new(
        n,
        |i0: int|
            ConstraintV {
                lhs: (7 + i0) as usize,
                terms: seq![Term { sec: (2 + i0) as usize, pt: 0 }],
            },
    ) + seq![ConstraintV { lhs: 3, terms: seq![Term { sec: (n + 2) as usize, pt: 1 }] }]
        + attr_pair_cons(attrs, n, n) + seq![
        ConstraintV {
            lhs: 4,
            terms: seq![Term { sec: (n + 3) as usize, pt: 1 }] + eq0_terms(attrs, n, n),
        },
        ConstraintV {
            lhs: 5,
            terms: seq![Term { sec: (n + 3) as usize, pt: 2 }, Term { sec: 1, pt: 3 }] + eq1_terms(
                attrs,
                n,
                n,
            ),
        },
    ]
}

/// Exactly when a user accepts an issuance: the compact proof verifies for
/// the statement these attributes, public key and response points define.
pub open spec fn issue_verified(
    dom: u64,
    attrs: Seq<IssueAttrV>,
    xs: Seq<Seq<u8>>,
    d: Seq<u8>,
    p: Seq<u8>,
    eq0: Seq<u8>,
    eq1: Seq<u8>,
    c: Seq<u8>,
    zs: Seq<Seq<u8>>,
) -> bool {
    spec_verify(
        dom,
        issue_publics(attrs, xs, d, p, eq0, eq1),
        issue_cons(attrs),
        (2 * attrs.len() + 4) as nat,
        c,
        zs,
    )
}

/// Build the issuance statement both sides hash: the public points and the
/// constraints, in the fixed layout.
pub(crate) fn issue_stmt(
    d: &Pt,
    p: &Pt,
    eq0: &Pt,
    eq1: &Pt,
    pub_xs: &Vec<Pt>,
    attrs: &Vec<IssueAttr>,
) -> (r: (Vec<Pt>, Vec<Constraint>))
    requires
        attrs@.len() <= 16,
        pub_xs@.len() == attrs@.len() + 1,
        pt_ok_of(p@),
    ensures
        pts_view(r.0@) == issue_publics(attrs_view(attrs@), pts_view(pub_xs@), d@, p@, eq0@, eq1@),
        cons_view(r.1@) == issue_cons(attrs_view(attrs@)),
{
    let n = attrs.len();
    let ghost av = attrs_view(attrs@);
    let ghost pre6 = seq![gen_a_spec(), gen_b_spec(), d@, p@, eq0@, eq1@];
    let a_gen = gen_a();
    let b_gen = gen_b();
    let idp = pt_identity();

    // Public points.
    let mut publics: Vec<Pt> = Vec::new();
    publics.push(a_gen);
    publics.push(b_gen);
    publics.push(*d);
    publics.push(*p);
    publics.push(*eq0);
    publics.push(*eq1);
    proof {
        assert(pts_view(publics@) =~= pre6);
    }
    let mut i: usize = 0;
    while i < n + 1
        invariant
            n == attrs@.len(),
            n <= 16,
            pub_xs@.len() == n + 1,
            i <= n + 1,
            pts_view(publics@) == pre6 + pts_view(pub_xs@).take(i as int),
        decreases n + 1 - i,
    {
        let ghost pp = publics@;
        publics.push(pub_xs[i]);
        proof {
            let m = pts_view(pub_xs@);
            crate::zkp::lemma_pts_view_push(pp, pub_xs@[i as int]);
            assert(pub_xs@[i as int]@ == m[i as int]);
            assert((pre6 + m.take(i as int)).push(m[i as int]) =~= pre6 + m.take(i + 1));
        }
        i += 1;
    }
    proof {
        assert(pts_view(pub_xs@).take((n + 1) as int) =~= pts_view(pub_xs@));
    }
    let ghost pre_xs = pre6 + pts_view(pub_xs@);
    let mut j: usize = 0;
    while j < n
        invariant
            n == attrs@.len(),
            n <= 16,
            av == attrs_view(attrs@),
            j <= n,
            pts_view(publics@) == pre_xs + attr_slots(av, p@, j as nat),
            pt_ok_of(p@),
            idp@ == pt_id_seq(),
        decreases n - j,
    {
        let ghost pp = publics@;
        match &attrs[j] {
            IssueAttr::Known(m) => {
                let mp = pt_mul(m, p);
                publics.push(mp);
                publics.push(idp);
                publics.push(idp);
                publics.push(idp);
                proof {
                    assert(av[j as int] == IssueAttrV::Known(m@));
                    assert(pts_view(publics@) =~= pts_view(pp) + attr_four(av[j as int], p@));
                }
            },
            IssueAttr::Blinded(t, c0, c1) => {
                publics.push(idp);
                publics.push(*t);
                publics.push(*c0);
                publics.push(*c1);
                proof {
                    assert(av[j as int] == IssueAttrV::Blinded(t@, c0@, c1@));
                    assert(pts_view(publics@) =~= pts_view(pp) + attr_four(av[j as int], p@));
                }
            },
        }
        proof {
            assert(attr_slots(av, p@, (j + 1) as nat) == attr_slots(av, p@, j as nat) + attr_four(
                av[j as int],
                p@,
            ));
            assert((pre_xs + attr_slots(av, p@, j as nat)) + attr_four(av[j as int], p@) =~= pre_xs
                + attr_slots(av, p@, (j + 1) as nat));
        }
        j += 1;
    }
    proof {
        assert(pts_view(publics@) =~= issue_publics(av, pts_view(pub_xs@), d@, p@, eq0@, eq1@));
    }

    // Constraints.
    let ghost tgc = issue_cons(av);
    let mut cons: Vec<Constraint> = Vec::new();
    let mut tv: Vec<Term> = Vec::new();
    tv.push(Term { sec: 1, pt: 1 });
    tv.push(Term { sec: 0, pt: 0 });
    proof {
        assert(tv@ =~= seq![Term { sec: 1, pt: 1 }, Term { sec: 0, pt: 0 }]);
    }
    cons.push(Constraint { lhs: 6, terms: tv });
    let ghost c0s = seq![
        ConstraintV { lhs: 6, terms: seq![Term { sec: 1, pt: 1 }, Term { sec: 0, pt: 0 }] },
    ];
    proof {
        assert(cons_view(cons@) =~= c0s);
    }
    let ghost xconsf = Seq::new(
        n as nat,
        |i0: int|
            ConstraintV {
                lhs: (7 + i0) as usize,
                terms: seq![Term { sec: (2 + i0) as usize, pt: 0 }],
            },
    );
    let mut i2: usize = 0;
    while i2 < n
        invariant
            n <= 16,
            i2 <= n,
            cons_view(cons@) == c0s + xconsf.take(i2 as int),
            xconsf == Seq::new(
                n as nat,
                |i0: int|
                    ConstraintV {
                        lhs: (7 + i0) as usize,
                        terms: seq![Term { sec: (2 + i0) as usize, pt: 0 }],
                    },
            ),
        decreases n - i2,
    {
        let mut tv2: Vec<Term> = Vec::new();
        tv2.push(Term { sec: 2 + i2, pt: 0 });
        proof {
            assert(tv2@ =~= seq![Term { sec: (2 + i2) as usize, pt: 0 }]);
        }
        let ghost pc = cons@;
        cons.push(Constraint { lhs: 7 + i2, terms: tv2 });
        proof {
            crate::zkp::lemma_cons_view_push(pc, Constraint { lhs: (7 + i2) as usize, terms: tv2 });
            assert(xconsf.take(i2 + 1) =~= xconsf.take(i2 as int).push(xconsf[i2 as int]));
            assert((c0s + xconsf.take(i2 as int)).push(xconsf[i2 as int]) =~= c0s + xconsf.take(
                i2 + 1,
            ));
        }
        i2 += 1;
    }
    proof {
        assert(xconsf.take(n as int) =~= xconsf);
    }
    let mut tv3: Vec<Term> = Vec::new();
    tv3.push(Term { sec: n + 2, pt: 1 });
    proof {
        assert(tv3@ =~= seq![Term { sec: (n + 2) as usize, pt: 1 }]);
    }
    cons.push(Constraint { lhs: 3, terms: tv3 });
    let ghost pre_p = c0s + xconsf + seq![
        ConstraintV { lhs: 3, terms: seq![Term { sec: (n + 2) as usize, pt: 1 }] },
    ];
    proof {
        assert(cons_view(cons@) =~= pre_p);
    }
    let mut j2: usize = 0;
    while j2 < n
        invariant
            n == attrs@.len(),
            n <= 16,
            av == attrs_view(attrs@),
            j2 <= n,
            cons_view(cons@) == pre_p + attr_pair_cons(av, n as nat, j2 as nat),
        decreases n - j2,
    {
        let is_blinded = match &attrs[j2] {
            IssueAttr::Known(_) => false,
            IssueAttr::Blinded(_, _, _) => true,
        };
        let slt = 8 + n + 4 * j2;
        let ghost pc = cons@;
        if is_blinded {
            let mut ta: Vec<Term> = Vec::new();
            ta.push(Term { sec: n + 2, pt: 7 + j2 });
            proof {
                assert(ta@ =~= seq![
                    Term { sec: (n + 2) as usize, pt: (7 + j2) as usize },
                ]);
            }
            cons.push(Constraint { lhs: slt, terms: ta });
            let mut tb: Vec<Term> = Vec::new();
            tb.push(Term { sec: n + 4 + j2, pt: 0 });
            proof {
                assert(tb@ =~= seq![Term { sec: (n + 4 + j2) as usize, pt: 0 }]);
            }
            cons.push(Constraint { lhs: slt, terms: tb });
            proof {
                assert(cons_view(cons@) =~= cons_view(pc) + seq![
                    ConstraintV {
                        lhs: (8 + n + 4 * j2) as usize,
                        terms: seq![Term { sec: (n + 2) as usize, pt: (7 + j2) as usize }],
                    },
                    ConstraintV {
                        lhs: (8 + n + 4 * j2) as usize,
                        terms: seq![Term { sec: (n + 4 + j2) as usize, pt: 0 }],
                    },
                ]);
            }
        } else {
            let ta: Vec<Term> = Vec::new();
            cons.push(Constraint { lhs: slt, terms: ta });
            let tb: Vec<Term> = Vec::new();
            cons.push(Constraint { lhs: slt, terms: tb });
            proof {
                assert(cons_view(cons@) =~= cons_view(pc) + seq![
                    ConstraintV { lhs: (8 + n + 4 * j2) as usize, terms: Seq::empty() },
                    ConstraintV { lhs: (8 + n + 4 * j2) as usize, terms: Seq::empty() },
                ]);
            }
        }
        proof {
            assert(attr_pair_cons(av, n as nat, (j2 + 1) as nat) == attr_pair_cons(
                av,
                n as nat,
                j2 as nat,
            ) + (if av[j2 as int] is Blinded {
                seq![
                    ConstraintV {
                        lhs: (8 + n + 4 * j2) as usize,
                        terms: seq![Term { sec: (n + 2) as usize, pt: (7 + j2) as usize }],
                    },
                    ConstraintV {
                        lhs: (8 + n + 4 * j2) as usize,
                        terms: seq![Term { sec: (n + 4 + j2) as usize, pt: 0 }],
                    },
                ]
            } else {
                seq![
                    ConstraintV { lhs: (8 + n + 4 * j2) as usize, terms: Seq::empty() },
                    ConstraintV { lhs: (8 + n + 4 * j2) as usize, terms: Seq::empty() },
                ]
            }));
            assert((pre_p + attr_pair_cons(av, n as nat, j2 as nat)) + (if av[j2 as int]
                is Blinded {
                seq![
                    ConstraintV {
                        lhs: (8 + n + 4 * j2) as usize,
                        terms: seq![Term { sec: (n + 2) as usize, pt: (7 + j2) as usize }],
                    },
                    ConstraintV {
                        lhs: (8 + n + 4 * j2) as usize,
                        terms: seq![Term { sec: (n + 4 + j2) as usize, pt: 0 }],
                    },
                ]
            } else {
                seq![
                    ConstraintV { lhs: (8 + n + 4 * j2) as usize, terms: Seq::empty() },
                    ConstraintV { lhs: (8 + n + 4 * j2) as usize, terms: Seq::empty() },
                ]
            }) =~= pre_p + attr_pair_cons(av, n as nat, (j2 + 1) as nat));
        }
        j2 += 1;
    }
    // The EncQ.0 constraint.
    let mut t0: Vec<Term> = Vec::new();
    t0.push(Term { sec: n + 3, pt: 1 });
    proof {
        assert(t0@ =~= seq![Term { sec: (n + 3) as usize, pt: 1 }] + eq0_terms(av, n as nat, 0));
    }
    let mut k0: usize = 0;
    while k0 < n
        invariant
            n == attrs@.len(),
            n <= 16,
            av == attrs_view(attrs@),
            k0 <= n,
            t0@ == seq![Term { sec: (n + 3) as usize, pt: 1 }] + eq0_terms(av, n as nat, k0 as nat),
        decreases n - k0,
    {
        let is_blinded = match &attrs[k0] {
            IssueAttr::Known(_) => false,
            IssueAttr::Blinded(_, _, _) => true,
        };
        let ptk = if is_blinded {
            9 + n + 4 * k0
        } else {
            8 + n + 4 * k0
        };
        t0.push(Term { sec: n + 4 + k0, pt: ptk });
        proof {
            assert(t0@ =~= seq![Term { sec: (n + 3) as usize, pt: 1 }] + eq0_terms(
                av,
                n as nat,
                (k0 + 1) as nat,
            ));
        }
        k0 += 1;
    }
    let ghost pc0 = cons@;
    let ghost t0v = t0@;
    cons.push(Constraint { lhs: 4, terms: t0 });
    proof {
        assert(cons_view(cons@) =~= cons_view(pc0).push(ConstraintV { lhs: 4, terms: t0v }));
    }
    // The EncQ.1 constraint.
    let mut t1: Vec<Term> = Vec::new();
    t1.push(Term { sec: n + 3, pt: 2 });
    t1.push(Term { sec: 1, pt: 3 });
    proof {
        assert(t1@ =~= seq![Term { sec: (n + 3) as usize, pt: 2 }, Term { sec: 1, pt: 3 }]
            + eq1_terms(av, n as nat, 0));
    }
    let mut k1: usize = 0;
    while k1 < n
        invariant
            n == attrs@.len(),
            n <= 16,
            av == attrs_view(attrs@),
            k1 <= n,
            t1@ == seq![Term { sec: (n + 3) as usize, pt: 2 }, Term { sec: 1, pt: 3 }] + eq1_terms(
                av,
                n as nat,
                k1 as nat,
            ),
        decreases n - k1,
    {
        let is_blinded = match &attrs[k1] {
            IssueAttr::Known(_) => false,
            IssueAttr::Blinded(_, _, _) => true,
        };
        let term = if is_blinded {
            Term { sec: n + 4 + k1, pt: 10 + n + 4 * k1 }
        } else {
            Term { sec: 2 + k1, pt: 7 + n + 4 * k1 }
        };
        t1.push(term);
        proof {
            assert(t1@ =~= seq![Term { sec: (n + 3) as usize, pt: 2 }, Term { sec: 1, pt: 3 }]
                + eq1_terms(av, n as nat, (k1 + 1) as nat));
        }
        k1 += 1;
    }
    let ghost pc1 = cons@;
    let ghost t1v = t1@;
    cons.push(Constraint { lhs: 5, terms: t1 });
    proof {
        assert(cons_view(cons@) =~= cons_view(pc1).push(ConstraintV { lhs: 5, terms: t1v }));
        assert(cons_view(cons@) =~= tgc);
    }
    (publics, cons)
}

/// What the issuer sends back for one blindly issued credential.
pub struct BlindIssued {
    pub p: Pt,
    pub eq0: Pt,
    pub eq1: Pt,
    pub ts: Vec<Pt>,
    pub proof: CompactProof,
}

/// One attribute as the issuer receives it: a value it knows, or the
/// user's encryption of one it must not see.
#[derive(Clone, Copy)]
pub enum IssueInput {
    Known(Sc),
    Blinded(EncAttr),
}

/// Issue a credential blindly: choose the base, build the encrypted MAC and
/// the helper points, and prove the construction.  Yields nothing on a
/// malformed input (sizes, undecodable points) or when the negligible
/// identity base was drawn.
pub fn blind_issue(
    priv_key: &IssuerPrivKey,
    pub_xs: &Vec<Pt>,
    inputs: &Vec<IssueInput>,
    d: &Pt,
    dom: u64,
) -> (r: Option<BlindIssued>)
    ensures
        match r {
            Some(bi) => {
                &&& bi.p@ != pt_id_seq()
                &&& pt_ok_of(bi.p@)
                &&& pt_ok_of(bi.eq0@)
                &&& pt_ok_of(bi.eq1@)
                &&& bi.ts@.len() == inputs@.len()
            },
            None => true,
        },
{
    let n = inputs.len();
    if n > 16 || priv_key.x.len() != n + 1 || pub_xs.len() != n + 1 {
        return None;
    }
    if !pt_check(&d.b) {
        return None;
    }
    let mut i: usize = 0;
    while i < n
        invariant
            n == inputs@.len(),
            i <= n,
            forall|k: int|
                0 <= k < i ==> match #[trigger] inputs@[k] {
                    IssueInput::Known(_) => true,
                    IssueInput::Blinded(e) => pt_ok_of(e.c0@) && pt_ok_of(e.c1@),
                },
        decreases n - i,
    {
        match &inputs[i] {
            IssueInput::Known(_) => {},
            IssueInput::Blinded(e) => {
                if !pt_check(&e.c0.b) || !pt_check(&e.c1.b) {
                    return None;
                }
            },
        }
        i += 1;
    }
    let mut i3: usize = 0;
    while i3 < n + 1
        invariant
            n <= 16,
            pub_xs@.len() == n + 1,
            i3 <= n + 1,
            forall|k: int| 0 <= k < i3 ==> pt_ok_of((#[trigger] pub_xs@[k])@),
        decreases n + 1 - i3,
    {
        if !pt_check(&pub_xs[i3].b) {
            return None;
        }
        i3 += 1;
    }
    let a_gen = gen_a();
    let b_gen = gen_b();
    let idp = pt_identity();
    let b = sc_random();
    let p = pt_mul(&b, &b_gen);
    if pt_is_identity(&p) {
        return None;
    }
    let s = sc_random();
    let zero = sc_from_u64(0);

    // Helper scalars and points per attribute.
    let mut t_scs: Vec<Sc> = Vec::new();
    let mut attrs: Vec<IssueAttr> = Vec::new();
    let mut j: usize = 0;
    while j < n
        invariant
            n == inputs@.len(),
            priv_key.x@.len() == n + 1,
            j <= n,
            t_scs@.len() == j,
            attrs@.len() == j,
            forall|k: int|
                0 <= k < i ==> match #[trigger] inputs@[k] {
                    IssueInput::Known(_) => true,
                    IssueInput::Blinded(e) => pt_ok_of(e.c0@) && pt_ok_of(e.c1@),
                },
            i == n,
            pt_ok_of(a_gen@),
            idp@ == pt_id_seq(),
            pt_ok_of(idp@),
        decreases n - j,
    {
        match &inputs[j] {
            IssueInput::Known(m) => {
                t_scs.push(zero);
                attrs.push(IssueAttr::Known(*m));
            },
            IssueInput::Blinded(e) => {
                let t = sc_mul(&b, &priv_key.x[j + 1]);
                let tp = pt_mul(&t, &a_gen);
                t_scs.push(t);
                attrs.push(IssueAttr::Blinded(tp, e.c0, e.c1));
            },
        }
        j += 1;
    }

    // EncQ.0 = s*B + sum of t_i * EncA_i.0 over the blinded attributes.
    let mut eq0 = pt_mul(&s, &b_gen);
    // The revealed part of the MAC sum, times P.
    let mut rev_sum = priv_key.x[0];
    let mut j4: usize = 0;
    while j4 < n
        invariant
            n == inputs@.len(),
            priv_key.x@.len() == n + 1,
            t_scs@.len() == n,
            j4 <= n,
            i == n,
            forall|k: int|
                0 <= k < i ==> match #[trigger] inputs@[k] {
                    IssueInput::Known(_) => true,
                    IssueInput::Blinded(e) => pt_ok_of(e.c0@) && pt_ok_of(e.c1@),
                },
            pt_ok_of(eq0@),
        decreases n - j4,
    {
        match &inputs[j4] {
            IssueInput::Known(m) => {
                let xm = sc_mul(&priv_key.x[j4 + 1], m);
                rev_sum = crate::group::sc_add(&rev_sum, &xm);
            },
            IssueInput::Blinded(e) => {
                let te = pt_mul(&t_scs[j4], &e.c0);
                eq0 = pt_add(&eq0, &te);
            },
        }
        j4 += 1;
    }
    // EncQ.1 = s*D + (revealed sum)*P + sum of t_i * EncA_i.1.
    let sd = pt_mul(&s, d);
    let revp = pt_mul(&rev_sum, &p);
    let mut eq1 = pt_add(&sd, &revp);
    let mut j5: usize = 0;
    while j5 < n
        invariant
            n == inputs@.len(),
            t_scs@.len() == n,
            j5 <= n,
            i == n,
            forall|k: int|
                0 <= k < i ==> match #[trigger] inputs@[k] {
                    IssueInput::Known(_) => true,
                    IssueInput::Blinded(e) => pt_ok_of(e.c0@) && pt_ok_of(e.c1@),
                },
            pt_ok_of(eq1@),
        decreases n - j5,
    {
        match &inputs[j5] {
            IssueInput::Known(_) => {},
            IssueInput::Blinded(e) => {
                let te = pt_mul(&t_scs[j5], &e.c1);
                eq1 = pt_add(&eq1, &te);
            },
        }
        j5 += 1;
    }

    let stmt = issue_stmt(d, &p, &eq0, &eq1, pub_xs, &attrs);
    // Secrets: x0tilde, x[0..=n], b, s, then the t_i.
    let mut secrets: Vec<Sc> = Vec::new();
    secrets.push(priv_key.x0tilde);
    let mut j6: usize = 0;
    while j6 < n + 1
        invariant
            n <= 16,
            priv_key.x@.len() == n + 1,
            j6 <= n + 1,
            secrets@.len() == 1 + j6,
        decreases n + 1 - j6,
    {
        secrets.push(priv_key.x[j6]);
        j6 += 1;
    }
    secrets.push(b);
    secrets.push(s);
    let mut j7: usize = 0;
    while j7 < n
        invariant
            t_scs@.len() == n,
            j7 <= n,
            secrets@.len() == n + 4 + j7,
        decreases n - j7,
    {
        secrets.push(t_scs[j7]);
        j7 += 1;
    }
    let proof = match prove_compact(dom, &stmt.0, &stmt.1, &secrets) {
        Some(pr) => pr,
        None => {
            return None;
        },
    };
    let mut ts: Vec<Pt> = Vec::new();
    let mut j8: usize = 0;
    while j8 < n
        invariant
            attrs@.len() == n,
            j8 <= n,
            ts@.len() == j8,
            idp@ == pt_id_seq(),
        decreases n - j8,
    {
        match &attrs[j8] {
            IssueAttr::Known(_) => ts.push(idp),
            IssueAttr::Blinded(t, _, _) => ts.push(*t),
        }
        j8 += 1;
    }
    Some(BlindIssued { p, eq0, eq1, ts, proof })
}

/// One attribute as the user expects it back: a value it knows the issuer
/// set, or its own encryption of a hidden one.
#[derive(Clone, Copy)]
pub enum IssueUser {
    Known(Sc),
    Blinded(EncAttr),
}

/// The statement attributes a user reconstructs from its own inputs and the
/// helper points of the response.
pub open spec fn user_attrs_spec(us: Seq<IssueUser>, ts: Seq<Seq<u8>>) -> Seq<IssueAttrV> {
    Seq::new(
        us.len(),
        |i: int|
            match us[i] {
                IssueUser::Known(m) => IssueAttrV::Known(m@),
                IssueUser::Blinded(e) => IssueAttrV::Blinded(ts[i], e.c0@, e.c1@),
            },
    )
}

/// Check a blind issuance against the user's own view of the attributes.
/// Acceptance is exactly `issue_verified` of the reconstructed statement,
/// under the stated size bounds.
pub fn issue_verify(
    pub_xs: &Vec<Pt>,
    user_attrs: &Vec<IssueUser>,
    d: &Pt,
    dom: u64,
    bi: &BlindIssued,
) -> (r: bool)
    ensures
        r == ({
            &&& user_attrs@.len() <= 16
            &&& pub_xs@.len() == user_attrs@.len() + 1
            &&& bi.ts@.len() == user_attrs@.len()
            &&& pt_ok_of(bi.p@)
            &&& issue_verified(
                dom,
                user_attrs_spec(user_attrs@, pts_view(bi.ts@)),
                pts_view(pub_xs@),
                d@,
                bi.p@,
                bi.eq0@,
                bi.eq1@,
                bi.proof.c@,
                scs_view(bi.proof.zs@),
            )
        }),
{
    let n = user_attrs.len();
    if n > 16 || pub_xs.len() != n + 1 || bi.ts.len() != n {
        return false;
    }
    if !pt_check(&bi.p.b) {
        return false;
    }
    let mut attrs: Vec<IssueAttr> = Vec::new();
    let ghost tga = user_attrs_spec(user_attrs@, pts_view(bi.ts@));
    let mut i: usize = 0;
    while i < n
        invariant
            n == user_attrs@.len(),
            bi.ts@.len() == n,
            i <= n,
            attrs@.len() == i,
            tga == user_attrs_spec(user_attrs@, pts_view(bi.ts@)),
            attrs_view(attrs@) == tga.take(i as int),
        decreases n - i,
    {
        let ghost pa = attrs@;
        match &user_attrs[i] {
            IssueUser::Known(m) => {
                attrs.push(IssueAttr::Known(*m));
                proof {
                    assert(attrs_view(attrs@) =~= attrs_view(pa).push(IssueAttrV::Known(m@)));
                    assert(tga[i as int] == IssueAttrV::Known(m@));
                }
            },
            IssueUser::Blinded(e) => {
                attrs.push(IssueAttr::Blinded(bi.ts[i], e.c0, e.c1));
                proof {
                    assert(attrs_view(attrs@) =~= attrs_view(pa).push(
                        IssueAttrV::Blinded(bi.ts@[i as int]@, e.c0@, e.c1@),
                    ));
                    assert(pts_view(bi.ts@)[i as int] == bi.ts@[i as int]@);
                    assert(tga[i as int] == IssueAttrV::Blinded(bi.ts@[i as int]@, e.c0@, e.c1@));
                }
            },
        }
        proof {
            assert(tga.take(i + 1) =~= tga.take(i as int).push(tga[i as int]));
        }
        i += 1;
    }
    proof {
        assert(tga.take(n as int) =~= tga);
    }
    let stmt = issue_stmt(d, &bi.p, &bi.eq0, &bi.eq1, pub_xs, &attrs);
    verify_compact(dom, &stmt.0, &stmt.1, 2 * n + 4, &bi.proof)
}

/// Encrypt one attribute to the issuer under the ephemeral key `D`:
/// `(e*B, m*B + e*D)` for fresh `e`, which is also returned.
pub fn elgamal_encrypt(m: &Sc, d_pub: &Pt) -> (r: Option<(EncAttr, Sc)>)
    ensures
        match r {
            Some((enc, e)) => {
                &&& pt_ok_of(d_pub@)
                &&& enc.c0@ == pt_mul_of(e@, gen_b_spec())
                &&& enc.c1@ == pt_add_of(pt_mul_of(m@, gen_b_spec()), pt_mul_of(e@, d_pub@))
                &&& pt_ok_of(enc.c0@)
                &&& pt_ok_of(enc.c1@)
            },
            None => !pt_ok_of(d_pub@),
        },
{
    if !pt_check(&d_pub.b) {
        return None;
    }
    let b_gen = gen_b();
    let e = sc_random();
    let c0 = pt_mul(&e, &b_gen);
    let mb = pt_mul(m, &b_gen);
    let ed = pt_mul(&e, d_pub);
    let c1 = pt_add(&mb, &ed);
    Some((EncAttr { c0, c1 }, e))
}

/// Decrypt the issued MAC value: `Q = EncQ.1 - d*EncQ.0`.
pub fn elgamal_decrypt(d: &Sc, eq0: &Pt, eq1: &Pt) -> (r: Option<Pt>)
    ensures
        match r {
            Some(q) => {
                &&& pt_ok_of(eq0@)
                &&& pt_ok_of(eq1@)
                &&& q@ == pt_sub_of(eq1@, pt_mul_of(d@, eq0@))
                &&& pt_ok_of(q@)
            },
            None => !(pt_ok_of(eq0@) && pt_ok_of(eq1@)),
        },
{
    if !pt_check(&eq0.b) || !pt_check(&eq1.b) {
        return None;
    }
    let de = pt_mul(d, eq0);
    Some(pt_sub(eq1, &de))
}

} // verus!
