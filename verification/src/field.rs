//! Canonical-representative model of BLS12-381 scalar-field elements.
//!
//! A field element is stored as its canonical representative below the field
//! order, split into four 64-bit little-endian limbs (the same layout the
//! backing arithmetic library uses). Comparison, embedding of machine
//! integers and the fixed-point rescale are implemented and verified here;
//! modular addition and multiplication are delegated to the arithmetic
//! library behind trusted wrappers.

use vstd::prelude::*;
use vstd::arithmetic::div_mod::{
    lemma_basic_div, lemma_div_nonincreasing, lemma_fundamental_div_mod,
    lemma_fundamental_div_mod_converse, lemma_mod_division_less_than_divisor,
};
use ark_ff::{BigInt, PrimeField};
use ark_test_curves::bls12_381::Fr;

verus! {

/// Low limb of the field order.
pub const ORDER_L0: u64 = 0xffffffff00000001;
/// Second limb of the field order.
pub const ORDER_L1: u64 = 0x53bda402fffe5bfe;
/// Third limb of the field order.
pub const ORDER_L2: u64 = 0x3339d80809a1d805;
/// High limb of the field order.
pub const ORDER_L3: u64 = 0x73eda753299d7d48;

/// Order of the BLS12-381 scalar field: every stored value is a canonical
/// representative below this bound.
pub open spec fn field_order() -> nat {
    0x73eda753299d7d483339d80809a1d80553bda402fffe5bfeffffffff00000001nat
}

/// Largest canonical representative that counts as non-negative: elements
/// above `(order - 1) / 2` stand for negative numbers.
pub open spec fn half_order() -> nat {
    0x39f6d3a994cebea4199cec0404d0ec02a9ded2017fff2dff7fffffff80000000nat
}

/// Number of low bits discarded by the fixed-point rescale.
pub const RESCALE_BITS: u64 = 22;

/// `2^22`, the fixed-point scale divisor.
pub open spec fn rescale_divisor() -> nat {
    0x400000nat
}

/// Rescaling a raw accumulated value discards its low 22 bits: values with
/// fewer significant bits than that rescale to zero.
pub open spec fn rescale_val(v: nat) -> nat {
    v / rescale_divisor()
}

/// Rescale truncation is lossy by design: a raw value with 22 or fewer
/// significant bits rescales to zero, and a raw value of exactly `2^22 + k`
/// for `k < 2^22` rescales to one.
pub proof fn lemma_rescale_truncation(v: nat, k: nat)
    requires
        k < 0x400000,
    ensures
        v < 0x400000 ==> rescale_val(v) == 0,
        rescale_val(0x400000nat + k) == 1,
{
    if v < 0x400000 {
        lemma_basic_div(v as int, 0x400000);
    }
    lemma_fundamental_div_mod_converse((0x400000nat + k) as int, 0x400000, 1, k as int);
}

/// One element of the scalar field, as its canonical representative in four
/// 64-bit little-endian limbs.
#[derive(Clone, Copy, Debug, PartialEq, Eq, Structural)]
pub struct FieldElem {
    pub l0: u64,
    pub l1: u64,
    pub l2: u64,
    pub l3: u64,
}

impl FieldElem {
    /// The canonical representative this element stores.
    pub open spec fn value(self) -> nat {
        (self.l0 as nat)
            + (self.l1 as nat) * 0x10000000000000000nat
            + (self.l2 as nat) * 0x100000000000000000000000000000000nat
            + (self.l3 as nat) * 0x1000000000000000000000000000000000000000000000000nat
    }

    /// A well-formed element stores a canonical representative: a value
    /// below the field order.
    pub open spec fn wf(self) -> bool {
        self.value() < field_order()
    }

    /// The signed number this element stands for: representatives in the
    /// upper half of the field embed negative integers.
    pub open spec fn signed(self) -> int {
        signed_of(self.value())
    }
}

/// Signed reading of a canonical representative.
pub open spec fn signed_of(v: nat) -> int {
    if v <= half_order() {
        v as int
    } else {
        v as int - field_order() as int
    }
}

/// Canonical values of a sequence of field elements.
pub open spec fn seq_vals(s: Seq<FieldElem>) -> Seq<nat> {
    s.map_values(|e: FieldElem| e.value())
}

/// Every element stores a canonical representative.
pub open spec fn all_wf(s: Seq<FieldElem>) -> bool {
    forall|i: int| 0 <= i < s.len() ==> s[i].wf()
}

/// Canonical values of a matrix, row by row.
pub open spec fn mat_vals(w: Seq<Vec<FieldElem>>) -> Seq<Seq<nat>> {
    w.map_values(|row: Vec<FieldElem>| seq_vals(row@))
}

/// Every entry of a matrix stores a canonical representative.
pub open spec fn mat_wf(w: Seq<Vec<FieldElem>>) -> bool {
    forall|i: int| 0 <= i < w.len() ==> all_wf(#[trigger] w[i]@)
}

/// Lexicographic limb order, highest limb first.
pub open spec fn lex_gt(a: FieldElem, b: FieldElem) -> bool {
    ||| a.l3 > b.l3
    ||| (a.l3 == b.l3 && a.l2 > b.l2)
    ||| (a.l3 == b.l3 && a.l2 == b.l2 && a.l1 > b.l1)
    ||| (a.l3 == b.l3 && a.l2 == b.l2 && a.l1 == b.l1 && a.l0 > b.l0)
}

/// The lexicographic limb order agrees with the order of the stored values.
proof fn lemma_lex_gt(a: FieldElem, b: FieldElem)
    requires
        lex_gt(a, b),
    ensures
        a.value() > b.value(),
{
    if a.l3 > b.l3 {
        assert(b.value() < (b.l3 + 1) * 0x1000000000000000000000000000000000000000000000000nat);
        assert(a.value() >= (a.l3 as nat) * 0x1000000000000000000000000000000000000000000000000nat);
    } else if a.l2 > b.l2 {
        assert(b.value() < (b.l3 as nat) * 0x1000000000000000000000000000000000000000000000000nat
            + (b.l2 + 1) * 0x100000000000000000000000000000000nat);
        assert(a.value() >= (a.l3 as nat) * 0x1000000000000000000000000000000000000000000000000nat
            + (a.l2 as nat) * 0x100000000000000000000000000000000nat);
    } else if a.l1 > b.l1 {
        assert(b.value() < (b.l3 as nat) * 0x1000000000000000000000000000000000000000000000000nat
            + (b.l2 as nat) * 0x100000000000000000000000000000000nat
            + (b.l1 + 1) * 0x10000000000000000nat);
        assert(a.value() >= (a.l3 as nat) * 0x1000000000000000000000000000000000000000000000000nat
            + (a.l2 as nat) * 0x100000000000000000000000000000000nat
            + (a.l1 as nat) * 0x10000000000000000nat);
    } else {
        assert(a.l0 > b.l0);
    }
}

/// Compare the canonical representatives of two elements.
pub fn fe_gt_abs(a: &FieldElem, b: &FieldElem) -> (r: bool)
    ensures
        r == (a.value() > b.value()),
{
    proof {
        if lex_gt(*a, *b) {
            lemma_lex_gt(*a, *b);
        }
        if lex_gt(*b, *a) {
            lemma_lex_gt(*b, *a);
        }
    }
    if a.l3 != b.l3 {
        a.l3 > b.l3
    } else if a.l2 != b.l2 {
        a.l2 > b.l2
    } else if a.l1 != b.l1 {
        a.l1 > b.l1
    } else {
        a.l0 > b.l0
    }
}

/// Whether the stored limbs are a canonical representative, that is, a
/// value below the field order.
pub fn fe_is_canonical(x: &FieldElem) -> (r: bool)
    ensures
        r == x.wf(),
{
    let order_minus_one = FieldElem {
        l0: 0xffffffff00000000,
        l1: ORDER_L1,
        l2: ORDER_L2,
        l3: ORDER_L3,
    };
    assert(order_minus_one.value() == field_order() - 1);
    !fe_gt_abs(x, &order_minus_one)
}

/// Whether an element stands for a negative number.
pub fn fe_is_neg(x: &FieldElem) -> (r: bool)
    ensures
        r == (x.value() > half_order()),
{
    let half = FieldElem {
        l0: 0x7fffffff80000000,
        l1: 0xa9ded2017fff2dff,
        l2: 0x199cec0404d0ec02,
        l3: 0x39f6d3a994cebea4,
    };
    assert(half.value() == half_order());
    fe_gt_abs(x, &half)
}

/// Signed comparison: the strict greater-than the activation and the arg-max
/// reduction use.
pub fn fe_gt(a: &FieldElem, b: &FieldElem) -> (r: bool)
    requires
        a.wf(),
        b.wf(),
    ensures
        r == (a.signed() > b.signed()),
{
    let na = fe_is_neg(a);
    let nb = fe_is_neg(b);
    if na != nb {
        nb
    } else {
        fe_gt_abs(a, b)
    }
}

/// Whether two elements store the same value.
pub fn fe_eq(a: &FieldElem, b: &FieldElem) -> (r: bool)
    ensures
        r == (a.value() == b.value()),
{
    proof {
        if lex_gt(*a, *b) {
            lemma_lex_gt(*a, *b);
        }
        if lex_gt(*b, *a) {
            lemma_lex_gt(*b, *a);
        }
    }
    a.l0 == b.l0 && a.l1 == b.l1 && a.l2 == b.l2 && a.l3 == b.l3
}

/// Embed a machine integer into the field.
pub fn fe_from_u64(x: u64) -> (r: FieldElem)
    ensures
        r.value() == x as nat,
        r.wf(),
        r.signed() == x as int,
{
    FieldElem { l0: x, l1: 0, l2: 0, l3: 0 }
}

/// Embed a signed machine integer into the field by canonical reduction:
/// negative numbers land in the upper half of the field.
pub fn fe_from_i64(x: i64) -> (r: FieldElem)
    ensures
        r.value() as int == if x >= 0 { x as int } else { field_order() as int + x },
        r.wf(),
        r.signed() == x as int,
{
    if x >= 0 {
        fe_from_u64(x as u64)
    } else {
        let a: u64 = if x == i64::MIN {
            0x8000000000000000u64
        } else {
            (-x) as u64
        };
        FieldElem { l0: ORDER_L0 - a, l1: ORDER_L1, l2: ORDER_L2, l3: ORDER_L3 }
    }
}

/// Modular addition of canonical representatives.
///
/// Relies on the `Add` implementation of the arithmetic library's prime
/// field, which adds canonical representatives modulo the field order.
#[verifier::external_body]
pub(crate) fn fe_add(a: &FieldElem, b: &FieldElem) -> (r: FieldElem)
    requires
        a.wf(),
        b.wf(),
    ensures
        r.value() == (a.value() + b.value()) % field_order(),
        r.wf(),
{
    let x = Fr::from_bigint(BigInt::new([a.l0, a.l1, a.l2, a.l3])).unwrap();
    let y = Fr::from_bigint(BigInt::new([b.l0, b.l1, b.l2, b.l3])).unwrap();
    let z = (x + y).into_bigint().0;
    FieldElem { l0: z[0], l1: z[1], l2: z[2], l3: z[3] }
}

/// Modular multiplication of canonical representatives.
///
/// Relies on the `Mul` implementation of the arithmetic library's prime
/// field, which multiplies canonical representatives modulo the field order.
#[verifier::external_body]
pub(crate) fn fe_mul(a: &FieldElem, b: &FieldElem) -> (r: FieldElem)
    requires
        a.wf(),
        b.wf(),
    ensures
        r.value() == (a.value() * b.value()) % field_order(),
        r.wf(),
{
    let x = Fr::from_bigint(BigInt::new([a.l0, a.l1, a.l2, a.l3])).unwrap();
    let y = Fr::from_bigint(BigInt::new([b.l0, b.l1, b.l2, b.l3])).unwrap();
    let z = (x * y).into_bigint().0;
    FieldElem { l0: z[0], l1: z[1], l2: z[2], l3: z[3] }
}

/// Limb-level account of the 22-bit right shift.
proof fn lemma_shift22(x: FieldElem, r: FieldElem)
    requires
        r.l0 == (x.l0 >> 22u64) | (x.l1 << 42u64),
        r.l1 == (x.l1 >> 22u64) | (x.l2 << 42u64),
        r.l2 == (x.l2 >> 22u64) | (x.l3 << 42u64),
        r.l3 == x.l3 >> 22u64,
    ensures
        r.value() * rescale_divisor() + (x.l0 as nat) % 0x400000nat == x.value(),
{
    let a0 = x.l0;
    let a1 = x.l1;
    let a2 = x.l2;
    let a3 = x.l3;
    assert((a0 >> 22u64) | (a1 << 42u64)
        == a0 / 0x400000u64 + (a1 % 0x400000u64) * 0x40000000000u64) by (bit_vector);
    assert((a1 >> 22u64) | (a2 << 42u64)
        == a1 / 0x400000u64 + (a2 % 0x400000u64) * 0x40000000000u64) by (bit_vector);
    assert((a2 >> 22u64) | (a3 << 42u64)
        == a2 / 0x400000u64 + (a3 % 0x400000u64) * 0x40000000000u64) by (bit_vector);
    assert(a3 >> 22u64 == a3 / 0x400000u64) by (bit_vector);
    lemma_fundamental_div_mod(x.l0 as int, 0x400000);
    lemma_fundamental_div_mod(x.l1 as int, 0x400000);
    lemma_fundamental_div_mod(x.l2 as int, 0x400000);
    lemma_fundamental_div_mod(x.l3 as int, 0x400000);
}

/// Fixed-point rescale: drop the low 22 bits of the canonical representative
/// and keep the high bits. A value with 22 or fewer significant bits
/// rescales to zero.
pub fn fe_rescale(x: &FieldElem) -> (r: FieldElem)
    requires
        x.wf(),
    ensures
        r.value() == rescale_val(x.value()),
        r.wf(),
{
    let r0 = (x.l0 >> RESCALE_BITS) | (x.l1 << 42u64);
    let r1 = (x.l1 >> RESCALE_BITS) | (x.l2 << 42u64);
    let r2 = (x.l2 >> RESCALE_BITS) | (x.l3 << 42u64);
    let r3 = x.l3 >> RESCALE_BITS;
    let res = FieldElem { l0: r0, l1: r1, l2: r2, l3: r3 };
    proof {
        lemma_shift22(*x, res);
        lemma_mod_division_less_than_divisor(x.l0 as int, 0x400000);
        lemma_fundamental_div_mod_converse(
            x.value() as int,
            0x400000,
            res.value() as int,
            (x.l0 as nat % 0x400000nat) as int,
        );
        lemma_div_nonincreasing(x.value() as int, 0x400000);
    }
    res
}

/// Embed a vector of signed machine integers, element by element.
pub fn fe_vec_from_i64(v: &Vec<i64>) -> (r: Vec<FieldElem>)
    ensures
        all_wf(r@),
        r@.len() == v@.len(),
        forall|i: int| 0 <= i < v@.len() ==> (#[trigger] r@[i]).signed() == v@[i] as int,
{
    let mut out: Vec<FieldElem> = Vec::new();
    let n = v.len();
    for i in 0..n
        invariant
            n == v@.len(),
            out@.len() == i,
            all_wf(out@),
            forall|k: int| 0 <= k < i ==> (#[trigger] out@[k]).signed() == v@[k] as int,
    {
        out.push(fe_from_i64(v[i]));
    }
    out
}

/// Embed a matrix of signed machine integers, row by row.
pub fn fe_matrix_from_i64(m: &Vec<Vec<i64>>) -> (r: Vec<Vec<FieldElem>>)
    ensures
        mat_wf(r@),
        r@.len() == m@.len(),
        forall|j: int| 0 <= j < m@.len() ==> (#[trigger] r@[j])@.len() == m@[j]@.len(),
        forall|j: int, i: int|
            0 <= j < m@.len() && 0 <= i < m@[j]@.len() ==> (#[trigger] r@[j]@[i]).signed()
                == m@[j]@[i] as int,
{
    let mut out: Vec<Vec<FieldElem>> = Vec::new();
    let n = m.len();
    for j in 0..n
        invariant
            n == m@.len(),
            out@.len() == j,
            mat_wf(out@),
            forall|k: int| 0 <= k < j ==> (#[trigger] out@[k])@.len() == m@[k]@.len(),
            forall|k: int, i: int|
                0 <= k < j && 0 <= i < m@[k]@.len() ==> (#[trigger] out@[k]@[i]).signed()
                    == m@[k]@[i] as int,
    {
        out.push(fe_vec_from_i64(&m[j]));
    }
    out
}

} // verus!
