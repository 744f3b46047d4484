//! Quantized two-layer feed-forward pass over the scalar field.
//!
//! The pipeline is a pure combinational pass: an affine transform with a
//! fixed-point rescale, a clipped activation that floors every element at a
//! threshold, a second affine transform without rescale (the asymmetry is a
//! deliberate quantization choice), and an arg-max reduction whose strict
//! comparison keeps the first occurrence among equal maxima.

use vstd::prelude::*;
use vstd::arithmetic::div_mod::{lemma_add_mod_noop, lemma_small_mod};
use crate::field::{
    all_wf, fe_add, fe_from_u64, fe_gt, fe_is_canonical, fe_mul, fe_rescale, field_order,
    mat_vals, mat_wf, rescale_val, seq_vals, signed_of, FieldElem,
};

verus! {

/// Dot product of two equally long value sequences, not reduced.
pub open spec fn dot_sum(w: Seq<nat>, x: Seq<nat>) -> nat
    recommends
        w.len() == x.len(),
    decreases w.len(),
{
    if w.len() == 0 {
        0
    } else {
        dot_sum(w.drop_last(), x.drop_last()) + w.last() * x.last()
    }
}

/// One row of an affine transform: the dot product plus the bias, reduced
/// into the field.
pub open spec fn affine_val(w_row: Seq<nat>, x: Seq<nat>, b: nat) -> nat {
    (dot_sum(w_row, x) + b) % field_order()
}

/// Affine layer without rescale.
pub open spec fn layer_raw(w: Seq<Seq<nat>>, b: Seq<nat>, x: Seq<nat>) -> Seq<nat> {
    Seq::new(w.len(), |j: int| affine_val(w[j], x, b[j]))
}

/// Affine layer followed by the fixed-point rescale of every row.
pub open spec fn layer_rescaled(w: Seq<Seq<nat>>, b: Seq<nat>, x: Seq<nat>) -> Seq<nat> {
    Seq::new(w.len(), |j: int| rescale_val(affine_val(w[j], x, b[j])))
}

/// Clipped activation of one value: keep it if it is strictly greater than
/// the threshold in the signed reading, else floor it to the threshold.
pub open spec fn clip_val(z: nat, t: nat) -> nat {
    if signed_of(z) > signed_of(t) {
        z
    } else {
        t
    }
}

/// Clipped activation, element by element; no state is carried between
/// elements.
pub open spec fn activate_vals(zs: Seq<nat>, t: nat) -> Seq<nat> {
    zs.map_values(|z: nat| clip_val(z, t))
}

/// Index of the maximum value in the signed reading; a strict comparison
/// walking left to right keeps the first occurrence among equal maxima.
pub open spec fn argmax_idx(f: Seq<nat>) -> int
    recommends
        f.len() >= 1,
    decreases f.len(),
{
    if f.len() <= 1 {
        0
    } else {
        let prev = argmax_idx(f.drop_last());
        if signed_of(f.last()) > signed_of(f[prev]) {
            f.len() - 1
        } else {
            prev
        }
    }
}

/// The arg-max index points at a maximum, and everything before it is
/// strictly below that maximum: the first occurrence wins.
pub proof fn lemma_argmax_first_occurrence(f: Seq<nat>)
    requires
        f.len() >= 1,
    ensures
        0 <= argmax_idx(f) < f.len(),
        forall|k: int| 0 <= k < f.len() ==> signed_of(#[trigger] f[k]) <= signed_of(f[argmax_idx(f)]),
        forall|k: int| 0 <= k < argmax_idx(f) ==> signed_of(#[trigger] f[k]) < signed_of(f[argmax_idx(f)]),
    decreases f.len(),
{
    if f.len() > 1 {
        let g = f.drop_last();
        lemma_argmax_first_occurrence(g);
        let prev = argmax_idx(g);
        let m = argmax_idx(f);
        assert(f[prev] == g[prev]);
        if signed_of(f.last()) > signed_of(g[prev]) {
            assert(m == f.len() - 1);
            assert forall|k: int| 0 <= k < m implies signed_of(#[trigger] f[k]) < signed_of(f[m]) by {
                assert(f[k] == g[k]);
                assert(signed_of(g[k]) <= signed_of(g[prev]));
            }
        } else {
            assert(m == prev);
            assert forall|k: int| 0 <= k < f.len() implies signed_of(#[trigger] f[k]) <= signed_of(f[m]) by {
                if k < f.len() - 1 {
                    assert(f[k] == g[k]);
                    assert(signed_of(g[k]) <= signed_of(g[prev]));
                } else {
                    assert(f[k] == f.last());
                }
            }
            assert forall|k: int| 0 <= k < m implies signed_of(#[trigger] f[k]) < signed_of(f[m]) by {
                assert(f[k] == g[k]);
            }
        }
    }
}

/// Malformed requests the pipeline rejects before any computation starts.
#[derive(Clone, Copy, Debug, PartialEq, Eq, Structural)]
pub enum InferenceError {
    /// Matrix and vector dimensions are inconsistent with the declared
    /// layer sizes.
    ShapeMismatch,
    /// The output vector is empty, so the arg-max reduction is undefined.
    EmptyOutput,
}

/// A private two-layer feed-forward model: weights, biases and the
/// activation threshold, all canonical field elements.
#[derive(Clone, Debug)]
pub struct Model {
    /// Weight matrix of the first layer, one inner vector per output row.
    pub weight_1: Vec<Vec<FieldElem>>,
    /// Weight matrix of the second layer.
    pub weight_2: Vec<Vec<FieldElem>>,
    /// Bias vector of the first layer.
    pub bias_1: Vec<FieldElem>,
    /// Bias vector of the second layer.
    pub bias_2: Vec<FieldElem>,
    /// Clipping floor of the activation.
    pub zero_relu: FieldElem,
}

impl Model {
    /// First-layer weights as canonical values.
    pub open spec fn w1_vals(self) -> Seq<Seq<nat>> {
        mat_vals(self.weight_1@)
    }

    /// Second-layer weights as canonical values.
    pub open spec fn w2_vals(self) -> Seq<Seq<nat>> {
        mat_vals(self.weight_2@)
    }

    /// First-layer biases as canonical values.
    pub open spec fn b1_vals(self) -> Seq<nat> {
        seq_vals(self.bias_1@)
    }

    /// Second-layer biases as canonical values.
    pub open spec fn b2_vals(self) -> Seq<nat> {
        seq_vals(self.bias_2@)
    }

    /// Activation threshold as a canonical value.
    pub open spec fn threshold_val(self) -> nat {
        self.zero_relu.value()
    }

    /// Every stored element is a canonical representative.
    pub open spec fn elems_wf(self) -> bool {
        &&& mat_wf(self.weight_1@)
        &&& mat_wf(self.weight_2@)
        &&& all_wf(self.bias_1@)
        &&& all_wf(self.bias_2@)
        &&& self.zero_relu.wf()
    }

    /// Shape consistency against an input of length `n`: the first layer
    /// multiplies the input, the second layer multiplies the first layer's
    /// output, and each bias matches its matrix.
    pub open spec fn shapes_ok(self, n: nat) -> bool {
        &&& self.bias_1@.len() == self.weight_1@.len()
        &&& forall|j: int|
            0 <= j < self.weight_1@.len() ==> (#[trigger] self.weight_1@[j])@.len() == n
        &&& self.bias_2@.len() == self.weight_2@.len()
        &&& forall|j: int|
            0 <= j < self.weight_2@.len() ==> (#[trigger] self.weight_2@[j])@.len()
                == self.weight_1@.len()
    }

    /// Output of the first layer after rescale and activation.
    pub open spec fn hidden_vals(self, x: Seq<nat>) -> Seq<nat> {
        activate_vals(layer_rescaled(self.w1_vals(), self.b1_vals(), x), self.threshold_val())
    }

    /// Final logits: the second layer applied to the activated hidden
    /// vector, without rescale.
    pub open spec fn logit_vals(self, x: Seq<nat>) -> Seq<nat> {
        layer_raw(self.w2_vals(), self.b2_vals(), self.hidden_vals(x))
    }

    /// The class the model predicts: the arg-max of the logits.
    pub open spec fn predicted_class(self, x: Seq<nat>) -> int {
        argmax_idx(self.logit_vals(x))
    }

    /// Whether every stored element is canonical.
    pub fn elements_canonical(&self) -> (r: bool)
        ensures
            r == self.elems_wf(),
    {
        matrix_canonical(&self.weight_1) && matrix_canonical(&self.weight_2) && vec_canonical(
            &self.bias_1,
        ) && vec_canonical(&self.bias_2) && fe_is_canonical(&self.zero_relu)
    }

    /// Reject malformed shapes before any witness is computed: the exact
    /// conditions under which the pipeline is defined.
    pub fn validate(&self, input_len: usize) -> (r: Result<(), InferenceError>)
        ensures
            match r {
                Ok(()) => self.shapes_ok(input_len as nat) && self.weight_2@.len() >= 1,
                Err(InferenceError::ShapeMismatch) => !self.shapes_ok(input_len as nat),
                Err(InferenceError::EmptyOutput) => self.shapes_ok(input_len as nat)
                    && self.weight_2@.len() == 0,
            },
    {
        if self.bias_1.len() != self.weight_1.len() {
            return Err(InferenceError::ShapeMismatch);
        }
        if self.bias_2.len() != self.weight_2.len() {
            return Err(InferenceError::ShapeMismatch);
        }
        for j in 0..self.weight_1.len()
            invariant
                forall|k: int| 0 <= k < j ==> (#[trigger] self.weight_1@[k])@.len() == input_len,
        {
            if self.weight_1[j].len() != input_len {
                return Err(InferenceError::ShapeMismatch);
            }
        }
        for j in 0..self.weight_2.len()
            invariant
                forall|k: int|
                    0 <= k < j ==> (#[trigger] self.weight_2@[k])@.len() == self.weight_1@.len(),
        {
            if self.weight_2[j].len() != self.weight_1.len() {
                return Err(InferenceError::ShapeMismatch);
            }
        }
        if self.weight_2.len() == 0 {
            return Err(InferenceError::EmptyOutput);
        }
        Ok(())
    }
}

/// Whether every element of a vector is canonical.
pub fn vec_canonical(v: &Vec<FieldElem>) -> (r: bool)
    ensures
        r == all_wf(v@),
{
    let n = v.len();
    for i in 0..n
        invariant
            n == v@.len(),
            forall|k: int| 0 <= k < i ==> (#[trigger] v@[k]).wf(),
    {
        if !fe_is_canonical(&v[i]) {
            return false;
        }
    }
    true
}

/// Whether every entry of a matrix is canonical.
pub fn matrix_canonical(w: &Vec<Vec<FieldElem>>) -> (r: bool)
    ensures
        r == mat_wf(w@),
{
    let n = w.len();
    for j in 0..n
        invariant
            n == w@.len(),
            forall|k: int| 0 <= k < j ==> all_wf(#[trigger] w@[k]@),
    {
        if !vec_canonical(&w[j]) {
            return false;
        }
    }
    true
}

/// One row of an affine transform: accumulate the dot product in the field,
/// then add the bias.
pub fn affine_row(row: &Vec<FieldElem>, x: &Vec<FieldElem>, b: &FieldElem) -> (r: FieldElem)
    requires
        all_wf(row@),
        all_wf(x@),
        b.wf(),
        row@.len() == x@.len(),
    ensures
        r.value() == affine_val(seq_vals(row@), seq_vals(x@), b.value()),
        r.wf(),
{
    let ghost wv = seq_vals(row@);
    let ghost xv = seq_vals(x@);
    let mut acc = fe_from_u64(0);
    proof {
        assert(wv.take(0) =~= Seq::<nat>::empty());
        assert(xv.take(0) =~= Seq::<nat>::empty());
        lemma_small_mod(0nat, field_order());
    }
    let n = row.len();
    for i in 0..n
        invariant
            n == row@.len(),
            row@.len() == x@.len(),
            all_wf(row@),
            all_wf(x@),
            wv == seq_vals(row@),
            xv == seq_vals(x@),
            acc.wf(),
            acc.value() == dot_sum(wv.take(i as int), xv.take(i as int)) % field_order(),
    {
        let t = fe_mul(&row[i], &x[i]);
        let next = fe_add(&acc, &t);
        proof {
            let d = dot_sum(wv.take(i as int), xv.take(i as int));
            let prod = wv[i as int] * xv[i as int];
            assert(wv.take(i as int + 1).drop_last() =~= wv.take(i as int));
            assert(xv.take(i as int + 1).drop_last() =~= xv.take(i as int));
            assert(dot_sum(wv.take(i as int + 1), xv.take(i as int + 1)) == d + prod);
            lemma_add_mod_noop(d as int, prod as int, field_order() as int);
        }
        acc = next;
    }
    proof {
        assert(wv.take(n as int) =~= wv);
        assert(xv.take(n as int) =~= xv);
    }
    let r = fe_add(&acc, b);
    proof {
        lemma_small_mod(b.value(), field_order());
        lemma_add_mod_noop(dot_sum(wv, xv) as int, b.value() as int, field_order() as int);
    }
    r
}

/// First layer: affine transform plus fixed-point rescale of every row.
pub fn linear_layer_rescaled(
    w: &Vec<Vec<FieldElem>>,
    b: &Vec<FieldElem>,
    x: &Vec<FieldElem>,
) -> (r: Vec<FieldElem>)
    requires
        mat_wf(w@),
        all_wf(b@),
        all_wf(x@),
        b@.len() == w@.len(),
        forall|j: int| 0 <= j < w@.len() ==> (#[trigger] w@[j])@.len() == x@.len(),
    ensures
        seq_vals(r@) == layer_rescaled(mat_vals(w@), seq_vals(b@), seq_vals(x@)),
        all_wf(r@),
        r@.len() == w@.len(),
{
    let mut out: Vec<FieldElem> = Vec::new();
    let n = w.len();
    for j in 0..n
        invariant
            n == w@.len(),
            mat_wf(w@),
            all_wf(b@),
            all_wf(x@),
            b@.len() == w@.len(),
            forall|k: int| 0 <= k < w@.len() ==> (#[trigger] w@[k])@.len() == x@.len(),
            out@.len() == j,
            all_wf(out@),
            forall|k: int|
                0 <= k < j ==> (#[trigger] out@[k]).value() == rescale_val(
                    affine_val(mat_vals(w@)[k], seq_vals(x@), seq_vals(b@)[k]),
                ),
    {
        let raw = affine_row(&w[j], x, &b[j]);
        let sc = fe_rescale(&raw);
        proof {
            assert(mat_vals(w@)[j as int] == seq_vals(w@[j as int]@));
            assert(seq_vals(b@)[j as int] == b@[j as int].value());
        }
        out.push(sc);
    }
    proof {
        assert(seq_vals(out@) =~= layer_rescaled(mat_vals(w@), seq_vals(b@), seq_vals(x@)));
    }
    out
}

/// Second layer: affine transform without rescale; the asymmetry against the
/// first layer is part of the protocol.
pub fn linear_layer(
    w: &Vec<Vec<FieldElem>>,
    b: &Vec<FieldElem>,
    x: &Vec<FieldElem>,
) -> (r: Vec<FieldElem>)
    requires
        mat_wf(w@),
        all_wf(b@),
        all_wf(x@),
        b@.len() == w@.len(),
        forall|j: int| 0 <= j < w@.len() ==> (#[trigger] w@[j])@.len() == x@.len(),
    ensures
        seq_vals(r@) == layer_raw(mat_vals(w@), seq_vals(b@), seq_vals(x@)),
        all_wf(r@),
        r@.len() == w@.len(),
{
    let mut out: Vec<FieldElem> = Vec::new();
    let n = w.len();
    for j in 0..n
        invariant
            n == w@.len(),
            mat_wf(w@),
            all_wf(b@),
            all_wf(x@),
            b@.len() == w@.len(),
            forall|k: int| 0 <= k < w@.len() ==> (#[trigger] w@[k])@.len() == x@.len(),
            out@.len() == j,
            all_wf(out@),
            forall|k: int|
                0 <= k < j ==> (#[trigger] out@[k]).value() == affine_val(
                    mat_vals(w@)[k],
                    seq_vals(x@),
                    seq_vals(b@)[k],
                ),
    {
        let raw = affine_row(&w[j], x, &b[j]);
        proof {
            assert(mat_vals(w@)[j as int] == seq_vals(w@[j as int]@));
            assert(seq_vals(b@)[j as int] == b@[j as int].value());
        }
        out.push(raw);
    }
    proof {
        assert(seq_vals(out@) =~= layer_raw(mat_vals(w@), seq_vals(b@), seq_vals(x@)));
    }
    out
}

/// Clipped activation: every element strictly greater than the threshold in
/// the signed reading is kept, every other element is floored to the
/// threshold.
pub fn clipped_relu(z: &Vec<FieldElem>, t: &FieldElem) -> (r: Vec<FieldElem>)
    requires
        all_wf(z@),
        t.wf(),
    ensures
        seq_vals(r@) == activate_vals(seq_vals(z@), t.value()),
        all_wf(r@),
        r@.len() == z@.len(),
{
    let mut out: Vec<FieldElem> = Vec::new();
    let n = z.len();
    for i in 0..n
        invariant
            n == z@.len(),
            all_wf(z@),
            t.wf(),
            out@.len() == i,
            all_wf(out@),
            forall|k: int|
                0 <= k < i ==> (#[trigger] out@[k]).value() == clip_val(seq_vals(z@)[k], t.value()),
    {
        let keep = fe_gt(&z[i], t);
        proof {
            assert(seq_vals(z@)[i as int] == z@[i as int].value());
        }
        if keep {
            out.push(z[i]);
        } else {
            out.push(*t);
        }
    }
    proof {
        assert(seq_vals(out@) =~= activate_vals(seq_vals(z@), t.value()));
    }
    out
}

/// Arg-max reduction: the index of the maximum logit in the signed reading,
/// the first occurrence winning among equal maxima.
pub fn argmax(f: &Vec<FieldElem>) -> (r: usize)
    requires
        all_wf(f@),
        f@.len() >= 1,
    ensures
        r as int == argmax_idx(seq_vals(f@)),
{
    let ghost fv = seq_vals(f@);
    let mut best: usize = 0;
    let mut best_elem: FieldElem = f[0];
    proof {
        assert(fv.take(1) =~= seq![fv[0]]);
    }
    let n = f.len();
    for k in 1..n
        invariant
            n == f@.len(),
            all_wf(f@),
            fv == seq_vals(f@),
            1 <= n,
            best < k,
            k <= n,
            best as int == argmax_idx(fv.take(k as int)),
            best_elem == f@[best as int],
    {
        let g = fe_gt(&f[k], &best_elem);
        proof {
            assert(fv.take(k as int + 1).drop_last() =~= fv.take(k as int));
            assert(fv.take(k as int + 1).last() == fv[k as int]);
        }
        if g {
            best = k;
            best_elem = f[k];
        }
    }
    proof {
        assert(fv.take(n as int) =~= fv);
    }
    best
}

/// The whole pipeline: first layer with rescale, clipped activation, second
/// layer, arg-max.
pub fn infer(m: &Model, input: &Vec<FieldElem>) -> (r: usize)
    requires
        m.elems_wf(),
        all_wf(input@),
        m.shapes_ok(input@.len()),
        m.weight_2@.len() >= 1,
    ensures
        r as int == m.predicted_class(seq_vals(input@)),
{
    let hidden_raw = linear_layer_rescaled(&m.weight_1, &m.bias_1, input);
    let hidden = clipped_relu(&hidden_raw, &m.zero_relu);
    let logits = linear_layer(&m.weight_2, &m.bias_2, &hidden);
    argmax(&logits)
}

} // verus!
