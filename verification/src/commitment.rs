//! Two-stage commitment binding model, input and output together.
//!
//! Stage A absorbs every model parameter in a fixed order (first-layer
//! weights row-major, second-layer weights row-major, first biases, second
//! biases, activation threshold) and squeezes the model fingerprint. Stage B
//! absorbs the input, the predicted class and the fingerprint, and squeezes
//! the statement digest that the externally supplied public statement must
//! equal. The absorb order is part of the protocol: both stages track it
//! exactly, and each stage uses its own freshly constructed sponge.

use vstd::prelude::*;
use crate::field::{all_wf, fe_eq, fe_from_u64, mat_vals, mat_wf, seq_vals, FieldElem};
use crate::network::{infer, InferenceError, Model};
use crate::sponge::{
    absorbed, in_absorbing_phase, sponge_absorb, sponge_digest, sponge_new, sponge_squeeze, Sponge,
};

verus! {

/// Row-major flattening of a matrix of canonical values.
pub open spec fn flat_vals(w: Seq<Seq<nat>>) -> Seq<nat>
    decreases w.len(),
{
    if w.len() == 0 {
        Seq::empty()
    } else {
        flat_vals(w.drop_last()) + w.last()
    }
}

/// Stage-A absorb order: first-layer weights row-major, second-layer weights
/// row-major, first biases, second biases, then the activation threshold.
pub open spec fn model_transcript(m: Model) -> Seq<nat> {
    flat_vals(m.w1_vals()) + flat_vals(m.w2_vals()) + m.b1_vals() + m.b2_vals()
        + seq![m.threshold_val()]
}

/// Stage-B absorb order: the input vector, the predicted class, then the
/// model fingerprint.
pub open spec fn statement_transcript(x: Seq<nat>, out: nat, fp: nat) -> Seq<nat> {
    x + seq![out, fp]
}

/// The model fingerprint: the digest of the Stage-A transcript.
pub open spec fn fingerprint_val(m: Model) -> nat {
    sponge_digest(model_transcript(m))
}

/// The statement digest: the digest of the Stage-B transcript built over the
/// model's fingerprint.
pub open spec fn statement_val(m: Model, x: Seq<nat>, out: nat) -> nat {
    sponge_digest(statement_transcript(x, out, fingerprint_val(m)))
}

/// Absorb every element of a vector, in order.
fn absorb_vector(s: &mut Sponge, v: &Vec<FieldElem>)
    requires
        in_absorbing_phase(*old(s)),
        all_wf(v@),
    ensures
        absorbed(*final(s)) == absorbed(*old(s)) + seq_vals(v@),
        in_absorbing_phase(*final(s)),
{
    let ghost base = absorbed(*s);
    let n = v.len();
    for i in 0..n
        invariant
            n == v@.len(),
            all_wf(v@),
            in_absorbing_phase(*s),
            absorbed(*s) == base + seq_vals(v@).take(i as int),
    {
        proof {
            assert(seq_vals(v@).take(i as int + 1) =~= seq_vals(v@).take(i as int).push(
                v@[i as int].value(),
            ));
            assert(base + seq_vals(v@).take(i as int + 1) =~= (base + seq_vals(v@).take(
                i as int,
            )).push(v@[i as int].value()));
        }
        sponge_absorb(s, &v[i]);
    }
    proof {
        assert(seq_vals(v@).take(n as int) =~= seq_vals(v@));
        assert(absorbed(*s) =~= base + seq_vals(v@));
    }
}

/// Absorb every entry of a matrix, row-major.
fn absorb_matrix(s: &mut Sponge, w: &Vec<Vec<FieldElem>>)
    requires
        in_absorbing_phase(*old(s)),
        mat_wf(w@),
    ensures
        absorbed(*final(s)) == absorbed(*old(s)) + flat_vals(mat_vals(w@)),
        in_absorbing_phase(*final(s)),
{
    let ghost base = absorbed(*s);
    let n = w.len();
    for j in 0..n
        invariant
            n == w@.len(),
            mat_wf(w@),
            in_absorbing_phase(*s),
            absorbed(*s) == base + flat_vals(mat_vals(w@).take(j as int)),
    {
        proof {
            assert(mat_vals(w@).take(j as int + 1).drop_last() =~= mat_vals(w@).take(j as int));
            assert(mat_vals(w@).take(j as int + 1).last() == seq_vals(w@[j as int]@));
            assert(flat_vals(mat_vals(w@).take(j as int + 1)) == flat_vals(
                mat_vals(w@).take(j as int),
            ) + seq_vals(w@[j as int]@));
            assert(base + flat_vals(mat_vals(w@).take(j as int + 1)) =~= (base + flat_vals(
                mat_vals(w@).take(j as int),
            )) + seq_vals(w@[j as int]@));
        }
        absorb_vector(s, &w[j]);
    }
    proof {
        assert(mat_vals(w@).take(n as int) =~= mat_vals(w@));
    }
}

/// Stage A: absorb every model parameter in the protocol's fixed order and
/// squeeze the model fingerprint.
pub fn model_fingerprint(m: &Model) -> (r: FieldElem)
    requires
        m.elems_wf(),
    ensures
        r.value() == fingerprint_val(*m),
        r.wf(),
{
    let mut s = sponge_new();
    absorb_matrix(&mut s, &m.weight_1);
    absorb_matrix(&mut s, &m.weight_2);
    absorb_vector(&mut s, &m.bias_1);
    absorb_vector(&mut s, &m.bias_2);
    sponge_absorb(&mut s, &m.zero_relu);
    proof {
        assert(absorbed(s) =~= model_transcript(*m));
    }
    sponge_squeeze(&mut s)
}

/// Stage B: absorb the input, the predicted class and the model fingerprint
/// in the protocol's fixed order and squeeze the statement digest.
pub fn statement_digest(
    input: &Vec<FieldElem>,
    output: &FieldElem,
    fingerprint: &FieldElem,
) -> (r: FieldElem)
    requires
        all_wf(input@),
        output.wf(),
        fingerprint.wf(),
    ensures
        r.value() == sponge_digest(
            statement_transcript(seq_vals(input@), output.value(), fingerprint.value()),
        ),
        r.wf(),
{
    let mut s = sponge_new();
    absorb_vector(&mut s, input);
    sponge_absorb(&mut s, output);
    sponge_absorb(&mut s, fingerprint);
    proof {
        assert(absorbed(s) =~= statement_transcript(
            seq_vals(input@),
            output.value(),
            fingerprint.value(),
        ));
    }
    sponge_squeeze(&mut s)
}

/// Compute the public statement a prover must publish for a given model,
/// input and claimed output: the two commitment stages chained together.
pub fn compute_public_statement(
    m: &Model,
    input: &Vec<FieldElem>,
    output: &FieldElem,
) -> (r: FieldElem)
    requires
        m.elems_wf(),
        all_wf(input@),
        output.wf(),
    ensures
        r.value() == statement_val(*m, seq_vals(input@), output.value()),
        r.wf(),
{
    let fp = model_fingerprint(m);
    statement_digest(input, output, &fp)
}

/// Run the whole pipeline on a validated request: reject malformed shapes
/// and the empty output vector first, then return the predicted class and
/// the statement digest that binds model, input and prediction together.
pub fn run_inference(m: &Model, input: &Vec<FieldElem>) -> (r: Result<
    (usize, FieldElem),
    InferenceError,
>)
    requires
        m.elems_wf(),
        all_wf(input@),
    ensures
        match r {
            Ok((class, statement)) => {
                &&& m.shapes_ok(input@.len())
                &&& m.weight_2@.len() >= 1
                &&& class as int == m.predicted_class(seq_vals(input@))
                &&& statement.value() == statement_val(*m, seq_vals(input@), class as nat)
                &&& statement.wf()
            },
            Err(InferenceError::ShapeMismatch) => !m.shapes_ok(input@.len()),
            Err(InferenceError::EmptyOutput) => m.shapes_ok(input@.len())
                && m.weight_2@.len() == 0,
        },
{
    match m.validate(input.len()) {
        Err(e) => Err(e),
        Ok(()) => {
            let class = infer(m, input);
            let out_elem = fe_from_u64(class as u64);
            let statement = compute_public_statement(m, input, &out_elem);
            Ok((class, statement))
        },
    }
}

/// The circuit's sole correctness assertion: the statement digest computed
/// from the witness equals the externally supplied public statement. A
/// mismatch is a semantic failure reported as `false`, not an error.
pub fn check_statement(m: &Model, input: &Vec<FieldElem>, public_statement: &FieldElem) -> (r:
    Result<bool, InferenceError>)
    requires
        m.elems_wf(),
        all_wf(input@),
        public_statement.wf(),
    ensures
        match r {
            Ok(matches) => {
                &&& m.shapes_ok(input@.len())
                &&& m.weight_2@.len() >= 1
                &&& matches == (statement_val(
                    *m,
                    seq_vals(input@),
                    m.predicted_class(seq_vals(input@)) as nat,
                ) == public_statement.value())
            },
            Err(InferenceError::ShapeMismatch) => !m.shapes_ok(input@.len()),
            Err(InferenceError::EmptyOutput) => m.shapes_ok(input@.len())
                && m.weight_2@.len() == 0,
        },
{
    match run_inference(m, input) {
        Err(e) => Err(e),
        Ok((_, statement)) => Ok(fe_eq(&statement, public_statement)),
    }
}

/// Re-running the commitment on value-identical inputs yields identical
/// fingerprints and statement digests: both stages are functions of their
/// absorbed transcripts alone.
pub proof fn lemma_commitment_deterministic(
    m1: Model,
    m2: Model,
    x1: Seq<nat>,
    x2: Seq<nat>,
    out1: nat,
    out2: nat,
)
    requires
        m1.w1_vals() == m2.w1_vals(),
        m1.w2_vals() == m2.w2_vals(),
        m1.b1_vals() == m2.b1_vals(),
        m1.b2_vals() == m2.b2_vals(),
        m1.threshold_val() == m2.threshold_val(),
        x1 == x2,
        out1 == out2,
    ensures
        fingerprint_val(m1) == fingerprint_val(m2),
        statement_val(m1, x1, out1) == statement_val(m2, x2, out2),
{
}

/// The Stage-B absorb sequence binds input, output and fingerprint: two
/// statement transcripts over inputs of one length agree only if the inputs,
/// the outputs and the fingerprints all agree.
pub proof fn lemma_statement_transcript_injective(
    x1: Seq<nat>,
    x2: Seq<nat>,
    out1: nat,
    out2: nat,
    fp1: nat,
    fp2: nat,
)
    requires
        x1.len() == x2.len(),
        statement_transcript(x1, out1, fp1) == statement_transcript(x2, out2, fp2),
    ensures
        x1 == x2,
        out1 == out2,
        fp1 == fp2,
{
    lemma_concat_split(x1, seq![out1, fp1], x2, seq![out2, fp2]);
    assert(seq![out1, fp1][0] == seq![out2, fp2][0]);
    assert(seq![out1, fp1][1] == seq![out2, fp2][1]);
}

/// Splitting a concatenation whose left parts have equal length recovers the
/// parts.
proof fn lemma_concat_split<A>(a1: Seq<A>, b1: Seq<A>, a2: Seq<A>, b2: Seq<A>)
    requires
        a1.len() == a2.len(),
        a1 + b1 == a2 + b2,
    ensures
        a1 == a2,
        b1 == b2,
{
    assert forall|i: int| 0 <= i < a1.len() implies a1[i] == a2[i] by {
        assert((a1 + b1)[i] == a1[i]);
        assert((a2 + b2)[i] == a2[i]);
    }
    assert(a1 =~= a2);
    assert((a1 + b1).len() == (a2 + b2).len());
    assert((a1 + b1).len() == a1.len() + b1.len());
    assert((a2 + b2).len() == a2.len() + b2.len());
    assert(b1.len() == b2.len());
    assert forall|i: int| 0 <= i < b1.len() implies b1[i] == b2[i] by {
        assert((a1 + b1)[a1.len() + i] == b1[i]);
        assert((a2 + b2)[a2.len() + i] == b2[i]);
    }
    assert(b1 =~= b2);
}

/// Length of a row-major flattening of a rectangular matrix.
proof fn lemma_flat_len(w: Seq<Seq<nat>>, row_len: nat)
    requires
        forall|j: int| 0 <= j < w.len() ==> (#[trigger] w[j]).len() == row_len,
    ensures
        flat_vals(w).len() == w.len() * row_len,
    decreases w.len(),
{
    if w.len() > 0 {
        lemma_flat_len(w.drop_last(), row_len);
        assert(flat_vals(w).len() == (w.len() - 1) * row_len + row_len);
        assert((w.len() - 1) * row_len + row_len == w.len() * row_len) by (nonlinear_arith);
    }
}

/// Row-major flattening is injective on rectangular matrices of one shape.
proof fn lemma_flat_injective(w1: Seq<Seq<nat>>, w2: Seq<Seq<nat>>, row_len: nat)
    requires
        w1.len() == w2.len(),
        forall|j: int| 0 <= j < w1.len() ==> (#[trigger] w1[j]).len() == row_len,
        forall|j: int| 0 <= j < w2.len() ==> (#[trigger] w2[j]).len() == row_len,
        flat_vals(w1) == flat_vals(w2),
    ensures
        w1 == w2,
    decreases w1.len(),
{
    if w1.len() == 0 {
        assert(w1 =~= w2);
    } else {
        lemma_flat_len(w1.drop_last(), row_len);
        lemma_flat_len(w2.drop_last(), row_len);
        lemma_concat_split(
            flat_vals(w1.drop_last()),
            w1.last(),
            flat_vals(w2.drop_last()),
            w2.last(),
        );
        lemma_flat_injective(w1.drop_last(), w2.drop_last(), row_len);
        assert forall|i: int| 0 <= i < w1.len() implies w1[i] == w2[i] by {
            if i < w1.len() - 1 {
                assert(w1[i] == w1.drop_last()[i]);
                assert(w2[i] == w2.drop_last()[i]);
            } else {
                assert(w1[i] == w1.last());
                assert(w2[i] == w2.last());
            }
        }
        assert(w1 =~= w2);
    }
}

/// Within one shape, the Stage-A absorb sequence determines every model
/// parameter: two models of equal shape that absorb the same transcript
/// carry the same weights, biases and threshold. So permuting parameters
/// into different positions changes the transcript the sponge sees unless
/// the values coincide; what the sponge makes of two different transcripts
/// is its collision resistance, which lies outside this model.
pub proof fn lemma_model_transcript_injective(m1: Model, m2: Model, n: nat)
    requires
        m1.shapes_ok(n),
        m2.shapes_ok(n),
        m1.weight_1@.len() == m2.weight_1@.len(),
        m1.weight_2@.len() == m2.weight_2@.len(),
        model_transcript(m1) == model_transcript(m2),
    ensures
        m1.w1_vals() == m2.w1_vals(),
        m1.w2_vals() == m2.w2_vals(),
        m1.b1_vals() == m2.b1_vals(),
        m1.b2_vals() == m2.b2_vals(),
        m1.threshold_val() == m2.threshold_val(),
{
    let h = m1.weight_1@.len() as nat;
    lemma_flat_len(m1.w1_vals(), n);
    lemma_flat_len(m2.w1_vals(), n);
    lemma_flat_len(m1.w2_vals(), h);
    lemma_flat_len(m2.w2_vals(), h);
    let a1 = flat_vals(m1.w1_vals()) + flat_vals(m1.w2_vals()) + m1.b1_vals() + m1.b2_vals();
    let a2 = flat_vals(m2.w1_vals()) + flat_vals(m2.w2_vals()) + m2.b1_vals() + m2.b2_vals();
    lemma_concat_split(a1, seq![m1.threshold_val()], a2, seq![m2.threshold_val()]);
    let c1 = flat_vals(m1.w1_vals()) + flat_vals(m1.w2_vals()) + m1.b1_vals();
    let c2 = flat_vals(m2.w1_vals()) + flat_vals(m2.w2_vals()) + m2.b1_vals();
    lemma_concat_split(c1, m1.b2_vals(), c2, m2.b2_vals());
    let d1 = flat_vals(m1.w1_vals()) + flat_vals(m1.w2_vals());
    let d2 = flat_vals(m2.w1_vals()) + flat_vals(m2.w2_vals());
    lemma_concat_split(d1, m1.b1_vals(), d2, m2.b1_vals());
    lemma_concat_split(
        flat_vals(m1.w1_vals()),
        flat_vals(m1.w2_vals()),
        flat_vals(m2.w1_vals()),
        flat_vals(m2.w2_vals()),
    );
    lemma_flat_injective(m1.w1_vals(), m2.w1_vals(), n);
    lemma_flat_injective(m1.w2_vals(), m2.w2_vals(), h);
    assert(seq![m1.threshold_val()][0] == seq![m2.threshold_val()][0]);
}

} // verus!
