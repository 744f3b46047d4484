//! The feed-forward pipeline: layers, activation, arg-max, shape checks.

use zk_inference::field::{fe_from_i64, fe_from_u64, fe_matrix_from_i64, fe_vec_from_i64};
use zk_inference::network::{
    argmax, clipped_relu, infer, linear_layer, linear_layer_rescaled, InferenceError, Model,
};

fn identity_model() -> Model {
    Model {
        weight_1: fe_matrix_from_i64(&vec![vec![1, 0], vec![0, 1]]),
        weight_2: fe_matrix_from_i64(&vec![vec![1, 0], vec![0, 1]]),
        bias_1: fe_vec_from_i64(&vec![0, 0]),
        bias_2: fe_vec_from_i64(&vec![0, 0]),
        zero_relu: fe_from_u64(0),
    }
}

#[test]
fn argmax_tie_keeps_first_occurrence() {
    let logits = fe_vec_from_i64(&vec![5, 5, 3]);
    assert_eq!(argmax(&logits), 0);
}

#[test]
fn argmax_takes_strictly_greater() {
    assert_eq!(argmax(&fe_vec_from_i64(&vec![3, 5, 5])), 1);
    assert_eq!(argmax(&fe_vec_from_i64(&vec![-7, -2, -2, -9])), 1);
    assert_eq!(argmax(&fe_vec_from_i64(&vec![4])), 0);
}

#[test]
fn activation_floors_at_zero_threshold() {
    let z = fe_vec_from_i64(&vec![-3, 0, 4]);
    let a = clipped_relu(&z, &fe_from_u64(0));
    assert_eq!(a, fe_vec_from_i64(&vec![0, 0, 4]));
}

#[test]
fn activation_floors_at_negative_threshold() {
    let z = fe_vec_from_i64(&vec![-3, -2, -1, 5]);
    let a = clipped_relu(&z, &fe_from_i64(-2));
    assert_eq!(a, fe_vec_from_i64(&vec![-2, -2, -1, 5]));
}

#[test]
fn first_layer_rescales_raw_values() {
    let m = identity_model();
    let x = fe_vec_from_i64(&vec![1 << 23, 0]);
    let hidden = linear_layer_rescaled(&m.weight_1, &m.bias_1, &x);
    assert_eq!(hidden, fe_vec_from_i64(&vec![2, 0]));
}

#[test]
fn second_layer_keeps_raw_values() {
    let m = identity_model();
    let x = fe_vec_from_i64(&vec![1 << 23, 0]);
    let logits = linear_layer(&m.weight_2, &m.bias_2, &x);
    assert_eq!(logits, fe_vec_from_i64(&vec![1 << 23, 0]));
}

#[test]
fn layer_accumulates_dot_product_and_bias() {
    let w = fe_matrix_from_i64(&vec![vec![2, 3], vec![-1, 1]]);
    let b = fe_vec_from_i64(&vec![7, -1]);
    let x = fe_vec_from_i64(&vec![5, 1]);
    let y = linear_layer(&w, &b, &x);
    assert_eq!(y, fe_vec_from_i64(&vec![20, -5]));
}

#[test]
fn inference_follows_the_pipeline() {
    let m = identity_model();
    let x = fe_vec_from_i64(&vec![1 << 23, 0]);
    assert_eq!(infer(&m, &x), 0);
    let x2 = fe_vec_from_i64(&vec![0, 1 << 23]);
    assert_eq!(infer(&m, &x2), 1);
}

#[test]
fn validate_accepts_consistent_shapes() {
    let m = identity_model();
    assert_eq!(m.validate(2), Ok(()));
}

#[test]
fn validate_rejects_shape_mismatch() {
    let m = identity_model();
    assert_eq!(m.validate(3), Err(InferenceError::ShapeMismatch));
    let ragged = Model {
        weight_1: fe_matrix_from_i64(&vec![vec![1, 0], vec![0]]),
        ..identity_model()
    };
    assert_eq!(ragged.validate(2), Err(InferenceError::ShapeMismatch));
    let short_bias = Model { bias_2: fe_vec_from_i64(&vec![0]), ..identity_model() };
    assert_eq!(short_bias.validate(2), Err(InferenceError::ShapeMismatch));
}

#[test]
fn validate_rejects_empty_output() {
    let m = Model {
        weight_1: fe_matrix_from_i64(&vec![vec![1], vec![1]]),
        weight_2: fe_matrix_from_i64(&Vec::new()),
        bias_1: fe_vec_from_i64(&vec![0, 0]),
        bias_2: fe_vec_from_i64(&Vec::new()),
        zero_relu: fe_from_u64(0),
    };
    assert_eq!(m.validate(1), Err(InferenceError::EmptyOutput));
}
