use feedforward::activation::{drelu, dtanh, relu, tanh, Activation};
use feedforward::errors::{mse, mse_gradient, Error};
use feedforward::fully_connected::FullyConnected;
use feedforward::layer::Layer;
use feedforward::network::{Network, NetworkError};
use feedforward::scalar::Scalar;
use feedforward::stage::Stage;

/// Single-precision floating point as the network's scalar.
#[derive(Clone, Copy, Debug, PartialEq)]
struct Real(f32);

impl Scalar for Real {
    fn from_count_spec(n: usize) -> Self {
        Real(n as f32)
    }

    fn plus_spec(self, rhs: Self) -> Self {
        Real(self.0 + rhs.0)
    }

    fn minus_spec(self, rhs: Self) -> Self {
        Real(self.0 - rhs.0)
    }

    fn times_spec(self, rhs: Self) -> Self {
        Real(self.0 * rhs.0)
    }

    fn over_spec(self, rhs: Self) -> Self {
        Real(self.0 / rhs.0)
    }

    fn exceeds_spec(self, rhs: Self) -> bool {
        self.0 > rhs.0
    }

    fn tanh_spec(self) -> Self {
        Real(self.0.tanh())
    }

    fn from_count(n: usize) -> Self {
        Real(n as f32)
    }

    fn plus(self, rhs: Self) -> Self {
        Real(self.0 + rhs.0)
    }

    fn minus(self, rhs: Self) -> Self {
        Real(self.0 - rhs.0)
    }

    fn times(self, rhs: Self) -> Self {
        Real(self.0 * rhs.0)
    }

    fn over(self, rhs: Self) -> Self {
        Real(self.0 / rhs.0)
    }

    fn exceeds(self, rhs: Self) -> bool {
        self.0 > rhs.0
    }

    fn tanh(self) -> Self {
        Real(self.0.tanh())
    }
}

type Unary = fn(Real) -> Real;

fn reals(values: &[f32]) -> Vec<Real> {
    values.iter().map(|v| Real(*v)).collect()
}

fn floats(values: &[Real]) -> Vec<f32> {
    values.iter().map(|v| v.0).collect()
}

fn identity(x: Real) -> Real {
    x
}

fn unit_slope(_: Real) -> Real {
    Real(1.0)
}

fn dense(input_size: usize, rows: &[&[f32]], biases: &[f32]) -> FullyConnected<Real> {
    let weights: Vec<Vec<Real>> = rows.iter().map(|row| reals(row)).collect();
    FullyConnected::from_parameters(input_size, weights, reals(biases)).unwrap()
}

fn xor_data() -> Vec<(Vec<Real>, Vec<Real>)> {
    vec![
        (reals(&[0.0, 0.0]), reals(&[0.0])),
        (reals(&[0.0, 1.0]), reals(&[1.0])),
        (reals(&[1.0, 0.0]), reals(&[1.0])),
        (reals(&[1.0, 1.0]), reals(&[0.0])),
    ]
}

#[test]
fn zero_dense_layer_forwards_zero() {
    let layer = dense(3, &[&[0.0, 0.0, 0.0], &[0.0, 0.0, 0.0]], &[0.0, 0.0]);
    let output = layer.forward(&reals(&[1.5, -2.0, 1.0e6]));
    assert_eq!(floats(&output), vec![0.0, 0.0]);
}

#[test]
fn dense_forward_is_affine() {
    let layer = dense(2, &[&[1.0, 2.0], &[3.0, 4.0], &[-1.0, 0.5]], &[0.5, -1.0, 0.0]);
    let output = layer.forward(&reals(&[2.0, 3.0]));
    assert_eq!(floats(&output), vec![8.5, 17.0, -0.5]);
}

#[test]
fn dense_backward_is_transposed_product() {
    let layer = dense(2, &[&[1.0, 2.0], &[3.0, 4.0], &[-1.0, 0.5]], &[0.5, -1.0, 0.0]);
    let input_error = layer.backward(&reals(&[9.0, 9.0]), &reals(&[1.0, 2.0, 4.0]));
    assert_eq!(floats(&input_error), vec![3.0, 12.0]);
}

#[test]
fn dense_backward_ignores_input() {
    let layer = dense(2, &[&[1.0, 2.0], &[3.0, 4.0]], &[0.0, 0.0]);
    let a = layer.backward(&reals(&[0.0, 0.0]), &reals(&[1.0, -1.0]));
    let b = layer.backward(&reals(&[7.0, -3.0]), &reals(&[1.0, -1.0]));
    assert_eq!(a, b);
}

#[test]
fn dense_update_is_gradient_step() {
    let mut layer = dense(2, &[&[1.0, 2.0], &[3.0, 4.0]], &[0.5, -1.0]);
    layer.update_params(&reals(&[2.0, 4.0]), &reals(&[1.0, -2.0]), Real(0.5));
    assert_eq!(floats(&layer.weights[0]), vec![0.0, 0.0]);
    assert_eq!(floats(&layer.weights[1]), vec![5.0, 8.0]);
    assert_eq!(floats(&layer.biases), vec![0.0, 0.0]);
    assert_eq!(layer.input_size, 2);
    assert_eq!(layer.output_size, 2);
}

#[test]
fn from_parameters_refuses_ragged_rows() {
    let weights = vec![reals(&[1.0, 2.0]), reals(&[3.0])];
    let r = FullyConnected::from_parameters(2, weights, reals(&[0.0, 0.0]));
    assert!(matches!(r, Err(NetworkError::DimensionMismatch)));
}

#[test]
fn from_parameters_refuses_missing_bias() {
    let weights = vec![reals(&[1.0, 2.0]), reals(&[3.0, 4.0])];
    let r = FullyConnected::from_parameters(2, weights, reals(&[0.0]));
    assert!(matches!(r, Err(NetworkError::DimensionMismatch)));
}

#[test]
fn random_layer_has_declared_shape_and_range() {
    let layer: FullyConnected<Real> = FullyConnected::new(5, 7);
    assert_eq!(layer.input_size, 5);
    assert_eq!(layer.output_size, 7);
    assert_eq!(layer.biases.len(), 7);
    assert_eq!(layer.weights.len(), 7);
    let mut distinct = false;
    for row in layer.weights.iter() {
        assert_eq!(row.len(), 5);
        for w in row.iter() {
            assert!(-1.0 <= w.0 && w.0 < 1.0);
            if *w != layer.weights[0][0] {
                distinct = true;
            }
        }
    }
    for b in layer.biases.iter() {
        assert!(-1.0 <= b.0 && b.0 < 1.0);
    }
    assert!(distinct);
}

#[test]
fn activation_forward_applies_function() {
    let layer = Activation::new(relu::<Real> as Unary, drelu::<Real> as Unary);
    let output = layer.forward(&reals(&[-1.0, 0.0, 2.5]));
    assert_eq!(floats(&output), vec![0.0, 0.0, 2.5]);
}

#[test]
fn activation_backward_with_ones_is_derivative() {
    let layer = Activation::new(tanh::<Real> as Unary, dtanh::<Real> as Unary);
    let input = reals(&[-2.0, -0.5, 0.0, 0.25, 3.0]);
    let _ = layer.forward(&input);
    let input_error = layer.backward(&input, &reals(&[1.0, 1.0, 1.0, 1.0, 1.0]));
    let expected: Vec<Real> = input.iter().map(|x| dtanh(*x)).collect();
    assert_eq!(input_error, expected);
}

#[test]
fn activation_backward_scales_by_output_error() {
    let layer = Activation::new(relu::<Real> as Unary, drelu::<Real> as Unary);
    let input_error = layer.backward(&reals(&[-1.0, 2.0, 0.0]), &reals(&[5.0, 7.0, 9.0]));
    assert_eq!(floats(&input_error), vec![0.0, 7.0, 0.0]);
}

#[test]
fn activation_update_changes_nothing() {
    let mut layer = Activation::new(relu::<Real> as Unary, drelu::<Real> as Unary);
    layer.update_params(&reals(&[1.0]), &reals(&[1.0]), Real(0.1));
    assert_eq!(floats(&layer.forward(&reals(&[-3.0, 3.0]))), vec![0.0, 3.0]);
}

#[test]
fn stock_functions_have_exact_values() {
    assert_eq!(relu(Real(-2.0)), Real(0.0));
    assert_eq!(relu(Real(3.5)), Real(3.5));
    assert_eq!(drelu(Real(0.0)), Real(0.0));
    assert_eq!(drelu(Real(-1.0)), Real(0.0));
    assert_eq!(drelu(Real(0.001)), Real(1.0));
    assert_eq!(tanh(Real(0.0)), Real(0.0));
    assert_eq!(tanh(Real(0.5)), Real(0.5f32.tanh()));
    assert_eq!(dtanh(Real(0.0)), Real(1.0));
    assert_eq!(dtanh(Real(0.5)), Real(1.0 - 0.5f32.tanh() * 0.5f32.tanh()));
}

#[test]
fn mse_of_equal_vectors_is_zero() {
    let loss = mse(&reals(&[1.0, 2.0]), &reals(&[1.0, 2.0]));
    assert_eq!(loss, Real(0.0));
}

#[test]
fn mse_of_single_entry_is_squared_difference() {
    let loss = mse(&reals(&[0.0]), &reals(&[2.0]));
    assert_eq!(loss, Real(4.0));
}

#[test]
fn mse_gradient_is_scaled_difference() {
    let gradient = mse_gradient(&reals(&[1.0, 5.0]), &reals(&[3.0, 2.0]));
    assert_eq!(floats(&gradient), vec![-2.0, 3.0]);
}

#[test]
fn identity_network_returns_input() {
    let layers: Vec<Stage<Real, Unary, Unary>> = vec![
        Stage::Dense(dense(2, &[&[1.0, 0.0], &[0.0, 1.0]], &[0.0, 0.0])),
        Stage::Elementwise(Activation::new(identity as Unary, unit_slope as Unary)),
    ];
    let network = Network::new(layers, Error::new(mse::<Real>, mse_gradient::<Real>)).unwrap();
    let output = network.predict(&reals(&[1.0, 2.0])).unwrap();
    assert_eq!(floats(&output), vec![1.0, 2.0]);
}

#[test]
fn predict_returns_declared_output_width() {
    let layers: Vec<Stage<Real, Unary, Unary>> = vec![
        Stage::Elementwise(Activation::new(relu::<Real> as Unary, drelu::<Real> as Unary)),
        Stage::Dense(FullyConnected::new(4, 6)),
        Stage::Elementwise(Activation::new(tanh::<Real> as Unary, dtanh::<Real> as Unary)),
        Stage::Dense(FullyConnected::new(6, 3)),
    ];
    let network = Network::new(layers, Error::new(mse::<Real>, mse_gradient::<Real>)).unwrap();
    assert_eq!(network.checked_output_width(4), Some(3));
    assert_eq!(network.checked_output_width(5), None);
    let output = network.predict(&reals(&[0.1, 0.2, 0.3, 0.4])).unwrap();
    assert_eq!(output.len(), 3);
}

#[test]
fn predict_refuses_wrong_input_width() {
    let layers = vec![dense(2, &[&[1.0, 0.0], &[0.0, 1.0]], &[0.0, 0.0])];
    let network = Network::new(layers, Error::new(mse::<Real>, mse_gradient::<Real>)).unwrap();
    let r = network.predict(&reals(&[1.0, 2.0, 3.0]));
    assert_eq!(r, Err(NetworkError::DimensionMismatch));
}

#[test]
fn new_refuses_layers_that_do_not_match() {
    let layers: Vec<Stage<Real, Unary, Unary>> = vec![
        Stage::Dense(FullyConnected::new(2, 3)),
        Stage::Elementwise(Activation::new(tanh::<Real> as Unary, dtanh::<Real> as Unary)),
        Stage::Dense(FullyConnected::new(4, 1)),
    ];
    let r = Network::new(layers, Error::new(mse::<Real>, mse_gradient::<Real>));
    assert!(matches!(r, Err(NetworkError::DimensionMismatch)));
}

#[test]
fn empty_network_is_identity() {
    let layers: Vec<FullyConnected<Real>> = Vec::new();
    let network = Network::new(layers, Error::new(mse::<Real>, mse_gradient::<Real>)).unwrap();
    let output = network.predict(&reals(&[4.0, 5.0, 6.0])).unwrap();
    assert_eq!(floats(&output), vec![4.0, 5.0, 6.0]);
}

#[test]
fn learn_returns_output_and_loss_from_before_the_step() {
    let layers = vec![dense(2, &[&[1.0, 1.0]], &[0.0])];
    let mut network = Network::new(layers, Error::new(mse::<Real>, mse_gradient::<Real>)).unwrap();
    let (output, loss) = network.learn(&reals(&[1.0, 2.0]), &reals(&[1.0]), Real(0.25)).unwrap();
    assert_eq!(floats(&output), vec![3.0]);
    assert_eq!(loss, Real(4.0));
    // The gradient of the loss is 2 (3 - 1) / 1 = 4.
    assert_eq!(floats(&network.layers[0].weights[0]), vec![0.0, -1.0]);
    assert_eq!(floats(&network.layers[0].biases), vec![-1.0]);
}

#[test]
fn learn_updates_each_layer_with_error_from_its_output_side() {
    let layers = vec![
        dense(1, &[&[2.0]], &[0.0]),
        dense(1, &[&[3.0]], &[0.0]),
    ];
    let mut network = Network::new(layers, Error::new(mse::<Real>, mse_gradient::<Real>)).unwrap();
    let (output, loss) = network.learn(&reals(&[1.0]), &reals(&[5.0]), Real(0.5)).unwrap();
    assert_eq!(floats(&output), vec![6.0]);
    assert_eq!(loss, Real(1.0));
    // Error at the output is 2; the second layer sees input 2 and error 2, the
    // first layer sees input 1 and the error 3 * 2 that the second layer,
    // with its weight from before the step, hands back.
    assert_eq!(floats(&network.layers[1].weights[0]), vec![1.0]);
    assert_eq!(floats(&network.layers[1].biases), vec![-1.0]);
    assert_eq!(floats(&network.layers[0].weights[0]), vec![-1.0]);
    assert_eq!(floats(&network.layers[0].biases), vec![-3.0]);
}

#[test]
fn learn_refuses_wrong_widths_and_changes_nothing() {
    let layers = vec![dense(2, &[&[1.0, 1.0]], &[0.0])];
    let mut network = Network::new(layers, Error::new(mse::<Real>, mse_gradient::<Real>)).unwrap();
    let r = network.learn(&reals(&[1.0, 2.0]), &reals(&[1.0, 1.0]), Real(0.25));
    assert!(matches!(r, Err(NetworkError::DimensionMismatch)));
    let r = network.learn(&reals(&[1.0]), &reals(&[1.0]), Real(0.25));
    assert!(matches!(r, Err(NetworkError::DimensionMismatch)));
    assert_eq!(floats(&network.layers[0].weights[0]), vec![1.0, 1.0]);
    assert_eq!(floats(&network.layers[0].biases), vec![0.0]);
}

#[test]
fn small_step_decreases_loss_on_same_sample() {
    for _ in 0..200 {
        let layers: Vec<FullyConnected<Real>> = vec![FullyConnected::new(3, 2)];
        let mut network = Network::new(layers, Error::new(mse::<Real>, mse_gradient::<Real>)).unwrap();
        let input = reals(&[0.5, -1.0, 2.0]);
        let expected = reals(&[10.0, -10.0]);
        let (_, first) = network.learn(&input, &expected, Real(0.01)).unwrap();
        let (_, second) = network.learn(&input, &expected, Real(0.01)).unwrap();
        assert!(second.0 < first.0);
    }
}

#[test]
fn train_refuses_empty_dataset() {
    let layers = vec![dense(2, &[&[1.0, 1.0]], &[0.0])];
    let mut network = Network::new(layers, Error::new(mse::<Real>, mse_gradient::<Real>)).unwrap();
    let data: Vec<(Vec<Real>, Vec<Real>)> = Vec::new();
    assert_eq!(network.train(&data, 3, Real(0.1)), Err(NetworkError::EmptyDataset));
}

#[test]
fn train_refuses_mismatched_sample_before_any_step() {
    let layers = vec![dense(2, &[&[1.0, 1.0]], &[0.0])];
    let mut network = Network::new(layers, Error::new(mse::<Real>, mse_gradient::<Real>)).unwrap();
    let data = vec![
        (reals(&[1.0, 2.0]), reals(&[1.0])),
        (reals(&[1.0, 2.0, 3.0]), reals(&[1.0])),
    ];
    assert_eq!(network.train(&data, 3, Real(0.1)), Err(NetworkError::DimensionMismatch));
    assert_eq!(floats(&network.layers[0].weights[0]), vec![1.0, 1.0]);
}

#[test]
fn train_reports_mean_loss_of_each_epoch() {
    let layers = vec![dense(1, &[&[1.0]], &[0.0])];
    let mut network = Network::new(layers, Error::new(mse::<Real>, mse_gradient::<Real>)).unwrap();
    let data = vec![(reals(&[1.0]), reals(&[3.0])), (reals(&[2.0]), reals(&[0.0]))];
    let means = network.train(&data, 2, Real(0.25)).unwrap();
    // Epoch one: the first step has loss 4 and moves weight and bias to 2 and
    // 1; the second has output 5 and loss 25 and moves them to -3 and -1.5.
    // Epoch two: the first step has output -4.5 and loss 56.25 and moves them
    // to 0.75 and 2.25; the second has output 3.75 and loss 14.0625.
    assert_eq!(floats(&means), vec![14.5, 35.15625]);
    assert_eq!(floats(&network.layers[0].weights[0]), vec![-3.0]);
    assert_eq!(floats(&network.layers[0].biases), vec![0.375]);
}

#[test]
fn train_without_iterations_changes_nothing() {
    let layers = vec![dense(1, &[&[1.0]], &[0.0])];
    let mut network = Network::new(layers, Error::new(mse::<Real>, mse_gradient::<Real>)).unwrap();
    let data = vec![(reals(&[1.0]), reals(&[3.0]))];
    let means = network.train(&data, 0, Real(0.25)).unwrap();
    assert!(means.is_empty());
    assert_eq!(floats(&network.layers[0].weights[0]), vec![1.0]);
}

#[test]
fn xor_training_drives_loss_down() {
    let data = xor_data();
    let mut best = f32::INFINITY;
    for _ in 0..40 {
        let layers: Vec<Stage<Real, Unary, Unary>> = vec![
            Stage::Dense(FullyConnected::new(2, 3)),
            Stage::Elementwise(Activation::new(tanh::<Real> as Unary, dtanh::<Real> as Unary)),
            Stage::Dense(FullyConnected::new(3, 1)),
            Stage::Elementwise(Activation::new(tanh::<Real> as Unary, dtanh::<Real> as Unary)),
        ];
        let mut network = Network::new(layers, Error::new(mse::<Real>, mse_gradient::<Real>)).unwrap();
        let means = network.train(&data, 1000, Real(0.1)).unwrap();
        assert_eq!(means.len(), 1000);
        let last = means[999].0;
        if last < best {
            best = last;
        }
        if best < 0.05 {
            break;
        }
    }
    assert!(best < 0.05);
}

#[test]
fn custom_loss_contract_is_used() {
    fn absolute(predicted: &Vec<Real>, expected: &Vec<Real>) -> Real {
        Real(predicted.iter().zip(expected).map(|(p, e)| (p.0 - e.0).abs()).sum())
    }
    fn sign(predicted: &Vec<Real>, expected: &Vec<Real>) -> Vec<Real> {
        predicted.iter().zip(expected).map(|(p, e)| Real((p.0 - e.0).signum())).collect()
    }
    let layers = vec![dense(1, &[&[1.0]], &[0.0])];
    let mut network = Network::new(layers, Error::new(absolute, sign)).unwrap();
    let (output, loss) = network.learn(&reals(&[2.0]), &reals(&[5.0]), Real(0.5)).unwrap();
    assert_eq!(floats(&output), vec![2.0]);
    assert_eq!(loss, Real(3.0));
    assert_eq!(floats(&network.layers[0].weights[0]), vec![2.0]);
    assert_eq!(floats(&network.layers[0].biases), vec![0.5]);
}

#[test]
fn non_finite_values_propagate() {
    let layers = vec![dense(2, &[&[1.0, 1.0]], &[0.0])];
    let mut network = Network::new(layers, Error::new(mse::<Real>, mse_gradient::<Real>)).unwrap();
    let output = network.predict(&reals(&[f32::INFINITY, 1.0])).unwrap();
    assert_eq!(floats(&output), vec![f32::INFINITY]);
    let (output, loss) = network.learn(&reals(&[f32::NAN, 1.0]), &reals(&[0.0]), Real(0.1)).unwrap();
    assert!(output[0].0.is_nan());
    assert!(loss.0.is_nan());
    assert!(network.layers[0].weights[0][0].0.is_nan());
    assert!(network.layers[0].biases[0].0.is_nan());
}

#[test]
fn stage_reports_widths_of_its_layer() {
    let fixed: Stage<Real, Unary, Unary> = Stage::Dense(FullyConnected::new(4, 2));
    let free: Stage<Real, Unary, Unary> =
        Stage::Elementwise(Activation::new(relu::<Real> as Unary, drelu::<Real> as Unary));
    assert_eq!(fixed.widths(), Some((4, 2)));
    assert_eq!(free.widths(), None);
}

#[test]
fn stage_updates_the_layer_inside() {
    let mut stage: Stage<Real, Unary, Unary> = Stage::Dense(dense(1, &[&[1.0]], &[1.0]));
    stage.update_params(&reals(&[2.0]), &reals(&[3.0]), Real(0.5));
    assert_eq!(floats(&stage.forward(&reals(&[1.0]))), vec![-2.0 + -0.5]);
    assert_eq!(floats(&stage.backward(&reals(&[1.0]), &reals(&[2.0]))), vec![-4.0]);
}

#[test]
fn activation_only_network_takes_any_width() {
    let layers = vec![Activation::new(relu::<Real> as Unary, drelu::<Real> as Unary)];
    let network = Network::new(layers, Error::new(mse::<Real>, mse_gradient::<Real>)).unwrap();
    assert_eq!(network.checked_output_width(0), Some(0));
    assert_eq!(network.checked_output_width(9), Some(9));
    let output = network.predict(&reals(&[-1.0, 2.0, -3.0])).unwrap();
    assert_eq!(floats(&output), vec![0.0, 2.0, 0.0]);
}

#[test]
fn learn_through_activation_uses_derivative_at_layer_input() {
    let layers: Vec<Stage<Real, Unary, Unary>> = vec![
        Stage::Dense(dense(1, &[&[2.0]], &[-1.0])),
        Stage::Elementwise(Activation::new(relu::<Real> as Unary, drelu::<Real> as Unary)),
    ];
    let mut network = Network::new(layers, Error::new(mse::<Real>, mse_gradient::<Real>)).unwrap();
    // Input 1 gives 1 before and after the activation; the loss gradient is
    // 2 (1 - 3) = -4 and passes the activation unchanged, as its input is
    // positive.
    let (output, loss) = network.learn(&reals(&[1.0]), &reals(&[3.0]), Real(0.25)).unwrap();
    assert_eq!(floats(&output), vec![1.0]);
    assert_eq!(loss, Real(4.0));
    // The step moved weight and bias to 3 and 0. Input -3 gives -9 before the
    // activation and 0 after it; the derivative at -9 is 0, so nothing
    // reaches the dense layer.
    let before = network.predict(&reals(&[5.0])).unwrap();
    let (output, loss) = network.learn(&reals(&[-3.0]), &reals(&[3.0]), Real(0.25)).unwrap();
    assert_eq!(floats(&output), vec![0.0]);
    assert_eq!(loss, Real(9.0));
    assert_eq!(network.predict(&reals(&[5.0])).unwrap(), before);
}
