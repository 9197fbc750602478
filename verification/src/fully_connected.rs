//! The dense affine layer.
use vstd::prelude::*;
use crate::initial::{is_unit_draw, random_vec};
use crate::layer::Layer;
use crate::network::NetworkError;
use crate::scalar::{zero, zero_is_absorbing, Scalar};

verus! {

/// A dense affine layer: a weight matrix with `output_size` rows of
/// `input_size` entries each, and one bias for each row.
pub struct FullyConnected<S> {
    /// The weight matrix, row by row.
    pub weights: Vec<Vec<S>>,
    /// The bias of each output.
    pub biases: Vec<S>,
    /// The width of the input.
    pub input_size: usize,
    /// The width of the output.
    pub output_size: usize,
}

/// `start` with the products of the first `n` entries of `row` and `input`
/// added to it, in order.
pub open spec fn weighted_sum<S: Scalar>(start: S, row: Seq<S>, input: Seq<S>, n: nat) -> S
    decreases n,
{
    if n == 0 {
        start
    } else {
        weighted_sum(start, row, input, (n - 1) as nat).plus_spec(
            row[n - 1].times_spec(input[n - 1]),
        )
    }
}

/// Zero with the products of the entries of column `i` of the first `m` rows
/// of `weights` and the entries of `output_error` added to it, in order.
pub open spec fn column_sum<S: Scalar>(
    weights: Seq<Seq<S>>,
    output_error: Seq<S>,
    i: int,
    m: nat,
) -> S
    decreases m,
{
    if m == 0 {
        zero::<S>()
    } else {
        column_sum(weights, output_error, i, (m - 1) as nat).plus_spec(
            weights[m - 1][i].times_spec(output_error[m - 1]),
        )
    }
}

impl<S: Scalar> FullyConnected<S> {
    /// A layer from `input_size` inputs to `output_size` outputs whose
    /// weights and biases are drawn independently from the grid of initial
    /// parameters, between minus one and one.
    pub fn new(input_size: usize, output_size: usize) -> (r: Self)
        ensures
            r.wf(),
            r.input_size == input_size,
            r.output_size == output_size,
            forall|j: int| 0 <= j < output_size ==> is_unit_draw(#[trigger] r.biases@[j]),
            forall|j: int, i: int|
                0 <= j < output_size && 0 <= i < input_size ==> is_unit_draw(
                    #[trigger] r.weights@[j]@[i],
                ),
    {
        let biases = random_vec::<S>(output_size);
        let mut weights: Vec<Vec<S>> = Vec::new();
        let mut j: usize = 0;
        while j < output_size
            invariant
                j <= output_size,
                weights@.len() == j,
                forall|k: int| 0 <= k < j ==> (#[trigger] weights@[k])@.len() == input_size,
                forall|k: int, i: int|
                    0 <= k < j && 0 <= i < input_size ==> is_unit_draw(
                        #[trigger] weights@[k]@[i],
                    ),
            decreases output_size - j,
        {
            let row = random_vec::<S>(input_size);
            weights.push(row);
            j += 1;
        }
        FullyConnected { weights, biases, input_size, output_size }
    }

    /// The weight matrix as a sequence of rows.
    pub open spec fn rows(&self) -> Seq<Seq<S>> {
        self.weights@.map_values(|row: Vec<S>| row@)
    }

    /// What `forward` returns: entry `j` is bias `j` plus the products of
    /// row `j` and the input.
    pub open spec fn forward_spec(&self, input: Seq<S>) -> Seq<S> {
        Seq::new(
            self.output_size as nat,
            |j: int| weighted_sum(self.biases@[j], self.rows()[j], input, self.input_size as nat),
        )
    }

    /// What `backward` returns: entry `i` is the sum of the products of
    /// column `i` and the output error. It does not depend on the input.
    pub open spec fn backward_spec(&self, output_error: Seq<S>) -> Seq<S> {
        Seq::new(
            self.input_size as nat,
            |i: int| column_sum(self.rows(), output_error, i, self.output_size as nat),
        )
    }

    /// The weights after one update: the entry in row `j` and column `i` has
    /// lost the learning rate times entry `i` of the input times entry `j` of
    /// the output error.
    pub open spec fn updated_rows(
        &self,
        input: Seq<S>,
        output_error: Seq<S>,
        learning_rate: S,
    ) -> Seq<Seq<S>> {
        Seq::new(
            self.output_size as nat,
            |j: int|
                Seq::new(
                    self.input_size as nat,
                    |i: int|
                        self.rows()[j][i].minus_spec(
                            learning_rate.times_spec(input[i]).times_spec(output_error[j]),
                        ),
                ),
        )
    }

    /// The biases after one update: bias `j` has lost the learning rate
    /// times entry `j` of the output error.
    pub open spec fn updated_biases(&self, output_error: Seq<S>, learning_rate: S) -> Seq<S> {
        Seq::new(
            self.output_size as nat,
            |j: int| self.biases@[j].minus_spec(learning_rate.times_spec(output_error[j])),
        )
    }

    /// The layer with the given parameters, for inputs of width
    /// `input_size`. There is one output for each bias. The parameters are
    /// refused unless there is one row of weights for each bias and every row
    /// has `input_size` entries.
    pub fn from_parameters(input_size: usize, weights: Vec<Vec<S>>, biases: Vec<S>) -> (r: Result<
        Self,
        NetworkError,
    >)
        ensures
            match r {
                Ok(layer) => {
                    &&& layer.wf()
                    &&& layer.weights == weights
                    &&& layer.biases == biases
                    &&& layer.input_size == input_size
                    &&& layer.output_size == biases@.len()
                },
                Err(e) => {
                    &&& e == NetworkError::DimensionMismatch
                    &&& !(weights@.len() == biases@.len() && forall|j: int|
                        0 <= j < weights@.len() ==> (#[trigger] weights@[j])@.len() == input_size)
                },
            },
    {
        if weights.len() != biases.len() {
            return Err(NetworkError::DimensionMismatch);
        }
        let mut j: usize = 0;
        while j < weights.len()
            invariant
                j <= weights@.len(),
                forall|k: int| 0 <= k < j ==> (#[trigger] weights@[k])@.len() == input_size,
            decreases weights@.len() - j,
        {
            if weights[j].len() != input_size {
                return Err(NetworkError::DimensionMismatch);
            }
            j += 1;
        }
        let output_size = biases.len();
        Ok(FullyConnected { weights, biases, input_size, output_size })
    }
}

/// Over scalars in which zero absorbs products and sums with itself, a sum
/// of products with weights that are all zero, started from zero, is zero.
pub proof fn weighted_sum_of_zeros<S: Scalar>(row: Seq<S>, input: Seq<S>, n: nat)
    requires
        zero_is_absorbing::<S>(),
        n <= row.len(),
        forall|i: int| 0 <= i < n ==> #[trigger] row[i] == zero::<S>(),
    ensures
        weighted_sum(zero::<S>(), row, input, n) == zero::<S>(),
    decreases n,
{
    if n > 0 {
        weighted_sum_of_zeros(row, input, (n - 1) as nat);
        assert(row[n - 1] == zero::<S>());
        assert(zero::<S>().times_spec(input[n - 1]) == zero::<S>());
    }
}

/// A dense layer whose weights and biases are all zero returns the all-zero
/// vector with one entry for each output, whatever the input, over scalars in
/// which zero absorbs products and sums with itself.
pub proof fn zero_layer_forwards_zero<S: Scalar>(layer: FullyConnected<S>, input: Seq<S>)
    requires
        layer.wf(),
        zero_is_absorbing::<S>(),
        forall|j: int| 0 <= j < layer.output_size ==> #[trigger] layer.biases@[j] == zero::<S>(),
        forall|j: int, i: int|
            0 <= j < layer.output_size && 0 <= i < layer.input_size
                ==> #[trigger] layer.weights@[j]@[i] == zero::<S>(),
    ensures
        layer.forward_spec(input) == Seq::new(layer.output_size as nat, |j: int| zero::<S>()),
        layer.forward_spec(input).len() == layer.output_size,
{
    let zeros = Seq::new(layer.output_size as nat, |j: int| zero::<S>());
    assert forall|j: int| 0 <= j < layer.output_size implies #[trigger] layer.forward_spec(
        input,
    )[j] == zeros[j] by {
        assert(layer.rows()[j] == layer.weights@[j]@);
        assert(layer.biases@[j] == zero::<S>());
        weighted_sum_of_zeros(layer.rows()[j], input, layer.input_size as nat);
    }
    assert(layer.forward_spec(input) =~= zeros);
}

impl<S: Scalar> Layer<S> for FullyConnected<S> {
    /// There is one row of weights and one bias for each output, and every
    /// row has one weight for each input.
    open spec fn wf(&self) -> bool {
        &&& self.weights@.len() == self.output_size
        &&& self.biases@.len() == self.output_size
        &&& forall|j: int|
            0 <= j < self.weights@.len() ==> (#[trigger] self.weights@[j])@.len()
                == self.input_size
    }

    open spec fn widths_spec(&self) -> Option<(nat, nat)> {
        Some((self.input_size as nat, self.output_size as nat))
    }

    open spec fn forward_post(&self, input: Seq<S>, output: Seq<S>) -> bool {
        output == self.forward_spec(input)
    }

    open spec fn backward_post(
        &self,
        input: Seq<S>,
        output_error: Seq<S>,
        input_error: Seq<S>,
    ) -> bool {
        input_error == self.backward_spec(output_error)
    }

    open spec fn update_post(
        &self,
        input: Seq<S>,
        output_error: Seq<S>,
        learning_rate: S,
        updated: &Self,
    ) -> bool {
        &&& updated.input_size == self.input_size
        &&& updated.output_size == self.output_size
        &&& updated.rows() == self.updated_rows(input, output_error, learning_rate)
        &&& updated.biases@ == self.updated_biases(output_error, learning_rate)
    }

    fn widths(&self) -> (r: Option<(usize, usize)>) {
        Some((self.input_size, self.output_size))
    }

    fn forward(&self, input: &Vec<S>) -> (output: Vec<S>) {
        let mut output: Vec<S> = Vec::new();
        let mut j: usize = 0;
        while j < self.output_size
            invariant
                self.wf(),
                input@.len() == self.input_size,
                j <= self.output_size,
                output@.len() == j,
                forall|k: int|
                    0 <= k < j ==> #[trigger] output@[k] == weighted_sum(
                        self.biases@[k],
                        self.rows()[k],
                        input@,
                        self.input_size as nat,
                    ),
            decreases self.output_size - j,
        {
            let mut activation = self.biases[j];
            let mut i: usize = 0;
            while i < self.input_size
                invariant
                    self.wf(),
                    input@.len() == self.input_size,
                    j < self.output_size,
                    i <= self.input_size,
                    activation == weighted_sum(
                        self.biases@[j as int],
                        self.rows()[j as int],
                        input@,
                        i as nat,
                    ),
                decreases self.input_size - i,
            {
                assert(self.rows()[j as int] == self.weights@[j as int]@);
                activation = activation.plus(self.weights[j][i].times(input[i]));
                i += 1;
            }
            output.push(activation);
            j += 1;
        }
        assert(output@ =~= self.forward_spec(input@));
        output
    }

    fn backward(&self, input: &Vec<S>, output_error: &Vec<S>) -> (input_error: Vec<S>) {
        let mut input_error: Vec<S> = Vec::new();
        let mut i: usize = 0;
        while i < self.input_size
            invariant
                self.wf(),
                output_error@.len() == self.output_size,
                i <= self.input_size,
                input_error@.len() == i,
                forall|k: int|
                    0 <= k < i ==> #[trigger] input_error@[k] == column_sum(
                        self.rows(),
                        output_error@,
                        k,
                        self.output_size as nat,
                    ),
            decreases self.input_size - i,
        {
            let mut error = S::from_count(0);
            let mut j: usize = 0;
            while j < self.output_size
                invariant
                    self.wf(),
                    output_error@.len() == self.output_size,
                    i < self.input_size,
                    j <= self.output_size,
                    error == column_sum(self.rows(), output_error@, i as int, j as nat),
                decreases self.output_size - j,
            {
                assert(self.rows()[j as int] == self.weights@[j as int]@);
                error = error.plus(self.weights[j][i].times(output_error[j]));
                j += 1;
            }
            input_error.push(error);
            i += 1;
        }
        assert(input_error@ =~= self.backward_spec(output_error@));
        input_error
    }

    fn update_params(&mut self, input: &Vec<S>, output_error: &Vec<S>, learning_rate: S) {
        let mut j: usize = 0;
        while j < self.output_size
            invariant
                self.wf(),
                self.input_size == old(self).input_size,
                self.output_size == old(self).output_size,
                self.biases == old(self).biases,
                old(self).wf(),
                input@.len() == self.input_size,
                output_error@.len() == self.output_size,
                j <= self.output_size,
                forall|r: int, c: int|
                    0 <= r < self.output_size && 0 <= c < self.input_size
                        ==> #[trigger] self.weights@[r]@[c]
                        == (if r < j {
                        old(self).weights@[r]@[c].minus_spec(
                            learning_rate.times_spec(input@[c]).times_spec(output_error@[r]),
                        )
                    } else {
                        old(self).weights@[r]@[c]
                    }),
            decreases self.output_size - j,
        {
            let mut i: usize = 0;
            while i < self.input_size
                invariant
                    self.wf(),
                    self.input_size == old(self).input_size,
                    self.output_size == old(self).output_size,
                    self.biases == old(self).biases,
                    old(self).wf(),
                    input@.len() == self.input_size,
                    output_error@.len() == self.output_size,
                    j < self.output_size,
                    i <= self.input_size,
                    forall|r: int, c: int|
                        0 <= r < self.output_size && 0 <= c < self.input_size
                            ==> #[trigger] self.weights@[r]@[c]
                            == (if r < j || (r == j && c < i) {
                            old(self).weights@[r]@[c].minus_spec(
                                learning_rate.times_spec(input@[c]).times_spec(output_error@[r]),
                            )
                        } else {
                            old(self).weights@[r]@[c]
                        }),
                decreases self.input_size - i,
            {
                let step = learning_rate.times(input[i]).times(output_error[j]);
                let moved = self.weights[j][i].minus(step);
                self.weights[j][i] = moved;
                i += 1;
            }
            j += 1;
        }
        let mut j: usize = 0;
        while j < self.output_size
            invariant
                self.wf(),
                self.input_size == old(self).input_size,
                self.output_size == old(self).output_size,
                self.weights@.len() == self.output_size,
                old(self).wf(),
                input@.len() == self.input_size,
                output_error@.len() == self.output_size,
                j <= self.output_size,
                forall|r: int, c: int|
                    0 <= r < self.output_size && 0 <= c < self.input_size
                        ==> #[trigger] self.weights@[r]@[c]
                        == old(self).weights@[r]@[c].minus_spec(
                        learning_rate.times_spec(input@[c]).times_spec(output_error@[r]),
                    ),
                forall|r: int|
                    0 <= r < self.output_size ==> #[trigger] self.biases@[r] == (if r < j {
                        old(self).biases@[r].minus_spec(learning_rate.times_spec(output_error@[r]))
                    } else {
                        old(self).biases@[r]
                    }),
            decreases self.output_size - j,
        {
            let moved = self.biases[j].minus(learning_rate.times(output_error[j]));
            self.biases[j] = moved;
            j += 1;
        }
        proof {
            let target = old(self).updated_rows(input@, output_error@, learning_rate);
            assert(self.rows().len() == target.len());
            assert forall|r: int| 0 <= r < self.output_size implies #[trigger] self.rows()[r]
                == target[r] by {
                assert(self.rows()[r] == self.weights@[r]@);
                assert(old(self).rows()[r] == old(self).weights@[r]@);
                assert(self.weights@[r]@.len() == self.input_size);
                assert forall|c: int| 0 <= c < self.input_size implies self.rows()[r][c]
                    == target[r][c] by {
                    assert(self.weights@[r]@[c] == old(self).weights@[r]@[c].minus_spec(
                        learning_rate.times_spec(input@[c]).times_spec(output_error@[r]),
                    ));
                }
                assert(self.rows()[r] =~= target[r]);
            }
            assert(self.rows() =~= target);
            assert(self.biases@ =~= old(self).updated_biases(output_error@, learning_rate));
        }
    }
}

} // verus!
