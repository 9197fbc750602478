//! The elementwise activation layer and the stock activation functions.
use vstd::prelude::*;
use core::marker::PhantomData;
use crate::layer::Layer;
use crate::scalar::{one, one_is_neutral, zero, Scalar};

verus! {

/// An elementwise activation layer: a scalar function and its derivative,
/// applied to each entry of a vector on its own. The layer has no parameters
/// and takes vectors of any width.
pub struct Activation<S, F, D> {
    /// The function that `forward` applies to each entry.
    pub function: F,
    /// The derivative of `function`, as a function of the same argument.
    pub derivative: D,
    /// The scalars that the layer computes on.
    pub scalar: PhantomData<S>,
}

/// `slope` is a value of `derivative` at `x`, and `r` is `slope` times `e`.
pub open spec fn chained<S: Scalar, D: Fn(S) -> S>(derivative: D, x: S, e: S, r: S) -> bool {
    exists|slope: S| #[trigger] call_ensures(derivative, (x,), slope) && r == slope.times_spec(e)
}

impl<S, F, D> Activation<S, F, D> where S: Scalar, F: Fn(S) -> S, D: Fn(S) -> S {
    /// The function and the derivative take every scalar.
    pub open spec fn total(&self) -> bool {
        &&& forall|x: S| #[trigger] call_requires(self.function, (x,))
        &&& forall|x: S| #[trigger] call_requires(self.derivative, (x,))
    }

    /// Each entry of `output` is a value of the function at the same entry
    /// of `input`.
    pub open spec fn applies(&self, input: Seq<S>, output: Seq<S>) -> bool {
        &&& output.len() == input.len()
        &&& forall|k: int|
            0 <= k < input.len() ==> call_ensures(self.function, (input[k],), #[trigger] output[k])
    }

    /// Each entry of `input_error` is a value of the derivative at the same
    /// entry of `input`, times the same entry of `output_error`.
    pub open spec fn chains(
        &self,
        input: Seq<S>,
        output_error: Seq<S>,
        input_error: Seq<S>,
    ) -> bool {
        &&& input_error.len() == input.len()
        &&& forall|k: int|
            0 <= k < input.len() ==> chained(
                self.derivative,
                input[k],
                output_error[k],
                #[trigger] input_error[k],
            )
    }

    /// The layer that applies `function` forward and `derivative` backward.
    /// `derivative` is evaluated on the layer's input, not on its output.
    pub fn new(function: F, derivative: D) -> (r: Self)
        ensures
            r.function == function,
            r.derivative == derivative,
    {
        Activation { function, derivative, scalar: PhantomData }
    }

    /// What the layer's operations mean: the layer is well formed when its
    /// functions are total, it fixes no width, `forward` applies the
    /// function, `backward` chains the derivative, and an update leaves the
    /// layer as it is.
    pub proof fn meaning(&self)
        ensures
            self.wf() == self.total(),
            self.widths_spec() is None,
            forall|input: Seq<S>, output: Seq<S>| #[trigger]
                self.forward_post(input, output) == self.applies(input, output),
            forall|input: Seq<S>, output_error: Seq<S>, input_error: Seq<S>| #[trigger]
                self.backward_post(input, output_error, input_error) == self.chains(
                    input,
                    output_error,
                    input_error,
                ),
            forall|input: Seq<S>, output_error: Seq<S>, learning_rate: S, updated: Self| #[trigger]
                self.update_post(input, output_error, learning_rate, &updated) == (updated
                    == *self),
    {
    }
}

impl<S, F, D> Layer<S> for Activation<S, F, D> where S: Scalar, F: Fn(S) -> S, D: Fn(S) -> S {
    /// The function and the derivative take every scalar.
    open spec fn wf(&self) -> bool {
        self.total()
    }

    open spec fn widths_spec(&self) -> Option<(nat, nat)> {
        None
    }

    /// Each entry of the output is a value of the function at the same entry
    /// of the input.
    open spec fn forward_post(&self, input: Seq<S>, output: Seq<S>) -> bool {
        self.applies(input, output)
    }

    /// Each entry of the input error is a value of the derivative at the same
    /// entry of the input, times the same entry of the output error.
    open spec fn backward_post(
        &self,
        input: Seq<S>,
        output_error: Seq<S>,
        input_error: Seq<S>,
    ) -> bool {
        self.chains(input, output_error, input_error)
    }

    /// The layer has no parameters: an update leaves it as it is.
    open spec fn update_post(
        &self,
        input: Seq<S>,
        output_error: Seq<S>,
        learning_rate: S,
        updated: &Self,
    ) -> bool {
        *updated == *self
    }

    fn widths(&self) -> (r: Option<(usize, usize)>) {
        None
    }

    fn forward(&self, input: &Vec<S>) -> (output: Vec<S>) {
        let mut output: Vec<S> = Vec::new();
        let mut k: usize = 0;
        while k < input.len()
            invariant
                self.wf(),
                k <= input@.len(),
                output@.len() == k,
                forall|i: int|
                    0 <= i < k ==> call_ensures(self.function, (input@[i],), #[trigger] output@[i]),
            decreases input@.len() - k,
        {
            let value = (self.function)(input[k]);
            output.push(value);
            k += 1;
        }
        output
    }

    fn backward(&self, input: &Vec<S>, output_error: &Vec<S>) -> (input_error: Vec<S>) {
        let mut input_error: Vec<S> = Vec::new();
        let mut k: usize = 0;
        while k < input.len()
            invariant
                self.wf(),
                output_error@.len() == input@.len(),
                k <= input@.len(),
                input_error@.len() == k,
                forall|i: int|
                    0 <= i < k ==> chained(
                        self.derivative,
                        input@[i],
                        output_error@[i],
                        #[trigger] input_error@[i],
                    ),
            decreases input@.len() - k,
        {
            let slope = (self.derivative)(input[k]);
            let value = slope.times(output_error[k]);
            assert(chained(self.derivative, input@[k as int], output_error@[k as int], value));
            input_error.push(value);
            k += 1;
        }
        input_error
    }

    fn update_params(&mut self, input: &Vec<S>, output_error: &Vec<S>, learning_rate: S) {
    }
}

/// Backward through an activation layer with an output error of ones gives
/// the derivative at each entry of the input, over scalars in which one is
/// neutral for products: whenever `input_error` is what `backward` computes
/// from `input` and an all-ones `output_error`, each of its entries is a
/// value of the derivative at the same entry of `input`.
pub proof fn ones_backward_is_derivative<S, F, D>(
    layer: Activation<S, F, D>,
    input: Seq<S>,
    output_error: Seq<S>,
    input_error: Seq<S>,
) where S: Scalar, F: Fn(S) -> S, D: Fn(S) -> S
    requires
        one_is_neutral::<S>(),
        output_error.len() == input.len(),
        forall|k: int| 0 <= k < input.len() ==> #[trigger] output_error[k] == one::<S>(),
        layer.backward_post(input, output_error, input_error),
    ensures
        input_error.len() == input.len(),
        forall|k: int|
            0 <= k < input.len() ==> call_ensures(
                layer.derivative,
                (input[k],),
                #[trigger] input_error[k],
            ),
{
    assert forall|k: int| 0 <= k < input.len() implies call_ensures(
        layer.derivative,
        (input[k],),
        #[trigger] input_error[k],
    ) by {
        assert(chained(layer.derivative, input[k], output_error[k], input_error[k]));
        let slope = choose|slope: S| #[trigger]
            call_ensures(layer.derivative, (input[k],), slope) && input_error[k]
                == slope.times_spec(output_error[k]);
        assert(output_error[k] == one::<S>());
        assert(slope.times_spec(one::<S>()) == slope);
    }
}

/// The rectified-linear function: `x` where `x` exceeds zero, and zero
/// elsewhere.
pub open spec fn relu_spec<S: Scalar>(x: S) -> S {
    if x.exceeds_spec(zero::<S>()) {
        x
    } else {
        zero::<S>()
    }
}

/// The derivative of the rectified-linear function: one where `x` exceeds
/// zero, and zero elsewhere, also at zero itself.
pub open spec fn drelu_spec<S: Scalar>(x: S) -> S {
    if x.exceeds_spec(zero::<S>()) {
        one::<S>()
    } else {
        zero::<S>()
    }
}

/// The derivative of the hyperbolic tangent at `x`: one minus the square of
/// the hyperbolic tangent of `x`.
pub open spec fn dtanh_spec<S: Scalar>(x: S) -> S {
    one::<S>().minus_spec(x.tanh_spec().times_spec(x.tanh_spec()))
}

/// The hyperbolic tangent of `x`.
pub fn tanh<S: Scalar>(x: S) -> (r: S)
    ensures
        r == x.tanh_spec(),
{
    x.tanh()
}

/// The derivative of the hyperbolic tangent at `x`, where `x` is the
/// argument of the hyperbolic tangent and not its value.
pub fn dtanh<S: Scalar>(x: S) -> (r: S)
    ensures
        r == dtanh_spec(x),
{
    let t = x.tanh();
    S::from_count(1).minus(t.times(t))
}

/// The rectified-linear function of `x`.
pub fn relu<S: Scalar>(x: S) -> (r: S)
    ensures
        r == relu_spec(x),
{
    let zero = S::from_count(0);
    if x.exceeds(zero) {
        x
    } else {
        zero
    }
}

/// The derivative of the rectified-linear function at `x`.
pub fn drelu<S: Scalar>(x: S) -> (r: S)
    ensures
        r == drelu_spec(x),
{
    if x.exceeds(S::from_count(0)) {
        return S::from_count(1);
    }
    S::from_count(0)
}

} // verus!
