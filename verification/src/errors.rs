//! Loss contracts: how far a prediction is from what was expected, and in
//! which direction to move it.
use vstd::prelude::*;
use core::marker::PhantomData;
use crate::scalar::{count, sum_from, two, zero, Scalar};

verus! {

/// A loss contract: a scalar measure of the distance between a predicted and
/// an expected vector of equal length, and the gradient of that measure with
/// respect to the predicted vector.
pub struct Error<S, F, D> {
    /// The loss of a predicted vector against an expected one.
    pub function: F,
    /// The gradient of the loss with respect to the predicted vector.
    pub derivative: D,
    /// The scalars that the loss is measured in.
    pub scalar: PhantomData<S>,
}

impl<S, F, D> Error<S, F, D> where
    S: Scalar,
    F: Fn(&Vec<S>, &Vec<S>) -> S,
    D: Fn(&Vec<S>, &Vec<S>) -> Vec<S>,
 {
    /// Both functions take every pair of vectors of equal length, and the
    /// gradient has one entry for each entry of the prediction.
    pub open spec fn wf(&self) -> bool {
        &&& forall|predicted: &Vec<S>, expected: &Vec<S>|
            predicted@.len() == expected@.len() ==> #[trigger] call_requires(
                self.function,
                (predicted, expected),
            )
        &&& forall|predicted: &Vec<S>, expected: &Vec<S>|
            predicted@.len() == expected@.len() ==> #[trigger] call_requires(
                self.derivative,
                (predicted, expected),
            )
        &&& forall|predicted: &Vec<S>, expected: &Vec<S>, gradient: Vec<S>| #[trigger]
            call_ensures(self.derivative, (predicted, expected), gradient) ==> gradient@.len()
                == predicted@.len()
    }

    /// `loss` is a value that the loss function returns on `predicted` and
    /// `expected`.
    pub open spec fn function_post(&self, predicted: Seq<S>, expected: Seq<S>, loss: S) -> bool {
        exists|p: &Vec<S>, e: &Vec<S>|
            p@ == predicted && e@ == expected && #[trigger] call_ensures(
                self.function,
                (p, e),
                loss,
            )
    }

    /// `gradient` is a value that the gradient function returns on
    /// `predicted` and `expected`.
    pub open spec fn derivative_post(
        &self,
        predicted: Seq<S>,
        expected: Seq<S>,
        gradient: Seq<S>,
    ) -> bool {
        exists|p: &Vec<S>, e: &Vec<S>, g: Vec<S>|
            p@ == predicted && e@ == expected && g@ == gradient && #[trigger] call_ensures(
                self.derivative,
                (p, e),
                g,
            )
    }

    /// The loss contract made of `function` and `derivative`.
    pub fn new(function: F, derivative: D) -> (r: Self)
        ensures
            r.function == function,
            r.derivative == derivative,
    {
        Error { function, derivative, scalar: PhantomData }
    }
}

/// The squares of the differences between the entries of `predicted` and of
/// `expected`.
pub open spec fn squared_errors<S: Scalar>(predicted: Seq<S>, expected: Seq<S>) -> Seq<S> {
    Seq::new(
        predicted.len(),
        |i: int|
            predicted[i].minus_spec(expected[i]).times_spec(predicted[i].minus_spec(expected[i])),
    )
}

/// The mean squared error: the squared errors, added up in order from zero,
/// divided by their number.
pub open spec fn mse_spec<S: Scalar>(predicted: Seq<S>, expected: Seq<S>) -> S {
    sum_from(zero::<S>(), squared_errors(predicted, expected)).over_spec(
        count::<S>(predicted.len()),
    )
}

/// The gradient of the mean squared error with respect to the prediction:
/// entry `i` is twice the difference between entry `i` of `predicted` and of
/// `expected`, divided by the number of entries.
pub open spec fn mse_gradient_spec<S: Scalar>(predicted: Seq<S>, expected: Seq<S>) -> Seq<S> {
    Seq::new(
        predicted.len(),
        |i: int|
            two::<S>().times_spec(predicted[i].minus_spec(expected[i])).over_spec(
                count::<S>(predicted.len()),
            ),
    )
}

/// The mean squared error of `predicted` against `expected`.
pub fn mse<S: Scalar>(predicted: &Vec<S>, expected: &Vec<S>) -> (loss: S)
    requires
        predicted@.len() == expected@.len(),
    ensures
        loss == mse_spec(predicted@, expected@),
{
    let ghost squares = squared_errors(predicted@, expected@);
    let mut sum = S::from_count(0);
    let mut i: usize = 0;
    while i < predicted.len()
        invariant
            predicted@.len() == expected@.len(),
            squares == squared_errors(predicted@, expected@),
            i <= predicted@.len(),
            sum == sum_from(zero::<S>(), squares.take(i as int)),
        decreases predicted@.len() - i,
    {
        let difference = predicted[i].minus(expected[i]);
        sum = sum.plus(difference.times(difference));
        proof {
            assert(squares.take(i + 1).drop_last() == squares.take(i as int));
            assert(squares.take(i + 1).last() == squares[i as int]);
        }
        i += 1;
    }
    assert(squares.take(predicted@.len() as int) == squares);
    sum.over(S::from_count(predicted.len()))
}

/// The gradient of the mean squared error of `predicted` against `expected`
/// with respect to `predicted`.
pub fn mse_gradient<S: Scalar>(predicted: &Vec<S>, expected: &Vec<S>) -> (gradient: Vec<S>)
    requires
        predicted@.len() == expected@.len(),
    ensures
        gradient@ == mse_gradient_spec(predicted@, expected@),
{
    let length = S::from_count(predicted.len());
    let two = S::from_count(2);
    let mut gradient: Vec<S> = Vec::new();
    let mut i: usize = 0;
    while i < predicted.len()
        invariant
            predicted@.len() == expected@.len(),
            length == count::<S>(predicted@.len()),
            two == crate::scalar::two::<S>(),
            i <= predicted@.len(),
            gradient@.len() == i,
            forall|k: int|
                0 <= k < i ==> #[trigger] gradient@[k] == mse_gradient_spec(
                    predicted@,
                    expected@,
                )[k],
        decreases predicted@.len() - i,
    {
        gradient.push(two.times(predicted[i].minus(expected[i])).over(length));
        i += 1;
    }
    assert(gradient@ =~= mse_gradient_spec(predicted@, expected@));
    gradient
}

} // verus!
