//! The closed set of layer kinds, for networks that mix them.
use vstd::prelude::*;
use crate::activation::Activation;
use crate::fully_connected::FullyConnected;
use crate::layer::Layer;
use crate::scalar::Scalar;

verus! {

/// One layer of either kind. A network over `Stage` can hold dense and
/// activation layers in any order.
pub enum Stage<S, F, D> {
    /// A dense affine layer.
    Dense(FullyConnected<S>),
    /// An elementwise activation layer.
    Elementwise(Activation<S, F, D>),
}

impl<S, F, D> Stage<S, F, D> where S: Scalar, F: Fn(S) -> S, D: Fn(S) -> S {
    /// What the layer's operations mean: each is the operation of the layer
    /// inside, and an update keeps the kind of the layer.
    pub proof fn meaning(&self)
        ensures
            match self {
                Stage::Dense(layer) => {
                    &&& self.wf() == layer.wf()
                    &&& self.widths_spec() == layer.widths_spec()
                    &&& forall|input: Seq<S>, output: Seq<S>| #[trigger]
                        self.forward_post(input, output) == layer.forward_post(input, output)
                    &&& forall|input: Seq<S>, output_error: Seq<S>, input_error: Seq<S>|
                        #[trigger] self.backward_post(input, output_error, input_error)
                            == layer.backward_post(input, output_error, input_error)
                    &&& forall|
                        input: Seq<S>,
                        output_error: Seq<S>,
                        learning_rate: S,
                        updated: Self,
                    | #[trigger]
                        self.update_post(input, output_error, learning_rate, &updated) == (
                        match updated {
                            Stage::Dense(after) => layer.update_post(
                                input,
                                output_error,
                                learning_rate,
                                &after,
                            ),
                            Stage::Elementwise(_) => false,
                        })
                },
                Stage::Elementwise(layer) => {
                    &&& self.wf() == layer.wf()
                    &&& self.widths_spec() == layer.widths_spec()
                    &&& forall|input: Seq<S>, output: Seq<S>| #[trigger]
                        self.forward_post(input, output) == layer.forward_post(input, output)
                    &&& forall|input: Seq<S>, output_error: Seq<S>, input_error: Seq<S>|
                        #[trigger] self.backward_post(input, output_error, input_error)
                            == layer.backward_post(input, output_error, input_error)
                    &&& forall|
                        input: Seq<S>,
                        output_error: Seq<S>,
                        learning_rate: S,
                        updated: Self,
                    | #[trigger]
                        self.update_post(input, output_error, learning_rate, &updated) == (
                        match updated {
                            Stage::Dense(_) => false,
                            Stage::Elementwise(after) => layer.update_post(
                                input,
                                output_error,
                                learning_rate,
                                &after,
                            ),
                        })
                },
            },
    {
    }
}

impl<S, F, D> Layer<S> for Stage<S, F, D> where S: Scalar, F: Fn(S) -> S, D: Fn(S) -> S {
    open spec fn wf(&self) -> bool {
        match self {
            Stage::Dense(layer) => layer.wf(),
            Stage::Elementwise(layer) => layer.wf(),
        }
    }

    open spec fn widths_spec(&self) -> Option<(nat, nat)> {
        match self {
            Stage::Dense(layer) => layer.widths_spec(),
            Stage::Elementwise(layer) => layer.widths_spec(),
        }
    }

    open spec fn forward_post(&self, input: Seq<S>, output: Seq<S>) -> bool {
        match self {
            Stage::Dense(layer) => layer.forward_post(input, output),
            Stage::Elementwise(layer) => layer.forward_post(input, output),
        }
    }

    open spec fn backward_post(
        &self,
        input: Seq<S>,
        output_error: Seq<S>,
        input_error: Seq<S>,
    ) -> bool {
        match self {
            Stage::Dense(layer) => layer.backward_post(input, output_error, input_error),
            Stage::Elementwise(layer) => layer.backward_post(input, output_error, input_error),
        }
    }

    /// An update keeps the kind of the layer and updates the layer inside.
    open spec fn update_post(
        &self,
        input: Seq<S>,
        output_error: Seq<S>,
        learning_rate: S,
        updated: &Self,
    ) -> bool {
        match (self, updated) {
            (Stage::Dense(before), Stage::Dense(after)) => before.update_post(
                input,
                output_error,
                learning_rate,
                after,
            ),
            (Stage::Elementwise(before), Stage::Elementwise(after)) => before.update_post(
                input,
                output_error,
                learning_rate,
                after,
            ),
            _ => false,
        }
    }

    fn widths(&self) -> (r: Option<(usize, usize)>) {
        match self {
            Stage::Dense(layer) => layer.widths(),
            Stage::Elementwise(layer) => layer.widths(),
        }
    }

    fn forward(&self, input: &Vec<S>) -> (output: Vec<S>) {
        match self {
            Stage::Dense(layer) => layer.forward(input),
            Stage::Elementwise(layer) => layer.forward(input),
        }
    }

    fn backward(&self, input: &Vec<S>, output_error: &Vec<S>) -> (input_error: Vec<S>) {
        match self {
            Stage::Dense(layer) => layer.backward(input, output_error),
            Stage::Elementwise(layer) => layer.backward(input, output_error),
        }
    }

    fn update_params(&mut self, input: &Vec<S>, output_error: &Vec<S>, learning_rate: S) {
        match self {
            Stage::Dense(layer) => layer.update_params(input, output_error, learning_rate),
            Stage::Elementwise(layer) => layer.update_params(input, output_error, learning_rate),
        }
    }
}

} // verus!
