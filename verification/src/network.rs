//! The network: an ordered pipeline of layers and a loss contract.
use vstd::prelude::*;
use crate::errors::Error;
use crate::layer::{accepts, output_width, Layer};
use crate::scalar::{count, sum_from, zero, Scalar};

verus! {

/// Why the network refused an operation.
#[derive(Clone, Copy, Debug, PartialEq, Eq, Structural)]
pub enum NetworkError {
    /// A vector does not have the width that the layers ask for, or two
    /// layers that follow each other disagree about a width.
    DimensionMismatch,
    /// Training was asked for on a dataset without samples.
    EmptyDataset,
}

/// An ordered sequence of layers with the loss contract that training
/// minimizes.
pub struct Network<S, L, F, D> {
    /// The layers, in the order in which an input passes through them.
    pub layers: Vec<L>,
    /// The loss contract.
    pub error: Error<S, F, D>,
}

/// A copy of `v`.
fn copy_of<S: Copy>(v: &Vec<S>) -> (r: Vec<S>)
    ensures
        r@ == v@,
{
    let mut r: Vec<S> = Vec::new();
    let mut k: usize = 0;
    while k < v.len()
        invariant
            k <= v@.len(),
            r@ == v@.take(k as int),
        decreases v@.len() - k,
    {
        r.push(v[k]);
        assert(v@.take(k as int).push(v@[k as int]) == v@.take(k + 1));
        k += 1;
    }
    assert(v@.take(v@.len() as int) == v@);
    r
}

impl<S, L, F, D> Network<S, L, F, D> where
    S: Scalar,
    L: Layer<S>,
    F: Fn(&Vec<S>, &Vec<S>) -> S,
    D: Fn(&Vec<S>, &Vec<S>) -> Vec<S>,
 {
    /// The width of the vector that enters layer `i` when the network is
    /// given an input of width `n`. For `i` equal to the number of layers it
    /// is the width of the network's output.
    #[verifier::opaque]
    pub open spec fn width_at(&self, n: nat, i: nat) -> nat
        decreases i,
    {
        if i == 0 {
            n
        } else {
            output_width(self.layers@[i - 1].widths_spec(), self.width_at(n, (i - 1) as nat))
        }
    }

    /// Whether an input of width `n` passes through every layer: each layer
    /// takes the width that the layers before it produce.
    pub open spec fn carries(&self, n: nat) -> bool {
        forall|i: nat|
            i < self.layers@.len() ==> accepts(
                (#[trigger] self.layers@[i as int]).widths_spec(),
                self.width_at(n, i),
            )
    }

    /// The width of the network's output for an input of width `n`.
    pub open spec fn output_width(&self, n: nat) -> nat {
        self.width_at(n, self.layers@.len())
    }

    /// The index of the first layer, at or after index `i`, that fixes its
    /// widths.
    pub open spec fn first_fixed_from(&self, i: nat) -> Option<nat>
        decreases self.layers@.len() - i,
    {
        if i >= self.layers@.len() {
            None
        } else if self.layers@[i as int].widths_spec() is Some {
            Some(i)
        } else {
            self.first_fixed_from(i + 1)
        }
    }

    /// The index of the last layer, before index `i`, that fixes its widths.
    pub open spec fn last_fixed_before(&self, i: nat) -> Option<nat>
        decreases i,
    {
        if i == 0 {
            None
        } else if self.layers@[i - 1].widths_spec() is Some {
            Some((i - 1) as nat)
        } else {
            self.last_fixed_before((i - 1) as nat)
        }
    }

    /// The input width that the network declares: that of its first layer
    /// that fixes its widths. A network without such a layer declares none
    /// and takes every width.
    pub open spec fn declared_input_width(&self) -> Option<nat> {
        match self.first_fixed_from(0) {
            Some(i) => match self.layers@[i as int].widths_spec() {
                Some((width, _)) => Some(width),
                None => None,
            },
            None => None,
        }
    }

    /// The output width that the network declares: that of its last layer
    /// that fixes its widths. A network without such a layer declares none
    /// and returns vectors of the width of its input.
    pub open spec fn declared_output_width(&self) -> Option<nat> {
        match self.last_fixed_before(self.layers@.len()) {
            Some(i) => match self.layers@[i as int].widths_spec() {
                Some((_, width)) => Some(width),
                None => None,
            },
            None => None,
        }
    }

    /// The network's invariant: every layer is well formed, the widths of
    /// consecutive layers match, so that some input width passes through all
    /// of them, and the loss contract is well formed.
    pub open spec fn wf(&self) -> bool {
        &&& forall|i: int| 0 <= i < self.layers@.len() ==> (#[trigger] self.layers@[i]).wf()
        &&& exists|n: nat| self.carries(n)
        &&& self.error.wf()
    }

    /// `activations` holds what a forward pass on `input` hands from layer to
    /// layer: entry `i` is the input of layer `i`, and the last entry is the
    /// network's output.
    pub open spec fn forward_trace(
        &self,
        input: Seq<S>,
        activations: Seq<Seq<S>>,
    ) -> bool {
        &&& activations.len() == self.layers@.len() + 1
        &&& activations[0] == input
        &&& forall|i: int|
            0 <= i < self.layers@.len() ==> (#[trigger] self.layers@[i]).forward_post(
                activations[i],
                activations[i + 1],
            )
    }

    /// `output` is what the layers, applied in order, compute from `input`.
    pub open spec fn predict_post(&self, input: Seq<S>, output: Seq<S>) -> bool {
        exists|activations: Seq<Seq<S>>|
            #[trigger] self.forward_trace(input, activations) && activations.last() == output
    }

    /// `activations` and `errors` are the two caches of one training step
    /// that takes the network `self` to the network `updated`.
    ///
    /// `activations` is the forward trace of `input`, and `output` its last
    /// entry. `loss` is the loss of `output` against `expected`. The last
    /// entry of `errors` is the gradient of the loss at `output`, and entry
    /// `i` is what layer `i`, as it was before the step, computes backward
    /// from the input it was given and entry `i + 1`. Layer `i` of `updated`
    /// is layer `i` after one update on the input it was given and on entry
    /// `i + 1` of `errors`, the error on its output side.
    pub open spec fn backpropagation(
        &self,
        activations: Seq<Seq<S>>,
        errors: Seq<Seq<S>>,
        input: Seq<S>,
        expected: Seq<S>,
        learning_rate: S,
        updated: &Self,
        output: Seq<S>,
        loss: S,
    ) -> bool {
        &&& self.forward_trace(input, activations)
        &&& output == activations.last()
        &&& self.error.function_post(output, expected, loss)
        &&& errors.len() == self.layers@.len() + 1
        &&& self.error.derivative_post(output, expected, errors.last())
        &&& forall|i: int|
            0 <= i < self.layers@.len() ==> (#[trigger] self.layers@[i]).backward_post(
                activations[i],
                errors[i + 1],
                errors[i],
            )
        &&& updated.layers@.len() == self.layers@.len()
        &&& forall|i: int|
            0 <= i < self.layers@.len() ==> (#[trigger] self.layers@[i]).update_post(
                activations[i],
                errors[i + 1],
                learning_rate,
                &updated.layers@[i],
            )
        &&& updated.error == self.error
    }

    /// One training step on the sample (`input`, `expected`) takes the
    /// network `self` to the network `updated` and returns `output` and
    /// `loss`.
    pub open spec fn learn_post(
        &self,
        input: Seq<S>,
        expected: Seq<S>,
        learning_rate: S,
        updated: &Self,
        output: Seq<S>,
        loss: S,
    ) -> bool {
        exists|activations: Seq<Seq<S>>, errors: Seq<Seq<S>>| #[trigger]
            self.backpropagation(
                activations,
                errors,
                input,
                expected,
                learning_rate,
                updated,
                output,
                loss,
            )
    }

    /// Whether the network carries the input of `sample` and returns outputs
    /// of the width of what the sample expects.
    pub open spec fn fits(&self, sample: (Vec<S>, Vec<S>)) -> bool {
        &&& self.carries(sample.0@.len())
        &&& sample.1@.len() == self.output_width(sample.0@.len())
    }

    /// One training step on `sample` takes the network `self` to the network
    /// `updated` and returns `loss`, with some output.
    pub open spec fn step_post(
        &self,
        sample: (Vec<S>, Vec<S>),
        learning_rate: S,
        updated: &Self,
        loss: S,
    ) -> bool {
        exists|output: Seq<S>| #[trigger]
            self.learn_post(sample.0@, sample.1@, learning_rate, updated, output, loss)
    }

    /// `states` and `losses` record one pass over `data`: the pass starts
    /// from the network `self`, and training step `k`, on sample `k`, takes
    /// network `k` of `states` to network `k + 1` and returns loss `k`.
    pub open spec fn epoch_trace(
        &self,
        data: Seq<(Vec<S>, Vec<S>)>,
        learning_rate: S,
        states: Seq<Self>,
        losses: Seq<S>,
    ) -> bool {
        &&& states.len() == data.len() + 1
        &&& losses.len() == data.len()
        &&& states[0] == *self
        &&& forall|k: int|
            0 <= k < data.len() ==> (#[trigger] states[k]).step_post(
                data[k],
                learning_rate,
                &states[k + 1],
                losses[k],
            )
    }

    /// One pass over `data`, one training step for each sample in order,
    /// takes the network `self` to the network `updated`, and `mean` is the
    /// sum of the losses of the steps, added up in order from zero, divided
    /// by the number of samples.
    pub open spec fn epoch_post(
        &self,
        data: Seq<(Vec<S>, Vec<S>)>,
        learning_rate: S,
        updated: &Self,
        mean: S,
    ) -> bool {
        exists|states: Seq<Self>, losses: Seq<S>|
            {
                &&& #[trigger] self.epoch_trace(data, learning_rate, states, losses)
                &&& states.last() == *updated
                &&& mean == sum_from(zero::<S>(), losses).over_spec(
                    count::<S>(data.len()),
                )
            }
    }

    /// `epochs` records `means.len()` passes over `data` that start from the
    /// network `self`: pass `t` takes network `t` of `epochs` to network
    /// `t + 1` and has the mean loss `means[t]`.
    pub open spec fn training_trace(
        &self,
        data: Seq<(Vec<S>, Vec<S>)>,
        learning_rate: S,
        epochs: Seq<Self>,
        means: Seq<S>,
    ) -> bool {
        &&& epochs.len() == means.len() + 1
        &&& epochs[0] == *self
        &&& forall|t: int|
            0 <= t < means.len() ==> (#[trigger] epochs[t]).epoch_post(
                data,
                learning_rate,
                &epochs[t + 1],
                means[t],
            )
    }

    /// `means.len()` passes over `data` take the network `self` to the
    /// network `updated`, and `means` holds the mean loss of each pass.
    pub open spec fn train_post(
        &self,
        data: Seq<(Vec<S>, Vec<S>)>,
        learning_rate: S,
        updated: &Self,
        means: Seq<S>,
    ) -> bool {
        exists|epochs: Seq<Self>|
            #[trigger] self.training_trace(data, learning_rate, epochs, means) && epochs.last()
                == *updated
    }

    /// Assembles a network from `layers`, in the order in which an input
    /// passes through them, and the loss contract `error`.
    ///
    /// The widths of consecutive layers must match: the layers are refused
    /// when no input width passes through all of them.
    pub fn new(layers: Vec<L>, error: Error<S, F, D>) -> (r: Result<Self, NetworkError>)
        requires
            forall|i: int| 0 <= i < layers@.len() ==> (#[trigger] layers@[i]).wf(),
            error.wf(),
        ensures
            match r {
                Ok(network) => network.wf() && network.layers == layers && network.error == error,
                Err(e) => {
                    &&& e == NetworkError::DimensionMismatch
                    &&& forall|n: nat| !(#[trigger] (Network { layers, error }).carries(n))
                },
            },
    {
        let network = Network { layers, error };
        let mut width: Option<usize> = None;
        let ghost mut declared: nat = 0;
        let ghost mut first: nat = 0;
        let mut i: usize = 0;
        while i < network.layers.len()
            invariant
                i <= network.layers@.len(),
                network == (Network { layers, error }),
                forall|j: int|
                    0 <= j < network.layers@.len() ==> (#[trigger] network.layers@[j]).wf(),
                width is None ==> forall|j: int|
                    0 <= j < i ==> (#[trigger] network.layers@[j]).widths_spec() is None,
                width is Some ==> {
                    &&& first < i
                    &&& forall|j: int|
                        0 <= j < first ==> (#[trigger] network.layers@[j]).widths_spec() is None
                    &&& !(network.layers@[first as int].widths_spec() is None)
                    &&& accepts(network.layers@[first as int].widths_spec(), declared)
                    &&& forall|j: nat|
                        j < i ==> accepts(
                            (#[trigger] network.layers@[j as int]).widths_spec(),
                            network.width_at(declared, j),
                        )
                    &&& width->0 == network.width_at(declared, i as nat)
                },
            decreases network.layers@.len() - i,
        {
            proof {
                network.width_at_step(declared, i as nat);
            }
            match network.layers[i].widths() {
                Some((fixed_input, fixed_output)) => {
                    match width {
                        Some(reaching) => {
                            if reaching != fixed_input {
                                proof {
                                    assert forall|n: nat| !(#[trigger] network.carries(n)) by {
                                        if n == declared {
                                            assert(!accepts(
                                                network.layers@[i as int].widths_spec(),
                                                network.width_at(n, i as nat),
                                            ));
                                        } else {
                                            network.preserved_width(n, first);
                                            assert(!accepts(
                                                network.layers@[first as int].widths_spec(),
                                                network.width_at(n, first),
                                            ));
                                        }
                                    }
                                }
                                return Err(NetworkError::DimensionMismatch);
                            }
                        },
                        None => {
                            proof {
                                declared = fixed_input as nat;
                                first = i as nat;
                                assert forall|j: nat| j <= i implies accepts(
                                    (#[trigger] network.layers@[j as int]).widths_spec(),
                                    network.width_at(declared, j),
                                ) by {
                                    network.preserved_width(declared, j);
                                }
                                network.width_at_step(declared, i as nat);
                            }
                        },
                    }
                    width = Some(fixed_output);
                },
                None => {},
            }
            i += 1;
        }
        proof {
            if width is None {
                assert(network.carries(0)) by {
                    assert forall|j: nat| j < network.layers@.len() implies accepts(
                        (#[trigger] network.layers@[j as int]).widths_spec(),
                        network.width_at(0, j),
                    ) by {}
                }
            } else {
                assert(network.carries(declared));
            }
        }
        Ok(network)
    }

    /// An input enters the first layer with its own width.
    pub proof fn width_at_start(&self, n: nat)
        ensures
            self.width_at(n, 0) == n,
    {
        reveal_with_fuel(Network::width_at, 1);
    }

    /// The width that enters layer `i + 1` is the width that layer `i`
    /// returns for the width that enters it.
    pub proof fn width_at_step(&self, n: nat, i: nat)
        ensures
            self.width_at(n, i + 1) == output_width(
                self.layers@[i as int].widths_spec(),
                self.width_at(n, i),
            ),
    {
        reveal_with_fuel(Network::width_at, 1);
    }

    /// Layers that fix no width hand on the width that they are given: when
    /// none of the first `k` layers fixes its widths, an input of width `n`
    /// reaches layer `k` with width `n`.
    pub proof fn preserved_width(&self, n: nat, k: nat)
        requires
            k <= self.layers@.len(),
            forall|j: int| 0 <= j < k ==> (#[trigger] self.layers@[j]).widths_spec() is None,
        ensures
            self.width_at(n, k) == n,
        decreases k,
    {
        if k > 0 {
            self.preserved_width(n, (k - 1) as nat);
            self.width_at_step(n, (k - 1) as nat);
            assert(self.layers@[k - 1].widths_spec() is None);
        } else {
            self.width_at_start(n);
        }
    }

    /// The width of the output for an input of width `n`, or `None` when some
    /// layer does not take the width that reaches it.
    pub fn checked_output_width(&self, n: usize) -> (r: Option<usize>)
        requires
            self.wf(),
        ensures
            match r {
                Some(width) => self.carries(n as nat) && width == self.output_width(n as nat),
                None => !self.carries(n as nat),
            },
    {
        let mut width: usize = n;
        let mut i: usize = 0;
        proof {
            self.width_at_start(n as nat);
        }
        while i < self.layers.len()
            invariant
                i <= self.layers@.len(),
                width == self.width_at(n as nat, i as nat),
                forall|j: nat|
                    j < i ==> accepts(
                        (#[trigger] self.layers@[j as int]).widths_spec(),
                        self.width_at(n as nat, j),
                    ),
                forall|j: int| 0 <= j < self.layers@.len() ==> (#[trigger] self.layers@[j]).wf(),
            decreases self.layers@.len() - i,
        {
            let ghost before = self.width_at(n as nat, i as nat);
            proof {
                self.width_at_step(n as nat, i as nat);
            }
            match self.layers[i].widths() {
                Some((fixed_input, fixed_output)) => {
                    if width != fixed_input {
                        assert(!accepts(self.layers@[i as int].widths_spec(), before));
                        return None;
                    }
                    width = fixed_output;
                },
                None => {},
            }
            i += 1;
        }
        Some(width)
    }

    /// Runs the layers forward on `input`, which must have a width that the
    /// layers carry, and returns what each layer was given and the output.
    fn forward_pass(&self, input: &Vec<S>) -> (activations: Vec<Vec<S>>)
        requires
            self.wf(),
            self.carries(input@.len()),
        ensures
            self.forward_trace(input@, activations@.map_values(|a: Vec<S>| a@)),
            forall|i: nat|
                i <= self.layers@.len() ==> (#[trigger] activations@[i as int])@.len()
                    == self.width_at(input@.len(), i),
    {
        let mut activations: Vec<Vec<S>> = Vec::new();
        activations.push(copy_of(input));
        let mut i: usize = 0;
        proof {
            self.width_at_start(input@.len());
        }
        while i < self.layers.len()
            invariant
                i <= self.layers@.len(),
                activations@.len() == i + 1,
                activations@[0]@ == input@,
                self.carries(input@.len()),
                forall|j: int| 0 <= j < self.layers@.len() ==> (#[trigger] self.layers@[j]).wf(),
                forall|j: nat|
                    j <= i ==> (#[trigger] activations@[j as int])@.len() == self.width_at(
                        input@.len(),
                        j,
                    ),
                forall|j: int|
                    0 <= j < i ==> (#[trigger] self.layers@[j]).forward_post(
                        activations@[j]@,
                        activations@[j + 1]@,
                    ),
            decreases self.layers@.len() - i,
        {
            proof {
                self.width_at_step(input@.len(), i as nat);
                assert(accepts(
                    self.layers@[i as int].widths_spec(),
                    self.width_at(input@.len(), i as nat),
                ));
            }
            let next = self.layers[i].forward(&activations[i]);
            activations.push(next);
            i += 1;
        }
        proof {
            let views = activations@.map_values(|a: Vec<S>| a@);
            assert forall|j: int| 0 <= j < self.layers@.len() implies (
            #[trigger] self.layers@[j]).forward_post(views[j], views[j + 1]) by {
                assert(views[j] == activations@[j]@);
                assert(views[j + 1] == activations@[j + 1]@);
            }
        }
        activations
    }

    /// Feeds `input` through every layer in order and returns the final
    /// output. No layer is changed.
    pub fn predict(&self, input: &Vec<S>) -> (r: Result<Vec<S>, NetworkError>)
        requires
            self.wf(),
        ensures
            match r {
                Ok(output) => {
                    &&& self.carries(input@.len())
                    &&& output@.len() == self.output_width(input@.len())
                    &&& self.predict_post(input@, output@)
                },
                Err(e) => e == NetworkError::DimensionMismatch && !self.carries(input@.len()),
            },
    {
        if self.checked_output_width(input.len()).is_none() {
            return Err(NetworkError::DimensionMismatch);
        }
        let mut activations = self.forward_pass(input);
        let ghost views = activations@.map_values(|a: Vec<S>| a@);
        let output = activations.pop().unwrap();
        assert(views.last() == output@);
        Ok(output)
    }

    /// Takes one gradient-descent step on the sample (`input`, `expected`)
    /// and returns the network's output on `input` and its loss, both from
    /// before the step.
    ///
    /// The forward pass records what every layer is given. The backward pass
    /// starts from the gradient of the loss and visits the layers from last
    /// to first: each layer computes the error on its input side and is then
    /// updated with the error on its output side.
    ///
    /// A sample whose widths the network does not carry is refused, and the
    /// network stays as it was.
    pub fn learn(
        &mut self,
        input: &Vec<S>,
        expected: &Vec<S>,
        learning_rate: S,
    ) -> (r: Result<(Vec<S>, S), NetworkError>)
        requires
            old(self).wf(),
        ensures
            final(self).wf(),
            forall|n: nat| final(self).carries(n) == old(self).carries(n),
            forall|n: nat| final(self).output_width(n) == old(self).output_width(n),
            match r {
                Ok((output, loss)) => {
                    &&& old(self).carries(input@.len())
                    &&& expected@.len() == old(self).output_width(input@.len())
                    &&& old(self).learn_post(
                        input@,
                        expected@,
                        learning_rate,
                        final(self),
                        output@,
                        loss,
                    )
                },
                Err(e) => {
                    &&& e == NetworkError::DimensionMismatch
                    &&& !(old(self).carries(input@.len()) && expected@.len() == old(
                        self,
                    ).output_width(input@.len()))
                    &&& *final(self) == *old(self)
                },
            },
    {
        match self.checked_output_width(input.len()) {
            Some(width) => {
                if expected.len() != width {
                    return Err(NetworkError::DimensionMismatch);
                }
            },
            None => {
                return Err(NetworkError::DimensionMismatch);
            },
        }
        let depth: usize = self.layers.len();
        let mut activations = self.forward_pass(input);
        let ghost cached = activations@.map_values(|a: Vec<S>| a@);
        let output = activations.pop().unwrap();
        assert(activations@.map_values(|a: Vec<S>| a@) == cached.drop_last());
        let loss = (self.error.function)(&output, expected);
        let mut error = (self.error.derivative)(&output, expected);
        let ghost gradient = error@;
        let ghost mut errors: Seq<Seq<S>> = Seq::new(
            (depth + 1) as nat,
            |k: int| gradient,
        );
        assert(self.error.function_post(output@, expected@, loss));
        assert(self.error.derivative_post(output@, expected@, gradient));
        let mut i: usize = depth;
        while i > 0
            invariant
                i <= depth,
                depth == old(self).layers@.len(),
                self.layers@.len() == depth,
                self.error == old(self).error,
                activations@.len() == depth,
                cached.len() == depth + 1,
                errors.len() == depth + 1,
                error@ == errors[i as int],
                errors[depth as int] == gradient,
                old(self).forward_trace(input@, cached),
                cached.last() == output@,
                old(self).error.function_post(output@, expected@, loss),
                old(self).error.derivative_post(output@, expected@, gradient),
                forall|j: int| 0 <= j < depth ==> (#[trigger] activations@[j])@ == cached[j],
                forall|j: nat|
                    j <= depth ==> (#[trigger] cached[j as int]).len() == old(self).width_at(
                        input@.len(),
                        j,
                    ),
                errors[i as int].len() == old(self).width_at(input@.len(), i as nat),
                old(self).carries(input@.len()),
                forall|j: int| 0 <= j < depth ==> (#[trigger] self.layers@[j]).wf(),
                forall|j: int|
                    0 <= j < depth ==> (#[trigger] self.layers@[j]).widths_spec() == old(
                        self,
                    ).layers@[j].widths_spec(),
                forall|j: int| 0 <= j < i ==> (#[trigger] self.layers@[j]) == old(self).layers@[j],
                forall|j: int|
                    i <= j < depth ==> (#[trigger] old(self).layers@[j]).backward_post(
                        cached[j],
                        errors[j + 1],
                        errors[j],
                    ),
                forall|j: int|
                    i <= j < depth ==> (#[trigger] old(self).layers@[j]).update_post(
                        cached[j],
                        errors[j + 1],
                        learning_rate,
                        &self.layers@[j],
                    ),
            decreases i,
        {
            i -= 1;
            proof {
                let w = old(self).width_at(input@.len(), i as nat);
                assert(accepts(old(self).layers@[i as int].widths_spec(), w));
                old(self).width_at_step(input@.len(), i as nat);
                assert(cached[i as int].len() == w);
            }
            let input_error = self.layers[i].backward(&activations[i], &error);
            self.layers[i].update_params(&activations[i], &error, learning_rate);
            proof {
                errors = errors.update(i as int, input_error@);
            }
            error = input_error;
        }
        proof {
            assert(old(self).backpropagation(
                cached,
                errors,
                input@,
                expected@,
                learning_rate,
                self,
                output@,
                loss,
            ));
            Self::widths_decide(*old(self), *self);
        }
        Ok((output, loss))
    }

    /// Makes one pass over `data`: one training step for each sample, in
    /// order. Returns the mean of the losses of the steps.
    fn epoch(
        &mut self,
        data: &Vec<(Vec<S>, Vec<S>)>,
        learning_rate: S,
    ) -> (mean: S)
        requires
            old(self).wf(),
            forall|k: int| 0 <= k < data@.len() ==> old(self).fits(#[trigger] data@[k]),
        ensures
            final(self).wf(),
            forall|n: nat| final(self).carries(n) == old(self).carries(n),
            forall|n: nat| final(self).output_width(n) == old(self).output_width(n),
            old(self).epoch_post(data@, learning_rate, final(self), mean),
    {
        let mut sum = S::from_count(0);
        let ghost mut states: Seq<Self> = seq![*self];
        let ghost mut losses: Seq<S> = Seq::empty();
        let mut k: usize = 0;
        while k < data.len()
            invariant
                k <= data@.len(),
                self.wf(),
                forall|n: nat| self.carries(n) == old(self).carries(n),
                forall|n: nat| self.output_width(n) == old(self).output_width(n),
                forall|j: int| 0 <= j < data@.len() ==> old(self).fits(#[trigger] data@[j]),
                states.len() == k + 1,
                losses.len() == k,
                states[0] == *old(self),
                states[k as int] == *self,
                sum == sum_from(zero::<S>(), losses),
                forall|j: int|
                    0 <= j < k ==> (#[trigger] states[j]).step_post(
                        data@[j],
                        learning_rate,
                        &states[j + 1],
                        losses[j],
                    ),
            decreases data@.len() - k,
        {
            let ghost before = *self;
            assert(old(self).fits(data@[k as int]));
            let step = self.learn(&data[k].0, &data[k].1, learning_rate);
            assert(step is Ok);
            if let Ok((output, loss)) = step {
                sum = sum.plus(loss);
                proof {
                    assert(before.learn_post(
                        data@[k as int].0@,
                        data@[k as int].1@,
                        learning_rate,
                        self,
                        output@,
                        loss,
                    ));
                    assert(before.step_post(data@[k as int], learning_rate, self, loss));
                    let ghost grown = losses.push(loss);
                    assert(grown.drop_last() == losses);
                    states = states.push(*self);
                    losses = grown;
                }
            }
            k += 1;
        }
        let mean = sum.over(S::from_count(data.len()));
        proof {
            assert(old(self).epoch_trace(data@, learning_rate, states, losses));
        }
        mean
    }

    /// Trains the network: `iters` passes over `data`, in the order of the
    /// samples, with one training step for each sample. Returns the mean loss
    /// of each pass.
    ///
    /// An empty dataset is refused, and so is one with a sample whose widths
    /// the network does not carry; the network then stays as it was.
    pub fn train(
        &mut self,
        data: &Vec<(Vec<S>, Vec<S>)>,
        iters: usize,
        learning_rate: S,
    ) -> (r: Result<Vec<S>, NetworkError>)
        requires
            old(self).wf(),
        ensures
            final(self).wf(),
            forall|n: nat| final(self).carries(n) == old(self).carries(n),
            forall|n: nat| final(self).output_width(n) == old(self).output_width(n),
            match r {
                Ok(means) => {
                    &&& data@.len() > 0
                    &&& forall|k: int| 0 <= k < data@.len() ==> old(self).fits(#[trigger] data@[k])
                    &&& means@.len() == iters
                    &&& old(self).train_post(data@, learning_rate, final(self), means@)
                },
                Err(NetworkError::EmptyDataset) => data@.len() == 0 && *final(self) == *old(self),
                Err(NetworkError::DimensionMismatch) => {
                    &&& data@.len() > 0
                    &&& exists|k: int| 0 <= k < data@.len() && !old(self).fits(#[trigger] data@[k])
                    &&& *final(self) == *old(self)
                },
            },
    {
        if data.len() == 0 {
            return Err(NetworkError::EmptyDataset);
        }
        let mut k: usize = 0;
        while k < data.len()
            invariant
                k <= data@.len(),
                self.wf(),
                forall|j: int| 0 <= j < k ==> self.fits(#[trigger] data@[j]),
            decreases data@.len() - k,
        {
            let fitting = match self.checked_output_width(data[k].0.len()) {
                Some(width) => data[k].1.len() == width,
                None => false,
            };
            if !fitting {
                assert(!self.fits(data@[k as int]));
                return Err(NetworkError::DimensionMismatch);
            }
            k += 1;
        }
        let mut means: Vec<S> = Vec::new();
        let ghost mut epochs: Seq<Self> = seq![*self];
        let mut t: usize = 0;
        while t < iters
            invariant
                t <= iters,
                self.wf(),
                forall|n: nat| self.carries(n) == old(self).carries(n),
                forall|n: nat| self.output_width(n) == old(self).output_width(n),
                forall|j: int| 0 <= j < data@.len() ==> old(self).fits(#[trigger] data@[j]),
                means@.len() == t,
                epochs.len() == t + 1,
                epochs[0] == *old(self),
                epochs[t as int] == *self,
                forall|j: int|
                    0 <= j < t ==> (#[trigger] epochs[j]).epoch_post(
                        data@,
                        learning_rate,
                        &epochs[j + 1],
                        means@[j],
                    ),
            decreases iters - t,
        {
            assert forall|j: int| 0 <= j < data@.len() implies self.fits(#[trigger] data@[j]) by {
                assert(old(self).fits(data@[j]));
            }
            let mean = self.epoch(data, learning_rate);
            means.push(mean);
            proof {
                epochs = epochs.push(*self);
            }
            t += 1;
        }
        proof {
            assert(old(self).training_trace(data@, learning_rate, epochs, means@));
        }
        Ok(means)
    }

    /// The output that a training step returns is what the network, as it
    /// was before the step, predicts for the input.
    pub proof fn learn_returns_prediction(
        &self,
        input: Seq<S>,
        expected: Seq<S>,
        learning_rate: S,
        updated: &Self,
        output: Seq<S>,
        loss: S,
    )
        requires
            self.learn_post(input, expected, learning_rate, updated, output, loss),
        ensures
            self.predict_post(input, output),
    {
        let (activations, errors) = choose|
            activations: Seq<Seq<S>>,
            errors: Seq<Seq<S>>,
        | #[trigger]
            self.backpropagation(
                activations,
                errors,
                input,
                expected,
                learning_rate,
                updated,
                output,
                loss,
            );
        assert(self.forward_trace(input, activations));
    }

    /// The shape of a well-formed network: it carries exactly the inputs of
    /// its declared input width, every input if it declares none, and its
    /// output then has the declared output width, that of the input if it
    /// declares none. So `predict` on an input of the declared input width
    /// returns a vector of the declared output width.
    pub proof fn declared_widths_decide(&self, n: nat)
        requires
            self.wf(),
        ensures
            self.carries(n) <==> (self.declared_input_width() is None
                || self.declared_input_width() == Some(n)),
            self.output_width(n) == (match self.declared_output_width() {
                Some(width) => width,
                None => n,
            }),
    {
        self.first_fixed_is_first(0);
        match self.first_fixed_from(0) {
            Some(first) => {
                let declared = self.declared_input_width()->0;
                let carried = choose|m: nat| self.carries(m);
                self.preserved_width(carried, first);
                assert(accepts(
                    self.layers@[first as int].widths_spec(),
                    self.width_at(carried, first),
                ));
                assert(carried == declared);
                self.preserved_width(n, first);
                if self.carries(n) {
                    assert(accepts(
                        self.layers@[first as int].widths_spec(),
                        self.width_at(n, first),
                    ));
                }
            },
            None => {
                assert forall|i: nat| i < self.layers@.len() implies accepts(
                    (#[trigger] self.layers@[i as int]).widths_spec(),
                    self.width_at(n, i),
                ) by {
                    assert(self.layers@[i as int].widths_spec() is None);
                }
            },
        }
        self.width_after_last_fixed(n, self.layers@.len());
    }

    /// `first_fixed_from(i)` finds the first layer at or after `i` that
    /// fixes its widths, and finds none only when there is none.
    pub proof fn first_fixed_is_first(&self, i: nat)
        ensures
            match self.first_fixed_from(i) {
                Some(first) => {
                    &&& i <= first < self.layers@.len()
                    &&& self.layers@[first as int].widths_spec() is Some
                    &&& forall|j: int|
                        i <= j < first ==> (#[trigger] self.layers@[j]).widths_spec() is None
                },
                None => forall|j: int|
                    i <= j < self.layers@.len() ==> (#[trigger] self.layers@[j]).widths_spec()
                        is None,
            },
        decreases self.layers@.len() - i,
    {
        if i < self.layers@.len() && !(self.layers@[i as int].widths_spec() is Some) {
            self.first_fixed_is_first(i + 1);
        }
    }

    /// The width that enters layer `i` is the output width of the last layer
    /// before `i` that fixes its widths, and the width of the input if there
    /// is none.
    pub proof fn width_after_last_fixed(&self, n: nat, i: nat)
        requires
            i <= self.layers@.len(),
        ensures
            self.width_at(n, i) == (match self.last_fixed_before(i) {
                Some(last) => output_width(self.layers@[last as int].widths_spec(), n),
                None => n,
            }),
            match self.last_fixed_before(i) {
                Some(last) => last < i && self.layers@[last as int].widths_spec() is Some,
                None => true,
            },
        decreases i,
    {
        if i == 0 {
            self.width_at_start(n);
        } else {
            self.width_after_last_fixed(n, (i - 1) as nat);
            self.width_at_step(n, (i - 1) as nat);
        }
    }

    /// Two networks whose layers have the same widths carry the same inputs
    /// to the same widths.
    proof fn widths_decide(a: Self, b: Self)
        requires
            a.layers@.len() == b.layers@.len(),
            forall|j: int|
                0 <= j < a.layers@.len() ==> (#[trigger] a.layers@[j]).widths_spec()
                    == b.layers@[j].widths_spec(),
        ensures
            forall|n: nat, i: nat| i <= a.layers@.len() ==> a.width_at(n, i) == b.width_at(n, i),
            forall|n: nat| a.carries(n) == b.carries(n),
            forall|n: nat| a.output_width(n) == b.output_width(n),
    {
        assert forall|n: nat, i: nat| i <= a.layers@.len() implies a.width_at(n, i) == b.width_at(
            n,
            i,
        ) by {
            Self::widths_decide_at(a, b, n, i);
        }
        assert forall|n: nat| a.carries(n) == b.carries(n) by {
            assert forall|i: nat| i < a.layers@.len() implies (accepts(
                (#[trigger] a.layers@[i as int]).widths_spec(),
                a.width_at(n, i),
            ) == accepts(b.layers@[i as int].widths_spec(), b.width_at(n, i))) by {}
            if a.carries(n) {
                assert forall|i: nat| i < b.layers@.len() implies accepts(
                    (#[trigger] b.layers@[i as int]).widths_spec(),
                    b.width_at(n, i),
                ) by {
                    assert(accepts(a.layers@[i as int].widths_spec(), a.width_at(n, i)));
                }
            }
            if b.carries(n) {
                assert forall|i: nat| i < a.layers@.len() implies accepts(
                    (#[trigger] a.layers@[i as int]).widths_spec(),
                    a.width_at(n, i),
                ) by {
                    assert(accepts(b.layers@[i as int].widths_spec(), b.width_at(n, i)));
                }
            }
        }
    }

    proof fn widths_decide_at(a: Self, b: Self, n: nat, i: nat)
        requires
            a.layers@.len() == b.layers@.len(),
            forall|j: int|
                0 <= j < a.layers@.len() ==> (#[trigger] a.layers@[j]).widths_spec()
                    == b.layers@[j].widths_spec(),
            i <= a.layers@.len(),
        ensures
            a.width_at(n, i) == b.width_at(n, i),
        decreases i,
    {
        if i > 0 {
            Self::widths_decide_at(a, b, n, (i - 1) as nat);
            a.width_at_step(n, (i - 1) as nat);
            b.width_at_step(n, (i - 1) as nat);
            assert(a.layers@[i - 1].widths_spec() == b.layers@[i - 1].widths_spec());
        } else {
            a.width_at_start(n);
            b.width_at_start(n);
        }
    }
}

} // verus!
