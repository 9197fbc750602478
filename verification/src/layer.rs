//! The capability that every stage of a network offers.
use vstd::prelude::*;

verus! {

/// One differentiable stage of a feed-forward pipeline.
///
/// A layer maps an input vector to an output vector (`forward`), maps the
/// gradient of the loss with respect to its output to the gradient with
/// respect to its input (`backward`), and takes one gradient-descent step on
/// its own parameters (`update_params`). `backward` and `update_params` are
/// given the input that was handed to `forward`.
///
/// What each operation computes is stated by a relation between its arguments
/// and its result; an implementation documents the relation it chooses.
pub trait Layer<S>: Sized {
    /// The layer's own invariant.
    spec fn wf(&self) -> bool;

    /// The input and output widths of a layer that fixes them, or `None` for a
    /// layer that takes vectors of any width and returns vectors of the same
    /// width.
    spec fn widths_spec(&self) -> Option<(nat, nat)>;

    /// `output` is what `forward` computes from `input`.
    spec fn forward_post(&self, input: Seq<S>, output: Seq<S>) -> bool;

    /// `input_error` is what `backward` computes from `input` and
    /// `output_error`.
    spec fn backward_post(
        &self,
        input: Seq<S>,
        output_error: Seq<S>,
        input_error: Seq<S>,
    ) -> bool;

    /// `updated` is this layer after `update_params` on `input`,
    /// `output_error` and `learning_rate`.
    spec fn update_post(
        &self,
        input: Seq<S>,
        output_error: Seq<S>,
        learning_rate: S,
        updated: &Self,
    ) -> bool;

    /// The widths that the layer fixes, if it fixes them.
    fn widths(&self) -> (r: Option<(usize, usize)>)
        requires
            self.wf(),
        ensures
            widths_match(r, self.widths_spec()),
    ;

    /// Computes the layer's output from `input`.
    fn forward(&self, input: &Vec<S>) -> (output: Vec<S>)
        requires
            self.wf(),
            accepts(self.widths_spec(), input@.len()),
        ensures
            output@.len() == output_width(self.widths_spec(), input@.len()),
            self.forward_post(input@, output@),
    ;

    /// Computes the gradient with respect to the layer's input from the
    /// gradient with respect to its output.
    fn backward(&self, input: &Vec<S>, output_error: &Vec<S>) -> (input_error:
        Vec<S>)
        requires
            self.wf(),
            accepts(self.widths_spec(), input@.len()),
            output_error@.len() == output_width(self.widths_spec(), input@.len()),
        ensures
            input_error@.len() == input@.len(),
            self.backward_post(input@, output_error@, input_error@),
    ;

    /// Takes one gradient-descent step on the layer's parameters. The widths
    /// of the layer stay as they are.
    fn update_params(
        &mut self,
        input: &Vec<S>,
        output_error: &Vec<S>,
        learning_rate: S,
    )
        requires
            old(self).wf(),
            accepts(old(self).widths_spec(), input@.len()),
            output_error@.len() == output_width(old(self).widths_spec(), input@.len()),
        ensures
            final(self).wf(),
            final(self).widths_spec() == old(self).widths_spec(),
            old(self).update_post(input@, output_error@, learning_rate, final(self)),
    ;
}

/// The executable pair of widths `r` holds the same numbers as `w`.
pub open spec fn widths_match(r: Option<(usize, usize)>, w: Option<(nat, nat)>) -> bool {
    match (r, w) {
        (Some((a, b)), Some((c, d))) => a == c && b == d,
        (None, None) => true,
        _ => false,
    }
}

/// Whether a layer with the given widths takes input vectors of width `n`.
pub open spec fn accepts(widths: Option<(nat, nat)>, n: nat) -> bool {
    match widths {
        Some((input_width, _)) => n == input_width,
        None => true,
    }
}

/// The width of the vector that a layer with the given widths returns for an
/// input of width `n`.
pub open spec fn output_width(widths: Option<(nat, nat)>, n: nat) -> nat {
    match widths {
        Some((_, width)) => width,
        None => n,
    }
}

} // verus!
