//! Feed-forward neural inference over a scalar type `W`. Layers and
//! networks keep their shapes as invariants; running them takes a neuron
//! evaluator from the caller, which computes one activated weighted sum.

use vstd::prelude::*;
use crate::activation::ActivationType;
use crate::error::LoreError;

verus! {

/// The largest number of inputs or outputs a layer may have.
pub const MAX_LAYER_SIZE: usize = 10000;

/// A layer dimension is positive and at most `MAX_LAYER_SIZE`.
pub open spec fn valid_layer_size(n: usize) -> bool {
    0 < n && n <= MAX_LAYER_SIZE
}

/// `m` has `rows` rows of `cols` entries each.
pub open spec fn has_shape<W>(m: Seq<Vec<W>>, rows: nat, cols: nat) -> bool {
    &&& m.len() == rows
    &&& forall|i: int| 0 <= i < m.len() ==> (#[trigger] m[i]).len() == cols
}

/// What the neuron evaluator promises: `y` is the activated weighted sum of
/// `input` under weight row `row` and bias `b`.
pub open spec fn neuron_gives<W, F: Fn(&Vec<W>, &Vec<W>, W, ActivationType) -> W>(
    neuron: F,
    row: Vec<W>,
    input: Vec<W>,
    b: W,
    a: ActivationType,
    y: W,
) -> bool {
    neuron.ensures((&row, &input, b, a), y)
}

/// The evaluator may be called on any arguments.
pub open spec fn neuron_total<W, F: Fn(&Vec<W>, &Vec<W>, W, ActivationType) -> W>(
    neuron: F,
) -> bool {
    forall|row: &Vec<W>, input: &Vec<W>, b: W, a: ActivationType|
        #[trigger] neuron.requires((row, input, b, a))
}

/// Checks that both dimensions of a layer are in range.
pub fn check_layer_sizes(input_size: usize, output_size: usize) -> (r: Result<(), LoreError>)
    ensures
        r is Ok <==> valid_layer_size(input_size) && valid_layer_size(output_size),
        r is Err ==> r->Err_0 is Validation,
{
    if input_size == 0 || output_size == 0 {
        return Err(LoreError::Validation("Layer sizes must be positive".to_string()));
    }
    if input_size > MAX_LAYER_SIZE || output_size > MAX_LAYER_SIZE {
        return Err(LoreError::Validation("Layer sizes too large (max 10000)".to_string()));
    }
    Ok(())
}

/// Checks that `m` has `rows` rows of `cols` entries each.
fn check_shape<W>(m: &Vec<Vec<W>>, rows: usize, cols: usize) -> (r: bool)
    ensures
        r == has_shape(m@, rows as nat, cols as nat),
{
    if m.len() != rows {
        return false;
    }
    let mut i: usize = 0;
    while i < m.len()
        invariant
            0 <= i <= m.len(),
            forall|k: int| 0 <= k < i ==> (#[trigger] m@[k]).len() == cols,
        decreases m.len() - i,
    {
        if m[i].len() != cols {
            return false;
        }
        i = i + 1;
    }
    true
}

/// One fully connected layer: `output_size` neurons, each with a row of
/// `input_size` weights and a bias.
#[derive(Clone, Debug)]
pub struct NeuralLayer<W> {
    weights: Vec<Vec<W>>,
    biases: Vec<W>,
    activation: ActivationType,
    input_size: usize,
    output_size: usize,
}

impl<W: Copy> NeuralLayer<W> {
    pub closed spec fn spec_weights(&self) -> Seq<Vec<W>> {
        self.weights@
    }

    pub closed spec fn spec_biases(&self) -> Seq<W> {
        self.biases@
    }

    pub closed spec fn spec_activation(&self) -> ActivationType {
        self.activation
    }

    pub closed spec fn spec_input_size(&self) -> usize {
        self.input_size
    }

    pub closed spec fn spec_output_size(&self) -> usize {
        self.output_size
    }

    /// Sizes in range, a weight matrix of `output_size` rows of
    /// `input_size` entries, and one bias per output.
    pub open spec fn wf(&self) -> bool {
        &&& valid_layer_size(self.spec_input_size())
        &&& valid_layer_size(self.spec_output_size())
        &&& has_shape(
            self.spec_weights(),
            self.spec_output_size() as nat,
            self.spec_input_size() as nat,
        )
        &&& self.spec_biases().len() == self.spec_output_size()
    }

    /// `out` is what this layer makes of `input`, neuron by neuron.
    pub open spec fn maps<F: Fn(&Vec<W>, &Vec<W>, W, ActivationType) -> W>(
        &self,
        neuron: F,
        input: Vec<W>,
        out: Seq<W>,
    ) -> bool {
        &&& input.len() == self.spec_input_size()
        &&& out.len() == self.spec_output_size()
        &&& forall|i: int|
            0 <= i < out.len() ==> #[trigger] neuron_gives(
                neuron,
                self.spec_weights()[i],
                input,
                self.spec_biases()[i],
                self.spec_activation(),
                out[i],
            )
    }

    /// Builds a layer from its sizes, activation and initial parameters.
    /// Sizes out of range are a validation error; parameters of the wrong
    /// shape are a dimension mismatch.
    pub fn new(
        input_size: usize,
        output_size: usize,
        activation: ActivationType,
        weights: Vec<Vec<W>>,
        biases: Vec<W>,
    ) -> (r: Result<NeuralLayer<W>, LoreError>)
        ensures
            r is Ok <==> valid_layer_size(input_size) && valid_layer_size(output_size)
                && has_shape(weights@, output_size as nat, input_size as nat) && biases.len()
                == output_size,
            !(valid_layer_size(input_size) && valid_layer_size(output_size)) ==> r is Err
                && r->Err_0 is Validation,
            valid_layer_size(input_size) && valid_layer_size(output_size) && r is Err
                ==> r->Err_0 is DimensionMismatch,
            r matches Ok(l) ==> {
                &&& l.wf()
                &&& l.spec_weights() == weights@
                &&& l.spec_biases() == biases@
                &&& l.spec_activation() == activation
                &&& l.spec_input_size() == input_size
                &&& l.spec_output_size() == output_size
            },
    {
        match check_layer_sizes(input_size, output_size) {
            Err(e) => {
                return Err(e);
            },
            Ok(()) => {},
        }
        if !check_shape(&weights, output_size, input_size) || biases.len() != output_size {
            return Err(LoreError::DimensionMismatch("Weight matrix size mismatch".to_string()));
        }
        Ok(NeuralLayer { weights, biases, activation, input_size, output_size })
    }

    /// Runs the layer on `inputs`: output `i` is `neuron` applied to weight
    /// row `i`, the inputs, bias `i` and the activation.
    pub fn forward<F: Fn(&Vec<W>, &Vec<W>, W, ActivationType) -> W>(
        &self,
        inputs: &Vec<W>,
        neuron: &F,
    ) -> (r: Result<Vec<W>, LoreError>)
        requires
            self.wf(),
            neuron_total(*neuron),
        ensures
            r is Ok <==> inputs.len() == self.spec_input_size(),
            r is Err ==> r->Err_0 is DimensionMismatch,
            r matches Ok(out) ==> self.maps(*neuron, *inputs, out@),
    {
        if inputs.len() != self.input_size {
            return Err(LoreError::DimensionMismatch("Input size mismatch".to_string()));
        }
        let mut out: Vec<W> = Vec::new();
        let mut i: usize = 0;
        while i < self.output_size
            invariant
                self.wf(),
                neuron_total(*neuron),
                inputs.len() == self.spec_input_size(),
                0 <= i <= self.output_size,
                out.len() == i,
                forall|k: int|
                    0 <= k < i ==> #[trigger] neuron_gives(
                        *neuron,
                        self.weights@[k],
                        *inputs,
                        self.biases@[k],
                        self.activation,
                        out@[k],
                    ),
            decreases self.output_size - i,
        {
            let y = neuron(&self.weights[i], inputs, self.biases[i], self.activation);
            out.push(y);
            i = i + 1;
        }
        Ok(out)
    }
    /// The weight matrix, one row per output.
    pub fn get_weights(&self) -> (r: &Vec<Vec<W>>)
        ensures
            r@ == self.spec_weights(),
    {
        &self.weights
    }

    /// The biases, one per output.
    pub fn get_biases(&self) -> (r: &Vec<W>)
        ensures
            r@ == self.spec_biases(),
    {
        &self.biases
    }

    pub fn get_input_size(&self) -> (r: usize)
        ensures
            r == self.spec_input_size(),
    {
        self.input_size
    }

    pub fn get_output_size(&self) -> (r: usize)
        ensures
            r == self.spec_output_size(),
    {
        self.output_size
    }

    pub fn get_activation(&self) -> (r: ActivationType)
        ensures
            r == self.spec_activation(),
    {
        self.activation
    }

    /// Replaces the weight matrix, which must have the layer's shape;
    /// otherwise the layer is left as it was.
    pub fn update_weights(&mut self, new_weights: Vec<Vec<W>>) -> (r: Result<(), LoreError>)
        requires
            old(self).wf(),
        ensures
            final(self).wf(),
            r is Ok <==> has_shape(
                new_weights@,
                old(self).spec_output_size() as nat,
                old(self).spec_input_size() as nat,
            ),
            r is Err ==> r->Err_0 is DimensionMismatch && *final(self) == *old(self),
            r is Ok ==> {
                &&& final(self).spec_weights() == new_weights@
                &&& final(self).spec_biases() == old(self).spec_biases()
                &&& final(self).spec_activation() == old(self).spec_activation()
                &&& final(self).spec_input_size() == old(self).spec_input_size()
                &&& final(self).spec_output_size() == old(self).spec_output_size()
            },
    {
        if !check_shape(&new_weights, self.output_size, self.input_size) {
            return Err(LoreError::DimensionMismatch("Weight matrix size mismatch".to_string()));
        }
        self.weights = new_weights;
        Ok(())
    }
}

/// Consecutive layers fit: each is well formed, there is at least one, and
/// each layer's output size is the next one's input size.
pub open spec fn layers_chain<W: Copy>(ls: Seq<NeuralLayer<W>>) -> bool {
    &&& ls.len() >= 1
    &&& forall|i: int| 0 <= i < ls.len() ==> (#[trigger] ls[i]).wf()
    &&& forall|i: int|
        0 <= i < ls.len() - 1 ==> (#[trigger] ls[i]).spec_output_size() == ls[i
            + 1].spec_input_size()
}

/// The input size of the first layer followed by each layer's output size.
pub open spec fn architecture_of<W: Copy>(ls: Seq<NeuralLayer<W>>) -> Seq<usize> {
    seq![ls[0].spec_input_size()] + ls.map_values(|l: NeuralLayer<W>| l.spec_output_size())
}

/// The weights and biases of a layer with the given sizes.
pub open spec fn layer_parameters(input_size: usize, output_size: usize) -> nat {
    (input_size * output_size + output_size) as nat
}

/// The number of weights and biases over all layers.
pub open spec fn parameter_total<W: Copy>(ls: Seq<NeuralLayer<W>>) -> nat
    decreases ls.len(),
{
    if ls.len() == 0 {
        0
    } else {
        parameter_total(ls.drop_last()) + layer_parameters(
            ls.last().spec_input_size(),
            ls.last().spec_output_size(),
        )
    }
}

/// `out` is what the layers make of `input`, each layer's output feeding
/// the next.
pub open spec fn network_maps<W: Copy, F: Fn(&Vec<W>, &Vec<W>, W, ActivationType) -> W>(
    ls: Seq<NeuralLayer<W>>,
    neuron: F,
    input: Vec<W>,
    out: Vec<W>,
) -> bool {
    exists|trace: Seq<Vec<W>>| #[trigger]
        trace_maps(ls, neuron, trace) && trace[0] == input && trace.last() == out
}

/// `trace[i + 1]` is what layer `i` makes of `trace[i]`.
pub open spec fn trace_maps<W: Copy, F: Fn(&Vec<W>, &Vec<W>, W, ActivationType) -> W>(
    ls: Seq<NeuralLayer<W>>,
    neuron: F,
    trace: Seq<Vec<W>>,
) -> bool {
    &&& trace.len() == ls.len() + 1
    &&& forall|i: int| 0 <= i < ls.len() ==> (#[trigger] ls[i]).maps(neuron, trace[i], trace[i + 1]@)
}

/// The weights and biases of a network with the given sizes, input first:
/// `sizes[i] * sizes[i + 1] + sizes[i + 1]` summed over consecutive sizes.
pub open spec fn layout_parameters(sizes: Seq<usize>) -> nat
    decreases sizes.len(),
{
    if sizes.len() < 2 {
        0
    } else {
        layout_parameters(sizes.drop_last()) + layer_parameters(
            sizes[sizes.len() - 2],
            sizes[sizes.len() - 1],
        )
    }
}

/// The parameter count of chained layers is the sum, over consecutive sizes
/// of their architecture, of inputs times outputs plus outputs.
pub proof fn lemma_parameter_count_formula<W: Copy>(ls: Seq<NeuralLayer<W>>)
    requires
        layers_chain(ls),
    ensures
        parameter_total(ls) == layout_parameters(architecture_of(ls)),
    decreases ls.len(),
{
    let arch = architecture_of(ls);
    if ls.len() == 1 {
        assert(ls.drop_last() =~= Seq::<NeuralLayer<W>>::empty());
        assert(arch.drop_last() =~= seq![ls[0].spec_input_size()]);
        assert(layout_parameters(arch.drop_last()) == 0);
        assert(arch[0] == ls[0].spec_input_size());
        assert(arch[1] == ls[0].spec_output_size());
        assert(parameter_total(ls.drop_last()) == 0);
    } else {
        let init = ls.drop_last();
        assert(layers_chain(init)) by {
            assert forall|i: int| 0 <= i < init.len() - 1 implies (#[trigger] init[i]).spec_output_size()
                == init[i + 1].spec_input_size() by {
                assert(ls[i].spec_output_size() == ls[i + 1].spec_input_size());
            }
        }
        lemma_parameter_count_formula(init);
        assert(architecture_of(init) =~= arch.drop_last());
        assert(ls[ls.len() - 2].spec_output_size() == ls[(ls.len() - 2) + 1].spec_input_size());
        let l = ls.len() as int;
        assert(arch.len() == l + 1);
        assert(arch[l - 1] == ls[l - 2].spec_output_size());
        assert(arch[l] == ls[l - 1].spec_output_size());
        assert(arch[l - 1] == ls.last().spec_input_size());
    }
}

/// The parameter count of a prefix of the layers is at most the total.
proof fn lemma_prefix_total<W: Copy>(ls: Seq<NeuralLayer<W>>, i: int)
    requires
        0 <= i <= ls.len(),
    ensures
        parameter_total(ls.take(i)) <= parameter_total(ls),
    decreases ls.len(),
{
    if i < ls.len() {
        assert(ls.drop_last().take(i) =~= ls.take(i));
        lemma_prefix_total(ls.drop_last(), i);
    } else {
        assert(ls.take(i) =~= ls);
    }
}

/// A feed-forward network: layers applied in order.
#[derive(Clone, Debug)]
pub struct NeuralNetwork<W> {
    layers: Vec<NeuralLayer<W>>,
}

impl<W: Copy> NeuralNetwork<W> {
    pub closed spec fn spec_layers(&self) -> Seq<NeuralLayer<W>> {
        self.layers@
    }

    pub open spec fn wf(&self) -> bool {
        layers_chain(self.spec_layers())
    }

    /// The input size of the first layer.
    pub open spec fn spec_input_size(&self) -> usize {
        self.spec_layers()[0].spec_input_size()
    }

    /// The output size of the last layer.
    pub open spec fn spec_output_size(&self) -> usize {
        self.spec_layers().last().spec_output_size()
    }

    /// Checks a layout given as layer sizes (input first) and one activation
    /// per layer: at least two sizes, one activation fewer than sizes, and
    /// every size in range.
    pub fn check_layout(layer_sizes: &Vec<usize>, activations: &Vec<ActivationType>) -> (r:
        Result<(), LoreError>)
        ensures
            r is Ok <==> layer_sizes.len() >= 2 && activations.len() == layer_sizes.len() - 1
                && forall|i: int| 0 <= i < layer_sizes.len() ==> valid_layer_size(#[trigger] layer_sizes[i]),
            r is Err ==> r->Err_0 is Validation,
    {
        if layer_sizes.len() < 2 {
            return Err(LoreError::Validation("Need at least 2 layers (input + output)".to_string()));
        }
        if activations.len() != layer_sizes.len() - 1 {
            return Err(LoreError::Validation("Need one activation per layer (excluding input)".to_string()));
        }
        let mut i: usize = 0;
        while i + 1 < layer_sizes.len()
            invariant
                layer_sizes.len() >= 2,
                0 <= i < layer_sizes.len(),
                forall|k: int|
                    0 <= k < i ==> valid_layer_size(#[trigger] layer_sizes[k]) && valid_layer_size(
                        layer_sizes[k + 1],
                    ),
            decreases layer_sizes.len() - i,
        {
            match check_layer_sizes(layer_sizes[i], layer_sizes[i + 1]) {
                Err(e) => {
                    return Err(e);
                },
                Ok(()) => {},
            }
            i = i + 1;
        }
        assert forall|k: int| 0 <= k < layer_sizes.len() implies valid_layer_size(
            #[trigger] layer_sizes[k],
        ) by {
            if k > 0 {
                assert(valid_layer_size(layer_sizes[k - 1]));
            }
        }
        Ok(())
    }

    /// Builds a network from well-formed layers. No layers is a validation
    /// error; a layer whose input size is not the previous layer's output
    /// size is a dimension mismatch.
    pub fn new(layers: Vec<NeuralLayer<W>>) -> (r: Result<NeuralNetwork<W>, LoreError>)
        requires
            forall|i: int| 0 <= i < layers.len() ==> (#[trigger] layers[i]).wf(),
        ensures
            r is Ok <==> layers_chain(layers@),
            layers.len() == 0 ==> r is Err && r->Err_0 is Validation,
            layers.len() > 0 && r is Err ==> r->Err_0 is DimensionMismatch,
            r matches Ok(n) ==> n.wf() && n.spec_layers() == layers@,
    {
        if layers.len() == 0 {
            return Err(LoreError::Validation("Need at least one layer".to_string()));
        }
        let mut i: usize = 0;
        while i + 1 < layers.len()
            invariant
                layers.len() >= 1,
                0 <= i < layers.len(),
                forall|k: int|
                    0 <= k < i ==> (#[trigger] layers@[k]).spec_output_size() == layers@[k
                        + 1].spec_input_size(),
            decreases layers.len() - i,
        {
            if layers[i].get_output_size() != layers[i + 1].get_input_size() {
                return Err(LoreError::DimensionMismatch("Consecutive layer sizes differ".to_string()));
            }
            i = i + 1;
        }
        Ok(NeuralNetwork { layers })
    }

    /// The layers, in order.
    pub fn get_layers(&self) -> (r: &Vec<NeuralLayer<W>>)
        ensures
            r@ == self.spec_layers(),
    {
        &self.layers
    }

    pub fn get_input_size(&self) -> (r: usize)
        requires
            self.wf(),
        ensures
            r == self.spec_input_size(),
    {
        self.layers[0].get_input_size()
    }

    pub fn get_output_size(&self) -> (r: usize)
        requires
            self.wf(),
        ensures
            r == self.spec_output_size(),
    {
        self.layers[self.layers.len() - 1].get_output_size()
    }

    /// Runs the layers in order, each on the previous one's output. Fails
    /// when the input does not have the first layer's size.
    pub fn forward<F: Fn(&Vec<W>, &Vec<W>, W, ActivationType) -> W>(
        &self,
        inputs: &Vec<W>,
        neuron: &F,
    ) -> (r: Result<Vec<W>, LoreError>)
        requires
            self.wf(),
            neuron_total(*neuron),
        ensures
            r is Ok <==> inputs.len() == self.spec_input_size(),
            r is Err ==> r->Err_0 is DimensionMismatch,
            r matches Ok(out) ==> out.len() == self.spec_output_size() && network_maps(
                self.spec_layers(),
                *neuron,
                *inputs,
                out,
            ),
    {
        let ghost ls = self.layers@;
        let mut current = match self.layers[0].forward(inputs, neuron) {
            Err(e) => {
                return Err(e);
            },
            Ok(out) => out,
        };
        let ghost mut trace: Seq<Vec<W>> = seq![*inputs, current];
        let mut i: usize = 1;
        while i < self.layers.len()
            invariant
                self.wf(),
                ls == self.layers@,
                neuron_total(*neuron),
                1 <= i <= ls.len(),
                trace.len() == i + 1,
                trace[0] == *inputs,
                trace[i as int] == current,
                forall|k: int| 0 <= k < i ==> (#[trigger] ls[k]).maps(*neuron, trace[k], trace[k + 1]@),
                current.len() == ls[i - 1].spec_output_size(),
            decreases ls.len() - i,
        {
            assert(ls[i - 1].spec_output_size() == ls[(i - 1) + 1].spec_input_size());
            let next = match self.layers[i].forward(&current, neuron) {
                Err(e) => {
                    return Err(e);
                },
                Ok(out) => out,
            };
            proof {
                trace = trace.push(next);
            }
            current = next;
            i = i + 1;
        }
        assert(trace_maps(ls, *neuron, trace));
        Ok(current)
    }

    /// Runs `forward` on every row of the batch. The first row that fails
    /// fails the whole batch.
    pub fn batch_forward<F: Fn(&Vec<W>, &Vec<W>, W, ActivationType) -> W>(
        &self,
        batch_inputs: Vec<Vec<W>>,
        neuron: &F,
    ) -> (r: Result<Vec<Vec<W>>, LoreError>)
        requires
            self.wf(),
            neuron_total(*neuron),
        ensures
            r is Ok <==> forall|i: int|
                0 <= i < batch_inputs.len() ==> (#[trigger] batch_inputs[i]).len()
                    == self.spec_input_size(),
            r is Err ==> r->Err_0 is DimensionMismatch,
            r matches Ok(outs) ==> {
                &&& outs.len() == batch_inputs.len()
                &&& forall|i: int|
                    0 <= i < outs.len() ==> (#[trigger] outs[i]).len() == self.spec_output_size()
                        && network_maps(self.spec_layers(), *neuron, batch_inputs[i], outs[i])
            },
    {
        let mut outs: Vec<Vec<W>> = Vec::new();
        let mut i: usize = 0;
        while i < batch_inputs.len()
            invariant
                self.wf(),
                neuron_total(*neuron),
                0 <= i <= batch_inputs.len(),
                outs.len() == i,
                forall|k: int| 0 <= k < i ==> (#[trigger] batch_inputs[k]).len() == self.spec_input_size(),
                forall|k: int|
                    0 <= k < i ==> (#[trigger] outs[k]).len() == self.spec_output_size()
                        && network_maps(self.spec_layers(), *neuron, batch_inputs[k], outs[k]),
            decreases batch_inputs.len() - i,
        {
            match self.forward(&batch_inputs[i], neuron) {
                Err(e) => {
                    return Err(e);
                },
                Ok(out) => {
                    outs.push(out);
                },
            }
            i = i + 1;
        }
        Ok(outs)
    }

    /// The input size of the first layer followed by each layer's output size.
    pub fn get_architecture(&self) -> (r: Vec<usize>)
        requires
            self.wf(),
        ensures
            r@ == architecture_of(self.spec_layers()),
    {
        let mut arch: Vec<usize> = Vec::new();
        arch.push(self.layers[0].get_input_size());
        let mut i: usize = 0;
        while i < self.layers.len()
            invariant
                self.wf(),
                0 <= i <= self.layers.len(),
                arch@ =~= seq![self.layers@[0].spec_input_size()] + self.layers@.take(i as int).map_values(
                    |l: NeuralLayer<W>| l.spec_output_size(),
                ),
            decreases self.layers.len() - i,
        {
            arch.push(self.layers[i].get_output_size());
            assert(self.layers@.take(i + 1) =~= self.layers@.take(i as int).push(self.layers@[i as int]));
            i = i + 1;
        }
        assert(self.layers@.take(self.layers.len() as int) =~= self.layers@);
        arch
    }

    /// The number of weights and biases over all layers.
    pub fn get_parameter_count(&self) -> (r: usize)
        requires
            self.wf(),
            parameter_total(self.spec_layers()) <= usize::MAX,
        ensures
            r == parameter_total(self.spec_layers()),
    {
        let mut total: usize = 0;
        let mut i: usize = 0;
        while i < self.layers.len()
            invariant
                self.wf(),
                parameter_total(self.layers@) <= usize::MAX,
                0 <= i <= self.layers.len(),
                total == parameter_total(self.layers@.take(i as int)),
            decreases self.layers.len() - i,
        {
            let input_size = self.layers[i].get_input_size();
            let output_size = self.layers[i].get_output_size();
            assert(self.layers@.take(i + 1).drop_last() =~= self.layers@.take(i as int));
            proof {
                lemma_prefix_total(self.layers@, i + 1);
            }
            assert(input_size * output_size <= 10000 * 10000) by (nonlinear_arith)
                requires
                    input_size <= 10000,
                    output_size <= 10000,
            ;
            total = total + (input_size * output_size + output_size);
            i = i + 1;
        }
        assert(self.layers@.take(self.layers.len() as int) =~= self.layers@);
        total
    }
}

/// Runs every network of an ensemble on the same input, in order. An empty
/// ensemble is a validation error; an input of the wrong size, or networks
/// whose outputs differ in size, a dimension mismatch.
pub fn ensemble_outputs<W: Copy, F: Fn(&Vec<W>, &Vec<W>, W, ActivationType) -> W>(
    networks: &Vec<NeuralNetwork<W>>,
    inputs: &Vec<W>,
    neuron: &F,
) -> (r: Result<Vec<Vec<W>>, LoreError>)
    requires
        forall|k: int| 0 <= k < networks.len() ==> (#[trigger] networks[k]).wf(),
        neuron_total(*neuron),
    ensures
        networks.len() == 0 ==> r is Err && r->Err_0 is Validation,
        networks.len() > 0 && r is Err ==> r->Err_0 is DimensionMismatch,
        r is Ok <==> networks.len() > 0 && forall|k: int|
            0 <= k < networks.len() ==> inputs.len() == (#[trigger] networks[k]).spec_input_size()
                && networks[k].spec_output_size() == networks[0].spec_output_size(),
        r matches Ok(outs) ==> {
            &&& outs.len() == networks.len()
            &&& forall|k: int|
                0 <= k < outs.len() ==> (#[trigger] outs[k]).len() == networks[0].spec_output_size()
                    && network_maps(networks[k].spec_layers(), *neuron, *inputs, outs[k])
        },
{
    if networks.len() == 0 {
        return Err(LoreError::Validation("Empty network ensemble".to_string()));
    }
    let width = networks[0].get_output_size();
    let mut outs: Vec<Vec<W>> = Vec::new();
    let mut k: usize = 0;
    while k < networks.len()
        invariant
            forall|j: int| 0 <= j < networks.len() ==> (#[trigger] networks[j]).wf(),
            neuron_total(*neuron),
            networks.len() > 0,
            width == networks[0].spec_output_size(),
            0 <= k <= networks.len(),
            outs.len() == k,
            forall|j: int|
                0 <= j < k ==> inputs.len() == (#[trigger] networks[j]).spec_input_size()
                    && networks[j].spec_output_size() == width,
            forall|j: int|
                0 <= j < k ==> (#[trigger] outs[j]).len() == width && network_maps(
                    networks[j].spec_layers(),
                    *neuron,
                    *inputs,
                    outs[j],
                ),
        decreases networks.len() - k,
    {
        let out = match networks[k].forward(inputs, neuron) {
            Err(e) => {
                return Err(e);
            },
            Ok(out) => out,
        };
        if out.len() != width {
            return Err(LoreError::DimensionMismatch("Ensemble outputs differ in size".to_string()));
        }
        outs.push(out);
        k = k + 1;
    }
    Ok(outs)
}

/// The layout of a feed-forward network: the input size, the hidden sizes
/// and the output size, with the same activation on every layer.
pub fn feedforward_layout(
    input_size: usize,
    hidden_sizes: &Vec<usize>,
    output_size: usize,
    activation: ActivationType,
) -> (r: (Vec<usize>, Vec<ActivationType>))
    ensures
        r.0@ == seq![input_size] + hidden_sizes@ + seq![output_size],
        r.1@ == Seq::new((hidden_sizes.len() + 1) as nat, |i: int| activation),
{
    let mut sizes: Vec<usize> = Vec::new();
    let mut acts: Vec<ActivationType> = Vec::new();
    sizes.push(input_size);
    acts.push(activation);
    let mut i: usize = 0;
    while i < hidden_sizes.len()
        invariant
            0 <= i <= hidden_sizes.len(),
            sizes@ =~= seq![input_size] + hidden_sizes@.take(i as int),
            acts@ =~= Seq::new((i + 1) as nat, |j: int| activation),
        decreases hidden_sizes.len() - i,
    {
        sizes.push(hidden_sizes[i]);
        acts.push(activation);
        assert(hidden_sizes@.take(i + 1) =~= hidden_sizes@.take(i as int).push(hidden_sizes@[i as int]));
        i = i + 1;
    }
    assert(hidden_sizes@.take(hidden_sizes.len() as int) =~= hidden_sizes@);
    sizes.push(output_size);
    (sizes, acts)
}

/// Whatever a chain of layers makes of an input has the last layer's output
/// size, and the input had the first layer's input size.
pub proof fn lemma_network_output_size<W: Copy, F: Fn(&Vec<W>, &Vec<W>, W, ActivationType) -> W>(
    ls: Seq<NeuralLayer<W>>,
    neuron: F,
    input: Vec<W>,
    out: Vec<W>,
)
    requires
        layers_chain(ls),
        network_maps(ls, neuron, input, out),
    ensures
        input.len() == ls[0].spec_input_size(),
        out.len() == ls.last().spec_output_size(),
{
    let trace = choose|trace: Seq<Vec<W>>|
        #[trigger] trace_maps(ls, neuron, trace) && trace[0] == input && trace.last() == out;
    assert(ls[0].maps(neuron, trace[0], trace[1]@));
    assert(ls[ls.len() - 1].maps(neuron, trace[ls.len() - 1], trace[ls.len() - 1 + 1]@));
}

/// A network's architecture lists one size more than it has layers.
pub proof fn lemma_architecture_length<W: Copy>(network: NeuralNetwork<W>)
    requires
        network.wf(),
    ensures
        architecture_of(network.spec_layers()).len() == network.spec_layers().len() + 1,
        architecture_of(network.spec_layers())[0] == network.spec_input_size(),
        architecture_of(network.spec_layers()).last() == network.spec_output_size(),
{
}

} // verus!
