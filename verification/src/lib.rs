//! A discrete-event simulator for digital logic networks.
//!
//! A network is a graph of boolean-valued wires driven by external inputs,
//! transformed by combinational and sequential components, and observed
//! through outputs.  A [`Circuit`] records the static topology: every wire is
//! a slot in a flat, index-addressed value store, and every structural
//! element refers to wires purely by index.  A [`simulator::Simulator`] owns
//! the live value store and drives the network to a fixed point with a
//! worklist-based propagation algorithm, or reports non-convergence.

use vstd::prelude::*;

use element::{Component, Input, Output};
use function::Function;

pub mod element;
pub mod function;
pub mod laws;
pub mod model;
pub mod simulator;

verus! {

broadcast use model::lemma_components_view, model::lemma_components_wf,
    model::lemma_components_view_push;

/// The static structural graph of a logic network: ordered collections of
/// inputs, outputs and components, plus the total count of value slots.
/// A circuit owns topology, not runtime values; the value store lives in a
/// [`simulator::Simulator`].
///
/// Indices are assigned monotonically at construction time and never reused
/// or reordered: an index, once allocated, denotes the same logical wire for
/// the circuit's lifetime.
#[derive(Debug)]
pub struct Circuit {
    pub inputs: Vec<Input>,
    pub outputs: Vec<Output>,
    pub components: Vec<Component>,
    pub value_list_len: usize,
}

/// A single boolean wire state.
#[derive(Clone, Copy, Debug, PartialEq, Eq, Hash, Structural)]
pub enum Value {
    On,
    Off,
}

impl Circuit {
    /// Every structural index of the circuit addresses a slot of its value
    /// store, and every component's index lists agree with its behavior's
    /// arities.
    pub open spec fn wf(&self) -> bool {
        model::circuit_wf(self@)
    }

    /// An empty circuit with zero value slots.
    pub fn new() -> (r: Self)
        ensures
            r@.inputs.len() == 0,
            r@.outputs.len() == 0,
            r@.components.len() == 0,
            r@.value_list_len == 0,
            r.wf(),
            model::writers_disjoint(r@),
    {
        Self { inputs: Vec::new(), outputs: Vec::new(), components: Vec::new(), value_list_len: 0 }
    }

    /// Allocate one fresh value-store slot and append an input wrapping it.
    /// Returns the index of the new input and the index of its slot.
    pub fn add_input(&mut self) -> (r: (usize, usize))
        requires
            old(self).value_list_len < usize::MAX,
        ensures
            final(self)@.inputs == old(self)@.inputs.push(old(self).value_list_len),
            final(self)@.outputs == old(self)@.outputs,
            final(self)@.components == old(self)@.components,
            final(self)@.value_list_len == old(self)@.value_list_len + 1,
            r.0 == old(self)@.inputs.len(),
            r.1 == old(self)@.value_list_len,
            old(self).wf() ==> final(self).wf(),
            model::writers_disjoint(old(self)@) ==> model::writers_disjoint(final(self)@),
    {
        let value_index = self.value_list_len;
        self.value_list_len = self.value_list_len + 1;

        self.inputs.push(Input::new(value_index));
        let input_index = self.inputs.len() - 1;

        proof {
            assert(self@.inputs =~= old(self)@.inputs.push(value_index));
            if old(self).wf() {
                model::lemma_components_wf_mono(
                    old(self)@.components,
                    old(self).value_list_len,
                    self.value_list_len,
                );
            }
            if model::writers_disjoint(old(self)@) {
                model::lemma_writers_disjoint_same_components(old(self)@, self@);
            }
        }
        (input_index, value_index)
    }

    /// Append an output observing the existing slot `value_index`.  Returns
    /// the index of the new output.
    pub fn add_output(&mut self, value_index: usize) -> (r: usize)
        requires
            value_index < old(self).value_list_len,
        ensures
            final(self)@.inputs == old(self)@.inputs,
            final(self)@.outputs == old(self)@.outputs.push(value_index),
            final(self)@.components == old(self)@.components,
            final(self)@.value_list_len == old(self)@.value_list_len,
            r == old(self)@.outputs.len(),
            old(self).wf() ==> final(self).wf(),
            model::writers_disjoint(old(self)@) ==> model::writers_disjoint(final(self)@),
    {
        self.outputs.push(Output::new(value_index));
        let output_index = self.outputs.len() - 1;

        proof {
            assert(self@.outputs =~= old(self)@.outputs.push(value_index));
            if model::writers_disjoint(old(self)@) {
                model::lemma_writers_disjoint_same_components(old(self)@, self@);
            }
        }
        output_index
    }

    /// Append a component computing `function` from the listed input slots.
    /// Allocates the component's output slots and then its owned slots as
    /// fresh consecutive value-store indices.  Returns the index of the new
    /// component and the indices of its output slots.
    ///
    /// An input index may address any slot that exists once the fresh slots
    /// are allocated, so a component can feed its own output back as an
    /// input; the slots of later components do not exist yet and cannot be
    /// named.
    pub fn add_component(&mut self, function: Function, input_value_indices: Vec<usize>) -> (r: (
        usize,
        Vec<usize>,
    ))
        requires
            input_value_indices@.len() == model::function_input_count(function@),
            forall|i: int|
                0 <= i < input_value_indices@.len()
                    ==> ((#[trigger] input_value_indices@[i]) as int) < old(self).value_list_len
                    + model::function_output_count(function@) + model::function_owned_count(
                    function@,
                ),
            model::function_wf(function@),
            old(self).value_list_len + model::function_output_count(function@)
                + model::function_owned_count(function@) <= usize::MAX,
        ensures
            final(self)@.inputs == old(self)@.inputs,
            final(self)@.outputs == old(self)@.outputs,
            final(self)@.value_list_len == old(self)@.value_list_len
                + model::function_output_count(function@) + model::function_owned_count(function@),
            final(self)@.components == old(self)@.components.push(
                model::ComponentView {
                    inputs: input_value_indices@,
                    outputs: model::index_range(
                        old(self).value_list_len,
                        model::function_output_count(function@),
                    ),
                    owned: model::index_range(
                        (old(self).value_list_len + model::function_output_count(function@)) as usize,
                        model::function_owned_count(function@),
                    ),
                    function: function@,
                },
            ),
            r.0 == old(self)@.components.len(),
            r.1@ == model::index_range(
                old(self).value_list_len,
                model::function_output_count(function@),
            ),
            old(self).wf() ==> final(self).wf(),
            old(self).wf() && model::writers_disjoint(old(self)@) ==> model::writers_disjoint(
                final(self)@,
            ),
    {
        let output_value_start_index = self.value_list_len;
        let out_count = function.output_value_count();
        self.value_list_len = self.value_list_len + out_count;
        let output_value_indices = index_range_vec(output_value_start_index, out_count);

        let owned_value_start_index = self.value_list_len;
        let owned_count = function.owned_value_count();
        self.value_list_len = self.value_list_len + owned_count;
        let owned_value_indices = index_range_vec(owned_value_start_index, owned_count);

        let stored_output_indices = element::clone_index_list(&output_value_indices);
        let component = Component::new(
            function,
            input_value_indices,
            stored_output_indices,
            owned_value_indices,
        );
        let ghost component_model = component@;
        let ghost component_snapshot = component;
        let ghost prev_components = self.components@;
        self.components.push(component);
        let component_index = self.components.len() - 1;

        proof {
            model::lemma_components_view(prev_components);
            model::lemma_components_view_push(prev_components, component_snapshot);
            assert(self@.components =~~= old(self)@.components.push(component_model));
            if old(self).wf() {
                model::lemma_components_wf_mono(
                    old(self)@.components,
                    old(self).value_list_len,
                    self.value_list_len,
                );
                assert(model::in_range(component_model.outputs, self.value_list_len)) by {
                    assert(forall|i: int|
                        0 <= i < component_model.outputs.len()
                            ==> (#[trigger] component_model.outputs[i]) as int
                            == output_value_start_index + i);
                }
                assert(model::in_range(component_model.owned, self.value_list_len)) by {
                    assert(forall|i: int|
                        0 <= i < component_model.owned.len()
                            ==> (#[trigger] component_model.owned[i]) as int
                            == owned_value_start_index + i);
                }
                assert(model::component_wf(component_model, self.value_list_len));
                model::lemma_components_wf(old(self)@.components, self.value_list_len);
                model::lemma_components_wf(self@.components, self.value_list_len);
                assert forall|k: int| 0 <= k < self@.components.len() implies model::component_wf(
                    #[trigger] self@.components[k],
                    self.value_list_len,
                ) by {
                    if k < old(self)@.components.len() {
                        assert(self@.components[k] == old(self)@.components[k]);
                    } else {
                        assert(self@.components[k] == component_model);
                    }
                }
                if model::writers_disjoint(old(self)@) {
                    assert forall|i: int|
                        0 <= i < model::write_targets(component_model).len() implies (
                    #[trigger] model::write_targets(component_model)[i]) >= old(
                        self,
                    ).value_list_len by {
                        if i < component_model.outputs.len() {
                            assert(model::write_targets(component_model)[i]
                                == component_model.outputs[i]);
                        } else {
                            assert(model::write_targets(component_model)[i]
                                == component_model.owned[i - component_model.outputs.len()]);
                        }
                    }
                    model::lemma_writers_disjoint_push(old(self)@, self@, component_model);
                }
            }
        }
        (component_index, output_value_indices)
    }

    /// The input at `input_index`.
    pub fn input(&self, input_index: usize) -> (r: &Input)
        requires
            input_index < self@.inputs.len(),
        ensures
            r.value_index == self@.inputs[input_index as int],
    {
        &self.inputs[input_index]
    }

    /// The output at `output_index`.
    pub fn output(&self, output_index: usize) -> (r: &Output)
        requires
            output_index < self@.outputs.len(),
        ensures
            r.value_index == self@.outputs[output_index as int],
    {
        &self.outputs[output_index]
    }

    /// The component at `component_index`.
    pub fn component(&self, component_index: usize) -> (r: &Component)
        requires
            component_index < self@.components.len(),
        ensures
            r@ == self@.components[component_index as int],
    {
        proof {
            model::lemma_components_view(self.components@);
        }
        &self.components[component_index]
    }

    /// All inputs, in allocation order.
    pub fn all_inputs(&self) -> (r: &[Input])
        ensures
            r@ == self.inputs@,
            model::inputs_view(r@) == self@.inputs,
    {
        self.inputs.as_slice()
    }

    /// All outputs, in allocation order.
    pub fn all_outputs(&self) -> (r: &[Output])
        ensures
            r@ == self.outputs@,
            model::outputs_view(r@) == self@.outputs,
    {
        self.outputs.as_slice()
    }

    /// All components, in allocation order.
    pub fn all_components(&self) -> (r: &[Component])
        ensures
            r@ == self.components@,
            model::components_view(r@) == self@.components,
    {
        self.components.as_slice()
    }

    /// The total number of value-store slots allocated so far.
    pub fn value_list_len(&self) -> (r: usize)
        ensures
            r == self@.value_list_len,
    {
        self.value_list_len
    }
}

impl Clone for Circuit {
    fn clone(&self) -> (r: Self)
        ensures
            r@ == self@,
        decreases *self,
    {
        let mut inputs: Vec<Input> = Vec::new();
        for i in 0..self.inputs.len()
            invariant
                inputs@ == self.inputs@.subrange(0, i as int),
        {
            inputs.push(self.inputs[i]);
            proof {
                assert(inputs@ =~= self.inputs@.subrange(0, i as int + 1));
            }
        }

        let mut outputs: Vec<Output> = Vec::new();
        for i in 0..self.outputs.len()
            invariant
                outputs@ == self.outputs@.subrange(0, i as int),
        {
            outputs.push(self.outputs[i]);
            proof {
                assert(outputs@ =~= self.outputs@.subrange(0, i as int + 1));
            }
        }

        let mut components: Vec<Component> = Vec::new();
        for i in 0..self.components.len()
            invariant
                components@.len() == i,
                forall|j: int| 0 <= j < i ==> (#[trigger] components@[j])@ == self.components@[j]@,
        {
            let component = self.components[i].clone();
            components.push(component);
        }

        let r = Circuit { inputs, outputs, components, value_list_len: self.value_list_len };
        proof {
            assert(r.inputs@ =~= self.inputs@);
            assert(r.outputs@ =~= self.outputs@);
            assert(model::components_view(r.components@) =~= model::components_view(
                self.components@,
            ));
            assert(r@ =~= self@);
        }
        r
    }
}

/// The `count` consecutive value-store indices starting at `start`, as a
/// vector.
fn index_range_vec(start: usize, count: usize) -> (r: Vec<usize>)
    requires
        start + count <= usize::MAX,
    ensures
        r@ == model::index_range(start, count as int),
{
    let mut r: Vec<usize> = Vec::new();
    for i in 0..count
        invariant
            start + count <= usize::MAX,
            r@ == model::index_range(start, i as int),
    {
        r.push(start + i);
        proof {
            assert(r@ =~= model::index_range(start, i as int + 1));
        }
    }
    r
}

impl Value {
    /// The conjunction law as an operation: `On` exactly when both operands
    /// are `On`.
    pub fn and(self, rhs: Value) -> (r: Value)
        ensures
            r == val_and(self, rhs),
    {
        match (self, rhs) {
            (Value::On, Value::On) => Value::On,
            _ => Value::Off,
        }
    }

    /// The disjunction law as an operation: `Off` exactly when both operands
    /// are `Off`.
    pub fn or(self, rhs: Value) -> (r: Value)
        ensures
            r == val_or(self, rhs),
    {
        match (self, rhs) {
            (Value::Off, Value::Off) => Value::Off,
            _ => Value::On,
        }
    }

    /// The negation law as an operation: flips the value.
    pub fn not(self) -> (r: Value)
        ensures
            r == val_not(self),
    {
        match self {
            Value::On => Value::Off,
            Value::Off => Value::On,
        }
    }
}

/// The conjunction law: `On` exactly when both arguments are `On`.
pub open spec fn val_and(a: Value, b: Value) -> Value {
    if a == Value::On && b == Value::On {
        Value::On
    } else {
        Value::Off
    }
}

/// The disjunction law: `Off` exactly when both arguments are `Off`.
pub open spec fn val_or(a: Value, b: Value) -> Value {
    if a == Value::Off && b == Value::Off {
        Value::Off
    } else {
        Value::On
    }
}

/// The negation law: flips the value.
pub open spec fn val_not(a: Value) -> Value {
    if a == Value::On {
        Value::Off
    } else {
        Value::On
    }
}

impl vstd::std_specs::ops::BitAndSpecImpl for Value {
    open spec fn obeys_bitand_spec() -> bool {
        true
    }

    open spec fn bitand_req(self, rhs: Value) -> bool {
        true
    }

    open spec fn bitand_spec(self, rhs: Value) -> Self::Output {
        val_and(self, rhs)
    }
}

impl core::ops::BitAnd for Value {
    type Output = Value;

    fn bitand(self, rhs: Value) -> (r: Value)
        ensures
            r == val_and(self, rhs),
    {
        self.and(rhs)
    }
}

impl vstd::std_specs::ops::BitOrSpecImpl for Value {
    open spec fn obeys_bitor_spec() -> bool {
        true
    }

    open spec fn bitor_req(self, rhs: Value) -> bool {
        true
    }

    open spec fn bitor_spec(self, rhs: Value) -> Self::Output {
        val_or(self, rhs)
    }
}

impl core::ops::BitOr for Value {
    type Output = Value;

    fn bitor(self, rhs: Value) -> (r: Value)
        ensures
            r == val_or(self, rhs),
    {
        self.or(rhs)
    }
}

impl vstd::std_specs::ops::NotSpecImpl for Value {
    open spec fn obeys_not_spec() -> bool {
        true
    }

    open spec fn not_req(self) -> bool {
        true
    }

    open spec fn not_spec(self) -> Self::Output {
        val_not(self)
    }
}

impl core::ops::Not for Value {
    type Output = Value;

    fn not(self) -> (r: Value)
        ensures
            r == val_not(self),
    {
        Value::not(self)
    }
}

} // verus!
