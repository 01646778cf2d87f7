//! The behavior attached to a component: pure combinational gates,
//! edge-triggered sequential elements, or an embedded sub-circuit.

use vstd::prelude::*;

use crate::model;
use crate::simulator::{EnqueuePolicy, Simulator, DEFAULT_STEP_CEILING};
use crate::{Circuit, Value};

verus! {

/// The closed set of component behaviors.
///
/// Gates are stateless; flip-flops keep their persisted state and the last
/// observed clock sample in owned value slots; the `Circuit` variant embeds a
/// whole sub-network that is re-simulated from a cold state on every
/// evaluation (it declares no owned slots, so nested sequential elements do
/// not keep history across calls).
#[derive(Debug)]
pub enum Function {
    And,
    Or,
    Not,
    Nand,
    Nor,
    Circuit(Circuit),
    FlipFlopRS,
    FlipFlopJK,
    FlipFlopD,
    FlipFlopT,
}

impl Function {
    /// Evaluate the behavior on the given input values and carried-in owned
    /// values: a pure function of its two argument slices.  Returns the
    /// output values and the new owned values.
    ///
    /// Gates fold their law over the whole input slice and own no state.
    /// Flip-flops return their new owned pair `[state, clock sample]` on
    /// every call, so state persists even without an edge.  An embedded
    /// sub-circuit is simulated from a cold state on a fresh, independent
    /// value store: the first input slots are driven positionally from
    /// `input_values`, propagation runs with the default ceiling and policy,
    /// and one value per sub-circuit output is read back in declaration
    /// order.
    #[verifier::loop_isolation(false)]
    #[verifier::rlimit(50)]
    pub fn evaluate(&self, input_values: &[Value], owned_values: &[Value]) -> (r: (
        Vec<Value>,
        Vec<Value>,
    ))
        requires
            model::function_wf(self@),
            model::eval_req(self@, input_values@.len() as int, owned_values@.len() as int),
        ensures
            r.0@ == model::eval_function(self@, input_values@, owned_values@).0,
            r.1@ == model::eval_function(self@, input_values@, owned_values@).1,
        decreases self@, 0nat,
    {
        match self {
            Function::And => (singleton_value(fold_and(input_values)), Vec::new()),
            Function::Or => (singleton_value(fold_or(input_values)), Vec::new()),
            Function::Not => (singleton_value(input_values[0].not()), Vec::new()),
            Function::Nand => (singleton_value(fold_and(input_values).not()), Vec::new()),
            Function::Nor => (singleton_value(fold_or(input_values).not()), Vec::new()),
            Function::Circuit(circuit) => {
                let ghost cv = circuit@;
                let ghost st_init = model::init_state(cv);
                let mut simulator = Simulator::new(circuit.clone());

                for i in 0..input_values.len()
                    invariant
                        simulator.wf(),
                        simulator.circuit@ == cv,
                        simulator.steps_until_unstable == DEFAULT_STEP_CEILING,
                        simulator.enqueue_policy == EnqueuePolicy::Always,
                        input_values@.len() <= cv.inputs.len(),
                        model::set_inputs_state(cv, st_init, input_values@, 0)
                            == model::set_inputs_state(cv, simulator.st(), input_values@, i as int),
                {
                    simulator.set_input(i, input_values[i]);
                }

                simulator.simulate();
                let ghost st_final = model::sim_run(
                    cv,
                    model::set_inputs_state(cv, st_init, input_values@, 0),
                    DEFAULT_STEP_CEILING as nat,
                    EnqueuePolicy::Always,
                ).1;
                proof {
                    assert(simulator.st() == st_final);
                }

                let mut values: Vec<Value> = Vec::new();
                for k in 0..circuit.outputs.len()
                    invariant
                        simulator.wf(),
                        simulator.circuit@ == cv,
                        simulator.st() == st_final,
                        values@.len() == k,
                        forall|j: int|
                            0 <= j < k ==> values@[j] == st_final.values[cv.outputs[j] as int],
                {
                    let out = circuit.outputs[k];
                    proof {
                        assert(model::circuit_wf(cv));
                        assert(out.value_index == cv.outputs[k as int]);
                        assert(cv.outputs[k as int] < cv.value_list_len);
                    }
                    values.push(simulator.value_for_index(out.value_index));
                }
                proof {
                    assert(values@ =~= model::gather(st_final.values, cv.outputs));
                }
                (values, Vec::new())
            },
            Function::FlipFlopRS => match (input_values[0], input_values[1]) {
                (Value::On, Value::On) => (
                    pair_value(Value::Off, Value::Off),
                    clone_values(owned_values),
                ),
                (Value::Off, Value::Off) => (
                    pair_value(owned_values[0], owned_values[0].not()),
                    clone_values(owned_values),
                ),
                _ => {
                    let set_value = input_values[0];
                    (pair_value(set_value, set_value.not()), singleton_value(set_value))
                },
            },
            Function::FlipFlopJK => {
                if is_positiv_transient(owned_values[1], input_values[2]) {
                    let value = match (input_values[0], input_values[1]) {
                        (Value::On, Value::On) => owned_values[0].not(),
                        (Value::On, Value::Off) => Value::On,
                        (Value::Off, Value::On) => Value::Off,
                        (Value::Off, Value::Off) => owned_values[0],
                    };
                    (pair_value(value, value.not()), pair_value(value, input_values[2]))
                } else {
                    (
                        pair_value(owned_values[0], owned_values[0].not()),
                        pair_value(owned_values[0], input_values[2]),
                    )
                }
            },
            Function::FlipFlopD => {
                if is_positiv_transient(owned_values[1], input_values[1]) {
                    (
                        pair_value(input_values[0], input_values[0].not()),
                        pair_value(input_values[0], input_values[1]),
                    )
                } else {
                    (
                        pair_value(owned_values[0], owned_values[0].not()),
                        pair_value(owned_values[0], input_values[1]),
                    )
                }
            },
            Function::FlipFlopT => {
                if is_positiv_transient(owned_values[1], input_values[1]) && input_values[0]
                    == Value::On {
                    (
                        pair_value(owned_values[0].not(), owned_values[0]),
                        pair_value(owned_values[0].not(), input_values[1]),
                    )
                } else {
                    (
                        pair_value(owned_values[0], owned_values[0].not()),
                        pair_value(owned_values[0], input_values[1]),
                    )
                }
            },
        }
    }

    /// How many input wires this behavior reads.
    pub fn input_value_count(&self) -> (r: usize)
        ensures
            r as int == model::function_input_count(self@),
    {
        match self {
            Function::And => 2,
            Function::Or => 2,
            Function::Not => 1,
            Function::Nand => 2,
            Function::Nor => 2,
            Function::Circuit(circuit) => circuit.inputs.len(),
            Function::FlipFlopRS => 2,
            Function::FlipFlopJK => 3,
            Function::FlipFlopD => 2,
            Function::FlipFlopT => 2,
        }
    }

    /// How many output wires this behavior drives.
    pub fn output_value_count(&self) -> (r: usize)
        ensures
            r as int == model::function_output_count(self@),
    {
        match self {
            Function::And => 1,
            Function::Or => 1,
            Function::Not => 1,
            Function::Nand => 1,
            Function::Nor => 1,
            Function::Circuit(circuit) => circuit.outputs.len(),
            Function::FlipFlopRS => 2,
            Function::FlipFlopJK => 2,
            Function::FlipFlopD => 2,
            Function::FlipFlopT => 2,
        }
    }

    /// How many private state slots this behavior owns.
    pub fn owned_value_count(&self) -> (r: usize)
        ensures
            r as int == model::function_owned_count(self@),
    {
        match self {
            Function::And => 0,
            Function::Or => 0,
            Function::Not => 0,
            Function::Nand => 0,
            Function::Nor => 0,
            Function::Circuit(_) => 0,
            Function::FlipFlopRS => 1,
            Function::FlipFlopJK => 2,
            Function::FlipFlopD => 2,
            Function::FlipFlopT => 2,
        }
    }

    /// A human-readable name for the variant, used for listings, not parsed.
    pub fn name(&self) -> (r: &'static str)
        ensures
            r@ == model::function_name(self@),
    {
        match self {
            Function::And => "And",
            Function::Or => "Or",
            Function::Not => "Not",
            Function::Nand => "Nand",
            Function::Nor => "Nor",
            Function::Circuit(_) => "Circuit",
            Function::FlipFlopRS => "FlipFlopRS",
            Function::FlipFlopJK => "FlipFlopJK",
            Function::FlipFlopD => "FlipFlopD",
            Function::FlipFlopT => "FlipFlopT",
        }
    }
}

impl Clone for Function {
    fn clone(&self) -> (r: Self)
        ensures
            r@ == self@,
        decreases *self,
    {
        match self {
            Function::And => Function::And,
            Function::Or => Function::Or,
            Function::Not => Function::Not,
            Function::Nand => Function::Nand,
            Function::Nor => Function::Nor,
            Function::Circuit(circuit) => Function::Circuit(circuit.clone()),
            Function::FlipFlopRS => Function::FlipFlopRS,
            Function::FlipFlopJK => Function::FlipFlopJK,
            Function::FlipFlopD => Function::FlipFlopD,
            Function::FlipFlopT => Function::FlipFlopT,
        }
    }
}

/// A transition is a positive edge exactly when the previous clock sample
/// differs from the new one and the new one is `On`.
fn is_positiv_transient(old_value: Value, new_value: Value) -> (r: bool)
    ensures
        r == model::spec_positive_edge(old_value, new_value),
{
    old_value != new_value && new_value == Value::On
}

/// Fold the conjunction law over the slice, starting from its identity `On`.
fn fold_and(input_values: &[Value]) -> (r: Value)
    ensures
        r == model::seq_and(input_values@),
{
    let mut acc = Value::On;
    for i in 0..input_values.len()
        invariant
            acc == model::seq_and(input_values@.subrange(0, i as int)),
    {
        proof {
            model::lemma_seq_and_push(
                input_values@.subrange(0, i as int),
                input_values@[i as int],
            );
            assert(input_values@.subrange(0, i as int + 1) =~= input_values@.subrange(
                0,
                i as int,
            ).push(input_values@[i as int]));
        }
        acc = acc.and(input_values[i]);
    }
    proof {
        assert(input_values@.subrange(0, input_values@.len() as int) =~= input_values@);
    }
    acc
}

/// Fold the disjunction law over the slice, starting from its identity `Off`.
fn fold_or(input_values: &[Value]) -> (r: Value)
    ensures
        r == model::seq_or(input_values@),
{
    let mut acc = Value::Off;
    for i in 0..input_values.len()
        invariant
            acc == model::seq_or(input_values@.subrange(0, i as int)),
    {
        proof {
            model::lemma_seq_or_push(input_values@.subrange(0, i as int), input_values@[i as int]);
            assert(input_values@.subrange(0, i as int + 1) =~= input_values@.subrange(
                0,
                i as int,
            ).push(input_values@[i as int]));
        }
        acc = acc.or(input_values[i]);
    }
    proof {
        assert(input_values@.subrange(0, input_values@.len() as int) =~= input_values@);
    }
    acc
}

/// A one-element vector.
fn singleton_value(a: Value) -> (r: Vec<Value>)
    ensures
        r@ == seq![a],
{
    let mut r: Vec<Value> = Vec::new();
    r.push(a);
    proof {
        assert(r@ =~= seq![a]);
    }
    r
}

/// A two-element vector.
fn pair_value(a: Value, b: Value) -> (r: Vec<Value>)
    ensures
        r@ == seq![a, b],
{
    let mut r: Vec<Value> = Vec::new();
    r.push(a);
    r.push(b);
    proof {
        assert(r@ =~= seq![a, b]);
    }
    r
}

/// An element-for-element copy of a value slice.
fn clone_values(v: &[Value]) -> (r: Vec<Value>)
    ensures
        r@ == v@,
{
    let mut r: Vec<Value> = Vec::new();
    for i in 0..v.len()
        invariant
            r@ == v@.subrange(0, i as int),
    {
        r.push(v[i]);
        proof {
            assert(r@ =~= v@.subrange(0, i as int + 1));
        }
    }
    proof {
        assert(r@ =~= v@);
    }
    r
}

} // verus!
