//! The propagation engine: owns a circuit plus the live value store and the
//! worklist of changed value indices, and drives the network to a fixed
//! point or reports non-convergence.

use std::collections::VecDeque;

use vstd::prelude::*;

use crate::element::Output;
use crate::function::Function;
use crate::model;
use crate::model::SimState;
use crate::{Circuit, Value};

verus! {

/// The number of propagation steps a simulation run may take before it is
/// declared non-convergent.
pub const DEFAULT_STEP_CEILING: usize = 1000;

/// What `step` does with an output index whose value just changed.
///
/// The worklist policy is explicit configuration: `Always` appends every
/// changed index, permitting duplicate pending entries; `SkipIfPending`
/// appends a changed index only when it is not already pending, avoiding
/// duplicates.
#[derive(Clone, Copy, Debug, PartialEq, Eq, Structural)]
pub enum EnqueuePolicy {
    Always,
    SkipIfPending,
}

/// The propagation engine: a circuit, the live value store, the FIFO
/// worklist of changed value indices, and the instability configuration.
pub struct Simulator {
    pub circuit: Circuit,
    pub values: Vec<Value>,
    pub changed_values: VecDeque<usize>,
    pub steps_until_unstable: usize,
    pub enqueue_policy: EnqueuePolicy,
}

impl Simulator {
    /// The mathematical state driven by propagation: the value store and the
    /// worklist, front first.
    pub open spec fn st(&self) -> SimState {
        SimState { values: self.values@, pending: self.changed_values@ }
    }

    /// The circuit is well formed, the value store has one slot per
    /// allocated index, and the instability ceiling is positive.
    pub open spec fn wf(&self) -> bool {
        &&& self.circuit.wf()
        &&& self.values@.len() == self.circuit@.value_list_len
        &&& self.steps_until_unstable >= 1
    }

    /// A cold-started simulator with the default instability ceiling and
    /// worklist policy: every slot `Off` and every index pending.
    pub fn new(circuit: Circuit) -> (r: Self)
        requires
            circuit.wf(),
        ensures
            r.circuit == circuit,
            r.st() == model::init_state(circuit@),
            r.steps_until_unstable == DEFAULT_STEP_CEILING,
            r.enqueue_policy == EnqueuePolicy::Always,
            r.wf(),
    {
        Self::with_config(circuit, DEFAULT_STEP_CEILING, EnqueuePolicy::Always)
    }

    /// A cold-started simulator with an explicit instability ceiling and
    /// worklist policy.
    pub fn with_config(
        circuit: Circuit,
        steps_until_unstable: usize,
        enqueue_policy: EnqueuePolicy,
    ) -> (r: Self)
        requires
            circuit.wf(),
            steps_until_unstable >= 1,
        ensures
            r.circuit == circuit,
            r.st() == model::init_state(circuit@),
            r.steps_until_unstable == steps_until_unstable,
            r.enqueue_policy == enqueue_policy,
            r.wf(),
    {
        let n = circuit.value_list_len();
        let mut values: Vec<Value> = Vec::new();
        let mut changed_values: VecDeque<usize> = VecDeque::new();
        for i in 0..n
            invariant
                values@.len() == i,
                forall|j: int| 0 <= j < i ==> values@[j] == Value::Off,
                changed_values@.len() == i,
                forall|j: int| 0 <= j < i ==> changed_values@[j] == j as usize,
        {
            values.push(Value::Off);
            changed_values.push_back(i);
        }
        let r = Self { circuit, values, changed_values, steps_until_unstable, enqueue_policy };
        proof {
            assert(r.st().values =~= model::init_state(r.circuit@).values);
            assert(r.st().pending =~= model::init_state(r.circuit@).pending);
            assert(r.st() =~= model::init_state(r.circuit@));
        }
        r
    }

    /// Drive the input at `input_index`: when the new value differs from the
    /// stored one, overwrite the slot and append its index to the worklist;
    /// when it is unchanged, do nothing at all.
    pub fn set_input(&mut self, input_index: usize, value: Value)
        requires
            old(self).wf(),
            input_index < old(self).circuit@.inputs.len(),
        ensures
            final(self).wf(),
            final(self).circuit == old(self).circuit,
            final(self).steps_until_unstable == old(self).steps_until_unstable,
            final(self).enqueue_policy == old(self).enqueue_policy,
            final(self).st() == model::set_input_state(
                old(self).circuit@,
                old(self).st(),
                input_index as int,
                value,
            ),
            old(self).st().values[old(self).circuit@.inputs[input_index as int] as int] == value
                ==> final(self).st() == old(self).st(),
    {
        let value_index = self.circuit.input(input_index).value_index();

        if self.values[value_index] != value {
            self.values[value_index] = value;
            self.changed_values.push_back(value_index);
        }
        proof {
            assert(self.st() =~~= model::set_input_state(
                old(self).circuit@,
                old(self).st(),
                input_index as int,
                value,
            ));
        }
    }

    /// The stored value of the input at `input_index`.
    pub fn get_input_value(&mut self, input_index: usize) -> (r: Value)
        requires
            old(self).wf(),
            input_index < old(self).circuit@.inputs.len(),
        ensures
            *final(self) == *old(self),
            r == old(self).st().values[old(self).circuit@.inputs[input_index as int] as int],
    {
        let value_index = self.circuit.input(input_index).value_index();
        self.values[value_index]
    }

    /// The stored value observed by the output at `output_index`.
    pub fn get_output_value(&self, output_index: usize) -> (r: Value)
        requires
            self.wf(),
            output_index < self.circuit@.outputs.len(),
        ensures
            r == self.st().values[self.circuit@.outputs[output_index as int] as int],
    {
        let value_index = self.circuit.output(output_index).value_index();
        self.values[value_index]
    }

    /// Add an input to the circuit, grow the value store by one `Off` slot,
    /// and mark the new slot pending.
    pub fn add_input(&mut self) -> (r: (usize, usize))
        requires
            old(self).wf(),
            old(self).circuit.value_list_len < usize::MAX,
        ensures
            final(self).wf(),
            final(self).circuit@.inputs == old(self).circuit@.inputs.push(
                old(self).circuit@.value_list_len,
            ),
            final(self).circuit@.outputs == old(self).circuit@.outputs,
            final(self).circuit@.components == old(self).circuit@.components,
            final(self).circuit@.value_list_len == old(self).circuit@.value_list_len + 1,
            final(self).st().values == old(self).st().values.push(Value::Off),
            final(self).st().pending == old(self).st().pending.push(
                old(self).circuit@.value_list_len,
            ),
            final(self).steps_until_unstable == old(self).steps_until_unstable,
            final(self).enqueue_policy == old(self).enqueue_policy,
            r.0 == old(self).circuit@.inputs.len(),
            r.1 == old(self).circuit@.value_list_len,
            model::writers_disjoint(old(self).circuit@) ==> model::writers_disjoint(
                final(self).circuit@,
            ),
    {
        let (input_index, value_index) = self.circuit.add_input();
        self.values.push(Value::Off);
        self.changed_values.push_back(value_index);

        (input_index, value_index)
    }

    /// Add an output observing the existing slot `value_index`.
    pub fn add_output(&mut self, value_index: usize) -> (r: usize)
        requires
            old(self).wf(),
            value_index < old(self).circuit@.value_list_len,
        ensures
            final(self).wf(),
            final(self).circuit@.inputs == old(self).circuit@.inputs,
            final(self).circuit@.outputs == old(self).circuit@.outputs.push(value_index),
            final(self).circuit@.components == old(self).circuit@.components,
            final(self).circuit@.value_list_len == old(self).circuit@.value_list_len,
            final(self).st() == old(self).st(),
            final(self).steps_until_unstable == old(self).steps_until_unstable,
            final(self).enqueue_policy == old(self).enqueue_policy,
            r == old(self).circuit@.outputs.len(),
            model::writers_disjoint(old(self).circuit@) ==> model::writers_disjoint(
                final(self).circuit@,
            ),
    {
        self.circuit.add_output(value_index)
    }

    /// Add a component to the circuit and grow the value store with one
    /// `Off` slot for each of its fresh output and owned indices.  The fresh
    /// slots are not marked pending; they are recomputed when an input of
    /// the component changes.
    pub fn add_component(&mut self, function: Function, input_value_indices: Vec<usize>) -> (r: (
        usize,
        Vec<usize>,
    ))
        requires
            old(self).wf(),
            input_value_indices@.len() == model::function_input_count(function@),
            forall|i: int|
                0 <= i < input_value_indices@.len()
                    ==> ((#[trigger] input_value_indices@[i]) as int) < old(
                    self,
                ).circuit.value_list_len + model::function_output_count(function@)
                    + model::function_owned_count(function@),
            model::function_wf(function@),
            old(self).circuit.value_list_len + model::function_output_count(function@)
                + model::function_owned_count(function@) <= usize::MAX,
        ensures
            final(self).wf(),
            final(self).circuit@.inputs == old(self).circuit@.inputs,
            final(self).circuit@.outputs == old(self).circuit@.outputs,
            final(self).circuit@.value_list_len == old(self).circuit@.value_list_len
                + model::function_output_count(function@) + model::function_owned_count(function@),
            final(self).circuit@.components == old(self).circuit@.components.push(
                model::ComponentView {
                    inputs: input_value_indices@,
                    outputs: model::index_range(
                        old(self).circuit.value_list_len,
                        model::function_output_count(function@),
                    ),
                    owned: model::index_range(
                        (old(self).circuit.value_list_len + model::function_output_count(
                            function@,
                        )) as usize,
                        model::function_owned_count(function@),
                    ),
                    function: function@,
                },
            ),
            final(self).st().values.len() == final(self).circuit@.value_list_len,
            final(self).st().values.subrange(0, old(self).st().values.len() as int) == old(
                self,
            ).st().values,
            forall|i: int|
                old(self).st().values.len() <= i < final(self).st().values.len()
                    ==> final(self).st().values[i] == Value::Off,
            final(self).st().pending == old(self).st().pending,
            final(self).steps_until_unstable == old(self).steps_until_unstable,
            final(self).enqueue_policy == old(self).enqueue_policy,
            r.0 == old(self).circuit@.components.len(),
            r.1@ == model::index_range(
                old(self).circuit.value_list_len,
                model::function_output_count(function@),
            ),
            model::writers_disjoint(old(self).circuit@) ==> model::writers_disjoint(
                final(self).circuit@,
            ),
    {
        let (component_index, output_value_indices) = self.circuit.add_component(
            function,
            input_value_indices,
        );

        let ghost values_before = self.values@;
        let ghost circuit_after = self.circuit;
        let n = self.circuit.value_list_len();
        while self.values.len() < n
            invariant
                self.circuit == circuit_after,
                n == self.circuit@.value_list_len,
                self.changed_values@ == old(self).changed_values@,
                self.steps_until_unstable == old(self).steps_until_unstable,
                self.enqueue_policy == old(self).enqueue_policy,
                values_before.len() <= self.values@.len() <= n,
                self.values@.subrange(0, values_before.len() as int) == values_before,
                forall|i: int|
                    values_before.len() <= i < self.values@.len() ==> self.values@[i] == Value::Off,
            decreases n - self.values@.len(),
        {
            self.values.push(Value::Off);
            proof {
                assert(self.values@.subrange(0, values_before.len() as int) =~= values_before);
            }
        }

        (component_index, output_value_indices)
    }

    /// The owned circuit.
    pub fn circuit(&self) -> (r: &Circuit)
        ensures
            r == &self.circuit,
    {
        &self.circuit
    }

    /// The stored value observed by `output`.
    pub fn value_for_output(&self, output: &Output) -> (r: Value)
        requires
            (output.value_index as int) < self.st().values.len(),
        ensures
            r == self.st().values[output.value_index as int],
    {
        self.values[output.value_index()]
    }

    /// The whole value store.
    pub fn values(&self) -> (r: &[Value])
        ensures
            r@ == self.st().values,
    {
        self.values.as_slice()
    }

    /// The stored value of the slot `value`.
    pub fn value_for_index(&self, value: usize) -> (r: Value)
        requires
            (value as int) < self.st().values.len(),
        ensures
            r == self.st().values[value as int],
    {
        self.values[value]
    }

    /// One propagation step.  Pop the front of the worklist (no-op when it
    /// is empty) and react every component whose input list contains the
    /// popped index, in order: re-evaluate its behavior on the current
    /// stored values, unconditionally commit the returned owned values,
    /// write back only the output values that differ, and append each
    /// changed output index to the worklist according to the policy.
    #[verifier::loop_isolation(false)]
    pub fn step(&mut self)
        requires
            old(self).wf(),
        ensures
            final(self).wf(),
            final(self).circuit == old(self).circuit,
            final(self).steps_until_unstable == old(self).steps_until_unstable,
            final(self).enqueue_policy == old(self).enqueue_policy,
            final(self).st() == model::sim_step(
                old(self).circuit@,
                old(self).st(),
                old(self).enqueue_policy,
            ),
        decreases self.circuit@, 0nat,
    {
        let popped = self.changed_values.pop_front();
        match popped {
            None => {
                proof {
                    assert(self.st() =~~= model::sim_step(
                        old(self).circuit@,
                        old(self).st(),
                        old(self).enqueue_policy,
                    ));
                }
            },
            Some(value_to_check) => {
                let components_to_update = self.find_components_by_input(value_to_check);
                let ghost cv = self.circuit@;
                let ghost policy = self.enqueue_policy;
                let ghost st0 = self.st();
                let ghost todo = components_to_update@;

                proof {
                    assert(todo.skip(0) =~= todo);
                }
                for j in 0..components_to_update.len()
                    invariant
                        self.wf(),
                        self.circuit == old(self).circuit,
                        self.steps_until_unstable == old(self).steps_until_unstable,
                        self.enqueue_policy == old(self).enqueue_policy,
                        cv == self.circuit@,
                        policy == self.enqueue_policy,
                        components_to_update@ == todo,
                        forall|i: int|
                            0 <= i < todo.len() ==> ((#[trigger] todo[i]) as int)
                                < cv.components.len(),
                        model::apply_components(cv, todo, st0, policy) == model::apply_components(
                            cv,
                            todo.skip(j as int),
                            self.st(),
                            policy,
                        ),
                {
                    let component_index = components_to_update[j];
                    let ghost st_before = self.st();
                    let ghost comp = cv.components[component_index as int];

                    proof {
                        model::lemma_components_view(self.circuit.components@);
                        model::lemma_components_wf(cv.components, cv.value_list_len);
                        assert(model::component_wf(comp, cv.value_list_len));
                        model::lemma_component_wf_eval_req(comp, cv.value_list_len);
                    }

                    let input_idxs = crate::element::clone_index_list(
                        &self.circuit.components[component_index].input_value_indices,
                    );
                    let output_idxs = crate::element::clone_index_list(
                        &self.circuit.components[component_index].output_value_indices,
                    );
                    let owned_idxs = crate::element::clone_index_list(
                        &self.circuit.components[component_index].owned_value_indices,
                    );

                    let input_values = gather_values(&self.values, &input_idxs);
                    let old_output_values = gather_values(&self.values, &output_idxs);
                    let owned_values = gather_values(&self.values, &owned_idxs);

                    let ghost eval_r = model::eval_function(
                        comp.function,
                        input_values@,
                        owned_values@,
                    );
                    proof {
                        model::lemma_eval_function_lens(comp.function, input_values@, owned_values@);
                        assert(decreases_to!(cv => cv.components));
                        assert(decreases_to!(cv.components => cv.components[component_index as int]));
                        assert(decreases_to!(comp => comp.function));
                    }
                    let (new_output_values, new_owned_values) = self.circuit.components[
                        component_index
                    ].function.evaluate(input_values.as_slice(), owned_values.as_slice());

                    let ghost values_mid0 = self.values@;
                    for i in 0..owned_idxs.len()
                        invariant
                            self.circuit == old(self).circuit,
                            self.steps_until_unstable == old(self).steps_until_unstable,
                            self.enqueue_policy == old(self).enqueue_policy,
                            self.changed_values@ == st_before.pending,
                            self.values@.len() == values_mid0.len(),
                            model::write_list(values_mid0, owned_idxs@, new_owned_values@, 0)
                                == model::write_list(
                                self.values@,
                                owned_idxs@,
                                new_owned_values@,
                                i as int,
                            ),
                    {
                        let idx = owned_idxs[i];
                        self.values[idx] = new_owned_values[i];
                    }

                    let ghost st_mid = SimState {
                        values: self.values@,
                        pending: st_before.pending,
                    };
                    for i in 0..output_idxs.len()
                        invariant
                            self.circuit == old(self).circuit,
                            self.steps_until_unstable == old(self).steps_until_unstable,
                            self.enqueue_policy == old(self).enqueue_policy,
                            self.values@.len() == values_mid0.len(),
                            model::commit_outputs(
                                output_idxs@,
                                old_output_values@,
                                new_output_values@,
                                st_mid,
                                policy,
                                0,
                            ) == model::commit_outputs(
                                output_idxs@,
                                old_output_values@,
                                new_output_values@,
                                self.st(),
                                policy,
                                i as int,
                            ),
                    {
                        let idx = output_idxs[i];
                        if old_output_values[i] != new_output_values[i] {
                            self.values[idx] = new_output_values[i];
                            match self.enqueue_policy {
                                EnqueuePolicy::Always => {
                                    self.changed_values.push_back(idx);
                                },
                                EnqueuePolicy::SkipIfPending => {
                                    if !deque_contains(&self.changed_values, idx) {
                                        self.changed_values.push_back(idx);
                                    }
                                },
                            }
                        }
                    }

                    proof {
                        assert(self.st() == model::apply_component(
                            cv,
                            component_index as int,
                            st_before,
                            policy,
                        )) by {
                            let values1 = model::write_list(
                                st_before.values,
                                comp.owned,
                                eval_r.1,
                                0,
                            );
                            assert(values1 == st_mid.values);
                            assert((SimState { values: values1, pending: st_before.pending })
                                =~= st_mid);
                        }
                        assert(todo.skip(j as int)[0] == todo[j as int]);
                        assert(todo.skip(j as int).drop_first() =~= todo.skip(j as int + 1));
                    }
                }
                proof {
                    assert(todo.skip(todo.len() as int) =~= Seq::<usize>::empty());
                    assert(old(self).st().pending.len() > 0);
                    assert((SimState {
                        values: old(self).st().values,
                        pending: old(self).st().pending.drop_first(),
                    }) =~= st0) by {
                        assert(old(self).st().pending.drop_first() =~= st0.pending);
                    }
                    assert(self.st() == model::sim_step(
                        old(self).circuit@,
                        old(self).st(),
                        old(self).enqueue_policy,
                    ));
                }
            },
        }
    }

    /// Run propagation steps until the worklist drains, counting them: when
    /// the count would exceed the instability ceiling with work still
    /// pending, report non-convergence by returning `false`; otherwise
    /// return `true` once the worklist is empty (quiescence).
    #[verifier::loop_isolation(false)]
    pub fn simulate(&mut self) -> (r: bool)
        requires
            old(self).wf(),
        ensures
            final(self).wf(),
            final(self).circuit == old(self).circuit,
            final(self).steps_until_unstable == old(self).steps_until_unstable,
            final(self).enqueue_policy == old(self).enqueue_policy,
            r == model::sim_run(
                old(self).circuit@,
                old(self).st(),
                old(self).steps_until_unstable as nat,
                old(self).enqueue_policy,
            ).0,
            final(self).st() == model::sim_run(
                old(self).circuit@,
                old(self).st(),
                old(self).steps_until_unstable as nat,
                old(self).enqueue_policy,
            ).1,
            r ==> final(self).st().pending.len() == 0,
        decreases self.circuit@, 1nat,
    {
        let ghost cv = self.circuit@;
        let ghost policy = self.enqueue_policy;
        let ghost ceiling = self.steps_until_unstable;
        let ghost st_init = self.st();

        let mut step_count: usize = 0;

        while self.changed_values.len() != 0
            invariant
                self.wf(),
                self.circuit == old(self).circuit,
                self.steps_until_unstable == old(self).steps_until_unstable,
                self.enqueue_policy == old(self).enqueue_policy,
                step_count <= ceiling,
                model::sim_run(cv, st_init, ceiling as nat, policy) == model::sim_run(
                    cv,
                    self.st(),
                    (ceiling - step_count) as nat,
                    policy,
                ),
            decreases ceiling + 1 - step_count,
        {
            if step_count == self.steps_until_unstable {
                return false;
            }
            step_count = step_count + 1;

            let ghost st_pre = self.st();
            self.step();
            proof {
                assert(st_pre.pending.len() > 0);
                assert(model::sim_run(cv, st_pre, (ceiling - step_count + 1) as nat, policy)
                    == model::sim_run(cv, self.st(), (ceiling - step_count) as nat, policy));
            }
        }

        true
    }

    /// The indices of the components whose input lists contain
    /// `input_value_index`, in ascending order.
    fn find_components_by_input(&self, input_value_index: usize) -> (r: Vec<usize>)
        ensures
            r@ == model::matching_components(self.circuit@, input_value_index, 0),
            forall|i: int|
                0 <= i < r@.len() ==> ((#[trigger] r@[i]) as int) < self.circuit@.components.len(),
    {
        proof {
            model::lemma_components_view(self.circuit.components@);
        }
        let ghost cv = self.circuit@;
        let mut r: Vec<usize> = Vec::new();
        let n = self.circuit.components.len();
        for k in 0..n
            invariant
                n == cv.components.len(),
                cv == self.circuit@,
                model::matching_components(cv, input_value_index, 0) == r@
                    + model::matching_components(cv, input_value_index, k as int),
                forall|i: int| 0 <= i < r@.len() ==> ((#[trigger] r@[i]) as int) < cv.components.len(),
        {
            proof {
                model::lemma_components_view(self.circuit.components@);
            }
            let ghost r_before = r@;
            if contains_index(&self.circuit.components[k].input_value_indices, input_value_index) {
                r.push(k);
            }
            proof {
                assert(r_before + model::matching_components(cv, input_value_index, k as int) == r@
                    + model::matching_components(cv, input_value_index, k as int + 1)) by {
                    if cv.components[k as int].inputs.contains(input_value_index) {
                        assert((r_before + (seq![k as usize] + model::matching_components(
                            cv,
                            input_value_index,
                            k as int + 1,
                        ))) =~= (r_before.push(k as usize) + model::matching_components(
                            cv,
                            input_value_index,
                            k as int + 1,
                        )));
                    }
                }
            }
        }
        proof {
            assert(model::matching_components(cv, input_value_index, n as int) =~= Seq::empty());
            assert(r@ + Seq::empty() =~= r@);
        }
        r
    }
}

/// Whether an index list contains `x`.
fn contains_index(v: &Vec<usize>, x: usize) -> (r: bool)
    ensures
        r == v@.contains(x),
{
    for i in 0..v.len()
        invariant
            forall|j: int| 0 <= j < i ==> v@[j] != x,
    {
        if v[i] == x {
            proof {
                assert(v@[i as int] == x);
            }
            return true;
        }
    }
    false
}

/// Whether the worklist contains `x`.
fn deque_contains(q: &VecDeque<usize>, x: usize) -> (r: bool)
    ensures
        r == q@.contains(x),
{
    for i in 0..q.len()
        invariant
            forall|j: int| 0 <= j < i ==> q@[j] != x,
    {
        if q[i] == x {
            proof {
                assert(q@[i as int] == x);
            }
            return true;
        }
    }
    false
}

/// Read the listed slots of the value store, in order.
fn gather_values(values: &Vec<Value>, idxs: &Vec<usize>) -> (r: Vec<Value>)
    requires
        forall|i: int| 0 <= i < idxs@.len() ==> ((#[trigger] idxs@[i]) as int) < values@.len(),
    ensures
        r@ == model::gather(values@, idxs@),
{
    let mut r: Vec<Value> = Vec::new();
    for i in 0..idxs.len()
        invariant
            forall|j: int| 0 <= j < idxs@.len() ==> ((#[trigger] idxs@[j]) as int) < values@.len(),
            r@.len() == i,
            forall|j: int| 0 <= j < i ==> r@[j] == values@[idxs@[j] as int],
    {
        r.push(values[idxs[i]]);
    }
    proof {
        assert(r@ =~= model::gather(values@, idxs@));
    }
    r
}

} // verus!
