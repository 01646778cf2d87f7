//! The laws the library guarantees, stated and proved against the
//! mathematical model in [`crate::model`].

use vstd::prelude::*;

use crate::model::{
    eval_function, init_state, matching_components, set_input_state, sim_run, sim_step,
    spec_positive_edge, CircuitView, ComponentView, FunctionView, SimState,
};
use crate::simulator::EnqueuePolicy;
use crate::{val_and, val_not, val_or, Value};

verus! {

/// The two-element sequence `[a, b]` is all-`On` exactly when both are `On`.
proof fn lemma_seq_and_pair(a: Value, b: Value)
    ensures
        crate::model::seq_and(seq![a, b]) == val_and(a, b),
{
    if a == Value::On && b == Value::On {
        assert forall|i: int| 0 <= i < 2 implies seq![a, b][i] == Value::On by {}
    } else if a != Value::On {
        assert(seq![a, b][0] != Value::On);
    } else {
        assert(seq![a, b][1] != Value::On);
    }
}

/// The two-element sequence `[a, b]` has an `On` exactly when one of the two
/// is `On`.
proof fn lemma_seq_or_pair(a: Value, b: Value)
    ensures
        crate::model::seq_or(seq![a, b]) == val_or(a, b),
{
    if a == Value::On {
        assert(seq![a, b][0] == Value::On);
    } else if b == Value::On {
        assert(seq![a, b][1] == Value::On);
    } else {
        assert forall|i: int| 0 <= i < 2 implies seq![a, b][i] != Value::On by {}
    }
}

/// Gate truth tables: on every input combination, the two-input gates and
/// `Not` evaluate exactly to their boolean laws, and none of them produces
/// owned state.
pub proof fn lemma_gate_truth_tables(a: Value, b: Value)
    ensures
        eval_function(FunctionView::And, seq![a, b], Seq::empty()).0 == seq![val_and(a, b)],
        eval_function(FunctionView::Or, seq![a, b], Seq::empty()).0 == seq![val_or(a, b)],
        eval_function(FunctionView::Nand, seq![a, b], Seq::empty()).0 == seq![
            val_not(val_and(a, b)),
        ],
        eval_function(FunctionView::Nor, seq![a, b], Seq::empty()).0 == seq![
            val_not(val_or(a, b)),
        ],
        eval_function(FunctionView::Not, seq![a], Seq::empty()).0 == seq![val_not(a)],
        eval_function(FunctionView::And, seq![a, b], Seq::empty()).1 == Seq::<Value>::empty(),
        eval_function(FunctionView::Or, seq![a, b], Seq::empty()).1 == Seq::<Value>::empty(),
        eval_function(FunctionView::Nand, seq![a, b], Seq::empty()).1 == Seq::<Value>::empty(),
        eval_function(FunctionView::Nor, seq![a, b], Seq::empty()).1 == Seq::<Value>::empty(),
        eval_function(FunctionView::Not, seq![a], Seq::empty()).1 == Seq::<Value>::empty(),
{
    lemma_seq_and_pair(a, b);
    lemma_seq_or_pair(a, b);
}

/// Idempotence of driving an input: setting an input to its stored value
/// changes neither the value store nor the worklist, so any simulation run
/// from there gives the same verdict and the same final state.
pub proof fn lemma_set_input_idempotent(
    cv: CircuitView,
    st: SimState,
    input_index: int,
    fuel: nat,
    policy: EnqueuePolicy,
)
    requires
        0 <= input_index < cv.inputs.len(),
    ensures
        set_input_state(cv, st, input_index, st.values[cv.inputs[input_index] as int]) == st,
        sim_run(
            cv,
            set_input_state(cv, st, input_index, st.values[cv.inputs[input_index] as int]),
            fuel,
            policy,
        ) == sim_run(cv, st, fuel, policy),
{
}

/// Quiescence: when a run converges, its final worklist is empty, a further
/// step changes nothing, and a further run of any fuel converges at once
/// with the same values.
pub proof fn lemma_quiescence(cv: CircuitView, st: SimState, fuel: nat, policy: EnqueuePolicy)
    requires
        sim_run(cv, st, fuel, policy).0,
    ensures
        sim_run(cv, st, fuel, policy).1.pending.len() == 0,
        sim_step(cv, sim_run(cv, st, fuel, policy).1, policy) == sim_run(cv, st, fuel, policy).1,
        forall|fuel2: nat|
            sim_run(cv, #[trigger] sim_run(cv, st, fuel, policy).1, fuel2, policy) == (
                true,
                sim_run(cv, st, fuel, policy).1,
            ),
    decreases fuel,
{
    if st.pending.len() == 0 {
    } else if fuel > 0 {
        lemma_quiescence(cv, sim_step(cv, st, policy), (fuel - 1) as nat, policy);
    }
}

/// Membership in the matching list: a component whose input list contains
/// the index is listed, from any starting position at or before it.
proof fn lemma_matching_components_contains(cv: CircuitView, v: usize, k: int, j: int)
    requires
        0 <= k <= j < cv.components.len(),
        cv.components[j].inputs.contains(v),
    ensures
        matching_components(cv, v, k).contains(j as usize),
    decreases j - k,
{
    if k == j {
        assert(matching_components(cv, v, k)[0] == j as usize);
    } else {
        lemma_matching_components_contains(cv, v, k + 1, j);
        let rest = matching_components(cv, v, k + 1);
        let i = choose|i: int| 0 <= i < rest.len() && rest[i] == j as usize;
        if cv.components[k].inputs.contains(v) {
            assert(matching_components(cv, v, k)[i + 1] == j as usize);
        }
    }
}

/// Fan-out consistency: one pending value index referenced as input by two
/// components schedules both for re-evaluation in the step that pops it.
pub proof fn lemma_fan_out(cv: CircuitView, v: usize, j1: int, j2: int)
    requires
        0 <= j1 < cv.components.len(),
        0 <= j2 < cv.components.len(),
        cv.components[j1].inputs.contains(v),
        cv.components[j2].inputs.contains(v),
    ensures
        matching_components(cv, v, 0).contains(j1 as usize),
        matching_components(cv, v, 0).contains(j2 as usize),
{
    lemma_matching_components_contains(cv, v, 0, j1);
    lemma_matching_components_contains(cv, v, 0, j2);
}

/// Edge-triggered flip-flop law for `FlipFlopD`: the state adopts the data
/// input exactly on a positive clock edge and holds otherwise; the outputs
/// are the state and its complement; the new clock sample is always stored.
pub proof fn lemma_flip_flop_d_edge(s: Value, last_clock: Value, d: Value, clock: Value)
    ensures
        spec_positive_edge(last_clock, clock) ==> eval_function(
            FunctionView::FlipFlopD,
            seq![d, clock],
            seq![s, last_clock],
        ) == (seq![d, val_not(d)], seq![d, clock]),
        !spec_positive_edge(last_clock, clock) ==> eval_function(
            FunctionView::FlipFlopD,
            seq![d, clock],
            seq![s, last_clock],
        ) == (seq![s, val_not(s)], seq![s, clock]),
{
}

/// Edge-triggered flip-flop law for `FlipFlopT`: the state toggles exactly
/// when T is `On` at a positive clock edge, and holds otherwise.
pub proof fn lemma_flip_flop_t_edge(s: Value, last_clock: Value, t: Value, clock: Value)
    ensures
        spec_positive_edge(last_clock, clock) && t == Value::On ==> eval_function(
            FunctionView::FlipFlopT,
            seq![t, clock],
            seq![s, last_clock],
        ).1 == seq![val_not(s), clock],
        !(spec_positive_edge(last_clock, clock) && t == Value::On) ==> eval_function(
            FunctionView::FlipFlopT,
            seq![t, clock],
            seq![s, last_clock],
        ).1 == seq![s, clock],
{
}

/// Edge-triggered flip-flop law for `FlipFlopJK` with both lines asserted:
/// the state toggles at each positive clock edge and holds off-edge.
pub proof fn lemma_flip_flop_jk_toggle(s: Value, last_clock: Value, clock: Value)
    ensures
        spec_positive_edge(last_clock, clock) ==> eval_function(
            FunctionView::FlipFlopJK,
            seq![Value::On, Value::On, clock],
            seq![s, last_clock],
        ).1 == seq![val_not(s), clock],
        !spec_positive_edge(last_clock, clock) ==> eval_function(
            FunctionView::FlipFlopJK,
            seq![Value::On, Value::On, clock],
            seq![s, last_clock],
        ).1 == seq![s, clock],
{
}

/// The owned pair of a `FlipFlopD` after a run of evaluation calls feeding
/// the listed `(data, clock)` samples in order, starting from `owned`.
pub open spec fn d_flip_flop_history(owned: Seq<Value>, samples: Seq<(Value, Value)>) -> Seq<Value>
    decreases samples.len(),
{
    if samples.len() == 0 {
        owned
    } else {
        d_flip_flop_history(
            eval_function(
                FunctionView::FlipFlopD,
                seq![samples[0].0, samples[0].1],
                owned,
            ).1,
            samples.drop_first(),
        )
    }
}

/// No call in the run presents a positive clock edge, starting from the
/// stored sample `last_clock`.
pub open spec fn no_positive_edge(last_clock: Value, samples: Seq<(Value, Value)>) -> bool
    decreases samples.len(),
{
    samples.len() == 0 || (!spec_positive_edge(last_clock, samples[0].1) && no_positive_edge(
        samples[0].1,
        samples.drop_first(),
    ))
}

/// Edge-triggered flip-flop law for `FlipFlopD`, over whole clock histories:
/// however many calls occur, if none presents a positive clock edge the
/// stored state is held unchanged.
pub proof fn lemma_flip_flop_d_holds_without_edge(owned: Seq<Value>, samples: Seq<(Value, Value)>)
    requires
        owned.len() == 2,
        no_positive_edge(owned[1], samples),
    ensures
        d_flip_flop_history(owned, samples).len() == 2,
        d_flip_flop_history(owned, samples)[0] == owned[0],
    decreases samples.len(),
{
    if samples.len() > 0 {
        let next = eval_function(
            FunctionView::FlipFlopD,
            seq![samples[0].0, samples[0].1],
            owned,
        ).1;
        assert(next == seq![owned[0], samples[0].1]);
        lemma_flip_flop_d_holds_without_edge(next, samples.drop_first());
    }
}

/// The owned pair of a `FlipFlopT` after a run of evaluation calls feeding
/// the listed `(toggle, clock)` samples in order, starting from `owned`.
pub open spec fn t_flip_flop_history(owned: Seq<Value>, samples: Seq<(Value, Value)>) -> Seq<Value>
    decreases samples.len(),
{
    if samples.len() == 0 {
        owned
    } else {
        t_flip_flop_history(
            eval_function(
                FunctionView::FlipFlopT,
                seq![samples[0].0, samples[0].1],
                owned,
            ).1,
            samples.drop_first(),
        )
    }
}

/// Edge-triggered flip-flop law for `FlipFlopT`, over whole clock histories:
/// however many calls occur, if none presents a positive clock edge the
/// stored state is held unchanged, whatever the toggle line shows.
pub proof fn lemma_flip_flop_t_holds_without_edge(owned: Seq<Value>, samples: Seq<(Value, Value)>)
    requires
        owned.len() == 2,
        no_positive_edge(owned[1], samples),
    ensures
        t_flip_flop_history(owned, samples).len() == 2,
        t_flip_flop_history(owned, samples)[0] == owned[0],
    decreases samples.len(),
{
    if samples.len() > 0 {
        let next = eval_function(
            FunctionView::FlipFlopT,
            seq![samples[0].0, samples[0].1],
            owned,
        ).1;
        assert(next == seq![owned[0], samples[0].1]);
        lemma_flip_flop_t_holds_without_edge(next, samples.drop_first());
    }
}

/// The owned pair of a `FlipFlopJK` with both lines asserted after a run of
/// evaluation calls feeding the listed clock samples in order, starting
/// from `owned`.
pub open spec fn jk_flip_flop_toggle_history(owned: Seq<Value>, clocks: Seq<Value>) -> Seq<Value>
    decreases clocks.len(),
{
    if clocks.len() == 0 {
        owned
    } else {
        jk_flip_flop_toggle_history(
            eval_function(
                FunctionView::FlipFlopJK,
                seq![Value::On, Value::On, clocks[0]],
                owned,
            ).1,
            clocks.drop_first(),
        )
    }
}

/// No clock sample in the run makes a positive edge, starting from the
/// stored sample `last_clock`.
pub open spec fn no_positive_edge_clocks(last_clock: Value, clocks: Seq<Value>) -> bool
    decreases clocks.len(),
{
    clocks.len() == 0 || (!spec_positive_edge(last_clock, clocks[0]) && no_positive_edge_clocks(
        clocks[0],
        clocks.drop_first(),
    ))
}

/// Edge-triggered flip-flop law for `FlipFlopJK` with both lines asserted,
/// over whole clock histories: however many calls occur, the stored state
/// is held unchanged as long as no call presents a positive clock edge.
pub proof fn lemma_flip_flop_jk_holds_without_edge(owned: Seq<Value>, clocks: Seq<Value>)
    requires
        owned.len() == 2,
        no_positive_edge_clocks(owned[1], clocks),
    ensures
        jk_flip_flop_toggle_history(owned, clocks).len() == 2,
        jk_flip_flop_toggle_history(owned, clocks)[0] == owned[0],
    decreases clocks.len(),
{
    if clocks.len() > 0 {
        let next = eval_function(
            FunctionView::FlipFlopJK,
            seq![Value::On, Value::On, clocks[0]],
            owned,
        ).1;
        assert(next == seq![owned[0], clocks[0]]);
        lemma_flip_flop_jk_holds_without_edge(next, clocks.drop_first());
    }
}

/// The feedback loop through a single `Not` gate: its one output slot is
/// wired back as its own input.
pub open spec fn not_loop_circuit() -> CircuitView {
    CircuitView {
        inputs: Seq::empty(),
        outputs: Seq::empty(),
        components: seq![
            ComponentView {
                inputs: seq![0usize],
                outputs: seq![0usize],
                owned: Seq::empty(),
                function: FunctionView::Not,
            },
        ],
        value_list_len: 1,
    }
}

/// One step of the `Not` loop flips its slot and leaves it pending again,
/// under either worklist policy.
proof fn lemma_not_loop_step(st: SimState, policy: EnqueuePolicy)
    requires
        st.values.len() == 1,
        st.pending == seq![0usize],
    ensures
        sim_step(not_loop_circuit(), st, policy).values.len() == 1,
        sim_step(not_loop_circuit(), st, policy).pending == seq![0usize],
{
    reveal_with_fuel(crate::model::commit_outputs, 3);
    reveal_with_fuel(crate::model::apply_components, 3);
    let cv = not_loop_circuit();
    let comp = cv.components[0];
    let popped = SimState { values: st.values, pending: st.pending.drop_first() };
    assert(comp.inputs.contains(0usize)) by {
        assert(comp.inputs[0] == 0usize);
    }
    assert(matching_components(cv, 0usize, 0) =~= seq![0usize] + matching_components(cv, 0usize, 1));
    assert(matching_components(cv, 0usize, 1) =~= Seq::<usize>::empty());
    assert(matching_components(cv, 0usize, 0) =~= seq![0usize]);
    assert(st.pending[0] == 0usize);
    assert(popped.pending =~= Seq::<usize>::empty());

    let ins = crate::model::gather(popped.values, comp.inputs);
    let v = st.values[0];
    assert(ins =~= seq![v]);
    let r = eval_function(comp.function, ins, crate::model::gather(popped.values, comp.owned));
    assert(r.0 == seq![val_not(v)]);
    assert(crate::model::write_list(popped.values, comp.owned, r.1, 0) == popped.values);

    let st_mid = SimState { values: popped.values, pending: popped.pending };
    let committed = crate::model::commit_outputs(
        comp.outputs,
        crate::model::gather(popped.values, comp.outputs),
        r.0,
        st_mid,
        policy,
        0,
    );
    assert(crate::model::gather(popped.values, comp.outputs)[0] == v);
    assert(val_not(v) != v);
    assert(committed.values =~= popped.values.update(0, val_not(v)));
    assert(committed.pending =~= seq![0usize]);

    let after = crate::model::apply_components(
        cv,
        matching_components(cv, 0usize, 0),
        popped,
        policy,
    );
    assert(seq![0usize].drop_first() =~= Seq::<usize>::empty());
    assert(after == committed);
}

/// Non-convergence of the `Not` loop: from any state with exactly its slot
/// pending, a run reports instability whatever the fuel, under either
/// worklist policy; it spends the whole step ceiling and never hangs.
pub proof fn lemma_not_loop_unstable(st: SimState, fuel: nat, policy: EnqueuePolicy)
    requires
        st.values.len() == 1,
        st.pending == seq![0usize],
    ensures
        !sim_run(not_loop_circuit(), st, fuel, policy).0,
    decreases fuel,
{
    if fuel > 0 {
        lemma_not_loop_step(st, policy);
        lemma_not_loop_unstable(sim_step(not_loop_circuit(), st, policy), (fuel - 1) as nat, policy);
    }
}

/// Non-convergence of the `Not` loop from a cold start: the initial state
/// of its simulator has exactly the loop slot pending, so every run reports
/// instability.
pub proof fn lemma_not_loop_unstable_from_cold(fuel: nat, policy: EnqueuePolicy)
    ensures
        !sim_run(not_loop_circuit(), init_state(not_loop_circuit()), fuel, policy).0,
{
    assert(init_state(not_loop_circuit()).pending =~= seq![0usize]);
    lemma_not_loop_unstable(init_state(not_loop_circuit()), fuel, policy);
}

} // verus!
