//! The mathematical model of the library.
//!
//! Ghost mirrors of the structural types, their well-formedness, and the
//! semantics of component evaluation and worklist propagation.  The contract
//! of every executable function is stated against the functions defined
//! here.

use vstd::prelude::*;

use crate::element::{Component, Input, Output};
use crate::function::Function;
use crate::simulator::{EnqueuePolicy, DEFAULT_STEP_CEILING};
use crate::{val_and, val_not, val_or, Circuit, Value};

verus! {

// ------------------------------------------------------------------
// Ghost mirrors of the structural types
// ------------------------------------------------------------------

/// The mathematical shape of a component: index lists and a behavior.
#[verifier::ext_equal]
pub ghost struct ComponentView {
    pub inputs: Seq<usize>,
    pub outputs: Seq<usize>,
    pub owned: Seq<usize>,
    pub function: FunctionView,
}

/// The mathematical shape of a behavior.
#[verifier::ext_equal]
pub ghost enum FunctionView {
    And,
    Or,
    Not,
    Nand,
    Nor,
    Circuit(CircuitView),
    FlipFlopRS,
    FlipFlopJK,
    FlipFlopD,
    FlipFlopT,
}

/// The mathematical shape of a circuit: wire indices of the inputs and
/// outputs, the components, and the total number of value slots.
#[verifier::ext_equal]
pub ghost struct CircuitView {
    pub inputs: Seq<usize>,
    pub outputs: Seq<usize>,
    pub components: Seq<ComponentView>,
    pub value_list_len: usize,
}

pub open spec fn inputs_view(s: Seq<Input>) -> Seq<usize> {
    Seq::new(s.len(), |i: int| s[i].value_index)
}

pub open spec fn outputs_view(s: Seq<Output>) -> Seq<usize> {
    Seq::new(s.len(), |i: int| s[i].value_index)
}

pub open spec fn component_view(c: Component) -> ComponentView
    decreases c,
{
    ComponentView {
        inputs: c.input_value_indices@,
        outputs: c.output_value_indices@,
        owned: c.owned_value_indices@,
        function: function_view(c.function),
    }
}

pub open spec fn components_view(s: Seq<Component>) -> Seq<ComponentView>
    decreases s,
{
    if s.len() == 0 {
        Seq::empty()
    } else {
        seq![component_view(s[0])] + components_view(s.drop_first())
    }
}

pub open spec fn function_view(f: Function) -> FunctionView
    decreases f,
{
    match f {
        Function::And => FunctionView::And,
        Function::Or => FunctionView::Or,
        Function::Not => FunctionView::Not,
        Function::Nand => FunctionView::Nand,
        Function::Nor => FunctionView::Nor,
        Function::Circuit(c) => FunctionView::Circuit(circuit_view(c)),
        Function::FlipFlopRS => FunctionView::FlipFlopRS,
        Function::FlipFlopJK => FunctionView::FlipFlopJK,
        Function::FlipFlopD => FunctionView::FlipFlopD,
        Function::FlipFlopT => FunctionView::FlipFlopT,
    }
}

pub open spec fn circuit_view(c: Circuit) -> CircuitView
    decreases c,
{
    CircuitView {
        inputs: inputs_view(c.inputs@),
        outputs: outputs_view(c.outputs@),
        components: components_view(c.components@),
        value_list_len: c.value_list_len,
    }
}

impl View for Input {
    type V = usize;

    open spec fn view(&self) -> usize {
        self.value_index
    }
}

impl View for Output {
    type V = usize;

    open spec fn view(&self) -> usize {
        self.value_index
    }
}

impl View for Component {
    type V = ComponentView;

    open spec fn view(&self) -> ComponentView {
        component_view(*self)
    }
}

impl View for Function {
    type V = FunctionView;

    open spec fn view(&self) -> FunctionView {
        function_view(*self)
    }
}

impl View for Circuit {
    type V = CircuitView;

    open spec fn view(&self) -> CircuitView {
        circuit_view(*self)
    }
}

/// `components_view` maps the element view over the sequence.
pub broadcast proof fn lemma_components_view(s: Seq<Component>)
    ensures
        (#[trigger] components_view(s)).len() == s.len(),
        forall|k: int| 0 <= k < s.len() ==> components_view(s)[k] == component_view(s[k]),
    decreases s.len(),
{
    if s.len() > 0 {
        lemma_components_view(s.drop_first());
        assert forall|k: int| 0 <= k < s.len() implies components_view(s)[k] == component_view(
            s[k],
        ) by {
            if k > 0 {
                assert(components_view(s)[k] == components_view(s.drop_first())[k - 1]);
                assert(s.drop_first()[k - 1] == s[k]);
            }
        }
    }
}

// ------------------------------------------------------------------
// Behavior shape: arities
// ------------------------------------------------------------------

/// How many input wires a behavior reads.
pub open spec fn function_input_count(f: FunctionView) -> int {
    match f {
        FunctionView::And => 2,
        FunctionView::Or => 2,
        FunctionView::Not => 1,
        FunctionView::Nand => 2,
        FunctionView::Nor => 2,
        FunctionView::Circuit(c) => c.inputs.len() as int,
        FunctionView::FlipFlopRS => 2,
        FunctionView::FlipFlopJK => 3,
        FunctionView::FlipFlopD => 2,
        FunctionView::FlipFlopT => 2,
    }
}

/// How many output wires a behavior drives.
pub open spec fn function_output_count(f: FunctionView) -> int {
    match f {
        FunctionView::And => 1,
        FunctionView::Or => 1,
        FunctionView::Not => 1,
        FunctionView::Nand => 1,
        FunctionView::Nor => 1,
        FunctionView::Circuit(c) => c.outputs.len() as int,
        FunctionView::FlipFlopRS => 2,
        FunctionView::FlipFlopJK => 2,
        FunctionView::FlipFlopD => 2,
        FunctionView::FlipFlopT => 2,
    }
}

/// How many private state slots a behavior owns.
pub open spec fn function_owned_count(f: FunctionView) -> int {
    match f {
        FunctionView::And => 0,
        FunctionView::Or => 0,
        FunctionView::Not => 0,
        FunctionView::Nand => 0,
        FunctionView::Nor => 0,
        FunctionView::Circuit(_) => 0,
        FunctionView::FlipFlopRS => 1,
        FunctionView::FlipFlopJK => 2,
        FunctionView::FlipFlopD => 2,
        FunctionView::FlipFlopT => 2,
    }
}

/// The listing name of a behavior.
pub open spec fn function_name(f: FunctionView) -> Seq<char> {
    match f {
        FunctionView::And => "And"@,
        FunctionView::Or => "Or"@,
        FunctionView::Not => "Not"@,
        FunctionView::Nand => "Nand"@,
        FunctionView::Nor => "Nor"@,
        FunctionView::Circuit(_) => "Circuit"@,
        FunctionView::FlipFlopRS => "FlipFlopRS"@,
        FunctionView::FlipFlopJK => "FlipFlopJK"@,
        FunctionView::FlipFlopD => "FlipFlopD"@,
        FunctionView::FlipFlopT => "FlipFlopT"@,
    }
}

// ------------------------------------------------------------------
// Well-formedness
// ------------------------------------------------------------------

/// Every listed index addresses a slot of a value store of length `n`.
pub open spec fn in_range(idxs: Seq<usize>, n: usize) -> bool {
    forall|i: int| 0 <= i < idxs.len() ==> idxs[i] < n
}

/// A component is well formed for a value store of length `n` when all of
/// its indices are in range, its index lists agree with its behavior's
/// arities, and its behavior is itself well formed.
pub open spec fn component_wf(comp: ComponentView, n: usize) -> bool
    decreases comp,
{
    &&& in_range(comp.inputs, n)
    &&& in_range(comp.outputs, n)
    &&& in_range(comp.owned, n)
    &&& comp.inputs.len() == function_input_count(comp.function)
    &&& comp.outputs.len() == function_output_count(comp.function)
    &&& comp.owned.len() == function_owned_count(comp.function)
    &&& function_wf(comp.function)
}

pub open spec fn components_wf(s: Seq<ComponentView>, n: usize) -> bool
    decreases s,
{
    s.len() == 0 || (component_wf(s[0], n) && components_wf(s.drop_first(), n))
}

/// A behavior is well formed when an embedded sub-circuit is.
pub open spec fn function_wf(f: FunctionView) -> bool
    decreases f,
{
    match f {
        FunctionView::Circuit(c) => circuit_wf(c),
        _ => true,
    }
}

/// A circuit is well formed when every structural index addresses a slot of
/// its value store and every component is well formed.
pub open spec fn circuit_wf(cv: CircuitView) -> bool
    decreases cv,
{
    &&& in_range(cv.inputs, cv.value_list_len)
    &&& in_range(cv.outputs, cv.value_list_len)
    &&& components_wf(cv.components, cv.value_list_len)
}

/// The slots a component writes: its output slots followed by its owned
/// slots.
pub open spec fn write_targets(comp: ComponentView) -> Seq<usize> {
    comp.outputs + comp.owned
}

/// No aliasing of write targets: the output and owned indices of each
/// component are disjoint from every other component's.  Input indices may
/// alias freely (fan-out); a component never writes a slot it does not own.
pub open spec fn writers_disjoint(cv: CircuitView) -> bool {
    forall|j1: int, j2: int, i1: int, i2: int|
        0 <= j1 < cv.components.len() && 0 <= j2 < cv.components.len() && j1 != j2 && 0 <= i1
            < write_targets(cv.components[j1]).len() && 0 <= i2 < write_targets(
            cv.components[j2],
        ).len() ==> #[trigger] write_targets(cv.components[j1])[i1] != #[trigger] write_targets(
            cv.components[j2],
        )[i2]
}

/// Write-target disjointness depends on the components alone.
pub proof fn lemma_writers_disjoint_same_components(a: CircuitView, b: CircuitView)
    requires
        a.components == b.components,
        writers_disjoint(a),
    ensures
        writers_disjoint(b),
{
    assert forall|j1: int, j2: int, i1: int, i2: int|
        0 <= j1 < b.components.len() && 0 <= j2 < b.components.len() && j1 != j2 && 0 <= i1
            < write_targets(b.components[j1]).len() && 0 <= i2 < write_targets(
            b.components[j2],
        ).len() implies #[trigger] write_targets(b.components[j1])[i1] != #[trigger] write_targets(
        b.components[j2],
    )[i2] by {
        assert(b.components[j1] == a.components[j1]);
        assert(b.components[j2] == a.components[j2]);
        assert(write_targets(a.components[j1])[i1] != write_targets(a.components[j2])[i2]);
    }
}

/// Every write target of a well-formed component addresses an allocated
/// slot.
proof fn lemma_write_targets_in_range(comp: ComponentView, n: usize, i: int)
    requires
        component_wf(comp, n),
        0 <= i < write_targets(comp).len(),
    ensures
        write_targets(comp)[i] < n,
{
    if i < comp.outputs.len() {
        assert(write_targets(comp)[i] == comp.outputs[i]);
    } else {
        assert(write_targets(comp)[i] == comp.owned[i - comp.outputs.len()]);
    }
}

/// Appending a component whose write targets all lie in the freshly
/// allocated region keeps write targets disjoint.
pub proof fn lemma_writers_disjoint_push(cv_old: CircuitView, cv_new: CircuitView, comp: ComponentView)
    requires
        cv_new.components == cv_old.components.push(comp),
        circuit_wf(cv_old),
        writers_disjoint(cv_old),
        forall|i: int|
            0 <= i < write_targets(comp).len() ==> (#[trigger] write_targets(comp)[i])
                >= cv_old.value_list_len,
    ensures
        writers_disjoint(cv_new),
{
    lemma_components_wf(cv_old.components, cv_old.value_list_len);
    assert forall|j1: int, j2: int, i1: int, i2: int|
        0 <= j1 < cv_new.components.len() && 0 <= j2 < cv_new.components.len() && j1 != j2 && 0
            <= i1 < write_targets(cv_new.components[j1]).len() && 0 <= i2 < write_targets(
            cv_new.components[j2],
        ).len() implies #[trigger] write_targets(cv_new.components[j1])[i1]
        != #[trigger] write_targets(cv_new.components[j2])[i2] by {
        let old_len = cv_old.components.len() as int;
        if j1 < old_len && j2 < old_len {
            assert(cv_new.components[j1] == cv_old.components[j1]);
            assert(cv_new.components[j2] == cv_old.components[j2]);
            assert(write_targets(cv_old.components[j1])[i1] != write_targets(
                cv_old.components[j2],
            )[i2]);
        } else if j1 == old_len {
            assert(cv_new.components[j1] == comp);
            assert(cv_new.components[j2] == cv_old.components[j2]);
            lemma_write_targets_in_range(cv_old.components[j2], cv_old.value_list_len, i2);
        } else {
            assert(cv_new.components[j2] == comp);
            assert(cv_new.components[j1] == cv_old.components[j1]);
            lemma_write_targets_in_range(cv_old.components[j1], cv_old.value_list_len, i1);
        }
    }
}

/// `components_wf` holds exactly when every component is well formed.
pub broadcast proof fn lemma_components_wf(s: Seq<ComponentView>, n: usize)
    ensures
        #[trigger] components_wf(s, n) <==> (forall|k: int|
            0 <= k < s.len() ==> component_wf(#[trigger] s[k], n)),
    decreases s.len(),
{
    if s.len() > 0 {
        lemma_components_wf(s.drop_first(), n);
        if components_wf(s, n) {
            assert forall|k: int| 0 <= k < s.len() implies component_wf(#[trigger] s[k], n) by {
                if k > 0 {
                    assert(s.drop_first()[k - 1] == s[k]);
                }
            }
        }
        if forall|k: int| 0 <= k < s.len() ==> component_wf(#[trigger] s[k], n) {
            assert forall|k: int| 0 <= k < s.drop_first().len() implies component_wf(
                #[trigger] s.drop_first()[k],
                n,
            ) by {
                assert(s.drop_first()[k] == s[k + 1]);
            }
        }
    }
}

/// `components_view` distributes over `push`.
pub broadcast proof fn lemma_components_view_push(s: Seq<Component>, c: Component)
    ensures
        #[trigger] components_view(s.push(c)) == components_view(s).push(component_view(c)),
{
    lemma_components_view(s.push(c));
    lemma_components_view(s);
    assert(components_view(s.push(c)) =~= components_view(s).push(component_view(c)));
}

/// Well-formedness is preserved when the value store only grows.
pub proof fn lemma_component_wf_mono(comp: ComponentView, n: usize, m: usize)
    requires
        component_wf(comp, n),
        n <= m,
    ensures
        component_wf(comp, m),
{
}

/// Well-formedness of all components is preserved when the value store only
/// grows.
pub proof fn lemma_components_wf_mono(s: Seq<ComponentView>, n: usize, m: usize)
    requires
        components_wf(s, n),
        n <= m,
    ensures
        components_wf(s, m),
{
    lemma_components_wf(s, n);
    lemma_components_wf(s, m);
    assert forall|k: int| 0 <= k < s.len() implies component_wf(#[trigger] s[k], m) by {
        lemma_component_wf_mono(s[k], n, m);
    }
}

/// The `count` consecutive value-store indices starting at `start`.
pub open spec fn index_range(start: usize, count: int) -> Seq<usize> {
    Seq::new(count as nat, |i: int| (start + i) as usize)
}

// ------------------------------------------------------------------
// Gate laws
// ------------------------------------------------------------------

/// The fold of the conjunction law over a sequence: `On` exactly when every
/// element is `On` (so `On` for the empty sequence).
pub open spec fn seq_and(s: Seq<Value>) -> Value {
    if forall|i: int| 0 <= i < s.len() ==> s[i] == Value::On {
        Value::On
    } else {
        Value::Off
    }
}

/// The fold of the disjunction law over a sequence: `On` exactly when some
/// element is `On` (so `Off` for the empty sequence).
pub open spec fn seq_or(s: Seq<Value>) -> Value {
    if exists|i: int| 0 <= i < s.len() && s[i] == Value::On {
        Value::On
    } else {
        Value::Off
    }
}

/// The fold of the conjunction law absorbs one more element.
pub proof fn lemma_seq_and_push(s: Seq<Value>, v: Value)
    ensures
        seq_and(s.push(v)) == val_and(seq_and(s), v),
{
    if seq_and(s) == Value::On && v == Value::On {
        assert forall|i: int| 0 <= i < s.push(v).len() implies s.push(v)[i] == Value::On by {
            if i < s.len() {
                assert(s.push(v)[i] == s[i]);
            }
        }
    } else if seq_and(s) == Value::Off {
        let i = choose|i: int| 0 <= i < s.len() && s[i] != Value::On;
        assert(s.push(v)[i] != Value::On);
    } else {
        assert(s.push(v)[s.len() as int] != Value::On);
    }
}

/// The fold of the disjunction law absorbs one more element.
pub proof fn lemma_seq_or_push(s: Seq<Value>, v: Value)
    ensures
        seq_or(s.push(v)) == val_or(seq_or(s), v),
{
    if seq_or(s) == Value::On {
        let i = choose|i: int| 0 <= i < s.len() && s[i] == Value::On;
        assert(s.push(v)[i] == Value::On);
    } else if v == Value::On {
        assert(s.push(v)[s.len() as int] == Value::On);
    } else {
        assert forall|i: int| 0 <= i < s.push(v).len() implies s.push(v)[i] != Value::On by {
            if i < s.len() {
                assert(s.push(v)[i] == s[i]);
            }
        }
    }
}

/// A positive clock edge: the sample changed and the new sample is `On`.
pub open spec fn spec_positive_edge(prev: Value, new_sample: Value) -> bool {
    prev != new_sample && new_sample == Value::On
}

// ------------------------------------------------------------------
// Simulation state
// ------------------------------------------------------------------

/// The live state of a simulation: the value store and the worklist of
/// value indices awaiting reaction, front first.
#[verifier::ext_equal]
pub ghost struct SimState {
    pub values: Seq<Value>,
    pub pending: Seq<usize>,
}

/// The cold-start state: every slot `Off`, every index pending.
pub open spec fn init_state(cv: CircuitView) -> SimState {
    SimState {
        values: Seq::new(cv.value_list_len as nat, |i: int| Value::Off),
        pending: Seq::new(cv.value_list_len as nat, |i: int| i as usize),
    }
}

/// Append a changed index to the worklist according to the policy.
pub open spec fn enqueue(pending: Seq<usize>, idx: usize, policy: EnqueuePolicy) -> Seq<usize> {
    match policy {
        EnqueuePolicy::Always => pending.push(idx),
        EnqueuePolicy::SkipIfPending => if pending.contains(idx) {
            pending
        } else {
            pending.push(idx)
        },
    }
}

/// Drive one external input: overwrite the slot and append its index to the
/// worklist, or do nothing at all when the value is unchanged.
pub open spec fn set_input_state(
    cv: CircuitView,
    st: SimState,
    input_index: int,
    value: Value,
) -> SimState {
    let vi = cv.inputs[input_index];
    if st.values[vi as int] == value {
        st
    } else {
        SimState { values: st.values.update(vi as int, value), pending: st.pending.push(vi) }
    }
}

/// Drive the inputs at positions `k ..` with the values of `ins`, in order.
pub open spec fn set_inputs_state(cv: CircuitView, st: SimState, ins: Seq<Value>, k: int) -> SimState
    decreases ins.len() - k,
{
    if k < 0 || k >= ins.len() {
        st
    } else {
        set_inputs_state(cv, set_input_state(cv, st, k, ins[k]), ins, k + 1)
    }
}

/// Read the listed slots of the value store, in order.
pub open spec fn gather(values: Seq<Value>, idxs: Seq<usize>) -> Seq<Value> {
    Seq::new(idxs.len(), |i: int| values[idxs[i] as int])
}

/// Write `vals[k ..]` to the slots listed by `idxs[k ..]`, in order.
pub open spec fn write_list(values: Seq<Value>, idxs: Seq<usize>, vals: Seq<Value>, k: int) -> Seq<
    Value,
>
    decreases idxs.len() - k,
{
    if k < 0 || k >= idxs.len() || k >= vals.len() {
        values
    } else {
        write_list(values.update(idxs[k] as int, vals[k]), idxs, vals, k + 1)
    }
}

/// Commit the freshly computed output values from position `k` on: write
/// back only the slots whose value differs from the one computed, and make
/// each such index pending according to the policy.
pub open spec fn commit_outputs(
    idxs: Seq<usize>,
    old_out: Seq<Value>,
    new_out: Seq<Value>,
    st: SimState,
    policy: EnqueuePolicy,
    k: int,
) -> SimState
    decreases idxs.len() - k,
{
    if k < 0 || k >= idxs.len() {
        st
    } else {
        let st1 = if k < old_out.len() && k < new_out.len() && old_out[k] != new_out[k] {
            SimState {
                values: st.values.update(idxs[k] as int, new_out[k]),
                pending: enqueue(st.pending, idxs[k], policy),
            }
        } else {
            st
        };
        commit_outputs(idxs, old_out, new_out, st1, policy, k + 1)
    }
}

/// The component indices whose input lists contain `v`, from position `k`
/// on, in ascending order.
pub open spec fn matching_components(cv: CircuitView, v: usize, k: int) -> Seq<usize>
    decreases cv.components.len() - k,
{
    if k < 0 || k >= cv.components.len() {
        Seq::empty()
    } else if cv.components[k].inputs.contains(v) {
        seq![k as usize] + matching_components(cv, v, k + 1)
    } else {
        matching_components(cv, v, k + 1)
    }
}

// ------------------------------------------------------------------
// Evaluation and propagation semantics
// ------------------------------------------------------------------

/// What a behavior computes from its input values and its carried-in owned
/// values: the pair of output values and new owned values.
///
/// An embedded sub-circuit is evaluated from a cold state with the default
/// step ceiling and worklist policy; its convergence verdict is discarded
/// and its outputs are read back in declaration order.
pub open spec fn eval_function(f: FunctionView, ins: Seq<Value>, owned: Seq<Value>) -> (
    Seq<Value>,
    Seq<Value>,
)
    decreases f, 0nat, 0nat, 0nat,
{
    match f {
        FunctionView::And => (seq![seq_and(ins)], Seq::empty()),
        FunctionView::Or => (seq![seq_or(ins)], Seq::empty()),
        FunctionView::Not => (seq![val_not(ins[0])], Seq::empty()),
        FunctionView::Nand => (seq![val_not(seq_and(ins))], Seq::empty()),
        FunctionView::Nor => (seq![val_not(seq_or(ins))], Seq::empty()),
        FunctionView::Circuit(cv) => {
            let st = sim_run(
                cv,
                set_inputs_state(cv, init_state(cv), ins, 0),
                DEFAULT_STEP_CEILING as nat,
                EnqueuePolicy::Always,
            ).1;
            (gather(st.values, cv.outputs), Seq::empty())
        },
        FunctionView::FlipFlopRS => match (ins[0], ins[1]) {
            (Value::On, Value::On) => (seq![Value::Off, Value::Off], owned),
            (Value::Off, Value::Off) => (seq![owned[0], val_not(owned[0])], owned),
            _ => (seq![ins[0], val_not(ins[0])], seq![ins[0]]),
        },
        FunctionView::FlipFlopJK => {
            if spec_positive_edge(owned[1], ins[2]) {
                let v = if ins[0] == Value::On && ins[1] == Value::On {
                    val_not(owned[0])
                } else if ins[0] == Value::On {
                    Value::On
                } else if ins[1] == Value::On {
                    Value::Off
                } else {
                    owned[0]
                };
                (seq![v, val_not(v)], seq![v, ins[2]])
            } else {
                (seq![owned[0], val_not(owned[0])], seq![owned[0], ins[2]])
            }
        },
        FunctionView::FlipFlopD => {
            if spec_positive_edge(owned[1], ins[1]) {
                (seq![ins[0], val_not(ins[0])], seq![ins[0], ins[1]])
            } else {
                (seq![owned[0], val_not(owned[0])], seq![owned[0], ins[1]])
            }
        },
        FunctionView::FlipFlopT => {
            if spec_positive_edge(owned[1], ins[1]) && ins[0] == Value::On {
                (seq![val_not(owned[0]), owned[0]], seq![val_not(owned[0]), ins[1]])
            } else {
                (seq![owned[0], val_not(owned[0])], seq![owned[0], ins[1]])
            }
        },
    }
}

/// What evaluating a behavior asks of its argument lists: enough input and
/// owned values for the slots the behavior reads.  Well-formed components
/// always satisfy this (their list lengths equal the behavior's arities).
pub open spec fn eval_req(f: FunctionView, n_ins: int, n_owned: int) -> bool {
    match f {
        FunctionView::And => true,
        FunctionView::Or => true,
        FunctionView::Not => n_ins >= 1,
        FunctionView::Nand => true,
        FunctionView::Nor => true,
        FunctionView::Circuit(cv) => n_ins <= cv.inputs.len(),
        FunctionView::FlipFlopRS => n_ins >= 2 && n_owned >= 1,
        FunctionView::FlipFlopJK => n_ins >= 3 && n_owned >= 2,
        FunctionView::FlipFlopD => n_ins >= 2 && n_owned >= 2,
        FunctionView::FlipFlopT => n_ins >= 2 && n_owned >= 2,
    }
}

/// A well-formed component hands its behavior argument lists that satisfy
/// `eval_req`.
pub proof fn lemma_component_wf_eval_req(comp: ComponentView, n: usize)
    requires
        component_wf(comp, n),
    ensures
        eval_req(comp.function, comp.inputs.len() as int, comp.owned.len() as int),
{
}

/// Evaluation returns exactly as many output values as the behavior drives
/// output wires, and exactly as many new owned values as it was handed in
/// owned slots of the declared arity.
pub proof fn lemma_eval_function_lens(f: FunctionView, ins: Seq<Value>, owned: Seq<Value>)
    requires
        owned.len() == function_owned_count(f),
    ensures
        eval_function(f, ins, owned).0.len() == function_output_count(f),
        eval_function(f, ins, owned).1.len() == function_owned_count(f),
{
}

/// React component `idx` to a change: gather its current input, output and
/// owned values, evaluate its behavior, unconditionally commit the new owned
/// values, then commit the changed outputs.
pub open spec fn apply_component(
    cv: CircuitView,
    idx: int,
    st: SimState,
    policy: EnqueuePolicy,
) -> SimState
    decreases cv, 0nat, 0nat, 0nat,
{
    if 0 <= idx < cv.components.len() {
        let comp = cv.components[idx];
        let ins = gather(st.values, comp.inputs);
        let old_out = gather(st.values, comp.outputs);
        let owned = gather(st.values, comp.owned);
        let r = eval_function(comp.function, ins, owned);
        let values1 = write_list(st.values, comp.owned, r.1, 0);
        commit_outputs(
            comp.outputs,
            old_out,
            r.0,
            SimState { values: values1, pending: st.pending },
            policy,
            0,
        )
    } else {
        st
    }
}

/// React the listed components, in order.
pub open spec fn apply_components(
    cv: CircuitView,
    idxs: Seq<usize>,
    st: SimState,
    policy: EnqueuePolicy,
) -> SimState
    decreases cv, 0nat, 1nat, idxs.len(),
{
    if idxs.len() == 0 {
        st
    } else {
        apply_components(
            cv,
            idxs.drop_first(),
            apply_component(cv, idxs[0] as int, st, policy),
            policy,
        )
    }
}

/// One propagation step: pop the front of the worklist and react every
/// component whose input list contains the popped index.  A step on an
/// empty worklist changes nothing.
pub open spec fn sim_step(cv: CircuitView, st: SimState, policy: EnqueuePolicy) -> SimState
    decreases cv, 0nat, 2nat, 0nat,
{
    if st.pending.len() == 0 {
        st
    } else {
        let popped = SimState { values: st.values, pending: st.pending.drop_first() };
        apply_components(cv, matching_components(cv, st.pending[0], 0), popped, policy)
    }
}

/// Run propagation steps until the worklist drains (converged, `true`) or
/// the fuel runs out with work still pending (non-convergent, `false`).
pub open spec fn sim_run(cv: CircuitView, st: SimState, fuel: nat, policy: EnqueuePolicy) -> (
    bool,
    SimState,
)
    decreases cv, fuel, 3nat, 0nat,
{
    if st.pending.len() == 0 {
        (true, st)
    } else if fuel == 0 {
        (false, st)
    } else {
        sim_run(cv, sim_step(cv, st, policy), (fuel - 1) as nat, policy)
    }
}

} // verus!
