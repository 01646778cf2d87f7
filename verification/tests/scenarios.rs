use simulator::function::Function;
use simulator::simulator::{EnqueuePolicy, Simulator, DEFAULT_STEP_CEILING};
use simulator::{Circuit, Value};

fn and_gate_circuit() -> (Circuit, usize, usize, usize) {
    let mut circuit = Circuit::new();
    let (input0, value0) = circuit.add_input();
    let (input1, value1) = circuit.add_input();
    let (_, component_outputs) = circuit.add_component(Function::And, vec![value0, value1]);
    let output = circuit.add_output(component_outputs[0]);

    (circuit, input0, input1, output)
}

#[test]
fn scenario_and_gate() {
    let (circuit, input0, input1, output) = and_gate_circuit();
    let mut sim = Simulator::new(circuit);

    sim.set_input(input0, Value::On);
    sim.set_input(input1, Value::On);
    assert!(sim.simulate());
    assert_eq!(sim.get_output_value(output), Value::On);

    sim.set_input(input0, Value::Off);
    assert!(sim.simulate());
    assert_eq!(sim.get_output_value(output), Value::Off);
}

#[test]
fn scenario_rs_flip_flop() {
    let mut circuit = Circuit::new();
    let (set_input, set_value) = circuit.add_input();
    let (reset_input, reset_value) = circuit.add_input();
    let (_, component_outputs) = circuit.add_component(
        Function::FlipFlopRS,
        vec![set_value, reset_value],
    );
    let q = circuit.add_output(component_outputs[0]);
    let q_inverse = circuit.add_output(component_outputs[1]);
    let mut sim = Simulator::new(circuit);

    // R = Off, S = On sets the state.
    sim.set_input(set_input, Value::On);
    sim.set_input(reset_input, Value::Off);
    assert!(sim.simulate());
    assert_eq!(sim.get_output_value(q), Value::On);
    assert_eq!(sim.get_output_value(q_inverse), Value::Off);

    // R = Off, S = Off holds the stored state.
    sim.set_input(set_input, Value::Off);
    assert!(sim.simulate());
    assert_eq!(sim.get_output_value(q), Value::On);
    assert_eq!(sim.get_output_value(q_inverse), Value::Off);

    // R = On, S = On forces both outputs Off.
    sim.set_input(set_input, Value::On);
    sim.set_input(reset_input, Value::On);
    assert!(sim.simulate());
    assert_eq!(sim.get_output_value(q), Value::Off);
    assert_eq!(sim.get_output_value(q_inverse), Value::Off);
}

#[test]
fn scenario_nested_circuit_matches_primitive_gate() {
    let combinations = [
        (Value::On, Value::On),
        (Value::On, Value::Off),
        (Value::Off, Value::On),
        (Value::Off, Value::Off),
    ];

    for &(a, b) in combinations.iter() {
        // The sub-circuit implementing AND, embedded as a function.
        let mut sub = Circuit::new();
        let (_, sub_value0) = sub.add_input();
        let (_, sub_value1) = sub.add_input();
        let (_, sub_outputs) = sub.add_component(Function::And, vec![sub_value0, sub_value1]);
        let _ = sub.add_output(sub_outputs[0]);

        let mut parent = Circuit::new();
        let (parent_input0, parent_value0) = parent.add_input();
        let (parent_input1, parent_value1) = parent.add_input();
        let (_, parent_outputs) = parent.add_component(
            Function::Circuit(sub),
            vec![parent_value0, parent_value1],
        );
        let parent_output = parent.add_output(parent_outputs[0]);

        let mut nested_sim = Simulator::new(parent);
        nested_sim.set_input(parent_input0, a);
        nested_sim.set_input(parent_input1, b);
        assert!(nested_sim.simulate());

        let (circuit, input0, input1, output) = and_gate_circuit();
        let mut primitive_sim = Simulator::new(circuit);
        primitive_sim.set_input(input0, a);
        primitive_sim.set_input(input1, b);
        assert!(primitive_sim.simulate());

        assert_eq!(
            nested_sim.get_output_value(parent_output),
            primitive_sim.get_output_value(output),
        );
    }
}

#[test]
fn not_gate_feedback_loop_is_unstable() {
    // The component's only output slot gets index 0, which also serves as
    // its input index, closing the loop.
    let mut circuit = Circuit::new();
    let (_, component_outputs) = circuit.add_component(Function::Not, vec![0]);
    assert_eq!(component_outputs, vec![0]);

    let mut sim = Simulator::new(circuit);
    assert!(!sim.simulate());
}

#[test]
fn not_gate_feedback_loop_is_unstable_under_both_policies() {
    for &policy in [EnqueuePolicy::Always, EnqueuePolicy::SkipIfPending].iter() {
        let mut circuit = Circuit::new();
        let (_, component_outputs) = circuit.add_component(Function::Not, vec![0]);
        assert_eq!(component_outputs, vec![0]);

        let mut sim = Simulator::with_config(circuit, 7, policy);
        assert!(!sim.simulate());
    }
}

#[test]
fn fan_out_updates_every_reader() {
    // One input slot feeds two Not gates; driving it re-evaluates both.
    let mut circuit = Circuit::new();
    let (input0, value0) = circuit.add_input();
    let (_, first_outputs) = circuit.add_component(Function::Not, vec![value0]);
    let (_, second_outputs) = circuit.add_component(Function::Not, vec![value0]);
    let first = circuit.add_output(first_outputs[0]);
    let second = circuit.add_output(second_outputs[0]);

    let mut sim = Simulator::new(circuit);
    assert!(sim.simulate());
    assert_eq!(sim.get_output_value(first), Value::On);
    assert_eq!(sim.get_output_value(second), Value::On);

    sim.set_input(input0, Value::On);
    assert!(sim.simulate());
    assert_eq!(sim.get_output_value(first), Value::Off);
    assert_eq!(sim.get_output_value(second), Value::Off);
}

#[test]
fn set_input_is_idempotent() {
    let (circuit, input0, input1, output) = and_gate_circuit();
    let mut sim = Simulator::new(circuit);

    sim.set_input(input0, Value::On);
    sim.set_input(input1, Value::On);
    assert!(sim.simulate());
    assert_eq!(sim.get_output_value(output), Value::On);

    // Re-setting an input to its stored value leaves the simulator stable.
    sim.set_input(input0, Value::On);
    let values_before: Vec<Value> = sim.values().to_vec();
    sim.step();
    assert_eq!(sim.values(), values_before.as_slice());
    assert!(sim.simulate());
    assert_eq!(sim.get_output_value(output), Value::On);
}

#[test]
fn quiescence_after_convergence() {
    let (circuit, input0, input1, output) = and_gate_circuit();
    let mut sim = Simulator::new(circuit);

    sim.set_input(input0, Value::On);
    sim.set_input(input1, Value::Off);
    assert!(sim.simulate());

    // A further step is a no-op, and a further run is stable at once with
    // the same values.
    let values_before: Vec<Value> = sim.values().to_vec();
    sim.step();
    assert_eq!(sim.values(), values_before.as_slice());
    assert!(sim.simulate());
    assert_eq!(sim.values(), values_before.as_slice());
    assert_eq!(sim.get_output_value(output), Value::Off);
}

#[test]
fn empty_circuit_is_stable() {
    let mut sim = Simulator::new(Circuit::new());
    assert!(sim.simulate());
    assert_eq!(sim.values().len(), 0);
}

#[test]
fn cold_start_marks_every_slot_pending() {
    // From a cold start the And gate's output slot is recomputed without
    // any call to set_input.
    let (circuit, _, _, output) = and_gate_circuit();
    let mut sim = Simulator::new(circuit);
    assert!(sim.simulate());
    assert_eq!(sim.get_output_value(output), Value::Off);
}

#[test]
fn value_accessors_agree() {
    let (circuit, input0, input1, output) = and_gate_circuit();
    let mut sim = Simulator::new(circuit);
    sim.set_input(input0, Value::On);
    sim.set_input(input1, Value::On);
    assert!(sim.simulate());

    assert_eq!(sim.get_input_value(input0), Value::On);
    assert_eq!(sim.get_input_value(input1), Value::On);
    let output_element = *sim.circuit().output(output);
    assert_eq!(sim.value_for_output(&output_element), Value::On);
    assert_eq!(sim.value_for_index(output_element.value_index()), Value::On);
    assert_eq!(sim.values().len(), 3);
}

#[test]
fn incremental_building_through_the_simulator() {
    let mut sim = Simulator::new(Circuit::new());
    let (input0, value0) = sim.add_input();
    let (input1, value1) = sim.add_input();
    let (_, component_outputs) = sim.add_component(Function::Or, vec![value0, value1]);
    let output = sim.add_output(component_outputs[0]);

    sim.set_input(input0, Value::On);
    sim.set_input(input1, Value::Off);
    assert!(sim.simulate());
    assert_eq!(sim.get_output_value(output), Value::On);
}

#[test]
fn function_counts() {
    assert_eq!(Function::And.input_value_count(), 2);
    assert_eq!(Function::Or.input_value_count(), 2);
    assert_eq!(Function::Not.input_value_count(), 1);
    assert_eq!(Function::Nand.input_value_count(), 2);
    assert_eq!(Function::Nor.input_value_count(), 2);
    assert_eq!(Function::FlipFlopRS.input_value_count(), 2);
    assert_eq!(Function::FlipFlopJK.input_value_count(), 3);
    assert_eq!(Function::FlipFlopD.input_value_count(), 2);
    assert_eq!(Function::FlipFlopT.input_value_count(), 2);

    assert_eq!(Function::And.output_value_count(), 1);
    assert_eq!(Function::FlipFlopRS.output_value_count(), 2);
    assert_eq!(Function::FlipFlopJK.output_value_count(), 2);

    assert_eq!(Function::And.owned_value_count(), 0);
    assert_eq!(Function::FlipFlopRS.owned_value_count(), 1);
    assert_eq!(Function::FlipFlopJK.owned_value_count(), 2);
    assert_eq!(Function::FlipFlopD.owned_value_count(), 2);
    assert_eq!(Function::FlipFlopT.owned_value_count(), 2);

    let (circuit, _, _, _) = and_gate_circuit();
    let nested = Function::Circuit(circuit);
    assert_eq!(nested.input_value_count(), 2);
    assert_eq!(nested.output_value_count(), 1);
    assert_eq!(nested.owned_value_count(), 0);
}

#[test]
fn function_names() {
    assert_eq!(Function::And.name(), "And");
    assert_eq!(Function::Or.name(), "Or");
    assert_eq!(Function::Not.name(), "Not");
    assert_eq!(Function::Nand.name(), "Nand");
    assert_eq!(Function::Nor.name(), "Nor");
    assert_eq!(Function::Circuit(Circuit::new()).name(), "Circuit");
    assert_eq!(Function::FlipFlopRS.name(), "FlipFlopRS");
    assert_eq!(Function::FlipFlopJK.name(), "FlipFlopJK");
    assert_eq!(Function::FlipFlopD.name(), "FlipFlopD");
    assert_eq!(Function::FlipFlopT.name(), "FlipFlopT");
}

#[test]
fn value_operators() {
    assert_eq!(Value::On & Value::On, Value::On);
    assert_eq!(Value::On & Value::Off, Value::Off);
    assert_eq!(Value::Off & Value::On, Value::Off);
    assert_eq!(Value::Off & Value::Off, Value::Off);

    assert_eq!(Value::On | Value::On, Value::On);
    assert_eq!(Value::On | Value::Off, Value::On);
    assert_eq!(Value::Off | Value::On, Value::On);
    assert_eq!(Value::Off | Value::Off, Value::Off);

    assert_eq!(!Value::On, Value::Off);
    assert_eq!(!Value::Off, Value::On);

    assert_eq!(Value::On.and(Value::Off), Value::Off);
    assert_eq!(Value::On.or(Value::Off), Value::On);
    assert_eq!(Value::On.not(), Value::Off);
}

#[test]
fn default_configuration() {
    let sim = Simulator::new(Circuit::new());
    assert_eq!(sim.steps_until_unstable, DEFAULT_STEP_CEILING);
    assert_eq!(sim.enqueue_policy, EnqueuePolicy::Always);
    assert_eq!(DEFAULT_STEP_CEILING, 1000);
}

#[test]
fn circuit_structure_accessors() {
    let (circuit, _, _, _) = and_gate_circuit();
    assert_eq!(circuit.all_inputs().len(), 2);
    assert_eq!(circuit.all_outputs().len(), 1);
    assert_eq!(circuit.all_components().len(), 1);
    assert_eq!(circuit.value_list_len(), 3);
    assert_eq!(circuit.input(0).value_index(), 0);
    assert_eq!(circuit.input(1).value_index(), 1);
    assert_eq!(circuit.output(0).value_index(), 2);
    assert_eq!(circuit.component(0).input_value_indices(), &[0, 1]);
    assert_eq!(circuit.component(0).output_value_indices(), &[2]);
    assert_eq!(circuit.component(0).owned_value_indices(), &[] as &[usize]);
}

#[test]
fn gate_folds_over_wider_arity() {
    // Three-entry input lists are folded element by element.
    let and = Function::And;
    assert_eq!(
        and.evaluate(&[Value::On, Value::On, Value::On], &[]),
        (vec![Value::On], vec![]),
    );
    assert_eq!(
        and.evaluate(&[Value::On, Value::Off, Value::On], &[]),
        (vec![Value::Off], vec![]),
    );

    let or = Function::Or;
    assert_eq!(
        or.evaluate(&[Value::Off, Value::Off, Value::On], &[]),
        (vec![Value::On], vec![]),
    );
    assert_eq!(
        or.evaluate(&[Value::Off, Value::Off, Value::Off], &[]),
        (vec![Value::Off], vec![]),
    );
}

#[test]
fn d_flip_flop_through_propagation() {
    let mut circuit = Circuit::new();
    let (d, d_value) = circuit.add_input();
    let (clock, clock_value) = circuit.add_input();
    let (_, component_outputs) = circuit.add_component(
        Function::FlipFlopD,
        vec![d_value, clock_value],
    );
    let q = circuit.add_output(component_outputs[0]);
    let q_inverse = circuit.add_output(component_outputs[1]);
    let mut sim = Simulator::new(circuit);

    assert!(sim.simulate());
    assert_eq!(sim.get_output_value(q), Value::Off);
    assert_eq!(sim.get_output_value(q_inverse), Value::On);

    // Data changes without a clock edge are not adopted.
    sim.set_input(d, Value::On);
    assert!(sim.simulate());
    assert_eq!(sim.get_output_value(q), Value::Off);

    // A rising clock edge latches the data input.
    sim.set_input(clock, Value::On);
    assert!(sim.simulate());
    assert_eq!(sim.get_output_value(q), Value::On);
    assert_eq!(sim.get_output_value(q_inverse), Value::Off);

    // A falling edge holds, and so does a data change off-edge.
    sim.set_input(clock, Value::Off);
    assert!(sim.simulate());
    assert_eq!(sim.get_output_value(q), Value::On);
    sim.set_input(d, Value::Off);
    assert!(sim.simulate());
    assert_eq!(sim.get_output_value(q), Value::On);

    // The next rising edge latches the new data input.
    sim.set_input(clock, Value::On);
    assert!(sim.simulate());
    assert_eq!(sim.get_output_value(q), Value::Off);
    assert_eq!(sim.get_output_value(q_inverse), Value::On);
}

#[test]
fn both_policies_agree_on_a_convergent_circuit() {
    let combinations = [
        (Value::On, Value::On),
        (Value::On, Value::Off),
        (Value::Off, Value::On),
        (Value::Off, Value::Off),
    ];

    for &policy in [EnqueuePolicy::Always, EnqueuePolicy::SkipIfPending].iter() {
        for &(a, b) in combinations.iter() {
            let (circuit, input0, input1, output) = and_gate_circuit();
            let mut sim = Simulator::with_config(circuit, DEFAULT_STEP_CEILING, policy);
            sim.set_input(input0, a);
            sim.set_input(input1, b);
            assert!(sim.simulate());
            let expected = if a == Value::On && b == Value::On { Value::On } else { Value::Off };
            assert_eq!(sim.get_output_value(output), expected);
        }
    }
}
