use simulator::function::Function;
use simulator::{Circuit, Value};

fn generate_and_circuit() -> Circuit {
    let mut circuit = Circuit::new();
    let (_, value0_index) = circuit.add_input();
    let (_, value1_index) = circuit.add_input();
    let (_, value2_index) = circuit.add_component(Function::And, vec![value0_index, value1_index]);
    let _ = circuit.add_output(value2_index[0]);

    circuit
}

enum ClockState {
    StayOff,
    StayOn,
    TransientToOn,
    TransientToOff,
}

fn dual_input(i: Value, state: Value, clock: ClockState) -> (Vec<Value>, Vec<Value>) {
    let input_values = vec![i, match clock {
        ClockState::StayOff => Value::Off,
        ClockState::StayOn => Value::On,
        ClockState::TransientToOn => Value::On,
        ClockState::TransientToOff => Value::Off,
    }];

    let owned_value = vec![state, match clock {
        ClockState::StayOff => Value::Off,
        ClockState::StayOn => Value::On,
        ClockState::TransientToOn => Value::Off,
        ClockState::TransientToOff => Value::On,
    }];

    (input_values, owned_value)
}

fn tripple_input(j: Value, k: Value, state: Value, clock: ClockState) -> (Vec<Value>, Vec<Value>) {
    let input_values = vec![j, k, match clock {
        ClockState::StayOff => Value::Off,
        ClockState::StayOn => Value::On,
        ClockState::TransientToOn => Value::On,
        ClockState::TransientToOff => Value::Off,
    }];

    let owned_value = vec![state, match clock {
        ClockState::StayOff => Value::Off,
        ClockState::StayOn => Value::On,
        ClockState::TransientToOn => Value::Off,
        ClockState::TransientToOff => Value::On,
    }];

    (input_values, owned_value)
}

#[test]
fn and() {
    let and = Function::And;

    // cases where result should be Value::On
    assert_eq!(and.evaluate(&[Value::On, Value::On], &[]), (vec![Value::On], vec![]));

    // cases where result should be Value::Off
    assert_eq!(and.evaluate(&[Value::On, Value::Off], &[]), (vec![Value::Off], vec![]));
    assert_eq!(and.evaluate(&[Value::Off, Value::On], &[]), (vec![Value::Off], vec![]));
    assert_eq!(and.evaluate(&[Value::Off, Value::Off], &[]), (vec![Value::Off], vec![]));
}

#[test]
fn or() {
    let or = Function::Or;

    // cases where result should be Value::On
    assert_eq!(or.evaluate(&[Value::On, Value::On], &[]), (vec![Value::On], vec![]));
    assert_eq!(or.evaluate(&[Value::On, Value::Off], &[]), (vec![Value::On], vec![]));
    assert_eq!(or.evaluate(&[Value::Off, Value::On], &[]), (vec![Value::On], vec![]));

    // cases where result should be Value::Off
    assert_eq!(or.evaluate(&[Value::Off, Value::Off], &[]), (vec![Value::Off], vec![]));
}

#[test]
fn not() {
    let not = Function::Not;

    // cases where result should be Value::On
    assert_eq!(not.evaluate(&[Value::Off], &[]), (vec![Value::On], vec![]));

    // cases where result should be Value::Off
    assert_eq!(not.evaluate(&[Value::On], &[]), (vec![Value::Off], vec![]));
}

#[test]
fn nand() {
    let nand = Function::Nand;

    // cases where result should be Value::On
    assert_eq!(nand.evaluate(&[Value::On, Value::Off], &[]), (vec![Value::On], vec![]));
    assert_eq!(nand.evaluate(&[Value::Off, Value::On], &[]), (vec![Value::On], vec![]));
    assert_eq!(nand.evaluate(&[Value::Off, Value::Off], &[]), (vec![Value::On], vec![]));

    // cases where result should be Value::Off
    assert_eq!(nand.evaluate(&[Value::On, Value::On], &[]), (vec![Value::Off], vec![]));
}

#[test]
fn nor() {
    let nor = Function::Nor;

    // cases where result should be Value::On
    assert_eq!(nor.evaluate(&[Value::Off, Value::Off], &[]), (vec![Value::On], vec![]));

    // cases where result should be Value::Off
    assert_eq!(nor.evaluate(&[Value::On, Value::On], &[]), (vec![Value::Off], vec![]));
    assert_eq!(nor.evaluate(&[Value::On, Value::Off], &[]), (vec![Value::Off], vec![]));
    assert_eq!(nor.evaluate(&[Value::Off, Value::On], &[]), (vec![Value::Off], vec![]));
}

#[test]
fn circuit() {
    let circuit = Function::Circuit(generate_and_circuit());

    // cases where result should be Value::On
    assert_eq!(circuit.evaluate(&[Value::On, Value::On], &[]), (vec![Value::On], vec![]));

    // cases where result should be Value::Off
    assert_eq!(circuit.evaluate(&[Value::On, Value::Off], &[]), (vec![Value::Off], vec![]));
    assert_eq!(circuit.evaluate(&[Value::Off, Value::On], &[]), (vec![Value::Off], vec![]));
    assert_eq!(circuit.evaluate(&[Value::Off, Value::Off], &[]), (vec![Value::Off], vec![]));
}

#[test]
fn flip_flop_rs() {
    let rs = Function::FlipFlopRS;

    let on_off = &[Value::On, Value::Off];
    let off_on = &[Value::Off, Value::On];
    let on_on = &[Value::On, Value::On];
    let off_off = &[Value::Off, Value::Off];

    let on = &[Value::On];
    let off = &[Value::Off];

    let (output_values, owned_values) = rs.evaluate(off_off, off);
    assert_eq!(output_values, off_on);
    assert_eq!(owned_values, off);

    let (output_values, owned_values) = rs.evaluate(off_off, on);
    assert_eq!(output_values, on_off);
    assert_eq!(owned_values, on);

    let (output_values, owned_values) = rs.evaluate(off_on, off);
    assert_eq!(output_values, off_on);
    assert_eq!(owned_values, off);

    let (output_values, owned_values) = rs.evaluate(off_on, on);
    assert_eq!(output_values, off_on);
    assert_eq!(owned_values, off);

    let (output_values, owned_values) = rs.evaluate(on_off, off);
    assert_eq!(output_values, on_off);
    assert_eq!(owned_values, on);

    let (output_values, owned_values) = rs.evaluate(on_off, on);
    assert_eq!(output_values, on_off);
    assert_eq!(owned_values, on);

    let (output_values, owned_values) = rs.evaluate(on_on, off);
    assert_eq!(output_values, off_off);
    assert_eq!(owned_values, off);

    let (output_values, owned_values) = rs.evaluate(on_on, on);
    assert_eq!(output_values, off_off);
    assert_eq!(owned_values, on);
}

#[test]
fn flip_flop_jk() {
    let jk = Function::FlipFlopJK;

    let on_off = &[Value::On, Value::Off];
    let off_on = &[Value::Off, Value::On];
    let on_on = &[Value::On, Value::On];

    let base = [Value::On, Value::Off];

    // in all these cases the output value should not change an thus be the same as the old state
    for &j in base.iter() {
        for &k in base.iter() {
            for &state in base.iter() {
                let (input_values, owned_values) = tripple_input(j, k, state, ClockState::StayOff);
                let (output_values, owned_values) = jk.evaluate(&input_values, &owned_values);
                assert_eq!(output_values, &[state, !state]);
                assert_eq!(owned_values, &[state, Value::Off]);

                let (input_values, owned_values) = tripple_input(j, k, state, ClockState::StayOn);
                let (output_values, owned_values) = jk.evaluate(&input_values, &owned_values);
                assert_eq!(output_values, &[state, !state]);
                assert_eq!(owned_values, &[state, Value::On]);

                let (input_values, owned_values) = tripple_input(
                    j,
                    k,
                    state,
                    ClockState::TransientToOff,
                );
                let (output_values, owned_values) = jk.evaluate(&input_values, &owned_values);
                assert_eq!(output_values, &[state, !state]);
                assert_eq!(owned_values, &[state, Value::Off]);
            }
        }
    }

    // these are the cases where actual logic is happening
    let (input_values, owned_values) = tripple_input(
        Value::Off,
        Value::Off,
        Value::Off,
        ClockState::TransientToOn,
    );
    let (output_values, owned_values) = jk.evaluate(&input_values, &owned_values);
    assert_eq!(output_values, off_on);
    assert_eq!(owned_values, off_on);

    let (input_values, owned_values) = tripple_input(
        Value::On,
        Value::Off,
        Value::Off,
        ClockState::TransientToOn,
    );
    let (output_values, owned_values) = jk.evaluate(&input_values, &owned_values);
    assert_eq!(output_values, on_off);
    assert_eq!(owned_values, on_on);

    let (input_values, owned_values) = tripple_input(
        Value::Off,
        Value::On,
        Value::Off,
        ClockState::TransientToOn,
    );
    let (output_values, owned_values) = jk.evaluate(&input_values, &owned_values);
    assert_eq!(output_values, off_on);
    assert_eq!(owned_values, off_on);

    let (input_values, owned_values) = tripple_input(
        Value::Off,
        Value::Off,
        Value::On,
        ClockState::TransientToOn,
    );
    let (output_values, owned_values) = jk.evaluate(&input_values, &owned_values);
    assert_eq!(output_values, on_off);
    assert_eq!(owned_values, on_on);

    let (input_values, owned_values) = tripple_input(
        Value::On,
        Value::On,
        Value::Off,
        ClockState::TransientToOn,
    );
    let (output_values, owned_values) = jk.evaluate(&input_values, &owned_values);
    assert_eq!(output_values, on_off);
    assert_eq!(owned_values, on_on);

    let (input_values, owned_values) = tripple_input(
        Value::On,
        Value::Off,
        Value::On,
        ClockState::TransientToOn,
    );
    let (output_values, owned_values) = jk.evaluate(&input_values, &owned_values);
    assert_eq!(output_values, on_off);
    assert_eq!(owned_values, on_on);

    let (input_values, owned_values) = tripple_input(
        Value::Off,
        Value::On,
        Value::On,
        ClockState::TransientToOn,
    );
    let (output_values, owned_values) = jk.evaluate(&input_values, &owned_values);
    assert_eq!(output_values, off_on);
    assert_eq!(owned_values, off_on);

    let (input_values, owned_values) = tripple_input(
        Value::On,
        Value::On,
        Value::On,
        ClockState::TransientToOn,
    );
    let (output_values, owned_values) = jk.evaluate(&input_values, &owned_values);
    assert_eq!(output_values, off_on);
    assert_eq!(owned_values, off_on);
}

#[test]
fn flip_flop_d() {
    let d = Function::FlipFlopD;

    let on_off = &[Value::On, Value::Off];
    let off_on = &[Value::Off, Value::On];
    let on_on = &[Value::On, Value::On];

    let base = [Value::On, Value::Off];

    // in all these cases the output value should not change an thus be the same as the old state
    for &d_input in base.iter() {
        for &state in base.iter() {
            let (input_values, owned_values) = dual_input(d_input, state, ClockState::StayOff);
            let (output_values, owned_values) = d.evaluate(&input_values, &owned_values);
            assert_eq!(output_values, &[state, !state]);
            assert_eq!(owned_values, &[state, Value::Off]);

            let (input_values, owned_values) = dual_input(d_input, state, ClockState::StayOn);
            let (output_values, owned_values) = d.evaluate(&input_values, &owned_values);
            assert_eq!(output_values, &[state, !state]);
            assert_eq!(owned_values, &[state, Value::On]);

            let (input_values, owned_values) = dual_input(
                d_input,
                state,
                ClockState::TransientToOff,
            );
            let (output_values, owned_values) = d.evaluate(&input_values, &owned_values);
            assert_eq!(output_values, &[state, !state]);
            assert_eq!(owned_values, &[state, Value::Off]);
        }
    }

    // these are the cases where actual logic is happening
    let (input_values, owned_values) = dual_input(Value::Off, Value::Off, ClockState::TransientToOn);
    let (output_values, owned_values) = d.evaluate(&input_values, &owned_values);
    assert_eq!(output_values, off_on);
    assert_eq!(owned_values, off_on);

    let (input_values, owned_values) = dual_input(Value::On, Value::Off, ClockState::TransientToOn);
    let (output_values, owned_values) = d.evaluate(&input_values, &owned_values);
    assert_eq!(output_values, on_off);
    assert_eq!(owned_values, on_on);

    let (input_values, owned_values) = dual_input(Value::Off, Value::On, ClockState::TransientToOn);
    let (output_values, owned_values) = d.evaluate(&input_values, &owned_values);
    assert_eq!(output_values, off_on);
    assert_eq!(owned_values, off_on);

    let (input_values, owned_values) = dual_input(Value::On, Value::On, ClockState::TransientToOn);
    let (output_values, owned_values) = d.evaluate(&input_values, &owned_values);
    assert_eq!(output_values, on_off);
    assert_eq!(owned_values, on_on);
}

#[test]
fn flip_flop_t() {
    let t = Function::FlipFlopT;

    let on_off = &[Value::On, Value::Off];
    let off_on = &[Value::Off, Value::On];
    let on_on = &[Value::On, Value::On];

    let base = [Value::On, Value::Off];

    // in all these cases the output value should not change an thus be the same as the old state
    for &t_input in base.iter() {
        for &state in base.iter() {
            let (input_values, owned_values) = dual_input(t_input, state, ClockState::StayOff);
            let (output_values, owned_values) = t.evaluate(&input_values, &owned_values);
            assert_eq!(output_values, &[state, !state]);
            assert_eq!(owned_values, &[state, Value::Off]);

            let (input_values, owned_values) = dual_input(t_input, state, ClockState::StayOn);
            let (output_values, owned_values) = t.evaluate(&input_values, &owned_values);
            assert_eq!(output_values, &[state, !state]);
            assert_eq!(owned_values, &[state, Value::On]);

            let (input_values, owned_values) = dual_input(
                t_input,
                state,
                ClockState::TransientToOff,
            );
            let (output_values, owned_values) = t.evaluate(&input_values, &owned_values);
            assert_eq!(output_values, &[state, !state]);
            assert_eq!(owned_values, &[state, Value::Off]);
        }
    }

    // these are the cases where actual logic is happening
    let (input_values, owned_values) = dual_input(Value::Off, Value::Off, ClockState::TransientToOn);
    let (output_values, owned_values) = t.evaluate(&input_values, &owned_values);
    assert_eq!(output_values, off_on);
    assert_eq!(owned_values, off_on);

    let (input_values, owned_values) = dual_input(Value::On, Value::Off, ClockState::TransientToOn);
    let (output_values, owned_values) = t.evaluate(&input_values, &owned_values);
    assert_eq!(output_values, on_off);
    assert_eq!(owned_values, on_on);

    let (input_values, owned_values) = dual_input(Value::Off, Value::On, ClockState::TransientToOn);
    let (output_values, owned_values) = t.evaluate(&input_values, &owned_values);
    assert_eq!(output_values, on_off);
    assert_eq!(owned_values, on_on);

    let (input_values, owned_values) = dual_input(Value::On, Value::On, ClockState::TransientToOn);
    let (output_values, owned_values) = t.evaluate(&input_values, &owned_values);
    assert_eq!(output_values, off_on);
    assert_eq!(owned_values, off_on);
}
