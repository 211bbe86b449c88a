use pedersen_gadget::circuit::Entry;
use pedersen_gadget::{
    Boolean, CapacityExceeded, Circuit, Curve, EdwardsPoint, Mode, Pedersen, PedersenCRH,
};

const LABEL: &str = "test-label";

const BITS: [bool; 8] = [true, false, true, true, false, false, true, false];

fn counts(circuit: &Circuit) -> (usize, usize, usize, usize) {
    (
        circuit.num_constants(),
        circuit.num_public(),
        circuit.num_private(),
        circuit.num_constraints(),
    )
}

#[test]
fn fixed_input_of_one_window_of_eight() {
    let gadget = Pedersen::<EdwardsPoint, 1, 8>::setup(LABEL);
    let native = PedersenCRH::<EdwardsPoint, 1, 8>::setup(LABEL);
    let input = Boolean::inject(Mode::Constant, &BITS);
    let mut circuit = Circuit::new();
    let hash = gadget.hash_uncompressed(&input, &mut circuit);
    assert_eq!(counts(&circuit), (32, 0, 0, 0));
    assert_eq!(hash.eject_mode(), Mode::Constant);
    assert!(hash.is_constant());
    assert_eq!(hash.eject_value(), native.hash(&BITS).unwrap());
    assert_eq!(
        hash.eject_value(),
        EdwardsPoint { x: 2106596467186550629, y: 1387287145948549524 }
    );
}

#[test]
fn private_input_of_one_window_of_eight() {
    let gadget = Pedersen::<EdwardsPoint, 1, 8>::setup(LABEL);
    let native = PedersenCRH::<EdwardsPoint, 1, 8>::setup(LABEL);
    let input = Boolean::inject(Mode::Private, &BITS);
    let mut circuit = Circuit::new();
    let hash = gadget.hash_uncompressed(&input, &mut circuit);
    assert_eq!(counts(&circuit), (16, 0, 45, 45));
    assert_eq!(hash.eject_mode(), Mode::Private);
    assert!(!hash.is_constant());
    assert_eq!(hash.eject_value(), native.hash(&BITS).unwrap());
    assert_eq!(
        hash.eject_value(),
        EdwardsPoint { x: 2106596467186550629, y: 1387287145948549524 }
    );
}

#[test]
fn private_input_of_one_window_of_sixteen() {
    let gadget = Pedersen::<EdwardsPoint, 1, 16>::setup(LABEL);
    let bits: Vec<bool> = (0..16).map(|i| i % 3 == 0).collect();
    let input = Boolean::inject(Mode::Private, &bits);
    let mut circuit = Circuit::new();
    let hash = gadget.hash_uncompressed(&input, &mut circuit);
    assert_eq!(counts(&circuit), (32, 0, 93, 93));
    assert_eq!(
        hash.eject_value(),
        EdwardsPoint { x: 1664481657673819356, y: 99269887177987171 }
    );
}

#[test]
fn public_input_costs_what_a_private_one_costs() {
    let gadget = Pedersen::<EdwardsPoint, 1, 8>::setup(LABEL);
    let input = Boolean::inject(Mode::Public, &BITS);
    let mut circuit = Circuit::new();
    let hash = gadget.hash_uncompressed(&input, &mut circuit);
    assert_eq!(counts(&circuit), (16, 0, 45, 45));
    assert_eq!(hash.eject_mode(), Mode::Private);
}

#[test]
fn short_input_hashes_as_its_padding() {
    let gadget = Pedersen::<EdwardsPoint, 1, 8>::setup(LABEL);
    let short = Boolean::inject(Mode::Private, &BITS[..5]);
    let mut long = Boolean::inject(Mode::Private, &BITS[..5]);
    long.push(Boolean::constant(false));
    long.push(Boolean::constant(false));
    long.push(Boolean::constant(false));

    let mut first = Circuit::new();
    let mut second = Circuit::new();
    let of_short = gadget.hash_uncompressed(&short, &mut first);
    let of_long = gadget.hash_uncompressed(&long, &mut second);
    assert_eq!(of_short, of_long);
    assert_eq!(counts(&first), counts(&second));
    assert_eq!(counts(&first), (16, 0, 45, 45));
    assert_eq!(
        of_short.eject_value(),
        EdwardsPoint { x: 1266552964051311570, y: 1053412838814685171 }
    );
}

#[test]
fn short_plain_input_hashes_as_its_padding() {
    let native = PedersenCRH::<EdwardsPoint, 1, 8>::setup(LABEL);
    let padded = [BITS[0], BITS[1], BITS[2], BITS[3], BITS[4], false, false, false];
    assert_eq!(native.hash(&BITS[..5]), native.hash(&padded));
    assert_eq!(
        native.hash(&BITS[..5]),
        Ok(EdwardsPoint { x: 1266552964051311570, y: 1053412838814685171 })
    );
}

#[test]
fn short_fixed_input_stays_free_of_constraints() {
    let gadget = Pedersen::<EdwardsPoint, 1, 8>::setup(LABEL);
    let input = Boolean::inject(Mode::Constant, &BITS[..5]);
    let mut circuit = Circuit::new();
    let hash = gadget.hash_uncompressed(&input, &mut circuit);
    assert_eq!(counts(&circuit), (32, 0, 0, 0));
    assert!(hash.is_constant());
}

#[test]
fn long_input_is_refused() {
    let gadget = Pedersen::<EdwardsPoint, 1, 8>::setup(LABEL);
    let bits = [true; 9];
    let input = Boolean::inject(Mode::Private, &bits);
    let mut circuit = Circuit::new();
    circuit.allocate(Mode::Public);
    circuit.allocate(Mode::Private);
    circuit.enforce();
    let before = circuit.clone();

    let outcome = gadget.try_hash_uncompressed(&input, &mut circuit);
    assert_eq!(outcome, Err(CapacityExceeded { length: 9, capacity: 8 }));
    assert_eq!(circuit, before);
    assert_eq!(counts(&circuit), (0, 1, 1, 1));
    assert_eq!(circuit.len(), 3);
}

#[test]
fn long_plain_input_is_refused() {
    let native = PedersenCRH::<EdwardsPoint, 1, 8>::setup(LABEL);
    let outcome = native.hash(&[false; 9]);
    assert_eq!(outcome, Err(CapacityExceeded { length: 9, capacity: 8 }));
    let error = outcome.unwrap_err();
    assert_eq!(error.message(), "incorrect input length for pedersen hash");
    assert_eq!(
        PedersenCRH::<EdwardsPoint, 2, 3>::setup(LABEL).hash(&[true; 20]),
        Err(CapacityExceeded { length: 20, capacity: 6 })
    );
}

#[test]
fn input_at_capacity_is_hashed() {
    let gadget = Pedersen::<EdwardsPoint, 1, 8>::setup(LABEL);
    let input = Boolean::inject(Mode::Private, &BITS);
    let mut circuit = Circuit::new();
    let outcome = gadget.try_hash_uncompressed(&input, &mut circuit);
    assert_eq!(
        outcome.unwrap().eject_value(),
        EdwardsPoint { x: 2106596467186550629, y: 1387287145948549524 }
    );
    assert_eq!(counts(&circuit), (16, 0, 45, 45));
}

#[test]
fn empty_input_hashes_to_the_identity() {
    let gadget = Pedersen::<EdwardsPoint, 1, 8>::setup(LABEL);
    let mut circuit = Circuit::new();
    let hash = gadget.hash_uncompressed(&[], &mut circuit);
    assert_eq!(hash.eject_value(), EdwardsPoint::zero());
    assert_eq!(hash.eject_value(), EdwardsPoint { x: 0, y: 1 });
    assert!(hash.is_constant());
    assert_eq!(counts(&circuit), (32, 0, 0, 0));

    let native = PedersenCRH::<EdwardsPoint, 1, 8>::setup(LABEL);
    assert_eq!(native.hash(&[]), Ok(EdwardsPoint { x: 0, y: 1 }));
    assert_eq!(native.hash(&[false; 8]), Ok(EdwardsPoint { x: 0, y: 1 }));
}

#[test]
fn single_set_bit_hashes_to_its_base() {
    let gadget = Pedersen::<EdwardsPoint, 1, 8>::setup(LABEL);
    let mut circuit = Circuit::new();
    let input = [Boolean::new(Mode::Private, true)];
    let hash = gadget.hash_uncompressed(&input, &mut circuit);
    assert_eq!(hash.eject_value(), gadget.base(0, 0).eject_value());
    assert_eq!(
        hash.eject_value(),
        EdwardsPoint { x: 1119964652588539242, y: 1122253532312173338 }
    );

    let gadget = Pedersen::<EdwardsPoint, 2, 3>::setup(LABEL);
    let native = PedersenCRH::<EdwardsPoint, 2, 3>::setup(LABEL);
    for place in 0..6 {
        for length in place + 1..=6 {
            let mut bits = vec![false; length];
            bits[place] = true;
            let input = Boolean::inject(Mode::Public, &bits);
            let hash = gadget.hash_uncompressed(&input, &mut circuit);
            assert_eq!(hash.eject_value(), native.base(place / 3, place % 3));
            assert_eq!(native.hash(&bits), Ok(native.base(place / 3, place % 3)));
        }
    }
}

#[test]
fn one_private_bit_among_fixed_ones_costs_the_full_price() {
    let gadget = Pedersen::<EdwardsPoint, 1, 8>::setup(LABEL);
    for place in 0..8 {
        let mut input = Boolean::inject(Mode::Constant, &BITS);
        input[place] = Boolean::new(Mode::Private, BITS[place]);
        let mut circuit = Circuit::new();
        let hash = gadget.hash_uncompressed(&input, &mut circuit);
        assert_eq!(counts(&circuit), (16, 0, 45, 45));
        assert_eq!(hash.eject_mode(), Mode::Private);
        assert_eq!(
            hash.eject_value(),
            EdwardsPoint { x: 2106596467186550629, y: 1387287145948549524 }
        );
    }
}

#[test]
fn hashing_adds_to_what_the_circuit_holds() {
    let gadget = Pedersen::<EdwardsPoint, 2, 4>::setup(LABEL);
    let input = Boolean::inject(Mode::Private, &BITS);
    let mut circuit = Circuit::new();
    circuit.fix(5);
    circuit.allocate(Mode::Public);
    circuit.witness(11);
    circuit.enforce();
    circuit.enforce();
    let before = circuit.clone();
    gadget.hash_uncompressed(&input, &mut circuit);
    assert_eq!(counts(&circuit), (5 + 16, 1, 11 + 45, 13 + 45));
    for index in 0..before.len() {
        assert_eq!(circuit.entry(index), before.entry(index));
    }
    gadget.hash_uncompressed(&input, &mut circuit);
    assert_eq!(counts(&circuit), (5 + 32, 1, 11 + 90, 13 + 90));
}

#[test]
fn layout_of_a_private_hash_is_laid_out_sum_by_sum() {
    let gadget = Pedersen::<EdwardsPoint, 1, 2>::setup(LABEL);
    let input = Boolean::inject(Mode::Private, &[true, true]);
    let mut circuit = Circuit::new();
    gadget.hash_uncompressed(&input, &mut circuit);

    let fixed = Entry::Wire(Mode::Constant);
    let witness = Entry::Wire(Mode::Private);
    let constraint = Entry::Constraint;
    let mut expected = vec![fixed, fixed];
    for _ in 0..3 {
        expected.push(witness);
        expected.push(constraint);
    }
    expected.push(fixed);
    expected.push(fixed);
    for _ in 0..6 {
        expected.push(witness);
        expected.push(constraint);
    }
    assert_eq!(circuit.len(), expected.len());
    for index in 0..expected.len() {
        assert_eq!(circuit.entry(index), expected[index]);
    }
}

#[test]
fn layout_of_a_fixed_hash_is_fixed_values_only() {
    let gadget = Pedersen::<EdwardsPoint, 3, 2>::setup(LABEL);
    let input = Boolean::inject(Mode::Constant, &[true, false, true]);
    let mut circuit = Circuit::new();
    gadget.hash_uncompressed(&input, &mut circuit);
    assert_eq!(circuit.len(), 24);
    for index in 0..24 {
        assert_eq!(circuit.entry(index), Entry::Wire(Mode::Constant));
    }
}

#[test]
fn windows_split_the_table_in_order() {
    let wide = Pedersen::<EdwardsPoint, 1, 8>::setup(LABEL);
    let tall = Pedersen::<EdwardsPoint, 2, 4>::setup(LABEL);
    for place in 0..8 {
        assert_eq!(wide.base(0, place), tall.base(place / 4, place % 4));
    }
    let input = Boolean::inject(Mode::Private, &BITS);
    let mut first = Circuit::new();
    let mut second = Circuit::new();
    assert_eq!(
        wide.hash_uncompressed(&input, &mut first),
        tall.hash_uncompressed(&input, &mut second)
    );
}

#[test]
fn gadget_without_positions_hashes_nothing() {
    let gadget = Pedersen::<EdwardsPoint, 0, 5>::setup(LABEL);
    let mut circuit = Circuit::new();
    let hash = gadget.hash_uncompressed(&[], &mut circuit);
    assert_eq!(hash.eject_value(), EdwardsPoint::zero());
    assert!(hash.is_constant());
    assert_eq!(circuit.len(), 0);
    let input = [Boolean::new(Mode::Private, true)];
    assert_eq!(
        gadget.try_hash_uncompressed(&input, &mut circuit),
        Err(CapacityExceeded { length: 1, capacity: 0 })
    );
    assert_eq!(circuit.len(), 0);

    let plain = PedersenCRH::<EdwardsPoint, 3, 0>::setup(LABEL);
    assert_eq!(plain.hash(&[]), Ok(EdwardsPoint::zero()));
    assert_eq!(plain.hash(&[false]), Err(CapacityExceeded { length: 1, capacity: 0 }));
}
