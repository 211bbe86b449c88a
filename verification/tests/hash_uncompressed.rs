use pedersen_gadget::{Boolean, Circuit, EdwardsPoint, Mode, Pedersen, PedersenCRH};

const ITERATIONS: usize = 10;
const MESSAGE: &str = "PedersenCircuit0";
const WINDOW_SIZE_MULTIPLIER: usize = 8;

/// A small xorshift generator, so that every run hashes the same inputs.
struct Bits {
    state: u64,
}

impl Bits {
    fn new(seed: u64) -> Self {
        Bits { state: seed | 1 }
    }

    fn next(&mut self) -> bool {
        self.state ^= self.state << 13;
        self.state ^= self.state >> 7;
        self.state ^= self.state << 17;
        (self.state >> 32) & 1 == 1
    }
}

fn check_hash_uncompressed<const NUM_WINDOWS: usize, const WINDOW_SIZE: usize>(
    mode: Mode,
    num_constants: usize,
    num_public: usize,
    num_private: usize,
    num_constraints: usize,
) {
    // Initialize the Pedersen hash.
    let native = PedersenCRH::<EdwardsPoint, NUM_WINDOWS, WINDOW_SIZE>::setup(MESSAGE);
    let circuit = Pedersen::<EdwardsPoint, NUM_WINDOWS, WINDOW_SIZE>::setup(MESSAGE);
    // Determine the number of inputs.
    let num_input_bits: usize = NUM_WINDOWS * WINDOW_SIZE;
    let mut bits = Bits::new(0x9e37_79b9_7f4a_7c15 ^ (num_input_bits as u64));

    for _ in 0..ITERATIONS {
        // Sample a random input.
        let input: Vec<bool> = (0..num_input_bits).map(|_| bits.next()).collect();
        // Compute the expected hash.
        let expected = native.hash(&input).expect("Failed to hash native input");
        // Prepare the circuit input.
        let circuit_input: Vec<Boolean> = Boolean::inject(mode, &input);

        // Perform the hash operation in a scope of its own.
        let mut scope = Circuit::new();
        let candidate = circuit.hash_uncompressed(&circuit_input, &mut scope);
        assert_eq!(num_constants, scope.num_constants());
        assert_eq!(num_public, scope.num_public());
        assert_eq!(num_private, scope.num_private());
        assert_eq!(num_constraints, scope.num_constraints());
        assert_eq!(expected, candidate.eject_value());
    }
}

#[test]
fn test_hash_uncompressed_constant() {
    // Set the number of windows, and modulate the window size.
    check_hash_uncompressed::<1, WINDOW_SIZE_MULTIPLIER>(Mode::Constant, 32, 0, 0, 0);
    check_hash_uncompressed::<1, { 2 * WINDOW_SIZE_MULTIPLIER }>(Mode::Constant, 64, 0, 0, 0);
    check_hash_uncompressed::<1, { 3 * WINDOW_SIZE_MULTIPLIER }>(Mode::Constant, 96, 0, 0, 0);
    check_hash_uncompressed::<1, { 4 * WINDOW_SIZE_MULTIPLIER }>(Mode::Constant, 128, 0, 0, 0);
    check_hash_uncompressed::<1, { 5 * WINDOW_SIZE_MULTIPLIER }>(Mode::Constant, 160, 0, 0, 0);

    // Set the window size, and modulate the number of windows.
    check_hash_uncompressed::<1, WINDOW_SIZE_MULTIPLIER>(Mode::Constant, 32, 0, 0, 0);
    check_hash_uncompressed::<2, WINDOW_SIZE_MULTIPLIER>(Mode::Constant, 64, 0, 0, 0);
    check_hash_uncompressed::<3, WINDOW_SIZE_MULTIPLIER>(Mode::Constant, 96, 0, 0, 0);
    check_hash_uncompressed::<4, WINDOW_SIZE_MULTIPLIER>(Mode::Constant, 128, 0, 0, 0);
    check_hash_uncompressed::<5, WINDOW_SIZE_MULTIPLIER>(Mode::Constant, 160, 0, 0, 0);
}

#[test]
fn test_hash_uncompressed_public() {
    // Set the number of windows, and modulate the window size.
    check_hash_uncompressed::<1, WINDOW_SIZE_MULTIPLIER>(Mode::Public, 16, 0, 45, 45);
    check_hash_uncompressed::<1, { 2 * WINDOW_SIZE_MULTIPLIER }>(Mode::Public, 32, 0, 93, 93);
    check_hash_uncompressed::<1, { 3 * WINDOW_SIZE_MULTIPLIER }>(Mode::Public, 48, 0, 141, 141);
    check_hash_uncompressed::<1, { 4 * WINDOW_SIZE_MULTIPLIER }>(Mode::Public, 64, 0, 189, 189);
    check_hash_uncompressed::<1, { 5 * WINDOW_SIZE_MULTIPLIER }>(Mode::Public, 80, 0, 237, 237);

    // Set the window size, and modulate the number of windows.
    check_hash_uncompressed::<1, WINDOW_SIZE_MULTIPLIER>(Mode::Public, 16, 0, 45, 45);
    check_hash_uncompressed::<2, WINDOW_SIZE_MULTIPLIER>(Mode::Public, 32, 0, 93, 93);
    check_hash_uncompressed::<3, WINDOW_SIZE_MULTIPLIER>(Mode::Public, 48, 0, 141, 141);
    check_hash_uncompressed::<4, WINDOW_SIZE_MULTIPLIER>(Mode::Public, 64, 0, 189, 189);
    check_hash_uncompressed::<5, WINDOW_SIZE_MULTIPLIER>(Mode::Public, 80, 0, 237, 237);
}

#[test]
fn test_hash_uncompressed_private() {
    // Set the number of windows, and modulate the window size.
    check_hash_uncompressed::<1, WINDOW_SIZE_MULTIPLIER>(Mode::Private, 16, 0, 45, 45);
    check_hash_uncompressed::<1, { 2 * WINDOW_SIZE_MULTIPLIER }>(Mode::Private, 32, 0, 93, 93);
    check_hash_uncompressed::<1, { 3 * WINDOW_SIZE_MULTIPLIER }>(Mode::Private, 48, 0, 141, 141);
    check_hash_uncompressed::<1, { 4 * WINDOW_SIZE_MULTIPLIER }>(Mode::Private, 64, 0, 189, 189);
    check_hash_uncompressed::<1, { 5 * WINDOW_SIZE_MULTIPLIER }>(Mode::Private, 80, 0, 237, 237);

    // Set the window size, and modulate the number of windows.
    check_hash_uncompressed::<1, WINDOW_SIZE_MULTIPLIER>(Mode::Private, 16, 0, 45, 45);
    check_hash_uncompressed::<2, WINDOW_SIZE_MULTIPLIER>(Mode::Private, 32, 0, 93, 93);
    check_hash_uncompressed::<3, WINDOW_SIZE_MULTIPLIER>(Mode::Private, 48, 0, 141, 141);
    check_hash_uncompressed::<4, WINDOW_SIZE_MULTIPLIER>(Mode::Private, 64, 0, 189, 189);
    check_hash_uncompressed::<5, WINDOW_SIZE_MULTIPLIER>(Mode::Private, 80, 0, 237, 237);
}
