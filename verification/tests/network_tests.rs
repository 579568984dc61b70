use evosim::fixed::SCALE;
use evosim::network::{LayerTopology, Network, Neuron, WeightsError};
use rand::SeedableRng;
use rand_chacha::ChaCha8Rng;

#[test]
fn creates_random_items() {
    // Every scalar a random neuron draws lies in [-SCALE, SCALE); the exact
    // draws under the fixed seed are pinned.
    let mut rng = ChaCha8Rng::from_seed(Default::default());
    let neuron = Neuron::random(&mut rng, 3);
    assert!(-SCALE <= neuron.bias && neuron.bias < SCALE);
    assert_eq!(neuron.weights.len(), 3);
    for w in &neuron.weights {
        assert!(-SCALE <= *w && *w < SCALE);
    }
    assert_eq!(neuron.bias, -64671);
    assert_eq!(neuron.weights, vec![17226i64, -35073, -32034]);
}

#[test]
fn relu_function_works() {
    let neuron = Neuron::new(0, vec![SCALE, SCALE, SCALE]);
    assert_eq!(neuron.propagate(&vec![SCALE, SCALE, SCALE]), 3 * SCALE);
}

#[test]
fn relu_function_works_with_negative() {
    let neuron = Neuron::new(0, vec![SCALE, SCALE, SCALE]);
    assert_eq!(neuron.propagate(&vec![-SCALE, -SCALE, -SCALE]), 0);
}

#[test]
fn relu_function_works_with_bias() {
    let neuron = Neuron::new(SCALE, vec![SCALE, SCALE, SCALE]);
    assert_eq!(neuron.propagate(&vec![SCALE, SCALE, SCALE]), 4 * SCALE);
}

#[test]
fn weights_then_from_weights_reproduces_the_network() {
    let mut rng = ChaCha8Rng::from_seed(Default::default());
    let topology = vec![
        LayerTopology { neurons: 4 },
        LayerTopology { neurons: 3 },
        LayerTopology { neurons: 2 },
    ];
    let original = Network::random(&mut rng, &topology);
    let flat = original.weights();
    assert_eq!(flat.len(), (1 + 4) * 3 + (1 + 3) * 2);
    let rebuilt = Network::from_weights(&flat, &topology).unwrap();
    assert_eq!(rebuilt.weights(), flat);
    let input = vec![SCALE, -SCALE, SCALE / 2, 0];
    assert_eq!(original.propagate(input.clone()), rebuilt.propagate(input));
}

#[test]
fn from_weights_rejects_a_shortfall() {
    let topology = vec![LayerTopology { neurons: 2 }, LayerTopology { neurons: 1 }];
    let flat = vec![1i64, 2];
    match Network::from_weights(&flat, &topology) {
        Err(e) => assert_eq!(e, WeightsError::NotEnough),
        Ok(_) => panic!("a shortfall must be rejected"),
    }
}

#[test]
fn from_weights_rejects_a_leftover() {
    let topology = vec![LayerTopology { neurons: 2 }, LayerTopology { neurons: 1 }];
    let flat = vec![1i64, 2, 3, 4];
    match Network::from_weights(&flat, &topology) {
        Err(e) => assert_eq!(e, WeightsError::TooMany),
        Ok(_) => panic!("a leftover must be rejected"),
    }
}

#[test]
fn from_weights_accepts_the_exact_count() {
    let topology = vec![LayerTopology { neurons: 2 }, LayerTopology { neurons: 1 }];
    let flat = vec![SCALE, SCALE, SCALE];
    let net = Network::from_weights(&flat, &topology).unwrap();
    assert_eq!(net.weights(), flat);
    // bias SCALE + (SCALE * SCALE + SCALE * 0) / SCALE == 2 * SCALE
    assert_eq!(net.propagate(vec![SCALE, 0]), vec![2 * SCALE]);
}

#[test]
fn propagate_is_deterministic() {
    let mut rng = ChaCha8Rng::from_seed(Default::default());
    let topology = vec![LayerTopology { neurons: 5 }, LayerTopology { neurons: 4 }];
    let net = Network::random(&mut rng, &topology);
    let input = vec![1000i64, -2000, 3000, 0, 65536];
    assert_eq!(net.propagate(input.clone()), net.propagate(input));
}
