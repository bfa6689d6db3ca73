use neuro_snake::agent::{fitness, AiGame, RunTracker, DEGENERATE_TURNS};
use neuro_snake::evolution::{best_index, generation_plan, mean_fitness, Trainer};
use neuro_snake::game::Game;
use neuro_snake::network::NeuralNetwork;

fn network(shape: &[u32], seed: u64) -> NeuralNetwork {
    let count: usize = shape
        .windows(2)
        .map(|w| (w[0] * w[1] + w[1]) as usize)
        .sum();
    let params: Vec<u64> = (0..count)
        .map(|i| (0.001 * (i as f64 + 1.0) * (seed as f64 + 1.0)).to_bits())
        .collect();
    NeuralNetwork::from_parameters(&shape.to_vec(), &params).unwrap()
}

#[test]
fn network_parameters_follow_layer_order() {
    let params: Vec<u64> = (1..=9).collect();
    let net = NeuralNetwork::from_parameters(&vec![2, 2, 1], &params).unwrap();
    assert_eq!(net.parameters(), params);
    let layers = net.layers();
    assert_eq!(layers.len(), 2);
    assert_eq!(layers[0].weights(), &vec![1, 2, 3, 4]);
    assert_eq!(layers[0].biases(), &vec![5, 6]);
    assert_eq!(layers[1].weights(), &vec![7, 8]);
    assert_eq!(layers[1].biases(), &vec![9]);
    assert_eq!(layers[1].input_size(), 2);
    assert_eq!(layers[1].output_size(), 1);
}

#[test]
fn malformed_shapes_and_counts_are_rejected() {
    assert!(NeuralNetwork::from_parameters(&vec![3], &vec![]).is_none());
    assert!(NeuralNetwork::from_parameters(&vec![2, 0], &vec![]).is_none());
    assert!(NeuralNetwork::from_parameters(&vec![2, 1], &vec![1, 2]).is_none());
    assert!(NeuralNetwork::from_parameters(&vec![2, 1], &vec![1, 2, 3, 4]).is_none());
    assert!(NeuralNetwork::from_parameters(&vec![2, 1], &vec![1, 2, 3]).is_some());
}

#[test]
fn serialized_values_are_little_endian_doubles() {
    let params = vec![1.0f64.to_bits(), (-2.5f64).to_bits(), 0.0f64.to_bits()];
    let net = NeuralNetwork::from_parameters(&vec![2, 1], &params).unwrap();
    let bytes = net.serialize();
    assert_eq!(bytes.len(), 24);
    assert_eq!(&bytes[0..8], &1.0f64.to_le_bytes());
    assert_eq!(&bytes[8..16], &(-2.5f64).to_le_bytes());
    assert_eq!(&bytes[16..24], &[0u8; 8]);
}

#[test]
fn deserialize_reproduces_every_parameter() {
    let shape = vec![24u32, 40, 40, 4];
    let net = network(&shape, 3);
    let bytes = net.serialize();
    assert_eq!(bytes.len(), 8 * (24 * 40 + 40 + 40 * 40 + 40 + 40 * 4 + 4));
    let back = NeuralNetwork::deserialize(&shape, &bytes).unwrap();
    assert_eq!(back.parameters(), net.parameters());
    assert_eq!(back.serialize(), bytes);
}

#[test]
fn deserialize_rejects_short_files_and_ignores_extra_bytes() {
    let shape = vec![2u32, 1];
    let net = network(&shape, 1);
    let mut bytes = net.serialize();
    assert!(NeuralNetwork::deserialize(&shape, &bytes[..23].to_vec()).is_none());
    assert!(NeuralNetwork::deserialize(&vec![2u32], &bytes).is_none());
    bytes.extend_from_slice(&[7u8; 5]);
    let back = NeuralNetwork::deserialize(&shape, &bytes).unwrap();
    assert_eq!(back.parameters(), net.parameters());
}

#[test]
fn duplicate_is_an_independent_copy() {
    let net = network(&[3, 2], 5);
    let copy = net.duplicate();
    assert_eq!(copy.serialize(), net.serialize());
    drop(net);
    assert_eq!(copy.parameters().len(), 8);
}

#[test]
fn fitness_formula_values() {
    assert_eq!(fitness(0, 100, DEGENERATE_TURNS), 0);
    assert_eq!(fitness(3, DEGENERATE_TURNS, DEGENERATE_TURNS), 0);
    assert_eq!(fitness(1, 10, DEGENERATE_TURNS), 40);
    assert_eq!(fitness(2, 50, DEGENERATE_TURNS), 800);
    assert_eq!(fitness(10, 1, DEGENERATE_TURNS), 1 << 20);
    assert_eq!(fitness(11, 1, DEGENERATE_TURNS), 2 << 20);
    assert_eq!(fitness(13, 100, DEGENERATE_TURNS), (1u128 << 20) * 4 * 100);
    assert_eq!(fitness(u32::MAX, u32::MAX, 0), (1u128 << 20) * (u32::MAX as u128 - 9) * u32::MAX as u128);
}

#[test]
fn fitness_is_monotone_and_has_no_jump_at_threshold() {
    for s in 0u32..15 {
        for t in 1u32..60 {
            if t + 1 != DEGENERATE_TURNS {
                assert!(fitness(s, t, DEGENERATE_TURNS) <= fitness(s, t + 1, DEGENERATE_TURNS));
            }
            assert!(fitness(s, t, DEGENERATE_TURNS) <= fitness(s + 1, t, DEGENERATE_TURNS));
        }
    }
    assert_eq!(fitness(10, 7, DEGENERATE_TURNS), (1u128 << 20) * (10 - 9) * 7);
}

#[test]
fn straight_run_reaches_target_three_cells_ahead() {
    let net = network(&[24, 4], 0);
    let mut agent = AiGame::with_game(Game::with_target(10, (6, 5)), &net);
    agent.update(1);
    agent.update(1);
    assert_eq!(agent.get_game().get_score(), 0);
    agent.update(1);
    assert_eq!(agent.get_game().get_score(), 1);
    assert_eq!(agent.get_game().get_turns(), 3);
    assert!(agent.get_game().is_alive());
}

#[test]
fn agent_next_to_wall_dies_with_zero_fitness() {
    let net = network(&[24, 4], 0);
    let mut agent = AiGame::with_game(Game::with_target(4, (0, 0)), &net);
    agent.update(4);
    assert!(!agent.get_game().is_alive());
    assert_eq!(agent.get_game().get_turns(), 1);
    assert_eq!(agent.calc_fitness(), 0);
}

#[test]
fn agent_actions_map_to_directions() {
    let net = network(&[24, 4], 0);
    let mut agent = AiGame::with_game(Game::with_target(10, (0, 0)), &net);
    agent.update(2);
    assert_eq!(agent.get_game().get_snake_head(), (3, 6));
    agent.update(3);
    assert_eq!(agent.get_game().get_snake_head(), (2, 6));
    agent.update(0);
    assert_eq!(agent.get_game().get_snake_head(), (2, 5));
    agent.update(1);
    assert_eq!(agent.get_game().get_snake_head(), (3, 5));
    assert_eq!(agent.sense().len(), 8);
}

#[test]
fn agent_duplicate_restarts_the_game() {
    let net = network(&[24, 4], 2);
    let mut agent = AiGame::new_from(&net);
    agent.update(1);
    let copy = agent.duplicate();
    assert_eq!(copy.get_game().get_turns(), 0);
    assert_eq!(copy.get_neural_network().serialize(), net.serialize());
}

#[test]
fn run_tracker_counts_turns_without_score() {
    let mut t = RunTracker::new(0);
    assert!(t.keep_running(true, 0, 2500, 2));
    t.observe(0);
    t.observe(0);
    assert_eq!(t.turns_from_last_score, 2);
    assert!(!t.keep_running(true, 2, 2500, 2));
    t.observe(1);
    assert_eq!(t.turns_from_last_score, 0);
    assert_eq!(t.last_score, 1);
    assert!(t.keep_running(true, 3, 2500, 2));
    assert!(!t.keep_running(false, 3, 2500, 2));
    assert!(!t.keep_running(true, 2500, 2500, 2));
}

#[test]
fn best_index_takes_first_of_equal_maxima() {
    assert_eq!(best_index(&vec![3, 5, 5, 1]), 1);
    assert_eq!(best_index(&vec![7]), 0);
    assert_eq!(best_index(&vec![0, 0, 9]), 2);
}

#[test]
fn mean_fitness_rounds_down() {
    assert_eq!(mean_fitness(&vec![1, 2, 4]), 2);
    assert_eq!(mean_fitness(&vec![10, 20]), 15);
}

#[test]
fn generation_plan_splits_population() {
    assert_eq!(generation_plan(70), (8, 60));
    assert_eq!(generation_plan(5), (3, 0));
    assert_eq!(generation_plan(2), (0, 0));
}

#[test]
fn trainer_keeps_only_improvements() {
    let first = network(&[24, 4], 1);
    let second = network(&[24, 4], 2);
    let mut trainer = Trainer::new(&first);
    assert_eq!(trainer.best_fitness(), 0);
    assert!(trainer.consider(&second, 50));
    assert_eq!(trainer.best_network().serialize(), second.serialize());
    assert!(!trainer.consider(&first, 50));
    assert_eq!(trainer.best_network().serialize(), second.serialize());
    assert_eq!(trainer.best_fitness(), 50);
}

#[test]
fn next_generation_carries_two_identical_members() {
    let champion = network(&[24, 4], 4);
    let best = network(&[24, 4], 9);
    let mut trainer = Trainer::new(&best);
    let (nf, nm) = generation_plan(12);
    let fresh: Vec<NeuralNetwork> = (0..nf).map(|i| network(&[24, 4], 20 + i as u64)).collect();
    let mutated: Vec<NeuralNetwork> = (0..nm).map(|i| network(&[24, 4], 40 + i as u64)).collect();
    let next = trainer.next_generation(&champion, &fresh, &mutated);
    assert_eq!(next.len(), 12);
    assert_eq!(next[0].get_neural_network().serialize(), champion.serialize());
    assert_eq!(next[1].get_neural_network().serialize(), best.serialize());
    assert_eq!(next[2].get_neural_network().serialize(), fresh[0].serialize());
    assert_eq!(next[11].get_neural_network().serialize(), mutated[1].serialize());
    assert_eq!(trainer.generation(), 1);
    assert!(next.iter().all(|a| a.get_game().get_turns() == 0));
}
