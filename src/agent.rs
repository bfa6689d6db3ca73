use vstd::prelude::*;
use crate::game::{Game, Key, MapItem};
use crate::network::NeuralNetwork;
use crate::sensing::{get_input, is_reading_of, RayReading};
use crate::snake::near_grid;

verus! {

/// Score up to which fitness grows fourfold per point.
pub const SCORE_THRESHOLD: u32 = 10;

/// A run of exactly this many turns scores no fitness.
pub const DEGENERATE_TURNS: u32 = 22;

/// Turn cap of one evaluation run.
pub const MAX_TURNS: u32 = 2500;

/// Turns without a score change after which a run stops.
pub const STAGNATION_LIMIT: u32 = 150;

/// Actions in output order: up, right, down, left.
pub const ACTION_COUNT: usize = 4;

pub open spec fn four_pow(e: nat) -> nat
    decreases e,
{
    if e == 0 {
        1
    } else {
        4 * four_pow((e - 1) as nat)
    }
}

/// Fitness in hundredths: 0 for a run without score or of exactly
/// `degenerate_turns` turns; else `4^score * turns` up to the threshold and
/// `4^threshold * (score - threshold + 1) * turns` above it.
pub open spec fn fitness_spec(score: int, turns: int, degenerate_turns: int) -> int {
    if score == 0 || turns == degenerate_turns {
        0
    } else if score <= SCORE_THRESHOLD {
        four_pow(score as nat) * turns
    } else {
        four_pow(SCORE_THRESHOLD as nat) * (score - SCORE_THRESHOLD + 1) * turns
    }
}

/// The key an action index stands for.
pub open spec fn action_key(action: int) -> Option<Key> {
    if action == 0 {
        Some(Key::Up)
    } else if action == 1 {
        Some(Key::Right)
    } else if action == 2 {
        Some(Key::Down)
    } else if action == 3 {
        Some(Key::Left)
    } else {
        None
    }
}

fn power_of_four(e: u32) -> (r: u128)
    requires
        e <= SCORE_THRESHOLD,
    ensures
        r == four_pow(e as nat),
        r <= four_pow(SCORE_THRESHOLD as nat),
{
    proof {
        lemma_four_pow_threshold();
        lemma_four_pow_monotone(0, SCORE_THRESHOLD as nat);
    }
    let mut r: u128 = 1;
    let mut i: u32 = 0;
    while i < e
        invariant
            i <= e <= SCORE_THRESHOLD,
            r == four_pow(i as nat),
            r <= four_pow(SCORE_THRESHOLD as nat),
            four_pow(SCORE_THRESHOLD as nat) == 1048576,
        decreases e - i,
    {
        proof {
            lemma_four_pow_monotone((i + 1) as nat, SCORE_THRESHOLD as nat);
        }
        r = r * 4;
        i = i + 1;
    }
    r
}

proof fn lemma_four_pow_threshold()
    ensures
        four_pow(SCORE_THRESHOLD as nat) == 1048576,
{
    reveal_with_fuel(four_pow, 11);
}

proof fn lemma_four_pow_monotone(a: nat, b: nat)
    requires
        a <= b,
    ensures
        four_pow(a) <= four_pow(b),
    decreases b - a,
{
    if a < b {
        lemma_four_pow_monotone(a, (b - 1) as nat);
    }
}

/// Fitness in hundredths of a run that reached `score` in `turns` turns.
pub fn fitness(score: u32, turns: u32, degenerate_turns: u32) -> (r: u128)
    ensures
        r == fitness_spec(score as int, turns as int, degenerate_turns as int),
        r <= crate::evolution::MAX_FITNESS,
{
    if score == 0 || turns == degenerate_turns {
        return 0;
    }
    if score <= SCORE_THRESHOLD {
        let p = power_of_four(score);
        proof {
            lemma_four_pow_threshold();
            lemma_mul_bound(p as int, 1048576, turns as int, 1);
        }
        return p * (turns as u128);
    }
    let p = power_of_four(SCORE_THRESHOLD);
    proof {
        lemma_four_pow_threshold();
    }
    let k: u128 = (score - SCORE_THRESHOLD + 1) as u128;
    proof {
        lemma_mul_bound(p as int, 1048576, k as int, turns as int);
    }
    p * k * (turns as u128)
}

proof fn lemma_mul_bound(p: int, pmax: int, k: int, t: int)
    requires
        0 <= p <= pmax <= 1048576,
        0 <= k <= u32::MAX,
        0 <= t <= u32::MAX,
    ensures
        p * k <= u128::MAX,
        p * k * t <= crate::evolution::MAX_FITNESS,
        p * k * t <= u128::MAX,
        0 <= p * k,
        0 <= p * k * t,
{
    assert(0 <= p * k <= 1048576 * 4294967295) by (nonlinear_arith)
        requires
            0 <= p <= 1048576,
            0 <= k <= 4294967295,
    ;
    assert(0 <= p * k * t <= 1048576 * 4294967295 * 4294967295) by (nonlinear_arith)
        requires
            0 <= p * k <= 1048576 * 4294967295,
            0 <= t <= 4294967295,
    ;
}

/// With the score fixed, fitness does not fall as the turn count grows,
/// save that a run of exactly the degenerate length scores nothing; with
/// the turn count fixed, fitness does not fall as the score grows; and at
/// the threshold both formulas agree, so there is no jump.
pub proof fn lemma_fitness_monotone(s1: int, s2: int, t1: int, t2: int, degenerate_turns: int)
    requires
        0 <= s1 <= s2,
        0 <= t1 <= t2,
    ensures
        t2 != degenerate_turns ==> fitness_spec(s1, t1, degenerate_turns) <= fitness_spec(
            s1,
            t2,
            degenerate_turns,
        ),
        fitness_spec(s1, t1, degenerate_turns) <= fitness_spec(s2, t1, degenerate_turns),
        four_pow(SCORE_THRESHOLD as nat) * t1 == four_pow(SCORE_THRESHOLD as nat) * (
        SCORE_THRESHOLD - SCORE_THRESHOLD + 1) * t1,
{
    let c = four_pow(SCORE_THRESHOLD as nat) as int;
    lemma_four_pow_threshold();
    if s1 != 0 && t1 != degenerate_turns && t2 != degenerate_turns {
        if s1 <= SCORE_THRESHOLD {
            let p = four_pow(s1 as nat) as int;
            assert(p * t1 <= p * t2) by (nonlinear_arith)
                requires
                    0 <= p,
                    t1 <= t2,
            ;
        } else {
            let k = s1 - SCORE_THRESHOLD + 1;
            assert(c * k * t1 <= c * k * t2) by (nonlinear_arith)
                requires
                    0 <= c,
                    0 <= k,
                    t1 <= t2,
            ;
        }
    }
    if s1 != 0 && t1 != degenerate_turns {
        let p1 = four_pow(s1 as nat) as int;
        if s2 <= SCORE_THRESHOLD {
            lemma_four_pow_monotone(s1 as nat, s2 as nat);
            let p2 = four_pow(s2 as nat) as int;
            assert(p1 * t1 <= p2 * t1) by (nonlinear_arith)
                requires
                    0 <= p1 <= p2,
                    0 <= t1,
            ;
        } else if s1 <= SCORE_THRESHOLD {
            lemma_four_pow_monotone(s1 as nat, SCORE_THRESHOLD as nat);
            let k = s2 - SCORE_THRESHOLD + 1;
            assert(p1 * t1 <= c * k * t1) by (nonlinear_arith)
                requires
                    0 <= p1 <= c,
                    1 <= k,
                    0 <= t1,
            ;
        } else {
            let k1 = s1 - SCORE_THRESHOLD + 1;
            let k2 = s2 - SCORE_THRESHOLD + 1;
            assert(c * k1 * t1 <= c * k2 * t1) by (nonlinear_arith)
                requires
                    0 <= c,
                    0 <= k1 <= k2,
                    0 <= t1,
            ;
        }
    }
}

/// `g1` is `g0` after the request that `action` stands for, if any, and one step.
pub open(crate) spec fn act_spec(g0: Game, action: int, g1: Game) -> bool {
    match action_key(action) {
        Some(k) => exists|g: Game| Game::request_spec(g0, k, g) && Game::step_spec(g, g1),
        None => Game::step_spec(g0, g1),
    }
}

/// One simulation played by one network.
pub struct AiGame {
    pub(crate) game: Game,
    pub(crate) neural_network: NeuralNetwork,
}

impl AiGame {
    pub open(crate) spec fn wf(&self) -> bool {
        self.game.wf() && self.neural_network.wf()
    }

    pub open(crate) spec fn game_view(&self) -> Game {
        self.game
    }

    pub open(crate) spec fn network_view(&self) -> NeuralNetwork {
        self.neural_network
    }

    /// A fresh game on the default grid, played by a copy of `neural_network`.
    pub fn new_from(neural_network: &NeuralNetwork) -> (r: AiGame)
        requires
            neural_network.wf(),
        ensures
            r.wf(),
            r.game_view().is_default_start(),
            r.network_view().shape() == neural_network.shape(),
            r.network_view().params() == neural_network.params(),
    {
        AiGame { game: Game::new(), neural_network: neural_network.duplicate() }
    }

    /// `game`, played by a copy of `neural_network`.
    pub fn with_game(game: Game, neural_network: &NeuralNetwork) -> (r: AiGame)
        requires
            game.wf(),
            neural_network.wf(),
        ensures
            r.wf(),
            r.game_view() == game,
            r.network_view().shape() == neural_network.shape(),
            r.network_view().params() == neural_network.params(),
    {
        AiGame { game, neural_network: neural_network.duplicate() }
    }

    /// The same network with a fresh game on the default grid.
    pub fn duplicate(&self) -> (r: AiGame)
        requires
            self.wf(),
        ensures
            r.wf(),
            r.game_view().is_default_start(),
            r.network_view().shape() == self.network_view().shape(),
            r.network_view().params() == self.network_view().params(),
    {
        AiGame::new_from(&self.neural_network)
    }

    /// What the eight rays see from the head; the network's input.
    pub fn sense(&self) -> (r: Vec<RayReading>)
        requires
            self.wf(),
        ensures
            exists|m: Seq<Vec<MapItem>>|
                Game::is_map_of(self.game_view(), m) && is_reading_of(
                    m,
                    self.game_view().body()[0],
                    r@,
                ),
    {
        let map = self.game.get_map();
        let head = self.game.get_snake_head();
        assert(near_grid(self.game.snake.snake@[0], self.game.grid()));
        let r = get_input(&map, head);
        assert(Game::is_map_of(self.game_view(), map@) && is_reading_of(
            map@,
            self.game_view().body()[0],
            r@,
        ));
        r
    }

    /// Requests the direction of `action` (0 up, 1 right, 2 down, 3 left;
    /// any other leaves the request as it is), then advances one step.
    pub fn update(&mut self, action: usize)
        requires
            old(self).wf(),
            old(self).game_view().turn_count() < u32::MAX,
        ensures
            final(self).wf(),
            final(self).network_view() == old(self).network_view(),
            act_spec(old(self).game_view(), action as int, final(self).game_view()),
    {
        let ghost g0 = self.game;
        if action < ACTION_COUNT {
            let key = if action == 0 {
                Key::Up
            } else if action == 1 {
                Key::Right
            } else if action == 2 {
                Key::Down
            } else {
                Key::Left
            };
            self.game.handle_input(key);
            let ghost g1 = self.game;
            self.game.update();
            assert(action_key(action as int) == Some(key));
            assert(Game::request_spec(g0, key, g1) && Game::step_spec(g1, self.game));
            assert(exists|g: Game| Game::request_spec(g0, key, g) && Game::step_spec(g, self.game));
            assert(act_spec(g0, action as int, self.game));
        } else {
            self.game.update();
        }
    }

    pub fn get_game(&self) -> (r: &Game)
        ensures
            r == self.game_view(),
    {
        &self.game
    }

    pub fn get_neural_network(&self) -> (r: &NeuralNetwork)
        ensures
            r == self.network_view(),
    {
        &self.neural_network
    }

    /// Fitness in hundredths of the run so far.
    pub fn calc_fitness(&self) -> (r: u128)
        requires
            self.wf(),
        ensures
            r == fitness_spec(
                self.game_view().score_of(),
                self.game_view().turn_count(),
                DEGENERATE_TURNS as int,
            ),
    {
        fitness(self.game.get_score(), self.game.get_turns(), DEGENERATE_TURNS)
    }
}

/// Bookkeeping of one run: the last score seen and the turns since it changed.
pub struct RunTracker {
    pub last_score: u32,
    pub turns_from_last_score: u32,
}

impl RunTracker {
    pub fn new(score: u32) -> (r: RunTracker)
        ensures
            r.last_score == score,
            r.turns_from_last_score == 0,
    {
        RunTracker { last_score: score, turns_from_last_score: 0 }
    }

    /// A run goes on while the game is alive, the score changed within the
    /// last `stagnation_limit` turns and the turn cap is not reached.
    pub fn keep_running(&self, alive: bool, turns: u32, max_turns: u32, stagnation_limit: u32) -> (r:
        bool)
        ensures
            r == (alive && self.turns_from_last_score < stagnation_limit && turns < max_turns),
    {
        alive && self.turns_from_last_score < stagnation_limit && turns < max_turns
    }

    /// Records the score after a turn.
    pub fn observe(&mut self, score: u32)
        ensures
            score != old(self).last_score ==> final(self).last_score == score
                && final(self).turns_from_last_score == 0,
            score == old(self).last_score ==> final(self).last_score == score
                && final(self).turns_from_last_score == if old(self).turns_from_last_score
                < u32::MAX {
                old(self).turns_from_last_score + 1
            } else {
                u32::MAX as int
            },
    {
        if score != self.last_score {
            self.last_score = score;
            self.turns_from_last_score = 0;
        } else {
            self.turns_from_last_score = self.turns_from_last_score.saturating_add(1);
        }
    }
}

} // verus!
