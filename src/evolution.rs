use vstd::prelude::*;
use crate::agent::AiGame;
use crate::network::NeuralNetwork;

verus! {

/// Members of each generation.
pub const POPULATION_SIZE: usize = 70;

/// Extra runs averaged when judging a generation's champion.
pub const AVERAGE_AMOUNT: usize = 10;

/// Freshly drawn networks added to each generation.
pub const FRESH_COUNT: usize = 8;

/// A bound, `2^84`, on the fitness in hundredths of any run.
pub const MAX_FITNESS: u128 = 19342813113834066795298816;

pub open spec fn sum_of(v: Seq<u128>) -> int
    decreases v.len(),
{
    if v.len() == 0 {
        0
    } else {
        sum_of(v.drop_last()) + v.last()
    }
}

/// The first index holding the greatest value: the head of a stable sort,
/// largest first.
pub fn best_index(fitness: &Vec<u128>) -> (r: usize)
    requires
        fitness@.len() > 0,
    ensures
        r < fitness@.len(),
        forall|j: int| 0 <= j < fitness@.len() ==> #[trigger] fitness@[j] <= fitness@[r as int],
        forall|j: int| 0 <= j < r ==> #[trigger] fitness@[j] < fitness@[r as int],
{
    let mut best: usize = 0;
    let mut i: usize = 1;
    while i < fitness.len()
        invariant
            1 <= i <= fitness@.len(),
            best < i,
            forall|j: int| 0 <= j < i ==> #[trigger] fitness@[j] <= fitness@[best as int],
            forall|j: int| 0 <= j < best ==> #[trigger] fitness@[j] < fitness@[best as int],
        decreases fitness@.len() - i,
    {
        if fitness[i] > fitness[best] {
            best = i;
        }
        i = i + 1;
    }
    best
}

/// The mean of the values, rounded down.
pub fn mean_fitness(values: &Vec<u128>) -> (r: u128)
    requires
        0 < values@.len() <= u32::MAX,
        forall|i: int| 0 <= i < values@.len() ==> #[trigger] values@[i] <= MAX_FITNESS,
    ensures
        r == sum_of(values@) / (values@.len() as int),
{
    let mut total: u128 = 0;
    let mut i: usize = 0;
    while i < values.len()
        invariant
            0 < values@.len() <= u32::MAX,
            forall|k: int| 0 <= k < values@.len() ==> #[trigger] values@[k] <= MAX_FITNESS,
            i <= values@.len(),
            total == sum_of(values@.take(i as int)),
            total <= i * MAX_FITNESS,
        decreases values@.len() - i,
    {
        proof {
            assert(values@.take(i + 1).drop_last() =~= values@.take(i as int));
            assert((i + 1) * MAX_FITNESS <= u32::MAX * MAX_FITNESS) by (nonlinear_arith)
                requires
                    i + 1 <= u32::MAX,
            ;
        }
        total = total + values[i];
        i = i + 1;
    }
    assert(values@.take(values@.len() as int) =~= values@);
    total / (values.len() as u128)
}

/// How a generation of `population_size` members is made up past the two
/// carried over: `(fresh, mutated)` counts.
pub fn generation_plan(population_size: usize) -> (r: (usize, usize))
    requires
        population_size >= 2,
    ensures
        r.0 == if population_size - 2 < FRESH_COUNT {
            population_size - 2
        } else {
            FRESH_COUNT as int
        },
        2 + r.0 + r.1 == population_size,
{
    let rest = population_size - 2;
    let fresh = if rest < FRESH_COUNT {
        rest
    } else {
        FRESH_COUNT
    };
    (fresh, rest - fresh)
}

/// State kept across generations: the best network seen, the averaged
/// fitness that earned it that place, and the generation number.
pub struct Trainer {
    pub(crate) best_fitness: u128,
    pub(crate) best_of_all: NeuralNetwork,
    pub(crate) generation: u64,
}

impl Trainer {
    pub open(crate) spec fn wf(&self) -> bool {
        self.best_of_all.wf()
    }

    pub open(crate) spec fn best_view(&self) -> NeuralNetwork {
        self.best_of_all
    }

    pub open(crate) spec fn best_score(&self) -> int {
        self.best_fitness as int
    }

    pub open(crate) spec fn generation_number(&self) -> int {
        self.generation as int
    }

    /// Training state before the first generation, with `initial` as best so far.
    pub fn new(initial: &NeuralNetwork) -> (r: Trainer)
        requires
            initial.wf(),
        ensures
            r.wf(),
            r.best_score() == 0,
            r.generation_number() == 0,
            r.best_view().shape() == initial.shape(),
            r.best_view().params() == initial.params(),
    {
        Trainer { best_fitness: 0, best_of_all: initial.duplicate(), generation: 0 }
    }

    /// Keeps a copy of `champion` as the best network when its averaged
    /// fitness beats the best so far; says whether it did.
    pub fn consider(&mut self, champion: &NeuralNetwork, average: u128) -> (r: bool)
        requires
            old(self).wf(),
            champion.wf(),
        ensures
            final(self).wf(),
            r == (old(self).best_score() < average),
            final(self).generation_number() == old(self).generation_number(),
            r ==> final(self).best_score() == average && final(self).best_view().shape()
                == champion.shape() && final(self).best_view().params() == champion.params(),
            !r ==> final(self).best_score() == old(self).best_score() && final(self).best_view()
                == old(self).best_view(),
    {
        if self.best_fitness < average {
            self.best_fitness = average;
            self.best_of_all = champion.duplicate();
            true
        } else {
            false
        }
    }

    pub fn best_network(&self) -> (r: &NeuralNetwork)
        ensures
            r == self.best_view(),
    {
        &self.best_of_all
    }

    pub fn best_fitness(&self) -> (r: u128)
        ensures
            r == self.best_score(),
    {
        self.best_fitness
    }

    pub fn generation(&self) -> (r: u64)
        ensures
            r == self.generation_number(),
    {
        self.generation
    }

    /// The next generation: the champion of this one, the best network so
    /// far, the fresh networks, then the mutated copies, each on a fresh game.
    /// Advances the generation number.
    pub fn next_generation(
        &mut self,
        champion: &NeuralNetwork,
        fresh: &Vec<NeuralNetwork>,
        mutated: &Vec<NeuralNetwork>,
    ) -> (r: Vec<AiGame>)
        requires
            old(self).wf(),
            champion.wf(),
            old(self).generation_number() < u64::MAX,
            forall|i: int| 0 <= i < fresh@.len() ==> (#[trigger] fresh@[i]).wf(),
            forall|i: int| 0 <= i < mutated@.len() ==> (#[trigger] mutated@[i]).wf(),
            2 + fresh@.len() + mutated@.len() <= usize::MAX,
        ensures
            final(self).wf(),
            final(self).best_view() == old(self).best_view(),
            final(self).best_score() == old(self).best_score(),
            final(self).generation_number() == old(self).generation_number() + 1,
            r@.len() == 2 + fresh@.len() + mutated@.len(),
            forall|i: int|
                0 <= i < r@.len() ==> (#[trigger] r@[i]).wf() && r@[i].game_view().is_default_start(),
            r@[0].network_view().shape() == champion.shape(),
            r@[0].network_view().params() == champion.params(),
            r@[1].network_view().shape() == old(self).best_view().shape(),
            r@[1].network_view().params() == old(self).best_view().params(),
            forall|i: int|
                0 <= i < fresh@.len() ==> (#[trigger] r@[2 + i]).network_view().params()
                    == fresh@[i].params() && r@[2 + i].network_view().shape() == fresh@[i].shape(),
            forall|i: int|
                0 <= i < mutated@.len() ==> (#[trigger] r@[2 + fresh@.len() + i]).network_view().params()
                    == mutated@[i].params() && r@[2 + fresh@.len() + i].network_view().shape()
                    == mutated@[i].shape(),
    {
        let mut population: Vec<AiGame> = Vec::new();
        population.push(AiGame::new_from(champion));
        population.push(AiGame::new_from(&self.best_of_all));
        let mut i: usize = 0;
        while i < fresh.len()
            invariant
                forall|k: int| 0 <= k < fresh@.len() ==> (#[trigger] fresh@[k]).wf(),
                i <= fresh@.len(),
                population@.len() == 2 + i,
                forall|k: int|
                    0 <= k < population@.len() ==> (#[trigger] population@[k]).wf()
                        && population@[k].game_view().is_default_start(),
                population@[0].network_view().shape() == champion.shape(),
                population@[0].network_view().params() == champion.params(),
                population@[1].network_view().shape() == self.best_view().shape(),
                population@[1].network_view().params() == self.best_view().params(),
                forall|k: int|
                    0 <= k < i ==> (#[trigger] population@[2 + k]).network_view().params()
                        == fresh@[k].params() && population@[2 + k].network_view().shape()
                        == fresh@[k].shape(),
            decreases fresh@.len() - i,
        {
            population.push(AiGame::new_from(&fresh[i]));
            i = i + 1;
        }
        let mut j: usize = 0;
        while j < mutated.len()
            invariant
                forall|k: int| 0 <= k < mutated@.len() ==> (#[trigger] mutated@[k]).wf(),
                2 + fresh@.len() + mutated@.len() <= usize::MAX,
                j <= mutated@.len(),
                population@.len() == 2 + fresh@.len() + j,
                forall|k: int|
                    0 <= k < population@.len() ==> (#[trigger] population@[k]).wf()
                        && population@[k].game_view().is_default_start(),
                population@[0].network_view().shape() == champion.shape(),
                population@[0].network_view().params() == champion.params(),
                population@[1].network_view().shape() == self.best_view().shape(),
                population@[1].network_view().params() == self.best_view().params(),
                forall|k: int|
                    0 <= k < fresh@.len() ==> (#[trigger] population@[2 + k]).network_view().params()
                        == fresh@[k].params() && population@[2 + k].network_view().shape()
                        == fresh@[k].shape(),
                forall|k: int|
                    0 <= k < j ==> (#[trigger] population@[2 + fresh@.len() + k]).network_view().params()
                        == mutated@[k].params() && population@[2 + fresh@.len()
                        + k].network_view().shape() == mutated@[k].shape(),
            decreases mutated@.len() - j,
        {
            population.push(AiGame::new_from(&mutated[j]));
            j = j + 1;
        }
        self.generation = self.generation + 1;
        population
    }
}

} // verus!
