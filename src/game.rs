use vstd::prelude::*;
use rand::Rng;
use crate::snake::{
    in_grid, is_dead_body, is_reverse, is_unit_direction, moved_body, next_head_of, Snake,
    GRID_SIZE, MAX_GRID_SIZE,
};

verus! {

/// What a cell of the grid holds.
#[derive(Clone, Copy, Debug, PartialEq, Eq, Structural)]
pub enum MapItem {
    Empty,
    Snake,
    Apple,
}

/// A direction request.
#[derive(Clone, Copy, Debug, PartialEq, Eq, Structural)]
pub enum Key {
    Up,
    Down,
    Left,
    Right,
}

/// The unit step a key asks for; the vertical axis grows downwards.
pub open spec fn key_direction(key: Key) -> (i32, i32) {
    match key {
        Key::Up => (0i32, -1i32),
        Key::Down => (0i32, 1i32),
        Key::Left => (-1i32, 0i32),
        Key::Right => (1i32, 0i32),
    }
}

/// The cell with row-major index `j` on an `n` by `n` grid.
pub open spec fn cell_at_index(j: int, n: int) -> (i32, i32) {
    ((j % n) as i32, (j / n) as i32)
}

/// A cell of the grid that no segment occupies.
pub open spec fn is_free(body: Seq<(i32, i32)>, p: (i32, i32), n: int) -> bool {
    in_grid(p, n) && !body.contains(p)
}

/// How many of the cells with row-major index below `j` are free.
pub open spec fn free_count_upto(body: Seq<(i32, i32)>, n: int, j: int) -> int
    decreases j,
{
    if j <= 0 {
        0
    } else {
        free_count_upto(body, n, j - 1) + if is_free(body, cell_at_index(j - 1, n), n) {
            1int
        } else {
            0int
        }
    }
}

/// How many cells of the grid are free.
pub open spec fn free_cell_count(body: Seq<(i32, i32)>, n: int) -> int {
    free_count_upto(body, n, n * n)
}

/// `p` is the free cell with exactly `r` free cells before it in row-major order.
pub open spec fn is_nth_free_cell(body: Seq<(i32, i32)>, n: int, r: int, p: (i32, i32)) -> bool {
    exists|j: int|
        0 <= j < n * n && p == cell_at_index(j, n) && is_free(body, p, n) && #[trigger] free_count_upto(
            body,
            n,
            j,
        ) == r
}

/// The direction a step moves in: the pending one, unless it reverses the current one.
pub open spec fn applied_direction(pending: (i32, i32), current: (i32, i32)) -> (i32, i32) {
    if is_reverse(pending, current) {
        current
    } else {
        pending
    }
}

/// What the occupancy map shows at `(x, y)`.
pub open spec fn map_cell(body: Seq<(i32, i32)>, apple: (i32, i32), x: int, y: int) -> MapItem {
    if apple.0 == x && apple.1 == y {
        MapItem::Apple
    } else if body.contains((x as i32, y as i32)) {
        MapItem::Snake
    } else {
        MapItem::Empty
    }
}

/// Relies on rand::Rng::gen_range on the thread-local generator: a value in `[0, n)`;
/// it panics on an empty range, which `requires` leaves out.
#[verifier::external_body]
fn random_below(n: usize) -> (r: usize)
    requires
        n > 0,
    ensures
        r < n,
{
    rand::thread_rng().gen_range(0..n)
}

/// Whether some segment of `body` is at `p`.
pub fn occupies(body: &Vec<(i32, i32)>, p: (i32, i32)) -> (r: bool)
    ensures
        r == body@.contains(p),
{
    let mut i: usize = 0;
    while i < body.len()
        invariant
            0 <= i <= body@.len(),
            forall|k: int| 0 <= k < i ==> #[trigger] body@[k] != p,
        decreases body@.len() - i,
    {
        let c = body[i];
        if c.0 == p.0 && c.1 == p.1 {
            assert(body@[i as int] == p);
            return true;
        }
        i = i + 1;
    }
    false
}

proof fn lemma_cell_in_grid(j: int, n: int)
    requires
        0 < n <= MAX_GRID_SIZE,
        0 <= j < n * n,
    ensures
        in_grid(cell_at_index(j, n), n),
        0 <= j % n < n,
        0 <= j / n < n,
{
    assert(0 <= j % n < n) by (nonlinear_arith)
        requires
            0 < n,
            0 <= j,
    ;
    assert(0 <= j / n < n) by (nonlinear_arith)
        requires
            0 < n,
            0 <= j < n * n,
    ;
}

proof fn lemma_area_bound(n: int)
    requires
        0 <= n <= MAX_GRID_SIZE,
    ensures
        n * n <= MAX_GRID_SIZE * MAX_GRID_SIZE,
{
    assert(n * n <= MAX_GRID_SIZE * MAX_GRID_SIZE) by (nonlinear_arith)
        requires
            0 <= n <= MAX_GRID_SIZE,
    ;
}

/// Counts the free cells of an `n` by `n` grid.
pub fn count_free_cells(body: &Vec<(i32, i32)>, n: u32) -> (r: usize)
    requires
        1 <= n <= MAX_GRID_SIZE,
    ensures
        r as int == free_cell_count(body@, n as int),
{
    proof {
        lemma_area_bound(n as int);
    }
    let total: usize = (n as usize) * (n as usize);
    let mut cnt: usize = 0;
    let mut j: usize = 0;
    while j < total
        invariant
            total == n * n,
            total <= MAX_GRID_SIZE * MAX_GRID_SIZE,
            1 <= n <= MAX_GRID_SIZE,
            j <= total,
            cnt <= j,
            cnt as int == free_count_upto(body@, n as int, j as int),
        decreases total - j,
    {
        proof {
            lemma_cell_in_grid(j as int, n as int);
        }
        let p = ((j % (n as usize)) as i32, (j / (n as usize)) as i32);
        assert(p == cell_at_index(j as int, n as int));
        if !occupies(body, p) {
            cnt = cnt + 1;
        }
        j = j + 1;
    }
    cnt
}

/// The free cell with exactly `r` free cells before it in row-major order.
pub fn nth_free_cell(body: &Vec<(i32, i32)>, n: u32, r: usize) -> (p: (i32, i32))
    requires
        1 <= n <= MAX_GRID_SIZE,
        r < free_cell_count(body@, n as int),
    ensures
        is_nth_free_cell(body@, n as int, r as int, p),
        is_free(body@, p, n as int),
{
    proof {
        lemma_area_bound(n as int);
    }
    let total: usize = (n as usize) * (n as usize);
    let mut cnt: usize = 0;
    let mut j: usize = 0;
    while j < total
        invariant
            total == n * n,
            total <= MAX_GRID_SIZE * MAX_GRID_SIZE,
            1 <= n <= MAX_GRID_SIZE,
            j <= total,
            cnt <= r,
            cnt as int == free_count_upto(body@, n as int, j as int),
            r < free_count_upto(body@, n as int, total as int),
        decreases total - j,
    {
        proof {
            lemma_cell_in_grid(j as int, n as int);
        }
        let p = ((j % (n as usize)) as i32, (j / (n as usize)) as i32);
        assert(p == cell_at_index(j as int, n as int));
        if !occupies(body, p) {
            if cnt == r {
                assert(is_free(body@, p, n as int));
                assert(free_count_upto(body@, n as int, j as int) == r as int);
                return p;
            }
            cnt = cnt + 1;
        }
        j = j + 1;
    }
    proof {
        assert(false);
    }
    (0i32, 0i32)
}

/// A step that reaches the target lengthens the body by exactly one and
/// leaves every cell it occupied occupied: the old segments follow the new head.
pub proof fn lemma_growth(g0: Game, g1: Game)
    requires
        g0.wf(),
        !g0.dead(),
        Game::step_spec(g0, g1),
        next_head_of(g0.body(), applied_direction(g0.pending(), g0.dir())) == g0.target(),
    ensures
        g1.body().len() == g0.body().len() + 1,
        forall|i: int| 0 <= i < g0.body().len() ==> g1.body()[i + 1] == #[trigger] g0.body()[i],
        forall|p: (i32, i32)| g0.body().contains(p) ==> g1.body().contains(p),
{
    assert forall|p: (i32, i32)| g0.body().contains(p) implies g1.body().contains(p) by {
        let i = choose|i: int| 0 <= i < g0.body().len() && g0.body()[i] == p;
        assert(g1.body()[i + 1] == p);
    }
}

/// A request for the exact reverse of the current direction leaves the
/// pending direction as it was, and the next step moves exactly as it would
/// have without the request.
pub proof fn lemma_reverse_ignored(g0: Game, key: Key, g1: Game, g2: Game)
    requires
        g0.wf(),
        is_reverse(key_direction(key), g0.dir()),
        Game::request_spec(g0, key, g1),
        Game::step_spec(g1, g2),
    ensures
        g1.pending() == g0.pending(),
        Game::step_spec(g0, g2),
        !g0.dead() ==> g2.dir() == applied_direction(g0.pending(), g0.dir()),
{
}

/// The simulation: a body on an `n` by `n` grid, one target, the pending
/// direction request and the number of steps taken.
pub struct Game {
    pub(crate) snake: Snake,
    pub(crate) apple: (i32, i32),
    pub(crate) new_direction: (i32, i32),
    pub(crate) turns: u32,
}

impl Game {
    pub open(crate) spec fn body(&self) -> Seq<(i32, i32)> {
        self.snake.body()
    }

    pub open(crate) spec fn dir(&self) -> (i32, i32) {
        self.snake.dir()
    }

    pub open(crate) spec fn grid(&self) -> int {
        self.snake.grid()
    }

    pub open(crate) spec fn target(&self) -> (i32, i32) {
        self.apple
    }

    pub open(crate) spec fn pending(&self) -> (i32, i32) {
        self.new_direction
    }

    pub open(crate) spec fn turn_count(&self) -> int {
        self.turns as int
    }

    pub open(crate) spec fn dead(&self) -> bool {
        is_dead_body(self.body(), self.grid())
    }

    pub open(crate) spec fn score_of(&self) -> int {
        self.body().len() - 2
    }

    /// Well-formed: a well-formed body of at least two segments that grew by at
    /// most one per step, a unit pending direction and a target on the grid.
    pub open(crate) spec fn wf(&self) -> bool {
        &&& self.snake.wf()
        &&& 2 <= self.body().len() <= self.turns + 2
        &&& is_unit_direction(self.new_direction)
        &&& in_grid(self.apple, self.grid())
    }

    /// A game at its start: a two-segment body on the middle row of an
    /// `n` by `n` grid, moving right, the target at `target`, no turn taken.
    pub open(crate) spec fn is_start(&self, n: int, target: (i32, i32)) -> bool {
        &&& self.wf()
        &&& self.grid() == n
        &&& self.target() == target
        &&& self.body() == seq![(3i32, (n / 2) as i32), (2i32, (n / 2) as i32)]
        &&& self.dir() == (1i32, 0i32)
        &&& self.pending() == (1i32, 0i32)
        &&& self.turn_count() == 0
    }

    /// The start of a game on the default grid.
    pub open(crate) spec fn is_default_start(&self) -> bool {
        self.is_start(GRID_SIZE as int, (8i32, (GRID_SIZE / 2) as i32))
    }

    /// `g1` is `g0` after a request for `key`: a request that reverses the
    /// current direction changes nothing, any other becomes the pending direction.
    pub open(crate) spec fn request_spec(g0: Game, key: Key, g1: Game) -> bool {
        &&& g1.wf()
        &&& is_reverse(key_direction(key), g0.dir()) ==> g1 == g0
        &&& !is_reverse(key_direction(key), g0.dir()) ==> g1.pending() == key_direction(key)
        &&& g1.body() == g0.body()
        &&& g1.dir() == g0.dir()
        &&& g1.grid() == g0.grid()
        &&& g1.target() == g0.target()
        &&& g1.turn_count() == g0.turn_count()
    }

    /// `g1` is `g0` after one step.
    pub open(crate) spec fn step_spec(g0: Game, g1: Game) -> bool {
        &&& g1.wf()
        &&& g0.dead() ==> g1 == g0
        &&& !g0.dead() ==> {
            let d = applied_direction(g0.pending(), g0.dir());
            let eats = next_head_of(g0.body(), d) == g0.target();
            &&& g1.turn_count() == g0.turn_count() + 1
            &&& g1.dir() == d
            &&& g1.pending() == g0.pending()
            &&& g1.grid() == g0.grid()
            &&& g1.body() == moved_body(g0.body(), d, eats)
            &&& eats && free_cell_count(g1.body(), g1.grid()) > 0 ==> is_free(
                g1.body(),
                g1.target(),
                g1.grid(),
            )
            &&& !eats ==> g1.target() == g0.target()
        }
        &&& !in_grid(g1.body()[0], g1.grid()) ==> g1.dead()
    }

    /// A fresh game on the default grid, target at `(8, GRID_SIZE / 2)`.
    pub fn new() -> (r: Game)
        ensures
            r.is_default_start(),
    {
        Game::with_target(GRID_SIZE, (8i32, (GRID_SIZE / 2) as i32))
    }

    /// A fresh game on an `n` by `n` grid with the target at `target`.
    pub fn with_target(n: u32, target: (i32, i32)) -> (r: Game)
        requires
            4 <= n <= MAX_GRID_SIZE,
            in_grid(target, n as int),
        ensures
            r.is_start(n as int, target),
    {
        Game { snake: Snake::with_grid_size(n), apple: target, new_direction: (1i32, 0i32), turns: 0 }
    }

    /// Records a direction request; one that reverses the current direction is ignored.
    pub fn handle_input(&mut self, key: Key)
        requires
            old(self).wf(),
        ensures
            Game::request_spec(*old(self), key, *final(self)),
    {
        let d = match key {
            Key::Up => (0i32, -1i32),
            Key::Down => (0i32, 1i32),
            Key::Left => (-1i32, 0i32),
            Key::Right => (1i32, 0i32),
        };
        let cur = self.snake.get_direction();
        if cur.0 == -d.0 && cur.1 == -d.1 {
            return;
        }
        self.new_direction = d;
    }

    /// Puts the target on a free cell drawn uniformly at random; leaves it
    /// where it is when no cell is free.
    fn relocate_target(&mut self)
        requires
            old(self).wf(),
        ensures
            final(self).wf(),
            final(self).snake == old(self).snake,
            final(self).new_direction == old(self).new_direction,
            final(self).turns == old(self).turns,
            free_cell_count(old(self).body(), old(self).grid()) > 0 ==> is_free(
                final(self).body(),
                final(self).target(),
                final(self).grid(),
            ),
            free_cell_count(old(self).body(), old(self).grid()) == 0 ==> final(self).target()
                == old(self).target(),
    {
        let n = self.snake.get_grid_size();
        let free = count_free_cells(self.snake.get_snake(), n);
        if free > 0 {
            let r = random_below(free);
            self.apple = nth_free_cell(self.snake.get_snake(), n, r);
        }
    }

    /// Advances one step: applies the pending direction unless it reverses the
    /// current one, moves the body, grows it and relocates the target when the
    /// head reaches the target. Does nothing once the game is over.
    pub fn update(&mut self)
        requires
            old(self).wf(),
            old(self).turn_count() < u32::MAX,
        ensures
            Game::step_spec(*old(self), *final(self)),
    {
        if self.snake.is_dead() {
            return;
        }
        self.turns = self.turns + 1;
        let nd = self.new_direction;
        let cur = self.snake.get_direction();
        if !(cur.0 == -nd.0 && cur.1 == -nd.1) {
            self.snake.change_direction(nd);
        }
        let next = self.snake.get_next_head();
        if next.0 == self.apple.0 && next.1 == self.apple.1 {
            self.snake.update(true);
            self.relocate_target();
        } else {
            self.snake.update(false);
        }
    }

    /// `m` is the occupancy grid of `g`, indexed by row (`y`) then column (`x`).
    pub open(crate) spec fn is_map_of(g: Game, m: Seq<Vec<MapItem>>) -> bool {
        &&& m.len() == g.grid()
        &&& forall|y: int| 0 <= y < g.grid() ==> (#[trigger] m[y])@.len() == g.grid()
        &&& forall|y: int, x: int|
            0 <= y < g.grid() && 0 <= x < g.grid() ==> #[trigger] m[y]@[x] == map_cell(
                g.body(),
                g.target(),
                x,
                y,
            )
    }

    /// The occupancy grid, indexed by row (`y`) then column (`x`).
    pub fn get_map(&self) -> (r: Vec<Vec<MapItem>>)
        requires
            self.wf(),
        ensures
            Game::is_map_of(*self, r@),
    {
        let n = self.snake.get_grid_size() as i32;
        let body = self.snake.get_snake();
        let mut map: Vec<Vec<MapItem>> = Vec::new();
        let mut y: i32 = 0;
        while y < n
            invariant
                n == self.grid(),
                4 <= n <= MAX_GRID_SIZE,
                body@ == self.body(),
                0 <= y <= n,
                map@.len() == y,
                forall|yy: int| 0 <= yy < y ==> (#[trigger] map@[yy])@.len() == n,
                forall|yy: int, x: int|
                    0 <= yy < y && 0 <= x < n ==> #[trigger] map@[yy]@[x] == map_cell(
                        self.body(),
                        self.target(),
                        x,
                        yy,
                    ),
            decreases n - y,
        {
            let mut row: Vec<MapItem> = Vec::new();
            let mut x: i32 = 0;
            while x < n
                invariant
                    n == self.grid(),
                    4 <= n <= MAX_GRID_SIZE,
                    body@ == self.body(),
                    0 <= y < n,
                    0 <= x <= n,
                    row@.len() == x,
                    forall|xx: int| 0 <= xx < x ==> #[trigger] row@[xx] == map_cell(
                        self.body(),
                        self.target(),
                        xx,
                        y as int,
                    ),
                decreases n - x,
            {
                let item = if self.apple.0 == x && self.apple.1 == y {
                    MapItem::Apple
                } else if occupies(body, (x, y)) {
                    MapItem::Snake
                } else {
                    MapItem::Empty
                };
                row.push(item);
                x = x + 1;
            }
            map.push(row);
            y = y + 1;
        }
        map
    }

    pub fn get_snake_head(&self) -> (r: (i32, i32))
        requires
            self.wf(),
        ensures
            r == self.body()[0],
    {
        self.snake.get_head()
    }

    pub fn get_apple(&self) -> (r: (i32, i32))
        ensures
            r == self.target(),
    {
        self.apple
    }

    pub fn get_pending_direction(&self) -> (r: (i32, i32))
        ensures
            r == self.pending(),
    {
        self.new_direction
    }

    pub fn is_alive(&self) -> (r: bool)
        requires
            self.wf(),
        ensures
            r == !self.dead(),
    {
        !self.snake.is_dead()
    }

    /// Segments gained since the start: body length less two.
    pub fn get_score(&self) -> (r: u32)
        requires
            self.wf(),
        ensures
            r as int == self.score_of(),
    {
        (self.snake.get_size() - 2) as u32
    }

    pub fn get_turns(&self) -> (r: u32)
        ensures
            r as int == self.turn_count(),
    {
        self.turns
    }
}

} // verus!
