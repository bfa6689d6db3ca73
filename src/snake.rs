use vstd::prelude::*;

verus! {

/// Side of the square grid used when no other size is configured.
pub const GRID_SIZE: u32 = 25;

/// Largest grid side the engine accepts; keeps every coordinate far from `i32` limits.
pub const MAX_GRID_SIZE: u32 = 1024;

/// The four unit steps a body may move by.
pub open spec fn is_unit_direction(d: (i32, i32)) -> bool {
    d == (0i32, 1i32) || d == (0i32, -1i32) || d == (1i32, 0i32) || d == (-1i32, 0i32)
}

/// `a` is the exact reverse of `b`.
pub open spec fn is_reverse(a: (i32, i32), b: (i32, i32)) -> bool {
    a.0 == -b.0 && a.1 == -b.1
}

/// A cell lies inside the `n` by `n` grid.
pub open spec fn in_grid(p: (i32, i32), n: int) -> bool {
    0 <= p.0 < n && 0 <= p.1 < n
}

/// A cell lies inside the grid or on the ring of cells just outside it.
pub open spec fn near_grid(p: (i32, i32), n: int) -> bool {
    -1 <= p.0 <= n && -1 <= p.1 <= n
}

/// The cell one step from the head in direction `d`.
pub open spec fn next_head_of(body: Seq<(i32, i32)>, d: (i32, i32)) -> (i32, i32) {
    ((body[0].0 + d.0) as i32, (body[0].1 + d.1) as i32)
}

/// The body after one move: the new head in front, followed by the old
/// segments, the last of which is dropped unless the body grows.
pub open spec fn moved_body(body: Seq<(i32, i32)>, d: (i32, i32), extend: bool) -> Seq<(
    i32,
    i32,
)> {
    if extend {
        seq![next_head_of(body, d)].add(body)
    } else {
        seq![next_head_of(body, d)].add(body.take(body.len() - 1))
    }
}

/// Some segment behind the head shares the head's cell.
pub open spec fn bites_itself(body: Seq<(i32, i32)>) -> bool {
    exists|i: int| 1 <= i < body.len() && #[trigger] body[i] == body[0]
}

/// The head has left the grid or runs into the body.
pub open spec fn is_dead_body(body: Seq<(i32, i32)>, n: int) -> bool {
    !in_grid(body[0], n) || bites_itself(body)
}

/// The moving body: segments from head (index 0) to tail, and the direction
/// of the next move.
pub struct Snake {
    pub(crate) snake: Vec<(i32, i32)>,
    pub(crate) direction: (i32, i32),
    pub(crate) grid_size: i32,
}

impl Snake {
    pub open(crate) spec fn body(&self) -> Seq<(i32, i32)> {
        self.snake@
    }

    pub open(crate) spec fn dir(&self) -> (i32, i32) {
        self.direction
    }

    pub open(crate) spec fn grid(&self) -> int {
        self.grid_size as int
    }

    /// Well-formed: a non-empty body whose cells all lie in or just around
    /// the grid, and a unit direction.
    pub open(crate) spec fn wf(&self) -> bool {
        &&& 4 <= self.grid_size <= MAX_GRID_SIZE
        &&& self.snake@.len() >= 1
        &&& is_unit_direction(self.direction)
        &&& forall|i: int|
            0 <= i < self.snake@.len() ==> near_grid(#[trigger] self.snake@[i], self.grid_size as int)
    }

    /// A two-segment body on the middle row of the default grid, moving right.
    pub fn new() -> (r: Snake)
        ensures
            r.wf(),
            r.grid() == GRID_SIZE as int,
            r.body() == seq![(3i32, (GRID_SIZE / 2) as i32), (2i32, (GRID_SIZE / 2) as i32)],
            r.dir() == (1i32, 0i32),
    {
        Snake::with_grid_size(GRID_SIZE)
    }

    /// A two-segment body on the middle row of an `n` by `n` grid, moving right.
    pub fn with_grid_size(n: u32) -> (r: Snake)
        requires
            4 <= n <= MAX_GRID_SIZE,
        ensures
            r.wf(),
            r.grid() == n as int,
            r.body() == seq![(3i32, (n / 2) as i32), (2i32, (n / 2) as i32)],
            r.dir() == (1i32, 0i32),
    {
        let mid = (n / 2) as i32;
        let r = Snake { snake: vec![(3i32, mid), (2i32, mid)], direction: (1i32, 0i32), grid_size: n as i32 };
        assert(r.snake@ =~= seq![(3i32, mid), (2i32, mid)]);
        r
    }

    /// The cell the head moves to on the next update.
    pub fn get_next_head(&self) -> (r: (i32, i32))
        requires
            self.wf(),
        ensures
            r == next_head_of(self.body(), self.dir()),
            near_grid(self.body()[0], self.grid()) ==> -2 <= r.0 <= self.grid() + 1,
    {
        assert(near_grid(self.snake@[0], self.grid_size as int));
        (self.snake[0].0 + self.direction.0, self.snake[0].1 + self.direction.1)
    }

    /// Moves the body one step; with `extend` the tail stays, so the body grows by one.
    pub fn update(&mut self, extend: bool)
        requires
            old(self).wf(),
            in_grid(old(self).body()[0], old(self).grid()),
        ensures
            final(self).wf(),
            final(self).grid() == old(self).grid(),
            final(self).dir() == old(self).dir(),
            final(self).body() == moved_body(old(self).body(), old(self).dir(), extend),
    {
        let ghost body0 = self.snake@;
        let ghost n = self.grid_size as int;
        assert(forall|k: int| 0 <= k < body0.len() ==> near_grid(#[trigger] body0[k], n));
        let head = self.get_next_head();
        if extend {
            let last = self.snake[self.snake.len() - 1];
            self.snake.push(last);
        }
        let ghost ext = self.snake@;
        let len = self.snake.len();
        let mut i: usize = len - 1;
        while i > 0
            invariant
                self.direction == old(self).direction,
                self.grid_size == old(self).grid_size,
                self.snake@.len() == len,
                len == ext.len(),
                i < len,
                forall|k: int| 0 <= k <= i ==> #[trigger] self.snake@[k] == ext[k],
                forall|k: int| i < k < len ==> #[trigger] self.snake@[k] == ext[k - 1],
            decreases i,
        {
            let prev = self.snake[i - 1];
            self.snake.set(i, prev);
            i = i - 1;
        }
        self.snake.set(0, head);
        proof {
            assert forall|k: int| 1 <= k < len implies #[trigger] self.snake@[k] == body0[k - 1] by {
                assert(self.snake@[k] == ext[k - 1]);
                assert(ext[k - 1] == body0[k - 1]);
            }
            let expect = moved_body(body0, self.direction, extend);
            assert(expect.len() == len);
            assert forall|k: int| 0 <= k < len implies #[trigger] self.snake@[k] == expect[k] by {
                if k > 0 {
                    assert(expect[k] == body0[k - 1]);
                } else {
                    assert(expect[0] == next_head_of(body0, self.direction));
                }
            }
            assert(self.snake@ =~= expect);
            assert forall|k: int| 0 <= k < self.snake@.len() implies near_grid(
                #[trigger] self.snake@[k],
                self.grid_size as int,
            ) by {
                if k > 0 {
                    assert(self.snake@[k] == body0[k - 1]);
                    assert(near_grid(body0[k - 1], n));
                } else {
                    assert(in_grid(body0[0], n));
                }
            }
        }
    }

    /// Sets the direction of the next move.
    pub fn change_direction(&mut self, direction: (i32, i32))
        requires
            old(self).wf(),
            is_unit_direction(direction),
        ensures
            final(self).wf(),
            final(self).body() == old(self).body(),
            final(self).grid() == old(self).grid(),
            final(self).dir() == direction,
    {
        self.direction = direction;
    }

    pub fn get_snake(&self) -> (r: &Vec<(i32, i32)>)
        ensures
            r@ == self.body(),
    {
        &self.snake
    }

    pub fn get_direction(&self) -> (r: (i32, i32))
        ensures
            r == self.dir(),
    {
        self.direction
    }

    pub fn get_head(&self) -> (r: (i32, i32))
        requires
            self.wf(),
        ensures
            r == self.body()[0],
    {
        self.snake[0]
    }

    pub fn get_size(&self) -> (r: usize)
        ensures
            r == self.body().len(),
    {
        self.snake.len()
    }

    pub fn get_grid_size(&self) -> (r: u32)
        requires
            self.wf(),
        ensures
            r as int == self.grid(),
    {
        self.grid_size as u32
    }

    /// The head is outside the grid or on another segment of the body.
    pub fn is_dead(&self) -> (r: bool)
        requires
            self.wf(),
        ensures
            r == is_dead_body(self.body(), self.grid()),
    {
        let head = self.snake[0];
        let n = self.grid_size;
        if head.0 < 0 || head.0 >= n || head.1 < 0 || head.1 >= n {
            return true;
        }
        let mut i: usize = 1;
        while i < self.snake.len()
            invariant
                1 <= i <= self.snake@.len(),
                head == self.snake@[0],
                forall|k: int| 1 <= k < i ==> #[trigger] self.snake@[k] != head,
            decreases self.snake@.len() - i,
        {
            let rec = self.snake[i];
            if rec.0 == head.0 && rec.1 == head.1 {
                return true;
            }
            i = i + 1;
        }
        false
    }
}

} // verus!
