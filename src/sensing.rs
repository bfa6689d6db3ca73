use vstd::prelude::*;
use crate::game::MapItem;
use crate::snake::MAX_GRID_SIZE;

verus! {

/// Number of rays cast from the head.
pub const RAY_COUNT: usize = 8;

/// `k` times a step component of -1, 0 or 1.
pub open spec fn scale(k: int, c: i32) -> int {
    if c == 1 {
        k
    } else if c == -1 {
        -k
    } else {
        0
    }
}

/// The cell `k` steps from `head` along `d`.
pub open spec fn ray_cell(head: (i32, i32), d: (i32, i32), k: int) -> (int, int) {
    (head.0 + scale(k, d.0), head.1 + scale(k, d.1))
}

pub open spec fn inside(c: (int, int), n: int) -> bool {
    0 <= c.0 < n && 0 <= c.1 < n
}

/// A step of one cell in one of the eight compass directions.
pub open spec fn is_ray_direction(d: (i32, i32)) -> bool {
    -1 <= d.0 <= 1 && -1 <= d.1 <= 1 && (d.0 != 0 || d.1 != 0)
}

/// A square map of side `n` within the engine's limits.
pub open spec fn is_square_map(map: Seq<Vec<MapItem>>, n: int) -> bool {
    1 <= n <= MAX_GRID_SIZE && map.len() == n && forall|y: int|
        0 <= y < n ==> (#[trigger] map[y])@.len() == n
}

pub open spec fn map_at(map: Seq<Vec<MapItem>>, c: (int, int)) -> MapItem {
    map[c.1]@[c.0]
}

/// `w` is the number of steps after which the ray first leaves the grid.
pub open spec fn is_wall_distance(n: int, head: (i32, i32), d: (i32, i32), w: int) -> bool {
    &&& w >= 1
    &&& !inside(ray_cell(head, d, w), n)
    &&& forall|k: int| 1 <= k < w ==> inside(#[trigger] ray_cell(head, d, k), n)
}

/// Some cell on the ray before it leaves the grid (`w` steps) holds `item`.
pub open spec fn ray_sees(
    map: Seq<Vec<MapItem>>,
    head: (i32, i32),
    d: (i32, i32),
    w: int,
    item: MapItem,
) -> bool {
    exists|k: int| 1 <= k < w && #[trigger] map_at(map, ray_cell(head, d, k)) == item
}

/// The scan of one ray: `(s, f, w)` where `w` is the wall distance, `s` the
/// distance of the nearest body segment and `f` that of the farthest target,
/// each 0 when the ray meets none.
pub open spec fn is_ray_scan(
    map: Seq<Vec<MapItem>>,
    head: (i32, i32),
    d: (i32, i32),
    r: (u32, u32, u32),
) -> bool {
    let n = map.len() as int;
    let w = r.2 as int;
    &&& is_wall_distance(n, head, d, w)
    &&& (r.0 > 0) == ray_sees(map, head, d, w, MapItem::Snake)
    &&& r.0 > 0 ==> {
        &&& r.0 < w
        &&& map_at(map, ray_cell(head, d, r.0 as int)) == MapItem::Snake
        &&& forall|k: int|
            1 <= k < r.0 ==> #[trigger] map_at(map, ray_cell(head, d, k)) != MapItem::Snake
    }
    &&& (r.1 > 0) == ray_sees(map, head, d, w, MapItem::Apple)
    &&& r.1 > 0 ==> {
        &&& r.1 < w
        &&& map_at(map, ray_cell(head, d, r.1 as int)) == MapItem::Apple
        &&& forall|k: int|
            r.1 < k < w ==> #[trigger] map_at(map, ray_cell(head, d, k)) != MapItem::Apple
    }
}

/// Walks from `head` along `direction` until the ray leaves the grid and
/// reports `(body distance, target distance, wall distance)`.
pub fn find_in_direction(game_map: &Vec<Vec<MapItem>>, head: (i32, i32), direction: (i32, i32)) -> (r: (
    u32,
    u32,
    u32,
))
    requires
        is_square_map(game_map@, game_map@.len() as int),
        -1 <= head.0 <= game_map@.len(),
        -1 <= head.1 <= game_map@.len(),
        is_ray_direction(direction),
    ensures
        is_ray_scan(game_map@, head, direction, r),
{
    let ghost map = game_map@;
    let n = game_map.len() as i32;
    let mut snake_distance: u32 = 0;
    let mut food_distance: u32 = 0;
    let mut wall_distance: u32 = 0;
    let mut current = head;
    loop
        invariant
            is_square_map(map, n as int),
            map == game_map@,
            n == map.len(),
            -1 <= head.0 <= n,
            -1 <= head.1 <= n,
            is_ray_direction(direction),
            wall_distance <= n + 1,
            current.0 == ray_cell(head, direction, wall_distance as int).0,
            current.1 == ray_cell(head, direction, wall_distance as int).1,
            wall_distance > 0 ==> inside(ray_cell(head, direction, wall_distance as int), n as int),
            forall|k: int|
                1 <= k <= wall_distance ==> inside(#[trigger] ray_cell(head, direction, k), n as int),
            snake_distance <= wall_distance,
            food_distance <= wall_distance,
            snake_distance == 0 ==> forall|k: int|
                1 <= k <= wall_distance ==> #[trigger] map_at(map, ray_cell(head, direction, k))
                    != MapItem::Snake,
            snake_distance > 0 ==> {
                &&& map_at(map, ray_cell(head, direction, snake_distance as int)) == MapItem::Snake
                &&& forall|k: int|
                    1 <= k < snake_distance ==> #[trigger] map_at(map, ray_cell(head, direction, k))
                        != MapItem::Snake
            },
            food_distance == 0 ==> forall|k: int|
                1 <= k <= wall_distance ==> #[trigger] map_at(map, ray_cell(head, direction, k))
                    != MapItem::Apple,
            food_distance > 0 ==> {
                &&& map_at(map, ray_cell(head, direction, food_distance as int)) == MapItem::Apple
                &&& forall|k: int|
                    food_distance < k <= wall_distance ==> #[trigger] map_at(
                        map,
                        ray_cell(head, direction, k),
                    ) != MapItem::Apple
            },
        decreases n + 1 - wall_distance,
    {
        current = (current.0 + direction.0, current.1 + direction.1);
        wall_distance = wall_distance + 1;
        if current.0 < 0 || current.0 >= n || current.1 < 0 || current.1 >= n {
            proof {
                if snake_distance > 0 {
                    assert(map_at(map, ray_cell(head, direction, snake_distance as int)) == MapItem::Snake);
                }
                if food_distance > 0 {
                    assert(map_at(map, ray_cell(head, direction, food_distance as int)) == MapItem::Apple);
                }
            }
            return (snake_distance, food_distance, wall_distance);
        }
        let item = game_map[current.1 as usize][current.0 as usize];
        assert(item == map_at(map, ray_cell(head, direction, wall_distance as int)));
        match item {
            MapItem::Apple => {
                food_distance = wall_distance;
            },
            MapItem::Snake => {
                if snake_distance == 0 {
                    snake_distance = wall_distance;
                }
            },
            _ => {},
        }
    }
}

/// What one ray reports: whether it meets a body segment, whether it meets
/// the target, and how many steps it takes to leave the grid.
#[derive(Clone, Copy, Debug, PartialEq, Eq, Structural)]
pub struct RayReading {
    pub body_seen: bool,
    pub target_seen: bool,
    pub wall_distance: u32,
}

/// The direction of ray `i`: south, south-east, east, north-east, north,
/// north-west, west, south-west (the vertical axis grows downwards).
pub open spec fn ray_dir(i: int) -> (i32, i32) {
    if i == 0 {
        (0i32, 1i32)
    } else if i == 1 {
        (1i32, 1i32)
    } else if i == 2 {
        (1i32, 0i32)
    } else if i == 3 {
        (1i32, -1i32)
    } else if i == 4 {
        (0i32, -1i32)
    } else if i == 5 {
        (-1i32, -1i32)
    } else if i == 6 {
        (-1i32, 0i32)
    } else {
        (-1i32, 1i32)
    }
}

/// `r` holds, ray by ray, what the eight rays cast from `head` over `map` report.
pub open spec fn is_reading_of(map: Seq<Vec<MapItem>>, head: (i32, i32), r: Seq<RayReading>) -> bool {
    &&& r.len() == RAY_COUNT
    &&& forall|i: int|
        0 <= i < RAY_COUNT ==> {
            let w = (#[trigger] r[i]).wall_distance as int;
            &&& is_wall_distance(map.len() as int, head, ray_dir(i), w)
            &&& r[i].body_seen == ray_sees(map, head, ray_dir(i), w, MapItem::Snake)
            &&& r[i].target_seen == ray_sees(map, head, ray_dir(i), w, MapItem::Apple)
        }
}

pub fn ray_direction(i: usize) -> (r: (i32, i32))
    requires
        i < RAY_COUNT,
    ensures
        r == ray_dir(i as int),
        is_ray_direction(r),
{
    match i {
        0 => (0i32, 1i32),
        1 => (1i32, 1i32),
        2 => (1i32, 0i32),
        3 => (1i32, -1i32),
        4 => (0i32, -1i32),
        5 => (-1i32, -1i32),
        6 => (-1i32, 0i32),
        _ => (-1i32, 1i32),
    }
}

/// Casts the eight rays from `head` and reports each, in ray order.
pub fn get_input(game_map: &Vec<Vec<MapItem>>, head: (i32, i32)) -> (r: Vec<RayReading>)
    requires
        is_square_map(game_map@, game_map@.len() as int),
        -1 <= head.0 <= game_map@.len(),
        -1 <= head.1 <= game_map@.len(),
    ensures
        is_reading_of(game_map@, head, r@),
{
    let mut input: Vec<RayReading> = Vec::new();
    let mut i: usize = 0;
    while i < RAY_COUNT
        invariant
            is_square_map(game_map@, game_map@.len() as int),
            -1 <= head.0 <= game_map@.len(),
            -1 <= head.1 <= game_map@.len(),
            i <= RAY_COUNT,
            input@.len() == i,
            forall|j: int|
                0 <= j < i ==> {
                    let w = (#[trigger] input@[j]).wall_distance as int;
                    &&& is_wall_distance(game_map@.len() as int, head, ray_dir(j), w)
                    &&& input@[j].body_seen == ray_sees(game_map@, head, ray_dir(j), w, MapItem::Snake)
                    &&& input@[j].target_seen == ray_sees(
                        game_map@,
                        head,
                        ray_dir(j),
                        w,
                        MapItem::Apple,
                    )
                },
        decreases RAY_COUNT - i,
    {
        let d = ray_direction(i);
        let (snake_distance, food_distance, wall_distance) = find_in_direction(game_map, head, d);
        input.push(
            RayReading {
                body_seen: snake_distance != 0,
                target_seen: food_distance != 0,
                wall_distance,
            },
        );
        i = i + 1;
    }
    input
}

} // verus!
