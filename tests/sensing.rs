use neuro_snake::game::{Game, MapItem};
use neuro_snake::sensing::{find_in_direction, get_input, ray_direction, RayReading};

fn empty_map(n: usize) -> Vec<Vec<MapItem>> {
    vec![vec![MapItem::Empty; n]; n]
}

#[test]
fn ray_reports_wall_distance_on_empty_grid() {
    let map = empty_map(5);
    assert_eq!(find_in_direction(&map, (1, 2), (1, 0)), (0, 0, 4));
    assert_eq!(find_in_direction(&map, (1, 2), (-1, 0)), (0, 0, 2));
    assert_eq!(find_in_direction(&map, (0, 0), (1, 1)), (0, 0, 5));
}

#[test]
fn ray_reports_nearest_body_and_target() {
    let mut map = empty_map(6);
    map[0][2] = MapItem::Snake;
    map[0][4] = MapItem::Snake;
    map[0][3] = MapItem::Apple;
    assert_eq!(find_in_direction(&map, (0, 0), (1, 0)), (2, 3, 6));
}

#[test]
fn input_has_eight_rays_in_compass_order() {
    let g = Game::with_target(10, (8, 5));
    let input = get_input(&g.get_map(), g.get_snake_head());
    assert_eq!(input.len(), 8);
    assert_eq!(ray_direction(2), (1, 0));
    // east: target at distance 5, wall after 7 steps
    assert_eq!(input[2], RayReading { body_seen: false, target_seen: true, wall_distance: 7 });
    // west: body right behind the head, wall after 4 steps
    assert_eq!(input[6], RayReading { body_seen: true, target_seen: false, wall_distance: 4 });
    // south: from row 5 of 10, wall after 5 steps
    assert_eq!(input[0], RayReading { body_seen: false, target_seen: false, wall_distance: 5 });
    // north: wall after 6 steps
    assert_eq!(input[4].wall_distance, 6);
}
