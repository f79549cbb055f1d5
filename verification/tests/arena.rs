use ball_arena::arena::{
    arena_boundaries, ball_grid_positions, game_setup_environment, GridPosition, Orientation,
};

fn p(x: i32, y: i32, z: i32) -> GridPosition {
    GridPosition { x, y, z }
}

#[test]
fn six_boundaries() {
    let b = arena_boundaries();
    assert_eq!(b.len(), 6);
    assert_eq!(b[0].position, p(0, 0, 0));
    assert_eq!(b[0].orientation, Orientation::Identity);
    assert_eq!(b[1].position, p(0, 20, 0));
    assert_eq!(b[1].orientation, Orientation::LookingAt { target: p(0, 20, 1), up: p(0, -1, 0) });
    assert_eq!(b[2].position, p(-10, 10, 0));
    assert_eq!(b[3].orientation, Orientation::LookingAt { target: p(10, 20, 0), up: p(-1, 0, 0) });
    assert_eq!(b[5].position, p(0, 10, 10));
    assert_eq!(b[5].orientation, Orientation::LookingAt { target: p(0, 20, 10), up: p(0, 0, -1) });
}

#[test]
fn ball_grid_layout() {
    let g = ball_grid_positions();
    assert_eq!(g.len(), 722);
    assert_eq!(g[0], p(-9, 4, -9));
    assert_eq!(g[1], p(-9, 5, -9));
    assert_eq!(g[2], p(-9, 4, -8));
    assert_eq!(g[38], p(-8, 4, -9));
    assert_eq!(g[721], p(9, 5, 9));
}

#[test]
fn ball_grid_inside_arena_and_distinct() {
    let g = ball_grid_positions();
    for q in &g {
        assert!(q.x >= -9 && q.x <= 9);
        assert!(q.z >= -9 && q.z <= 9);
        assert!(q.y == 4 || q.y == 5);
    }
    let mut sorted = g.clone();
    sorted.sort_by_key(|q| (q.x, q.y, q.z));
    sorted.dedup();
    assert_eq!(sorted.len(), 722);
}

#[test]
fn spawns_are_numbered_in_order() {
    let g = ball_grid_positions();
    let s = game_setup_environment(&g);
    assert_eq!(s.len(), 722);
    for (i, spawn) in s.iter().enumerate() {
        assert_eq!(spawn.debug_index, i);
        assert_eq!(spawn.position, g[i]);
    }
    assert!(game_setup_environment(&Vec::new()).is_empty());
}
