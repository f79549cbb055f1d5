//! The layout of the arena: its six boundaries and the grid of balls that
//! fills it when a game starts.

use vstd::prelude::*;
use vstd::arithmetic::div_mod::{lemma_fundamental_div_mod, lemma_fundamental_div_mod_converse};

verus! {

/// A point of the arena on the integer grid.
#[derive(Clone, Copy, Debug, PartialEq, Eq, Structural)]
pub struct GridPosition {
    pub x: i32,
    pub y: i32,
    pub z: i32,
}

/// How a boundary plane is turned: left as it is, or turned to look at a
/// point with a given up direction.
#[derive(Clone, Copy, Debug, PartialEq, Eq, Structural)]
pub enum Orientation {
    Identity,
    LookingAt { target: GridPosition, up: GridPosition },
}

/// Where one boundary plane of the arena stands and how it is turned.
#[derive(Clone, Copy, Debug, PartialEq, Eq, Structural)]
pub struct BoundaryPlacement {
    pub position: GridPosition,
    pub orientation: Orientation,
}

/// A ball to spawn: its index in the debug views and where it starts.
#[derive(Clone, Copy, Debug, PartialEq, Eq, Structural)]
pub struct BallSpawn {
    pub debug_index: usize,
    pub position: GridPosition,
}

pub open spec fn pos(x: int, y: int, z: int) -> GridPosition {
    GridPosition { x: x as i32, y: y as i32, z: z as i32 }
}

/// A grid point given by its coordinates.
pub open spec fn point(x: i32, y: i32, z: i32) -> GridPosition {
    GridPosition { x, y, z }
}

pub open spec fn looking_at(position: GridPosition, target: GridPosition, up: GridPosition) -> BoundaryPlacement {
    BoundaryPlacement { position, orientation: Orientation::LookingAt { target, up } }
}

/// The six boundaries, in order: floor, ceiling, the walls at -x and +x,
/// the walls at -z and +z. The arena is 20 wide on x and z and 20 high.
pub open spec fn arena_boundary_layout() -> Seq<BoundaryPlacement> {
    seq![
        BoundaryPlacement { position: point(0, 0, 0), orientation: Orientation::Identity },
        looking_at(point(0, 20, 0), point(0, 20, 1), point(0, -1i32, 0)),
        looking_at(point(-10i32, 10, 0), point(-10i32, 20, 0), point(1, 0, 0)),
        looking_at(point(10, 10, 0), point(10, 20, 0), point(-1i32, 0, 0)),
        looking_at(point(0, 10, -10i32), point(0, 20, -10i32), point(0, 0, 1)),
        looking_at(point(0, 10, 10), point(0, 20, 10), point(0, 0, -1i32)),
    ]
}

/// Number of balls in the starting grid: 19 by 19 columns, two high.
pub open spec fn ball_count() -> nat {
    722
}

/// The `n`-th ball of the starting grid. Balls are laid out column by
/// column: x from -9 to 9, within that z from -9 to 9, within that the
/// lower ball (height 4) before the upper one (height 5).
pub open spec fn ball_grid_position(n: int) -> GridPosition {
    pos(n / 38 - 9, 4 + n % 2, (n / 2) % 19 - 9)
}

/// Dot product of two vectors.
pub open spec fn dot(a: (int, int, int), b: (int, int, int)) -> int {
    a.0 * b.0 + a.1 * b.1 + a.2 * b.2
}

/// A grid point taken as a vector.
pub open spec fn vector(a: GridPosition) -> (int, int, int) {
    (a.x as int, a.y as int, a.z as int)
}

/// The vector from `a` to `b`.
pub open spec fn offset(a: GridPosition, b: GridPosition) -> (int, int, int) {
    (b.x - a.x, b.y - a.y, b.z - a.z)
}

/// The middle of the arena.
pub open spec fn arena_center() -> GridPosition {
    point(0, 10, 0)
}

/// A boundary placed at `p` that looks along its plane (its view direction
/// is a nonzero vector orthogonal to its up direction, which is a unit
/// axis), with its up direction, the normal of its half-space, pointing
/// from the plane toward the middle of the arena.
pub open spec fn faces_inward(b: BoundaryPlacement) -> bool {
    match b.orientation {
        Orientation::LookingAt { target, up } => {
            &&& dot(vector(up), vector(up)) == 1
            &&& dot(vector(up), offset(b.position, target)) == 0
            &&& dot(offset(b.position, target), offset(b.position, target)) > 0
            &&& dot(vector(up), offset(b.position, arena_center())) > 0
        },
        Orientation::Identity => false,
    }
}

/// Each boundary plane faces into the arena: the floor is left unturned (so
/// its up direction is +y) and lies below the middle of the arena; every
/// other boundary faces inward. The six planes are the floor, the ceiling,
/// and the walls at x = -10, x = 10, z = -10 and z = 10.
pub proof fn lemma_boundaries_face_inward()
    ensures
        arena_boundary_layout().len() == 6,
        arena_boundary_layout()[0].orientation == Orientation::Identity,
        arena_boundary_layout()[0].position.y < arena_center().y,
        forall|i: int| 1 <= i < 6 ==> faces_inward(#[trigger] arena_boundary_layout()[i]),
        arena_boundary_layout()[0].position == point(0, 0, 0),
        arena_boundary_layout()[1].position.y == 20,
        arena_boundary_layout()[2].position.x == -10,
        arena_boundary_layout()[3].position.x == 10,
        arena_boundary_layout()[4].position.z == -10,
        arena_boundary_layout()[5].position.z == 10,
{
    let b = arena_boundary_layout();
    assert(b[1] == looking_at(point(0, 20, 0), point(0, 20, 1), point(0, -1i32, 0)));
    assert(faces_inward(looking_at(point(0, 20, 0), point(0, 20, 1), point(0, -1i32, 0)))) by (nonlinear_arith);
    assert(faces_inward(b[1]));
    assert(b[2] == looking_at(point(-10i32, 10, 0), point(-10i32, 20, 0), point(1, 0, 0)));
    assert(faces_inward(looking_at(point(-10i32, 10, 0), point(-10i32, 20, 0), point(1, 0, 0)))) by (nonlinear_arith);
    assert(faces_inward(b[2]));
    assert(b[3] == looking_at(point(10, 10, 0), point(10, 20, 0), point(-1i32, 0, 0)));
    assert(faces_inward(looking_at(point(10, 10, 0), point(10, 20, 0), point(-1i32, 0, 0)))) by (nonlinear_arith);
    assert(faces_inward(b[3]));
    assert(b[4] == looking_at(point(0, 10, -10i32), point(0, 20, -10i32), point(0, 0, 1)));
    assert(faces_inward(looking_at(point(0, 10, -10i32), point(0, 20, -10i32), point(0, 0, 1)))) by (nonlinear_arith);
    assert(faces_inward(b[4]));
    assert(b[5] == looking_at(point(0, 10, 10), point(0, 20, 10), point(0, 0, -1i32)));
    assert(faces_inward(looking_at(point(0, 10, 10), point(0, 20, 10), point(0, 0, -1i32)))) by (nonlinear_arith);
    assert(faces_inward(b[5]));
}

/// The six boundaries of the arena.
pub fn arena_boundaries() -> (boundaries: Vec<BoundaryPlacement>)
    ensures
        boundaries@ == arena_boundary_layout(),
{
    let boundaries = vec![
        BoundaryPlacement { position: GridPosition { x: 0, y: 0, z: 0 }, orientation: Orientation::Identity },
        BoundaryPlacement {
            position: GridPosition { x: 0, y: 20, z: 0 },
            orientation: Orientation::LookingAt {
                target: GridPosition { x: 0, y: 20, z: 1 },
                up: GridPosition { x: 0, y: -1, z: 0 },
            },
        },
        BoundaryPlacement {
            position: GridPosition { x: -10, y: 10, z: 0 },
            orientation: Orientation::LookingAt {
                target: GridPosition { x: -10, y: 20, z: 0 },
                up: GridPosition { x: 1, y: 0, z: 0 },
            },
        },
        BoundaryPlacement {
            position: GridPosition { x: 10, y: 10, z: 0 },
            orientation: Orientation::LookingAt {
                target: GridPosition { x: 10, y: 20, z: 0 },
                up: GridPosition { x: -1, y: 0, z: 0 },
            },
        },
        BoundaryPlacement {
            position: GridPosition { x: 0, y: 10, z: -10 },
            orientation: Orientation::LookingAt {
                target: GridPosition { x: 0, y: 20, z: -10 },
                up: GridPosition { x: 0, y: 0, z: 1 },
            },
        },
        BoundaryPlacement {
            position: GridPosition { x: 0, y: 10, z: 10 },
            orientation: Orientation::LookingAt {
                target: GridPosition { x: 0, y: 20, z: 10 },
                up: GridPosition { x: 0, y: 0, z: -1 },
            },
        },
    ];
    assert(boundaries@ =~= arena_boundary_layout());
    boundaries
}

/// The position of ball `a * 38 + b * 2 + c` of the grid.
proof fn lemma_grid_index(a: int, b: int, c: int)
    requires
        0 <= a < 19,
        0 <= b < 19,
        0 <= c < 2,
    ensures
        ball_grid_position(a * 38 + b * 2 + c) == pos(a - 9, 4 + c, b - 9),
{
    let n: int = a * 38 + b * 2 + c;
    lemma_fundamental_div_mod_converse(n, 38, a, b * 2 + c);
    lemma_fundamental_div_mod_converse(n, 2, a * 19 + b, c);
    lemma_fundamental_div_mod_converse(a * 19 + b, 19, a, b);
}

/// Every ball of the grid is `a * 38 + b * 2 + c` for its own column
/// numbers `a`, `b` and layer `c`.
proof fn lemma_grid_decompose(n: int)
    requires
        0 <= n < ball_count(),
    ensures
        n == (n / 38) * 38 + ((n / 2) % 19) * 2 + n % 2,
        0 <= n / 38 < 19,
        0 <= (n / 2) % 19 < 19,
        0 <= n % 2 < 2,
{
    let a: int = n / 38;
    let r: int = n % 38;
    lemma_fundamental_div_mod(n, 38);
    lemma_fundamental_div_mod(r, 2);
    let b: int = r / 2;
    let c: int = r % 2;
    assert(0 <= b < 19);
    lemma_grid_index(a, b, c);
}

/// Every place of the 19 by 19 grid, at height 4 or 5, holds a ball: the
/// starting grid covers the whole block from -9 to 9 on x and z.
pub proof fn lemma_ball_grid_covers_block(x: int, y: int, z: int)
    requires
        -9 <= x <= 9,
        4 <= y <= 5,
        -9 <= z <= 9,
    ensures
        0 <= (x + 9) * 38 + (z + 9) * 2 + (y - 4) < ball_count(),
        ball_grid_position((x + 9) * 38 + (z + 9) * 2 + (y - 4)) == pos(x, y, z),
{
    lemma_grid_index(x + 9, z + 9, y - 4);
}

/// The starting grid of balls.
pub fn ball_grid_positions() -> (positions: Vec<GridPosition>)
    ensures
        positions@.len() == ball_count(),
        forall|n: int| 0 <= n < ball_count() ==> positions@[n] == ball_grid_position(n),
{
    let mut positions: Vec<GridPosition> = Vec::new();
    let mut i: i32 = -9;
    while i <= 9
        invariant
            -9 <= i <= 10,
            positions@.len() == (i + 9) * 38,
            forall|n: int| 0 <= n < positions@.len() ==> positions@[n] == ball_grid_position(n),
        decreases 10 - i,
    {
        let mut j: i32 = -9;
        while j <= 9
            invariant
                -9 <= i <= 9,
                -9 <= j <= 10,
                positions@.len() == (i + 9) * 38 + (j + 9) * 2,
                forall|n: int| 0 <= n < positions@.len() ==> positions@[n] == ball_grid_position(n),
            decreases 10 - j,
        {
            let mut k: i32 = 0;
            while k < 2
                invariant
                    -9 <= i <= 9,
                    -9 <= j <= 9,
                    0 <= k <= 2,
                    positions@.len() == (i + 9) * 38 + (j + 9) * 2 + k,
                    forall|n: int| 0 <= n < positions@.len() ==> positions@[n] == ball_grid_position(n),
                decreases 2 - k,
            {
                proof {
                    lemma_grid_index(i + 9, j + 9, k as int);
                }
                positions.push(GridPosition { x: i, y: 4 + k, z: j });
                k = k + 1;
            }
            j = j + 1;
        }
        i = i + 1;
    }
    positions
}

/// The balls to spawn for the given starting positions: the `i`-th one
/// starts at the `i`-th position and is known to the debug views as `i`.
pub fn game_setup_environment(positions: &Vec<GridPosition>) -> (spawns: Vec<BallSpawn>)
    ensures
        spawns@.len() == positions@.len(),
        forall|i: int|
            0 <= i < positions@.len() ==> spawns@[i] == (BallSpawn { debug_index: i as usize, position: positions@[i] }),
{
    let mut spawns: Vec<BallSpawn> = Vec::new();
    let n: usize = positions.len();
    let mut count: usize = 0;
    while count < n
        invariant
            n == positions@.len(),
            count <= n,
            spawns@.len() == count,
            forall|i: int|
                0 <= i < count ==> spawns@[i] == (BallSpawn { debug_index: i as usize, position: positions@[i] }),
        decreases n - count,
    {
        spawns.push(BallSpawn { debug_index: count, position: positions[count] });
        count = count + 1;
    }
    spawns
}

/// Every ball of the starting grid lies inside the arena, at least one unit
/// away from the floor, the ceiling and each wall, and no two balls start
/// at the same place.
pub proof fn lemma_ball_grid_inside_arena()
    ensures
        forall|n: int|
            #![trigger ball_grid_position(n)]
            0 <= n < ball_count() ==> {
                let p = ball_grid_position(n);
                let b = arena_boundary_layout();
                &&& p.y - b[0].position.y >= 1
                &&& b[1].position.y - p.y >= 1
                &&& p.x - b[2].position.x >= 1
                &&& b[3].position.x - p.x >= 1
                &&& p.z - b[4].position.z >= 1
                &&& b[5].position.z - p.z >= 1
            },
        forall|n: int, m: int|
            0 <= n < ball_count() && 0 <= m < ball_count() && n != m ==> ball_grid_position(n)
                != ball_grid_position(m),
{
    assert forall|n: int| #![trigger ball_grid_position(n)] 0 <= n < ball_count() implies {
        let p = ball_grid_position(n);
        let b = arena_boundary_layout();
        &&& p.y - b[0].position.y >= 1
        &&& b[1].position.y - p.y >= 1
        &&& p.x - b[2].position.x >= 1
        &&& b[3].position.x - p.x >= 1
        &&& p.z - b[4].position.z >= 1
        &&& b[5].position.z - p.z >= 1
    } by {
        lemma_grid_decompose(n);
    }
    assert forall|n: int, m: int|
        0 <= n < ball_count() && 0 <= m < ball_count() && n != m implies ball_grid_position(n)
            != ball_grid_position(m) by {
        lemma_grid_decompose(n);
        lemma_grid_decompose(m);
    }
}

} // verus!
