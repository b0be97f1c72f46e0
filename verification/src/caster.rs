//! The ray caster: marches one ray through the grid to the first solid cell
//! and measures how far away it is.

use vstd::prelude::*;
use crate::config::ConfigError;
use crate::direction::Direction;
use crate::fixed::{cell_index, cell_of, div_floor, int_sqrt, isqrt, ONE};
use crate::grid::{tile_in, TileGrid};
use crate::observer::Observer;
use crate::texture::TEXTURE_SIZE;

verus! {

/// The distance reported for a ray that met no wall within its step bound.
pub const NO_HIT_DISTANCE: u64 = 0xffff_ffff_ffff_ffff;

/// A ray as a mathematical object: it starts at `(x, y)` and advances by
/// `(dx, dy) / precision` with every step.
pub struct Ray {
    pub x: int,
    pub y: int,
    pub dx: int,
    pub dy: int,
    pub precision: int,
}

impl Ray {
    /// The horizontal coordinate after `n` steps.
    pub open spec fn x_at(self, n: int) -> int {
        self.x + (n * self.dx) / self.precision
    }

    /// The vertical coordinate after `n` steps.
    pub open spec fn y_at(self, n: int) -> int {
        self.y + (n * self.dy) / self.precision
    }

    /// The tile code of the cell that the ray is in after `n` steps.
    pub open spec fn tile_at(self, rows: Seq<Seq<u8>>, n: int) -> u8 {
        tile_in(rows, cell_index(self.x_at(n)), cell_index(self.y_at(n)))
    }

    /// The ray is in empty space after each of its first `n` steps.
    pub open spec fn clear_through(self, rows: Seq<Seq<u8>>, n: int) -> bool {
        forall|k: int| 1 <= k <= n ==> #[trigger] self.tile_at(rows, k) == 0
    }

    /// Step `n` is the first that ends in a solid cell.
    pub open spec fn first_hit(self, rows: Seq<Seq<u8>>, n: int) -> bool {
        n >= 1 && self.tile_at(rows, n) != 0 && self.clear_through(rows, n - 1)
    }
}

/// The ray that leaves `observer` along `dir` with `precision` steps per unit.
pub open spec fn ray_from(observer: Observer, dir: Direction, precision: int) -> Ray {
    Ray {
        x: observer.x() as int,
        y: observer.y() as int,
        dx: dir.dx() as int,
        dy: dir.dy() as int,
        precision,
    }
}

/// Length of the vector `(dx, dy)`, rounded down.
pub open spec fn raw_distance(dx: int, dy: int) -> int {
    int_sqrt(dx * dx + dy * dy)
}

/// The distance along the heading: the raw distance times the cosine
/// `fisheye` of the angle between ray and heading, and never under 1.0.
pub open spec fn corrected_distance(raw: int, fisheye: int) -> int {
    let d = (raw * fisheye) / 65536;
    if d < 65536 {
        65536
    } else {
        d
    }
}

/// The texture column that a hit at `(hx, hy)` selects: the position of
/// `hx + hy` within its unit interval, in eighths.
pub open spec fn texture_column_of(hx: int, hy: int) -> int {
    ((8 * (hx + hy)) / 65536) % 8
}

/// How finely and how far rays are marched.
#[derive(Clone, Copy, Debug)]
pub struct RayConfig {
    precision: u8,
    max_steps: u32,
}

impl RayConfig {
    /// Steps per unit of distance.
    pub closed spec fn spec_precision(&self) -> u8 {
        self.precision
    }

    /// The most steps that a ray takes before it is given up.
    pub closed spec fn spec_max_steps(&self) -> u32 {
        self.max_steps
    }

    /// Both parameters are positive.
    #[verifier::type_invariant]
    pub open spec fn wf(self) -> bool {
        self.precision() >= 1 && self.max_steps() >= 1
    }

    /// Rays of `precision` steps per unit of distance, given up after
    /// `max_steps` steps.
    pub fn new(precision: u8, max_steps: u32) -> (res: Result<RayConfig, ConfigError>)
        ensures
            precision == 0 ==> res == Err::<RayConfig, ConfigError>(ConfigError::ZeroPrecision),
            precision != 0 && max_steps == 0 ==> res == Err::<RayConfig, ConfigError>(
                ConfigError::ZeroStepBound,
            ),
            precision != 0 && max_steps != 0 ==> (res matches Ok(c) && c.precision() == precision
                && c.max_steps() == max_steps && c.wf()),
    {
        if precision == 0 {
            return Err(ConfigError::ZeroPrecision);
        }
        if max_steps == 0 {
            return Err(ConfigError::ZeroStepBound);
        }
        Ok(RayConfig { precision, max_steps })
    }

    /// Steps per unit of distance.
    #[verifier::when_used_as_spec(spec_precision)]
    pub fn precision(&self) -> (p: u8)
        ensures
            p == self.precision(),
            p >= 1,
    {
        proof {
            use_type_invariant(self);
        }
        self.precision
    }

    /// The most steps that a ray takes before it is given up.
    #[verifier::when_used_as_spec(spec_max_steps)]
    pub fn max_steps(&self) -> (m: u32)
        ensures
            m == self.max_steps(),
            m >= 1,
    {
        proof {
            use_type_invariant(self);
        }
        self.max_steps
    }
}

/// The ray of one screen column: its direction, and the cosine of the
/// angle between it and the heading.
#[derive(Clone, Copy, Debug)]
pub struct ColumnRay {
    dir: Direction,
    fisheye: i32,
}

impl ColumnRay {
    /// The direction of the ray.
    pub closed spec fn spec_dir(&self) -> Direction {
        self.dir
    }

    /// The cosine of the angle between ray and heading, in fixed point.
    pub closed spec fn spec_fisheye(&self) -> i32 {
        self.fisheye
    }

    /// The direction is a unit vector and the cosine lies in 0..=1.0.
    #[verifier::type_invariant]
    pub open spec fn wf(self) -> bool {
        self.dir().wf() && 0 <= self.fisheye() <= 65536
    }

    /// A ray along `dir` whose angle to the heading has the cosine
    /// `fisheye`, where that lies in 0..=1.0.
    pub fn new(dir: Direction, fisheye: i32) -> (res: Option<ColumnRay>)
        ensures
            res is Some <==> 0 <= fisheye <= 65536,
            res matches Some(r) ==> r.dir() == dir && r.fisheye() == fisheye && r.wf(),
    {
        if fisheye < 0 || fisheye > ONE {
            return None;
        }
        proof {
            use_type_invariant(dir);
        }
        Some(ColumnRay { dir, fisheye })
    }

    /// The direction of the ray.
    #[verifier::when_used_as_spec(spec_dir)]
    pub fn dir(&self) -> (d: Direction)
        ensures
            d == self.dir(),
    {
        self.dir
    }

    /// The cosine of the angle between ray and heading, in fixed point.
    #[verifier::when_used_as_spec(spec_fisheye)]
    pub fn fisheye(&self) -> (f: i32)
        ensures
            f == self.fisheye(),
            0 <= f <= 65536,
    {
        proof {
            use_type_invariant(self);
        }
        self.fisheye
    }
}

/// What one ray found.
#[derive(Clone, Copy, Debug, PartialEq, Eq, Structural)]
pub struct ColumnResult {
    /// Distance to the wall along the heading, in fixed point, at least 1.0;
    /// `NO_HIT_DISTANCE` where the ray met no wall.
    pub distance: u64,
    /// The tile code of the wall; 0 where the ray met no wall.
    pub tile: u8,
    /// The texture column that the hit selects, in 0..8.
    pub texture_column: u8,
    /// The number of steps that the ray took to the wall; 0 where it met none.
    pub steps: u32,
}

impl ColumnResult {
    /// Whether the ray met a wall.
    pub open spec fn hit(self) -> bool {
        self.tile != 0
    }

    /// Whether the ray met a wall.
    pub fn is_hit(&self) -> (b: bool)
        ensures
            b == self.hit(),
    {
        self.tile != 0
    }
}

/// The result for a ray that met no wall.
pub open spec fn miss_result() -> ColumnResult {
    ColumnResult { distance: NO_HIT_DISTANCE, tile: 0, texture_column: 0, steps: 0 }
}

/// The result for a ray whose step `n` ends in a wall.
pub open spec fn hit_result(ray: Ray, rows: Seq<Seq<u8>>, fisheye: int, n: int) -> ColumnResult {
    ColumnResult {
        distance: corrected_distance(
            raw_distance(ray.x_at(n) - ray.x, ray.y_at(n) - ray.y),
            fisheye,
        ) as u64,
        tile: ray.tile_at(rows, n),
        texture_column: texture_column_of(ray.x_at(n), ray.y_at(n)) as u8,
        steps: n as u32,
    }
}

/// The number of the first step that ends in a solid cell, among the
/// first `max_steps` steps.
pub open spec fn first_hit_step(ray: Ray, rows: Seq<Seq<u8>>, max_steps: int) -> Option<int> {
    if exists|n: int| 1 <= n <= max_steps && #[trigger] ray.first_hit(rows, n) {
        Some(choose|n: int| 1 <= n <= max_steps && #[trigger] ray.first_hit(rows, n))
    } else {
        None
    }
}

/// What a ray finds that may take `max_steps` steps.
pub open spec fn cast_result(ray: Ray, rows: Seq<Seq<u8>>, fisheye: int, max_steps: int) -> ColumnResult {
    match first_hit_step(ray, rows, max_steps) {
        Some(n) => hit_result(ray, rows, fisheye, n),
        None => miss_result(),
    }
}

/// A ray has at most one first hit.
pub proof fn lemma_first_hit_unique(ray: Ray, rows: Seq<Seq<u8>>, a: int, b: int)
    requires
        ray.first_hit(rows, a),
        ray.first_hit(rows, b),
    ensures
        a == b,
{
    if a < b {
        assert(ray.tile_at(rows, a) == 0);
    }
    if b < a {
        assert(ray.tile_at(rows, b) == 0);
    }
}

/// One coordinate of a ray after `n` steps.
fn coord_at(origin: i32, step: i32, precision: u8, n: u32) -> (pos: i64)
    requires
        precision >= 1,
        -65536 <= step <= 65536,
    ensures
        pos == origin + (n * step) / (precision as int),
        -0x1_0000_8000_0000 <= pos - origin <= 0x1_0000_0000_0000,
{
    assert(-0x1_0000_0000_0000 <= n * step <= 0x1_0000_0000_0000) by (nonlinear_arith)
        requires
            0 <= n <= 0xffff_ffff,
            -65536 <= step <= 65536,
    ;
    let travelled: i64 = n as i64 * step as i64;
    let delta: i64 = div_floor(travelled, precision as i64);
    origin as i64 + delta
}

/// The position and the tile code of a ray after `n` steps.
fn sample(observer: &Observer, grid: &TileGrid, dir: &Direction, precision: u8, n: u32) -> (res: (
    i64,
    i64,
    u8,
))
    requires
        precision >= 1,
    ensures
        ({
            let ray = ray_from(*observer, *dir, precision as int);
            &&& res.0 == ray.x_at(n as int)
            &&& res.1 == ray.y_at(n as int)
            &&& res.2 == ray.tile_at(grid@, n as int)
            &&& -0x1_0000_8000_0000 <= res.0 - ray.x <= 0x1_0000_0000_0000
            &&& -0x1_0000_8000_0000 <= res.1 - ray.y <= 0x1_0000_0000_0000
        }),
{
    let px: i64 = coord_at(observer.x(), dir.dx(), precision, n);
    let py: i64 = coord_at(observer.y(), dir.dy(), precision, n);
    let tile: u8 = grid.tile_at(cell_of(px), cell_of(py));
    (px, py, tile)
}

/// Marches the ray from `observer` along `dir` and returns the number of the
/// first step that ends in a solid cell, if one of the first
/// `config.max_steps()` steps does.
pub fn march(observer: &Observer, grid: &TileGrid, dir: &Direction, config: &RayConfig) -> (steps:
    Option<u32>)
    ensures
        ({
            let ray = ray_from(*observer, *dir, config.precision() as int);
            match steps {
                Some(n) => n <= config.max_steps() && ray.first_hit(grid@, n as int),
                None => ray.clear_through(grid@, config.max_steps() as int),
            }
        }),
{
    let precision: u8 = config.precision();
    let max_steps: u32 = config.max_steps();
    let ghost ray = ray_from(*observer, *dir, precision as int);
    let mut n: u32 = 0;
    while n < max_steps
        invariant
            n <= max_steps,
            precision >= 1,
            precision == config.precision(),
            max_steps == config.max_steps(),
            ray == ray_from(*observer, *dir, precision as int),
            ray.clear_through(grid@, n as int),
        decreases max_steps - n,
    {
        n += 1;
        let (_, _, tile) = sample(observer, grid, dir, precision, n);
        if tile != 0 {
            return Some(n);
        }
    }
    None
}

/// The distance along the heading for a hit `(dx, dy)` away, seen under an
/// angle to the heading whose cosine is `fisheye`.
pub fn measure(dx: i64, dy: i64, fisheye: i32) -> (distance: u64)
    requires
        0 <= fisheye <= 65536,
    ensures
        distance == corrected_distance(raw_distance(dx as int, dy as int), fisheye as int),
        distance >= 65536,
{
    let wx: i128 = dx as i128;
    let wy: i128 = dy as i128;
    assert(0 <= wx * wx <= 0x8000_0000_0000_0000 * 0x8000_0000_0000_0000 && 0 <= wy * wy
        <= 0x8000_0000_0000_0000 * 0x8000_0000_0000_0000) by (nonlinear_arith)
        requires
            -0x8000_0000_0000_0000 <= wx <= 0x8000_0000_0000_0000,
            -0x8000_0000_0000_0000 <= wy <= 0x8000_0000_0000_0000,
    ;
    let squares: u128 = (wx * wx) as u128 + (wy * wy) as u128;
    let raw: u64 = isqrt(squares);
    assert(0 <= raw * fisheye <= raw * 65536) by (nonlinear_arith)
        requires
            0 <= raw,
            0 <= fisheye <= 65536,
    ;
    let wide: u128 = raw as u128 * fisheye as u128;
    let scaled: u128 = wide / 65536;
    if scaled < 65536 {
        65536
    } else {
        scaled as u64
    }
}

/// Casts the ray of one screen column: marches it from `observer` to the
/// first solid cell of `grid` and measures the distance along the heading.
pub fn cast(observer: &Observer, grid: &TileGrid, ray: &ColumnRay, config: &RayConfig) -> (res:
    ColumnResult)
    ensures
        ({
            let path = ray_from(*observer, ray.dir(), config.precision() as int);
            &&& res.hit() ==> 1 <= res.steps <= config.max_steps() && path.first_hit(
                grid@,
                res.steps as int,
            ) && res == hit_result(path, grid@, ray.fisheye() as int, res.steps as int)
            &&& !res.hit() ==> path.clear_through(grid@, config.max_steps() as int) && res
                == miss_result()
            &&& res == cast_result(
                path,
                grid@,
                ray.fisheye() as int,
                config.max_steps() as int,
            )
        }),
        res.distance >= 65536,
        res.texture_column < 8,
{
    let dir: Direction = ray.dir();
    let precision: u8 = config.precision();
    let ghost path = ray_from(*observer, dir, precision as int);
    let ghost limit = config.max_steps() as int;
    match march(observer, grid, &dir, config) {
        None => {
            proof {
                assert forall|k: int| 1 <= k <= limit implies !#[trigger] path.first_hit(
                    grid@,
                    k,
                ) by {
                    assert(path.tile_at(grid@, k) == 0);
                }
            }
            ColumnResult { distance: NO_HIT_DISTANCE, tile: 0, texture_column: 0, steps: 0 }
        },
        Some(n) => {
            let (hx, hy, tile) = sample(observer, grid, &dir, precision, n);
            proof {
                use_type_invariant(grid);
                assert(1 <= n <= limit && path.first_hit(grid@, n as int));
                let m = choose|m: int| 1 <= m <= limit && #[trigger] path.first_hit(grid@, m);
                lemma_first_hit_unique(path, grid@, n as int, m);
            }
            let distance: u64 = measure(
                hx - observer.x() as i64,
                hy - observer.y() as i64,
                ray.fisheye(),
            );
            let size: i64 = TEXTURE_SIZE as i64;
            let column: i64 = ((size * (hx + hy)) / (ONE as i64)) % size;
            ColumnResult { distance, tile, texture_column: column as u8, steps: n }
        },
    }
}

/// Number of steps within which a ray of `precision` steps per unit that
/// starts inside a grid of `cols` by `rows` cells meets a wall.
pub open spec fn steps_to_wall(cols: int, rows: int, precision: int) -> int {
    if cols >= rows {
        2 * precision * cols
    } else {
        2 * precision * rows
    }
}

/// A coordinate of a ray changes by no more than a cell from one step to the next.
proof fn lemma_step_size(step: int, precision: int, k: int)
    requires
        -65536 <= step <= 65536,
        precision >= 1,
    ensures
        -65536 <= ((k + 1) * step) / precision - (k * step) / precision <= 65536,
{
    let a = k * step;
    let b = (k + 1) * step;
    let q1 = a / precision;
    let q2 = b / precision;
    assert(b == a + step) by (nonlinear_arith)
        requires
            a == k * step,
            b == (k + 1) * step,
    ;
    assert(precision * q1 <= a < precision * q1 + precision) by (nonlinear_arith)
        requires
            q1 == a / precision,
            precision >= 1,
    ;
    assert(precision * q2 <= b < precision * q2 + precision) by (nonlinear_arith)
        requires
            q2 == b / precision,
            precision >= 1,
    ;
    assert(q2 - q1 <= 65536) by (nonlinear_arith)
        requires
            precision * q2 <= b,
            b == a + step,
            a < precision * q1 + precision,
            step <= 65536,
            precision >= 1,
    ;
    assert(q2 - q1 >= -65536) by (nonlinear_arith)
        requires
            b < precision * q2 + precision,
            b == a + step,
            precision * q1 <= a,
            step >= -65536,
            precision >= 1,
    ;
}

/// Whether a ray is in a cell off the border of a grid of `cols` by `rows`
/// cells after `n` steps.
spec fn off_border(ray: Ray, cols: int, rows: int, n: int) -> bool {
    &&& 1 <= cell_index(ray.x_at(n)) <= cols - 2
    &&& 1 <= cell_index(ray.y_at(n)) <= rows - 2
}

/// A ray that starts off the border of a closed grid and has met no wall
/// after `n` steps is still off the border.
proof fn lemma_stays_inside(ray: Ray, grid: TileGrid, n: int)
    requires
        grid.wf(),
        -65536 <= ray.dx <= 65536,
        -65536 <= ray.dy <= 65536,
        ray.precision >= 1,
        off_border(ray, grid.cols(), grid.rows(), 0),
        0 <= n,
        ray.clear_through(grid@, n),
    ensures
        off_border(ray, grid.cols(), grid.rows(), n),
    decreases n,
{
    if n > 0 {
        lemma_stays_inside(ray, grid, n - 1);
        lemma_step_size(ray.dx, ray.precision, n - 1);
        lemma_step_size(ray.dy, ray.precision, n - 1);
        let col = cell_index(ray.x_at(n));
        let row = cell_index(ray.y_at(n));
        assert(0 <= col <= grid.cols() - 1);
        assert(0 <= row <= grid.rows() - 1);
        assert(grid@[row].len() == grid@[0].len());
        assert(ray.tile_at(grid@, n) == 0);
        assert(grid@[row][col] == 0);
    }
}

/// One component of a unit vector is at least a half.
proof fn lemma_unit_has_long_side(dx: int, dy: int)
    requires
        crate::direction::is_unit(dx, dy),
    ensures
        dx >= 32768 || dx <= -32768 || dy >= 32768 || dy <= -32768,
{
    if -32768 < dx < 32768 && -32768 < dy < 32768 {
        assert(dx * dx + dy * dy <= 2 * 32768 * 32768) by (nonlinear_arith)
            requires
                -32768 < dx < 32768,
                -32768 < dy < 32768,
        ;
    }
}

/// After `2 * precision * side` steps along a component of at least a
/// half, a ray is at least `side` cells from where it started.
proof fn lemma_far_after(step: int, precision: int, side: int)
    requires
        precision >= 1,
        side >= 0,
    ensures
        step >= 32768 ==> (2 * precision * side * step) / precision >= side * 65536,
        step <= -32768 ==> (2 * precision * side * step) / precision <= -side * 65536,
{
    let n = 2 * precision * side;
    let q = (n * step) / precision;
    assert(precision * q <= n * step < precision * q + precision) by (nonlinear_arith)
        requires
            q == (n * step) / precision,
            precision >= 1,
    ;
    if step >= 32768 {
        assert(n * step >= precision * (side * 65536)) by (nonlinear_arith)
            requires
                n == 2 * precision * side,
                step >= 32768,
                precision >= 1,
                side >= 0,
        ;
        assert(q >= side * 65536) by (nonlinear_arith)
            requires
                n * step < precision * q + precision,
                n * step >= precision * (side * 65536),
                precision >= 1,
        ;
    }
    if step <= -32768 {
        assert(n * step <= precision * (-side * 65536)) by (nonlinear_arith)
            requires
                n == 2 * precision * side,
                step <= -32768,
                precision >= 1,
                side >= 0,
        ;
        assert(q <= -side * 65536) by (nonlinear_arith)
            requires
                precision * q <= n * step,
                n * step <= precision * (-side * 65536),
                precision >= 1,
        ;
    }
}

/// Where some step up to `n` ends in a solid cell, there is a first such step.
proof fn lemma_least_hit(ray: Ray, rows: Seq<Seq<u8>>, n: int) -> (m: int)
    requires
        n >= 0,
        !ray.clear_through(rows, n),
    ensures
        1 <= m <= n,
        ray.first_hit(rows, m),
    decreases n,
{
    if n == 0 {
        0
    } else if ray.clear_through(rows, n - 1) {
        assert(ray.tile_at(rows, n) != 0);
        n
    } else {
        lemma_least_hit(ray, rows, n - 1)
    }
}

/// A ray that starts off the border of a closed grid meets a wall: if it
/// may take as many steps as `steps_to_wall` says, it has a first hit
/// within that many, no step up to the hit leaves the grid, and casting it
/// reports the tile code of the cell in which that step ends.
pub proof fn lemma_cast_meets_wall(
    observer: Observer,
    grid: TileGrid,
    ray: ColumnRay,
    config: RayConfig,
) -> (n: int)
    requires
        grid.wf(),
        ray.wf(),
        config.wf(),
        observer.inside(grid),
        config.max_steps() >= steps_to_wall(grid.cols(), grid.rows(), config.precision() as int),
    ensures
        ({
            let path = ray_from(observer, ray.dir(), config.precision() as int);
            let found = cast_result(
                path,
                grid@,
                ray.fisheye() as int,
                config.max_steps() as int,
            );
            &&& 1 <= n <= steps_to_wall(grid.cols(), grid.rows(), config.precision() as int)
            &&& path.first_hit(grid@, n)
            &&& found.hit()
            &&& found.steps == n
            &&& found.tile == grid.tile(cell_index(path.x_at(n)), cell_index(path.y_at(n)))
            &&& forall|k: int|
                0 <= k <= n ==> 0 <= #[trigger] cell_index(path.x_at(k)) < grid.cols() && 0
                    <= cell_index(path.y_at(k)) < grid.rows()
        }),
{
    let precision = config.precision() as int;
    let path = ray_from(observer, ray.dir(), precision);
    let cols = grid.cols();
    let rows = grid.rows();
    let side = if cols >= rows { cols } else { rows };
    let bound = steps_to_wall(cols, rows, precision);
    assert(bound == 2 * precision * side);
    assert(bound >= 0) by (nonlinear_arith)
        requires
            bound == 2 * precision * side,
            precision >= 1,
            side >= 0,
    ;
    assert(path.x_at(0) == path.x && path.y_at(0) == path.y) by {
        assert(0 * path.dx == 0 && 0 * path.dy == 0);
        assert(0int / precision == 0) by (nonlinear_arith)
            requires
                precision >= 1,
        ;
    }
    if path.clear_through(grid@, bound) {
        lemma_stays_inside(path, grid, bound);
        lemma_unit_has_long_side(path.dx, path.dy);
        lemma_far_after(path.dx, precision, side);
        lemma_far_after(path.dy, precision, side);
        assert(false);
    }
    let n = lemma_least_hit(path, grid@, bound);
    let limit = config.max_steps() as int;
    assert(1 <= n <= limit && path.first_hit(grid@, n));
    let m = choose|m: int| 1 <= m <= limit && #[trigger] path.first_hit(grid@, m);
    lemma_first_hit_unique(path, grid@, n, m);
    assert forall|k: int| 0 <= k <= n implies 0 <= #[trigger] cell_index(path.x_at(k)) < cols
        && 0 <= cell_index(path.y_at(k)) < rows by {
        if k < n {
            assert(path.clear_through(grid@, k));
            lemma_stays_inside(path, grid, k);
        } else {
            assert(path.tile_at(grid@, n) != 0);
            assert(grid@[cell_index(path.y_at(n))].len() == grid@[0].len());
        }
    }
    n
}

/// A ray along the heading keeps its distance: where the cosine of the
/// angle between ray and heading is 1.0, the corrected distance is the raw
/// distance, for every raw distance of at least 1.0 (a shorter one counts
/// as 1.0).
pub proof fn lemma_heading_ray_keeps_distance(raw: int)
    requires
        0 <= raw,
    ensures
        raw >= 65536 ==> corrected_distance(raw, 65536) == raw,
        raw < 65536 ==> corrected_distance(raw, 65536) == 65536,
{
    assert((raw * 65536) / 65536 == raw) by (nonlinear_arith);
}

} // verus!
