//! The observer: where the viewer stands, where it looks, how wide it sees.

use vstd::prelude::*;
use crate::config::ConfigError;
use crate::direction::Direction;
use crate::fixed::{cell_index, cell_of, div_floor};
use crate::grid::TileGrid;

verus! {

/// Whether a heading and a field of view, both in degrees, describe an
/// observer: the heading lies in 1..=359, the field of view is even (it is
/// twice the half angle) and narrower than a half turn.
pub open spec fn is_observer(heading: int, fov: int) -> bool {
    &&& 1 <= heading <= 359
    &&& 0 < fov < 180
    &&& fov % 2 == 0
}

/// The heading after a turn to the left by `step` degrees: a heading that
/// would fall to 0 or under becomes 359.
pub open spec fn turned_left(heading: int, step: int) -> int {
    if heading - step <= 0 {
        359
    } else {
        heading - step
    }
}

/// The heading after a turn to the right by `step` degrees: a heading that
/// would reach 360 or more becomes 1.
pub open spec fn turned_right(heading: int, step: int) -> int {
    if heading + step >= 360 {
        1
    } else {
        heading + step
    }
}

/// How far one move carries along an axis: the speed times the component
/// of the heading along that axis, rounded down.
pub open spec fn step_delta(speed: int, component: int) -> int {
    (speed * component) / 65536
}

/// The coordinate that is tested before a move by `delta` from `pos`: the
/// destination and `lookahead` more such moves beyond it.
pub open spec fn probe(pos: int, delta: int, lookahead: int) -> int {
    pos + (lookahead + 1) * delta
}

/// The vertical coordinate after an attempt to move by `delta_y`: the move
/// is made where the cell at the current column and the probed row is free.
pub open spec fn moved_y(grid: TileGrid, x: int, y: int, delta_y: int, lookahead: int) -> int {
    if grid.walkable(cell_index(x), cell_index(probe(y, delta_y, lookahead))) {
        y + delta_y
    } else {
        y
    }
}

/// The horizontal coordinate after an attempt to move by `delta_x` from
/// the row of `y`: the move is made where the cell at the probed column
/// and that row is free.
pub open spec fn moved_x(grid: TileGrid, x: int, y: int, delta_x: int, lookahead: int) -> int {
    if grid.walkable(cell_index(probe(x, delta_x, lookahead)), cell_index(y)) {
        x + delta_x
    } else {
        x
    }
}

/// The first reason, if any, for which motion parameters are refused.
pub open spec fn motion_defect(speed: int, lookahead: int, rotation_step: int) -> Option<
    ConfigError,
> {
    if speed <= 0 {
        Some(ConfigError::ZeroSpeed)
    } else if rotation_step < 1 || rotation_step > 359 {
        Some(ConfigError::BadRotationStep)
    } else if (lookahead + 1) * speed > 65536 {
        Some(ConfigError::StepTooLong)
    } else {
        None
    }
}

/// How the observer moves: the length of a step in fixed point, the number
/// of further steps that the collision probe looks ahead, and the angle of
/// a turn in degrees.
#[derive(Clone, Copy, Debug)]
pub struct MotionConfig {
    speed: i32,
    lookahead: u8,
    rotation_step: i16,
}

impl MotionConfig {
    /// The length of a step, in fixed point.
    pub closed spec fn spec_speed(&self) -> i32 {
        self.speed
    }

    /// The number of further steps that the collision probe looks ahead.
    pub closed spec fn spec_lookahead(&self) -> u8 {
        self.lookahead
    }

    /// The angle of a turn, in degrees.
    pub closed spec fn spec_rotation_step(&self) -> i16 {
        self.rotation_step
    }

    /// The parameters have no defect.
    #[verifier::type_invariant]
    pub open spec fn wf(self) -> bool {
        motion_defect(
            self.speed() as int,
            self.lookahead() as int,
            self.rotation_step() as int,
        ) is None
    }

    /// Steps of length `speed`, probed `lookahead` steps ahead, and turns
    /// by `rotation_step` degrees.
    pub fn new(speed: i32, lookahead: u8, rotation_step: i16) -> (res: Result<
        MotionConfig,
        ConfigError,
    >)
        ensures
            match res {
                Ok(m) => motion_defect(speed as int, lookahead as int, rotation_step as int)
                    is None && m.speed() == speed && m.lookahead() == lookahead
                    && m.rotation_step() == rotation_step && m.wf(),
                Err(e) => motion_defect(speed as int, lookahead as int, rotation_step as int)
                    == Some(e),
            },
    {
        if speed <= 0 {
            return Err(ConfigError::ZeroSpeed);
        }
        if rotation_step < 1 || rotation_step > 359 {
            return Err(ConfigError::BadRotationStep);
        }
        assert(0 <= (lookahead + 1) * speed <= 256 * 0x7fff_ffff) by (nonlinear_arith)
            requires
                0 <= lookahead <= 255,
                0 < speed <= 0x7fff_ffff,
        ;
        if (lookahead as i64 + 1) * (speed as i64) > 65536 {
            return Err(ConfigError::StepTooLong);
        }
        Ok(MotionConfig { speed, lookahead, rotation_step })
    }

    /// The length of a step, in fixed point.
    #[verifier::when_used_as_spec(spec_speed)]
    pub fn speed(&self) -> (v: i32)
        ensures
            v == self.speed(),
            0 < v <= 65536,
    {
        proof {
            use_type_invariant(self);
            assert(self.speed <= (self.lookahead + 1) * self.speed) by (nonlinear_arith)
                requires
                    self.speed > 0,
                    self.lookahead >= 0,
            ;
        }
        self.speed
    }

    /// The number of further steps that the collision probe looks ahead.
    #[verifier::when_used_as_spec(spec_lookahead)]
    pub fn lookahead(&self) -> (v: u8)
        ensures
            v == self.lookahead(),
    {
        self.lookahead
    }

    /// The angle of a turn, in degrees.
    #[verifier::when_used_as_spec(spec_rotation_step)]
    pub fn rotation_step(&self) -> (v: i16)
        ensures
            v == self.rotation_step(),
            1 <= v <= 359,
    {
        proof {
            use_type_invariant(self);
        }
        self.rotation_step
    }
}

/// What the observer is told to do.
#[derive(Clone, Copy, Debug, PartialEq, Eq, Structural)]
pub enum Command {
    /// Turn to the left by the rotation step.
    RotateLeft,
    /// Turn to the right by the rotation step.
    RotateRight,
    /// Move one step along the heading.
    MoveForward,
    /// Move one step against the heading.
    MoveBack,
}

/// The viewer: a fixed-point position, a heading in whole degrees and a
/// field of view in degrees.
#[derive(Clone, Copy, Debug, PartialEq, Eq, Structural)]
pub struct Observer {
    x: i32,
    y: i32,
    heading: i16,
    fov: u8,
}

impl Observer {
    /// The horizontal coordinate, in fixed point.
    pub closed spec fn spec_x(&self) -> i32 {
        self.x
    }

    /// The vertical coordinate, in fixed point.
    pub closed spec fn spec_y(&self) -> i32 {
        self.y
    }

    /// The heading in degrees.
    pub closed spec fn spec_heading(&self) -> i16 {
        self.heading
    }

    /// The field of view in degrees.
    pub closed spec fn spec_fov(&self) -> u8 {
        self.fov
    }

    /// Heading and field of view are in range.
    #[verifier::type_invariant]
    pub open spec fn wf(self) -> bool {
        is_observer(self.heading() as int, self.fov() as int)
    }

    /// Half the field of view, in degrees.
    pub open spec fn half_fov(self) -> int {
        self.fov() as int / 2
    }

    /// Whether the observer stands in an empty cell of `grid`.
    pub open spec fn stands_in(self, grid: TileGrid) -> bool {
        grid.walkable(cell_index(self.x() as int), cell_index(self.y() as int))
    }

    /// Whether the observer stands in a cell of `grid` that is not on the
    /// border.
    pub open spec fn inside(self, grid: TileGrid) -> bool {
        &&& 1 <= cell_index(self.x() as int) <= grid.cols() - 2
        &&& 1 <= cell_index(self.y() as int) <= grid.rows() - 2
    }

    /// Whether `self` is what `command` makes of the observer `before`,
    /// where `heading` is the direction in which that one looks: a turn
    /// changes the heading alone, a move the position alone, one axis
    /// after the other, each only where the probed cell is free.
    pub open spec fn follows(
        self,
        before: Observer,
        command: Command,
        heading: Direction,
        grid: TileGrid,
        motion: MotionConfig,
    ) -> bool {
        let delta_x = step_delta(motion.speed() as int, heading.dx() as int);
        let delta_y = step_delta(motion.speed() as int, heading.dy() as int);
        let lookahead = motion.lookahead() as int;
        let x = before.x() as int;
        let y = before.y() as int;
        &&& self.fov() == before.fov()
        &&& match command {
            Command::RotateLeft => {
                &&& self.heading() == turned_left(
                    before.heading() as int,
                    motion.rotation_step() as int,
                )
                &&& self.x() == x
                &&& self.y() == y
            },
            Command::RotateRight => {
                &&& self.heading() == turned_right(
                    before.heading() as int,
                    motion.rotation_step() as int,
                )
                &&& self.x() == x
                &&& self.y() == y
            },
            Command::MoveForward => {
                &&& self.heading() == before.heading()
                &&& self.y() == moved_y(grid, x, y, delta_y, lookahead)
                &&& self.x() == moved_x(grid, x, self.y() as int, delta_x, lookahead)
            },
            Command::MoveBack => {
                &&& self.heading() == before.heading()
                &&& self.y() == moved_y(grid, x, y, -delta_y, lookahead)
                &&& self.x() == moved_x(grid, x, self.y() as int, -delta_x, lookahead)
            },
        }
    }

    /// An observer at `(x, y)` that looks along `heading` degrees and sees
    /// `fov` degrees, where these are in range.
    pub fn new(x: i32, y: i32, heading: i16, fov: u8) -> (res: Option<Observer>)
        ensures
            res is Some <==> is_observer(heading as int, fov as int),
            res matches Some(o) ==> o.x() == x && o.y() == y && o.heading() == heading
                && o.fov() == fov && o.wf(),
    {
        if heading < 1 || heading > 359 || fov == 0 || fov >= 180 || fov % 2 != 0 {
            return None;
        }
        Some(Observer { x, y, heading, fov })
    }

    /// The observer turned to the left by the rotation step.
    pub fn rotate_left(self, motion: &MotionConfig) -> (res: Observer)
        ensures
            res.heading() == turned_left(self.heading() as int, motion.rotation_step() as int),
            res.x() == self.x(),
            res.y() == self.y(),
            res.fov() == self.fov(),
            res.wf(),
    {
        proof {
            use_type_invariant(self);
        }
        let step: i16 = motion.rotation_step();
        let turned: i16 = self.heading - step;
        let heading: i16 = if turned <= 0 { 359 } else { turned };
        Observer { x: self.x, y: self.y, heading, fov: self.fov }
    }

    /// The observer turned to the right by the rotation step.
    pub fn rotate_right(self, motion: &MotionConfig) -> (res: Observer)
        ensures
            res.heading() == turned_right(self.heading() as int, motion.rotation_step() as int),
            res.x() == self.x(),
            res.y() == self.y(),
            res.fov() == self.fov(),
            res.wf(),
    {
        proof {
            use_type_invariant(self);
        }
        let step: i16 = motion.rotation_step();
        let turned: i16 = self.heading + step;
        let heading: i16 = if turned >= 360 { 1 } else { turned };
        Observer { x: self.x, y: self.y, heading, fov: self.fov }
    }

    /// The observer after an attempt to move by `(delta_x, delta_y)`: first
    /// along the vertical axis, then along the horizontal one, each only
    /// where the probed cell is free.
    fn slide(self, grid: &TileGrid, delta_x: i32, delta_y: i32, lookahead: u8) -> (res:
        Observer)
        requires
            -65536 <= delta_x <= 65536,
            -65536 <= delta_y <= 65536,
        ensures
            res.y() == moved_y(
                *grid,
                self.x() as int,
                self.y() as int,
                delta_y as int,
                lookahead as int,
            ),
            res.x() == moved_x(
                *grid,
                self.x() as int,
                res.y() as int,
                delta_x as int,
                lookahead as int,
            ),
            res.heading() == self.heading(),
            res.fov() == self.fov(),
            res.wf(),
    {
        proof {
            use_type_invariant(self);
            use_type_invariant(grid);
        }
        let reach: i64 = lookahead as i64 + 1;
        assert(-256 * 65536 <= reach * delta_y <= 256 * 65536 && -256 * 65536 <= reach * delta_x
            <= 256 * 65536) by (nonlinear_arith)
            requires
                1 <= reach <= 256,
                -65536 <= delta_x <= 65536,
                -65536 <= delta_y <= 65536,
        ;
        let probe_y: i64 = self.y as i64 + reach * (delta_y as i64);
        let mut y: i32 = self.y;
        if grid.is_walkable(cell_of(self.x as i64), cell_of(probe_y)) {
            proof {
                lemma_between(self.y as int, delta_y as int, reach as int);
            }
            y = (self.y as i64 + delta_y as i64) as i32;
        }
        let probe_x: i64 = self.x as i64 + reach * (delta_x as i64);
        let mut x: i32 = self.x;
        if grid.is_walkable(cell_of(probe_x), cell_of(y as i64)) {
            proof {
                lemma_between(self.x as int, delta_x as int, reach as int);
            }
            x = (self.x as i64 + delta_x as i64) as i32;
        }
        Observer { x, y, heading: self.heading, fov: self.fov }
    }

    /// The observer after an attempt to move one step along `heading`.
    pub fn move_forward(self, heading: &Direction, grid: &TileGrid, motion: &MotionConfig) -> (res:
        Observer)
        ensures
            res.y() == moved_y(
                *grid,
                self.x() as int,
                self.y() as int,
                step_delta(motion.speed() as int, heading.dy() as int),
                motion.lookahead() as int,
            ),
            res.x() == moved_x(
                *grid,
                self.x() as int,
                res.y() as int,
                step_delta(motion.speed() as int, heading.dx() as int),
                motion.lookahead() as int,
            ),
            res.heading() == self.heading(),
            res.fov() == self.fov(),
            res.wf(),
            self.stands_in(*grid) ==> res.stands_in(*grid),
    {
        let speed: i32 = motion.speed();
        let delta_x: i32 = scaled_step(speed, heading.dx());
        let delta_y: i32 = scaled_step(speed, heading.dy());
        proof {
            use_type_invariant(self);
            use_type_invariant(grid);
            use_type_invariant(motion);
            if self.stands_in(*grid) {
                lemma_move_stays_walkable(
                    self,
                    *grid,
                    delta_x as int,
                    delta_y as int,
                    motion.speed() as int,
                    motion.lookahead() as int,
                );
            }
        }
        self.slide(grid, delta_x, delta_y, motion.lookahead())
    }

    /// The observer after an attempt to move one step against `heading`.
    pub fn move_back(self, heading: &Direction, grid: &TileGrid, motion: &MotionConfig) -> (res:
        Observer)
        ensures
            res.y() == moved_y(
                *grid,
                self.x() as int,
                self.y() as int,
                -step_delta(motion.speed() as int, heading.dy() as int),
                motion.lookahead() as int,
            ),
            res.x() == moved_x(
                *grid,
                self.x() as int,
                res.y() as int,
                -step_delta(motion.speed() as int, heading.dx() as int),
                motion.lookahead() as int,
            ),
            res.heading() == self.heading(),
            res.fov() == self.fov(),
            res.wf(),
            self.stands_in(*grid) ==> res.stands_in(*grid),
    {
        let speed: i32 = motion.speed();
        let delta_x: i32 = -scaled_step(speed, heading.dx());
        let delta_y: i32 = -scaled_step(speed, heading.dy());
        proof {
            use_type_invariant(self);
            use_type_invariant(grid);
            use_type_invariant(motion);
            if self.stands_in(*grid) {
                lemma_move_stays_walkable(
                    self,
                    *grid,
                    delta_x as int,
                    delta_y as int,
                    motion.speed() as int,
                    motion.lookahead() as int,
                );
            }
        }
        self.slide(grid, delta_x, delta_y, motion.lookahead())
    }

    /// The observer after `command`, where `heading` is the direction in
    /// which it looks.
    pub fn apply(
        self,
        command: Command,
        heading: &Direction,
        grid: &TileGrid,
        motion: &MotionConfig,
    ) -> (res: Observer)
        ensures
            res.follows(self, command, *heading, *grid, *motion),
            res.wf(),
            self.stands_in(*grid) ==> res.stands_in(*grid),
    {
        match command {
            Command::RotateLeft => self.rotate_left(motion),
            Command::RotateRight => self.rotate_right(motion),
            Command::MoveForward => self.move_forward(heading, grid, motion),
            Command::MoveBack => self.move_back(heading, grid, motion),
        }
    }

    /// The horizontal coordinate, in fixed point.
    #[verifier::when_used_as_spec(spec_x)]
    pub fn x(&self) -> (v: i32)
        ensures
            v == self.x(),
    {
        self.x
    }

    /// The vertical coordinate, in fixed point.
    #[verifier::when_used_as_spec(spec_y)]
    pub fn y(&self) -> (v: i32)
        ensures
            v == self.y(),
    {
        self.y
    }

    /// The heading in degrees, in 1..=359.
    #[verifier::when_used_as_spec(spec_heading)]
    pub fn heading(&self) -> (v: i16)
        ensures
            v == self.heading(),
            1 <= v <= 359,
    {
        proof {
            use_type_invariant(self);
        }
        self.heading
    }

    /// The field of view in degrees.
    #[verifier::when_used_as_spec(spec_fov)]
    pub fn fov(&self) -> (v: u8)
        ensures
            v == self.fov(),
            0 < v < 180,
            v % 2 == 0,
    {
        proof {
            use_type_invariant(self);
        }
        self.fov
    }
}

/// How far one move carries along an axis.
fn scaled_step(speed: i32, component: i32) -> (delta: i32)
    requires
        0 < speed <= 65536,
        -65536 <= component <= 65536,
    ensures
        delta == step_delta(speed as int, component as int),
        -speed <= delta <= speed,
{
    assert(-speed * 65536 <= speed * component <= speed * 65536) by (nonlinear_arith)
        requires
            0 < speed <= 65536,
            -65536 <= component <= 65536,
    ;
    let product: i64 = speed as i64 * component as i64;
    let delta: i64 = div_floor(product, 65536);
    delta as i32
}

/// A destination lies between the start and the probe, one cell from the
/// start at most; where the probe is in the grid, so is the destination.
proof fn lemma_between(pos: int, delta: int, reach: int)
    requires
        reach >= 1,
        -0x8000_0000 <= pos <= 0x7fff_ffff,
        0 <= cell_index(pos + reach * delta) <= 32767,
    ensures
        -0x8000_0000 <= pos + delta <= 0x7fff_ffff,
{
    assert((delta >= 0 ==> 0 <= delta <= reach * delta) && (delta <= 0 ==> reach * delta <= delta
        <= 0)) by (nonlinear_arith)
        requires
            reach >= 1,
    ;
}

/// The cell of a destination is that of the start or that of the probe,
/// where the probe reaches no further than one cell.
proof fn lemma_cell_between(pos: int, delta: int, reach: int)
    requires
        reach >= 1,
        -65536 <= reach * delta <= 65536,
    ensures
        cell_index(pos + delta) == cell_index(pos) || cell_index(pos + delta) == cell_index(
            pos + reach * delta,
        ),
{
    assert((delta >= 0 ==> 0 <= delta <= reach * delta) && (delta <= 0 ==> reach * delta <= delta
        <= 0)) by (nonlinear_arith)
        requires
            reach >= 1,
    ;
}

/// An observer in a free cell is in a free cell after every attempt to
/// move, whatever the direction: where a step and its probe reach no
/// further than one cell, no move ends in a wall or outside the grid.
pub proof fn lemma_move_stays_walkable(
    observer: Observer,
    grid: TileGrid,
    delta_x: int,
    delta_y: int,
    speed: int,
    lookahead: int,
)
    requires
        grid.wf(),
        0 <= lookahead,
        0 < speed,
        (lookahead + 1) * speed <= 65536,
        -speed <= delta_x <= speed,
        -speed <= delta_y <= speed,
        observer.stands_in(grid),
    ensures
        ({
            let y = moved_y(grid, observer.x() as int, observer.y() as int, delta_y, lookahead);
            let x = moved_x(grid, observer.x() as int, y, delta_x, lookahead);
            grid.walkable(cell_index(x), cell_index(y))
        }),
{
    let reach = lookahead + 1;
    assert(-65536 <= reach * delta_x <= 65536 && -65536 <= reach * delta_y <= 65536)
        by (nonlinear_arith)
        requires
            reach >= 1,
            0 < speed,
            reach * speed <= 65536,
            -speed <= delta_x <= speed,
            -speed <= delta_y <= speed,
    ;
    let y = moved_y(grid, observer.x() as int, observer.y() as int, delta_y, lookahead);
    lemma_cell_between(observer.y() as int, delta_y, reach);
    assert(grid.walkable(cell_index(observer.x() as int), cell_index(y)));
    lemma_cell_between(observer.x() as int, delta_x, reach);
}

/// A blocked move changes nothing: where neither probed cell is free, the
/// observer stays where it is, however often the move is attempted.
pub proof fn lemma_blocked_move_stays(
    observer: Observer,
    grid: TileGrid,
    delta_x: int,
    delta_y: int,
    lookahead: int,
)
    requires
        !grid.walkable(
            cell_index(observer.x() as int),
            cell_index(probe(observer.y() as int, delta_y, lookahead)),
        ),
        !grid.walkable(
            cell_index(probe(observer.x() as int, delta_x, lookahead)),
            cell_index(observer.y() as int),
        ),
    ensures
        moved_y(grid, observer.x() as int, observer.y() as int, delta_y, lookahead)
            == observer.y(),
        moved_x(grid, observer.x() as int, observer.y() as int, delta_x, lookahead)
            == observer.x(),
{
}

} // verus!
