//! The angles of the rays of a frame, as exact fractions of a degree.

use vstd::prelude::*;
use crate::config::ScreenConfig;
use crate::observer::Observer;

verus! {

/// The angle between the heading and the ray through the pixel column
/// `column` of a screen of `width` columns, in units of `1 / width`
/// degrees: the rays fan out evenly over the field of view `fov`, from half
/// of it to the left of the heading.
pub open spec fn ray_offset(fov: int, width: int, column: int) -> int {
    column * fov - (fov / 2) * width
}

/// The angle of the ray through the pixel column `column`, in units of
/// `1 / width` degrees.
pub open spec fn ray_angle(heading: int, fov: int, width: int, column: int) -> int {
    heading * width + ray_offset(fov, width, column)
}

/// The angle between the heading and the ray of strip `strip`, in units of
/// `1 / screen.width()` degrees.
pub fn strip_offset(observer: &Observer, screen: &ScreenConfig, strip: u32) -> (offset: i64)
    ensures
        offset == ray_offset(
            observer.fov() as int,
            screen.width() as int,
            strip * screen.resolution_scale(),
        ),
        -90 * 0xffff <= offset <= 0xffff_ffff * 0xffff * 180,
{
    let fov: i64 = observer.fov() as i64;
    let width: i64 = screen.width() as i64;
    let scale: i64 = screen.resolution_scale() as i64;
    assert(0 <= strip * scale <= 0xffff_ffff * 0xffff) by (nonlinear_arith)
        requires
            0 <= strip <= 0xffff_ffff,
            0 <= scale <= 0xffff,
    ;
    let column: i64 = strip as i64 * scale;
    assert(0 <= column * fov <= 0xffff_ffff * 0xffff * 180) by (nonlinear_arith)
        requires
            0 <= column <= 0xffff_ffff * 0xffff,
            0 <= fov <= 180,
    ;
    assert(0 <= (fov / 2) * width <= 90 * 0xffff) by (nonlinear_arith)
        requires
            0 <= fov / 2 <= 90,
            0 <= width <= 0xffff,
    ;
    column * fov - (fov / 2) * width
}

/// The angle of the ray of strip `strip`, in units of `1 / screen.width()`
/// degrees.
pub fn strip_angle(observer: &Observer, screen: &ScreenConfig, strip: u32) -> (angle: i64)
    ensures
        angle == ray_angle(
            observer.heading() as int,
            observer.fov() as int,
            screen.width() as int,
            strip * screen.resolution_scale(),
        ),
{
    let heading: i64 = observer.heading() as i64;
    let width: i64 = screen.width() as i64;
    let offset: i64 = strip_offset(observer, screen, strip);
    assert(0 <= heading * width <= 359 * 0xffff) by (nonlinear_arith)
        requires
            0 <= heading <= 359,
            0 <= width <= 0xffff,
    ;
    heading * width + offset
}

/// The ray through the column in the middle of the screen runs along the
/// heading: its angle to the heading is zero.
pub proof fn lemma_center_ray_runs_ahead(heading: int, fov: int, width: int, column: int)
    requires
        fov % 2 == 0,
        width == 2 * column,
    ensures
        ray_offset(fov, width, column) == 0,
        ray_angle(heading, fov, width, column) == heading * width,
{
    assert(column * fov - (fov / 2) * (2 * column) == 0) by (nonlinear_arith)
        requires
            fov % 2 == 0,
    ;
}

} // verus!
