//! The column projector: from a distance to a wall slice, and from a
//! texture column to the texture rows of that slice.

use vstd::prelude::*;
use vstd::slice::slice_subrange;
use crate::config::ScreenConfig;

verus! {

/// Where the wall slice of one column stands.
#[derive(Clone, Copy, Debug, PartialEq, Eq, Structural)]
pub struct Projection {
    /// Half the height of the wall slice, in rows.
    pub wall_pixel_height: u32,
    /// The first row of the wall slice.
    pub wall_start_row: u32,
}

/// Half the height in rows of a wall at `distance`: the projection constant
/// divided by the distance, where a distance under 1.0 counts as 1.0.
pub open spec fn wall_height(projection_constant: int, distance: int) -> int {
    if distance <= 65536 {
        projection_constant
    } else {
        (projection_constant * 65536) / distance
    }
}

/// The first row of a wall at `distance`: as far above the middle of the
/// screen as the wall is high, and row 1 for a wall at distance 1.0 or less.
pub open spec fn wall_start(projection_constant: int, half_height: int, distance: int) -> int {
    if distance <= 65536 {
        1
    } else {
        half_height - wall_height(projection_constant, distance)
    }
}

/// The texture row that row `target_row` of a slice of `height` rows shows,
/// for a texture of `size` rows.
pub open spec fn texture_row(target_row: int, height: int, size: int) -> int {
    let r = ((target_row + 1) * size) / height;
    if r > size - 1 {
        size - 1
    } else {
        r
    }
}

/// The texture column `t_slice` stretched or squeezed to `height` rows.
pub open spec fn vert_tex_map(t_slice: Seq<u8>, height: int) -> Seq<u8> {
    Seq::new(height as nat, |j: int| t_slice[texture_row(j, height, t_slice.len() as int)])
}

/// Number of rows that cropping removes from the top of a map of `len`
/// rows to fit `visible` rows: half of the overflow, rounded down.
pub open spec fn crop_top(len: int, visible: int) -> int {
    if len <= visible {
        0
    } else {
        (len - visible) / 2
    }
}

/// Number of rows that cropping removes from the bottom: the rest of the
/// overflow.
pub open spec fn crop_bottom(len: int, visible: int) -> int {
    if len <= visible {
        0
    } else {
        (len - visible) - (len - visible) / 2
    }
}

/// The middle `visible` rows of `map`, or all of `map` where it has no more.
pub open spec fn cropped(map: Seq<u8>, visible: int) -> Seq<u8> {
    map.subrange(crop_top(map.len() as int, visible), map.len() - crop_bottom(map.len() as int, visible))
}

/// The wall slice for a wall at `distance`.
pub fn project(screen: &ScreenConfig, distance: u64) -> (p: Projection)
    ensures
        p.wall_pixel_height == wall_height(screen.projection_constant() as int, distance as int),
        p.wall_start_row == wall_start(
            screen.projection_constant() as int,
            screen.half_height(),
            distance as int,
        ),
        p.wall_pixel_height <= screen.projection_constant(),
        p.wall_start_row + 2 * p.wall_pixel_height <= screen.height() + 1,
{
    let constant: u64 = screen.projection_constant() as u64;
    let half: u64 = (screen.height() / 2) as u64;
    if distance <= 65536 {
        return Projection { wall_pixel_height: constant as u32, wall_start_row: 1 };
    }
    let height: u64 = (constant * 65536) / distance;
    assert(height <= constant) by (nonlinear_arith)
        requires
            height == (constant * 65536) / (distance as int),
            distance > 65536,
            constant >= 0,
    ;
    Projection { wall_pixel_height: height as u32, wall_start_row: (half - height) as u32 }
}

/// Appends to `v_map` the texture column `t_slice` stretched or squeezed
/// to `height` rows: new row `j` shows the entry
/// `texture_row(j, height, len)`. What `v_map` held stays in front.
pub fn get_vert_tex_map(t_slice: &[u8], height: u32, v_map: &mut Vec<u8>)
    requires
        t_slice@.len() > 0,
    ensures
        final(v_map)@ == old(v_map)@ + vert_tex_map(t_slice@, height as int),
        final(v_map)@.len() == old(v_map)@.len() + height,
{
    let size: usize = t_slice.len();
    let ghost held = v_map@;
    let mut i: u32 = 0;
    while i < height
        invariant
            i <= height,
            size == t_slice@.len(),
            size > 0,
            v_map@.len() == held.len() + i,
            forall|j: int| 0 <= j < held.len() ==> v_map@[j] == held[j],
            forall|j: int|
                0 <= j < i ==> v_map@[held.len() + j] == t_slice@[texture_row(
                    j,
                    height as int,
                    size as int,
                )],
        decreases height - i,
    {
        assert((i + 1) * size <= 0x1_0000_0000 * 0xffff_ffff_ffff_ffff) by (nonlinear_arith)
            requires
                0 <= i < 0xffff_ffff,
                0 < size <= 0xffff_ffff_ffff_ffff,
        ;
        let scaled: u128 = (i as u128 + 1) * (size as u128);
        let mut index: u128 = scaled / (height as u128);
        if index > (size - 1) as u128 {
            index = (size - 1) as u128;
        }
        v_map.push(t_slice[index as usize]);
        i += 1;
    }
    assert(v_map@ =~= held + vert_tex_map(t_slice@, height as int));
}

/// The middle `visible` rows of `map`, or all of `map` where it has no
/// more. Where the overflow is odd, the bottom loses one row more than the top.
pub fn crop_to_screen<'a>(map: &'a [u8], visible: usize) -> (out: &'a [u8])
    ensures
        out@ == cropped(map@, visible as int),
        out@.len() <= visible,
        out@.len() == map@.len() - crop_top(map@.len() as int, visible as int) - crop_bottom(
            map@.len() as int,
            visible as int,
        ),
{
    let n: usize = map.len();
    if n <= visible {
        assert(map@.subrange(0, n as int) =~= map@);
        slice_subrange(map, 0, n)
    } else {
        let overflow: usize = n - visible;
        let top: usize = overflow / 2;
        let bottom: usize = overflow - top;
        slice_subrange(map, top, n - bottom)
    }
}

/// Walls do not grow with distance: of two distances the larger gives the
/// wall that is no higher, and every distance up to 1.0 gives the wall of
/// full height.
pub proof fn lemma_wall_height_monotone(projection_constant: int, near: int, far: int)
    requires
        0 <= projection_constant,
        near <= far,
    ensures
        wall_height(projection_constant, near) >= wall_height(projection_constant, far),
        near <= 65536 ==> wall_height(projection_constant, near) == projection_constant,
{
    let c = projection_constant * 65536;
    if far > 65536 {
        if near > 65536 {
            assert(c / near >= c / far) by (nonlinear_arith)
                requires
                    0 <= c,
                    0 < near <= far,
            ;
        } else {
            assert(c / far <= projection_constant) by (nonlinear_arith)
                requires
                    c == projection_constant * 65536,
                    0 <= projection_constant,
                    far > 65536,
            ;
        }
    }
}

/// Beyond distance 1.0 a wall shrinks strictly wherever the two distances
/// are far enough apart for the exact quotients to differ by a whole row.
pub proof fn lemma_wall_height_strict(projection_constant: int, near: int, far: int)
    requires
        0 <= projection_constant,
        65536 < near < far,
        projection_constant * 65536 * (far - near) >= near * far,
    ensures
        wall_height(projection_constant, near) > wall_height(projection_constant, far),
{
    let c = projection_constant * 65536;
    let q = c / far;
    assert(q * far <= c && 0 <= q) by (nonlinear_arith)
        requires
            q == c / far,
            far > 0,
            c >= 0,
    ;
    assert((q + 1) * near * far <= c * far) by (nonlinear_arith)
        requires
            q * far <= c,
            0 <= q,
            0 < near < far,
            c * (far - near) >= near * far,
    ;
    assert((q + 1) * near <= c) by (nonlinear_arith)
        requires
            (q + 1) * near * far <= c * far,
            far > 0,
    ;
    assert(c / near >= q + 1) by (nonlinear_arith)
        requires
            (q + 1) * near <= c,
            near > 0,
    ;
}

/// Texture rows never step backwards down a slice, and stay in the texture.
pub proof fn lemma_texture_row_monotone(j: int, k: int, height: int, size: int)
    requires
        0 <= j <= k,
        0 < height,
        0 < size,
    ensures
        0 <= texture_row(j, height, size) <= texture_row(k, height, size) <= size - 1,
{
    let a = (j + 1) * size;
    let b = (k + 1) * size;
    assert(0 <= a <= b) by (nonlinear_arith)
        requires
            a == (j + 1) * size,
            b == (k + 1) * size,
            0 <= j <= k,
            0 < size,
    ;
    assert(0 <= a / height <= b / height) by (nonlinear_arith)
        requires
            0 <= a <= b,
            0 < height,
    ;
}

/// The texture map of a wall has twice the wall's height in rows; cropped
/// to the screen it has no more rows than the screen, it lost as many rows
/// at the top as at the bottom or one fewer, and what is left are the rows
/// in between.
pub proof fn lemma_cropped_map(t_slice: Seq<u8>, wall_pixel_height: int, visible: int)
    requires
        0 <= wall_pixel_height,
        0 <= visible,
    ensures
        ({
            let map = vert_tex_map(t_slice, 2 * wall_pixel_height);
            let top = crop_top(map.len() as int, visible);
            let bottom = crop_bottom(map.len() as int, visible);
            let window = cropped(map, visible);
            &&& map.len() == 2 * wall_pixel_height
            &&& window.len() <= visible
            &&& window.len() == map.len() - top - bottom
            &&& 0 <= top <= bottom <= top + 1
            &&& map.len() > visible ==> window.len() == visible
            &&& forall|i: int| 0 <= i < window.len() ==> window[i] == map[top + i]
        }),
{
}

} // verus!
