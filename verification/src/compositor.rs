//! The column compositor: paints ceiling, wall and floor of one strip.

use vstd::prelude::*;
use crate::buffer::PixelBuffer;
use crate::texture::{palette_index, TextureBitmap};

verus! {

/// The flat colours of a scene, each three bytes in buffer order.
#[derive(Clone, Copy, Debug)]
pub struct SceneColors {
    /// The colour of a wall row that has no texture entry.
    pub wall: [u8; 3],
    /// The colour above the wall.
    pub ceiling: [u8; 3],
    /// The colour below the wall.
    pub floor: [u8; 3],
}

/// The flat colours of the plain scene: a wall of full strength in the
/// third channel, a ceiling in the second and a floor in the first.
pub fn default_colors() -> (colors: SceneColors)
    ensures
        colors.wall@ == seq![0u8, 0u8, 255u8],
        colors.ceiling@ == seq![0u8, 100u8, 0u8],
        colors.floor@ == seq![100u8, 0u8, 0u8],
{
    let colors = SceneColors { wall: [0, 0, 255], ceiling: [0, 100, 0], floor: [100, 0, 0] };
    proof {
        assert(colors.wall@ =~= seq![0u8, 0u8, 255u8]);
        assert(colors.ceiling@ =~= seq![0u8, 100u8, 0u8]);
        assert(colors.floor@ =~= seq![100u8, 0u8, 0u8]);
    }
    colors
}

/// Whether the pixel `(c, r)` lies in the rectangle of `width` by `height`
/// pixels whose first pixel is `(x, y)`.
pub open spec fn in_rect(x: int, y: int, width: int, height: int, c: int, r: int) -> bool {
    x <= c < x + width && y <= r < y + height
}

/// The colour of row `i` of a rectangle: with `texture`, and where
/// `texture_slice` has an entry for the row, the palette colour that the
/// entry names; else the flat `color`.
pub open spec fn rect_color(
    color: Seq<u8>,
    texture: bool,
    texture_slice: Seq<u8>,
    bitmap: TextureBitmap,
    i: int,
) -> Seq<u8> {
    if texture && 0 <= i < texture_slice.len() {
        bitmap.palette(palette_index(texture_slice[i]))
    } else {
        color
    }
}

/// The colour of row `row` of a strip whose wall starts at row `start`
/// and has `wall_rows` rows: ceiling above the wall, floor below it.
pub open spec fn column_color(
    colors: SceneColors,
    bitmap: TextureBitmap,
    start: int,
    wall_rows: int,
    texture_row_map: Seq<u8>,
    row: int,
) -> Seq<u8> {
    if row < start {
        colors.ceiling@
    } else if row < start + wall_rows {
        rect_color(colors.wall@, true, texture_row_map, bitmap, row - start)
    } else {
        colors.floor@
    }
}

/// Number of rows of the wall of a strip.
pub open spec fn wall_rows(wall_pixel_height: int, wall_present: bool) -> int {
    if wall_present {
        2 * wall_pixel_height
    } else {
        0
    }
}

/// Paints the rectangle of `width` by `height` pixels whose first pixel is
/// `(x, y)`, row by row: with `texture`, a row takes the palette colour
/// that its entry of `texture_slice` names, else `color`. Pixels that the
/// surface does not show are left out.
pub fn draw_filled_rec(
    buffer: &mut PixelBuffer,
    x: u32,
    y: u32,
    width: u32,
    height: u32,
    color: &[u8; 3],
    texture: bool,
    texture_slice: &[u8],
    bitmap: &TextureBitmap,
)
    ensures
        final(buffer).same_shape(*old(buffer)),
        final(buffer).wf(),
        forall|c: int, r: int|
            final(buffer).holds(c, r) ==> #[trigger] final(buffer).pixel(c, r) == (if in_rect(
                x as int,
                y as int,
                width as int,
                height as int,
                c,
                r,
            ) && old(buffer).contains(c, r) {
                rect_color(color@, texture, texture_slice@, *bitmap, r - y)
            } else {
                old(buffer).pixel(c, r)
            }),
{
    proof {
        use_type_invariant(&*buffer);
    }
    let x_far: u64 = x as u64 + width as u64;
    let y_far: u64 = y as u64 + height as u64;
    let x_end: u64 = if x_far < buffer.width() as u64 { x_far } else { buffer.width() as u64 };
    let y_end: u64 = if y_far < buffer.height() as u64 { y_far } else { buffer.height() as u64 };
    let mut row: u64 = y as u64;
    while row < y_end
        invariant
            y <= row,
            y_end <= y + height,
            y_end <= old(buffer).height(),
            x_end <= x + width,
            x_end <= old(buffer).width(),
            x_far == x + width,
            y_far == y + height,
            x_end == x_far || x_end == old(buffer).width(),
            y_end == y_far || y_end == old(buffer).height(),
            buffer.same_shape(*old(buffer)),
            buffer.wf(),
            forall|c: int, r: int|
                buffer.holds(c, r) ==> #[trigger] buffer.pixel(c, r) == (if in_rect(
                    x as int,
                    y as int,
                    width as int,
                    height as int,
                    c,
                    r,
                ) && old(buffer).contains(c, r) && r < row {
                    rect_color(color@, texture, texture_slice@, *bitmap, r - y)
                } else {
                    old(buffer).pixel(c, r)
                }),
        decreases y_end + 1 - row,
    {
        let i: u64 = row - y as u64;
        let chosen: [u8; 3] = if texture && i < texture_slice.len() as u64 {
            bitmap.palette_color(texture_slice[i as usize])
        } else {
            *color
        };
        assert(chosen@ == rect_color(color@, texture, texture_slice@, *bitmap, row - y));
        let mut col: u64 = x as u64;
        while col < x_end
            invariant
                x <= col,
                y <= row < y_end,
                y_end <= y + height,
                y_end <= old(buffer).height(),
                x_end <= x + width,
                x_end <= old(buffer).width(),
                x_far == x + width,
                x_end == x_far || x_end == old(buffer).width(),
                buffer.same_shape(*old(buffer)),
                buffer.wf(),
                chosen@ == rect_color(color@, texture, texture_slice@, *bitmap, row - y),
                forall|c: int, r: int|
                    buffer.holds(c, r) ==> #[trigger] buffer.pixel(c, r) == (if in_rect(
                        x as int,
                        y as int,
                        width as int,
                        height as int,
                        c,
                        r,
                    ) && old(buffer).contains(c, r) && (r < row || (r == row && c < col)) {
                        rect_color(color@, texture, texture_slice@, *bitmap, r - y)
                    } else {
                        old(buffer).pixel(c, r)
                    }),
            decreases x_end + 1 - col,
        {
            buffer.put_pixel(col as u32, row as u32, &chosen);
            col += 1;
        }
        row += 1;
    }
}

/// Paints the strip of `resolution_scale` columns that starts at column
/// `column_index`: ceiling down to the row `wall_start_row`, then, where a
/// wall is present, twice `wall_pixel_height` rows of wall, each in the
/// palette colour that its entry of `texture_row_map` names, then floor to
/// the last row. Pixels that the surface does not show are left out.
pub fn composite(
    buffer: &mut PixelBuffer,
    column_index: u32,
    resolution_scale: u32,
    wall_start_row: u32,
    wall_pixel_height: u32,
    texture_row_map: &[u8],
    wall_present: bool,
    bitmap: &TextureBitmap,
    colors: &SceneColors,
)
    ensures
        final(buffer).same_shape(*old(buffer)),
        final(buffer).wf(),
        forall|c: int, r: int|
            final(buffer).holds(c, r) ==> #[trigger] final(buffer).pixel(c, r) == (if column_index
                <= c < column_index + resolution_scale && old(buffer).contains(c, r) {
                column_color(
                    *colors,
                    *bitmap,
                    wall_start_row as int,
                    wall_rows(wall_pixel_height as int, wall_present),
                    texture_row_map@,
                    r,
                )
            } else {
                old(buffer).pixel(c, r)
            }),
{
    let rows: u64 = if wall_present { 2 * (wall_pixel_height as u64) } else { 0 };
    let shown: u32 = if rows > 0xffff { 0xffff } else { rows as u32 };
    let below: u64 = wall_start_row as u64 + rows;
    let bottom: u64 = buffer.height() as u64;
    draw_filled_rec(
        buffer,
        column_index,
        0,
        resolution_scale,
        wall_start_row,
        &colors.ceiling,
        false,
        texture_row_map,
        bitmap,
    );
    draw_filled_rec(
        buffer,
        column_index,
        wall_start_row,
        resolution_scale,
        shown,
        &colors.wall,
        true,
        texture_row_map,
        bitmap,
    );
    if below < bottom {
        draw_filled_rec(
            buffer,
            column_index,
            below as u32,
            resolution_scale,
            (bottom - below) as u32,
            &colors.floor,
            false,
            texture_row_map,
            bitmap,
        );
    }
}

} // verus!
