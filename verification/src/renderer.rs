//! The frame renderer: casts one ray per strip and paints what it found.

use vstd::prelude::*;
use vstd::arithmetic::div_mod::lemma_fundamental_div_mod_converse;
use crate::buffer::PixelBuffer;
use crate::caster::{cast, cast_result, ray_from, ColumnRay, ColumnResult, RayConfig};
use crate::compositor::{column_color, composite, wall_rows, SceneColors};
use crate::config::ScreenConfig;
use crate::grid::TileGrid;
use crate::observer::Observer;
use crate::projector::{
    crop_to_screen, cropped, get_vert_tex_map, project, vert_tex_map, wall_height, wall_start,
    Projection,
};
use crate::texture::{get_texture_slice, TextureBitmap};

verus! {

/// Why a frame was not rendered.
#[derive(Clone, Copy, Debug, PartialEq, Eq, Structural)]
pub enum RenderError {
    /// There is not exactly one ray for each strip of the screen.
    RayCountMismatch,
}

/// A renderer: the screen geometry, the ray parameters, the wall texture
/// and the flat colours that it paints with.
#[derive(Clone, Copy, Debug)]
pub struct Renderer {
    screen: ScreenConfig,
    rays: RayConfig,
    texture: TextureBitmap,
    colors: SceneColors,
}

impl Renderer {
    /// The screen geometry.
    pub closed spec fn spec_screen(&self) -> ScreenConfig {
        self.screen
    }

    /// The ray parameters.
    pub closed spec fn spec_rays(&self) -> RayConfig {
        self.rays
    }

    /// The wall texture.
    pub closed spec fn spec_texture(&self) -> TextureBitmap {
        self.texture
    }

    /// The flat colours.
    pub closed spec fn spec_colors(&self) -> SceneColors {
        self.colors
    }

    /// A renderer with these parameters.
    pub fn new(screen: ScreenConfig, rays: RayConfig, texture: TextureBitmap, colors: SceneColors) -> (renderer:
        Renderer)
        ensures
            renderer.screen() == screen,
            renderer.rays() == rays,
            renderer.texture() == texture,
            renderer.colors() == colors,
    {
        Renderer { screen, rays, texture, colors }
    }

    /// The screen geometry.
    #[verifier::when_used_as_spec(spec_screen)]
    pub fn screen(&self) -> (screen: ScreenConfig)
        ensures
            screen == self.screen(),
    {
        self.screen
    }

    /// The ray parameters.
    #[verifier::when_used_as_spec(spec_rays)]
    pub fn rays(&self) -> (rays: RayConfig)
        ensures
            rays == self.rays(),
    {
        self.rays
    }

    /// The wall texture.
    #[verifier::when_used_as_spec(spec_texture)]
    pub fn texture(&self) -> (texture: TextureBitmap)
        ensures
            texture == self.texture(),
    {
        self.texture
    }

    /// The flat colours.
    #[verifier::when_used_as_spec(spec_colors)]
    pub fn colors(&self) -> (colors: SceneColors)
        ensures
            colors == self.colors(),
    {
        self.colors
    }

    /// What the ray of one strip finds.
    pub open spec fn strip_result(self, observer: Observer, grid: TileGrid, ray: ColumnRay) -> ColumnResult {
        cast_result(
            ray_from(observer, ray.dir(), self.rays().precision() as int),
            grid@,
            ray.fisheye() as int,
            self.rays().max_steps() as int,
        )
    }

    /// The colour of row `row` of a strip whose ray found `found`: the wall
    /// stands where the projection of its distance puts it and shows the
    /// texture column of the hit, stretched to the wall's height and
    /// cropped to the screen.
    pub open spec fn strip_color(self, found: ColumnResult, row: int) -> Seq<u8> {
        let constant = self.screen().projection_constant() as int;
        let height = wall_height(constant, found.distance as int);
        let start = wall_start(constant, self.screen().half_height(), found.distance as int);
        let slice = self.texture().column(found.texture_column as int);
        let map = cropped(vert_tex_map(slice, 2 * height), self.screen().height() as int);
        column_color(
            self.colors(),
            self.texture(),
            start,
            wall_rows(height, found.hit()),
            map,
            row,
        )
    }

    /// The colour of the pixel at column `c` and row `r` of a frame: that
    /// of row `r` of the strip that `c` lies in.
    pub open spec fn frame_pixel(
        self,
        observer: Observer,
        grid: TileGrid,
        rays: Seq<ColumnRay>,
        c: int,
        r: int,
    ) -> Seq<u8> {
        let strip = c / (self.screen().resolution_scale() as int);
        self.strip_color(self.strip_result(observer, grid, rays[strip]), r)
    }

    /// Renders one frame into `frame_buffer`: for each strip of the screen,
    /// from left to right, casts its ray of `rays` from `player` through
    /// `map` and paints ceiling, wall and floor. Pixels that the surface
    /// does not show are left out. Nothing is painted unless `rays` holds
    /// one ray for each strip.
    pub fn ray_casting(
        &self,
        player: &Observer,
        map: &TileGrid,
        rays: &Vec<ColumnRay>,
        frame_buffer: &mut PixelBuffer,
    ) -> (res: Result<(), RenderError>)
        ensures
            final(frame_buffer).same_shape(*old(frame_buffer)),
            final(frame_buffer).wf(),
            res is Err <==> rays@.len() != self.screen().strips(),
            res is Err ==> final(frame_buffer)@ == old(frame_buffer)@,
            res is Ok ==> forall|c: int, r: int|
                final(frame_buffer).holds(c, r) ==> #[trigger] final(frame_buffer).pixel(c, r) == (
                if old(frame_buffer).contains(c, r) && c < self.screen().strips()
                    * self.screen().resolution_scale() {
                    self.frame_pixel(*player, *map, rays@, c, r)
                } else {
                    old(frame_buffer).pixel(c, r)
                }),
    {
        proof {
            use_type_invariant(&*frame_buffer);
        }
        let strips: u32 = self.screen.strip_count();
        if rays.len() as u64 != strips as u64 {
            return Err(RenderError::RayCountMismatch);
        }
        let scale: u32 = self.screen.resolution_scale() as u32;
        let visible: usize = self.screen.height() as usize;
        let mut line_vec: Vec<u8> = Vec::new();
        let mut i: u32 = 0;
        while i < strips
            invariant
                i <= strips,
                strips == self.screen().strips(),
                strips == rays@.len(),
                scale == self.screen().resolution_scale(),
                scale >= 1,
                visible == self.screen().height(),
                (strips - 1) * scale < self.screen().width(),
                frame_buffer.same_shape(*old(frame_buffer)),
                frame_buffer.wf(),
                forall|c: int, r: int|
                    frame_buffer.holds(c, r) ==> #[trigger] frame_buffer.pixel(c, r) == (if old(
                        frame_buffer,
                    ).contains(c, r) && c < i * scale {
                        self.frame_pixel(*player, *map, rays@, c, r)
                    } else {
                        old(frame_buffer).pixel(c, r)
                    }),
            decreases strips - i,
        {
            assert(i * scale <= (strips - 1) * scale && 0 <= i * scale) by (nonlinear_arith)
                requires
                    0 <= i <= strips - 1,
                    scale >= 1,
            ;
            let column_index: u32 = i * scale;
            let found: ColumnResult = cast(player, map, &rays[i as usize], &self.rays);
            let slot: Projection = project(&self.screen, found.distance);
            let texture_slice: Vec<u8> = get_texture_slice(
                &self.texture,
                found.texture_column as usize,
            );
            line_vec.clear();
            get_vert_tex_map(texture_slice.as_slice(), 2 * slot.wall_pixel_height, &mut line_vec);
            assert(line_vec@ =~= vert_tex_map(
                texture_slice@,
                2 * slot.wall_pixel_height as int,
            ));
            let v_tex_slice: &[u8] = crop_to_screen(line_vec.as_slice(), visible);
            let ghost before = *frame_buffer;
            composite(
                frame_buffer,
                column_index,
                scale,
                slot.wall_start_row,
                slot.wall_pixel_height,
                v_tex_slice,
                found.is_hit(),
                &self.texture,
                &self.colors,
            );
            proof {
                assert((i + 1) * scale == i * scale + scale) by (nonlinear_arith);
                assert forall|c: int, r: int| frame_buffer.holds(c, r) implies #[trigger] frame_buffer.pixel(
                    c,
                    r,
                ) == (if old(frame_buffer).contains(c, r) && c < (i + 1) * scale {
                    self.frame_pixel(*player, *map, rays@, c, r)
                } else {
                    old(frame_buffer).pixel(c, r)
                }) by {
                    assert(before.holds(c, r));
                    if column_index <= c < column_index + scale {
                        lemma_fundamental_div_mod_converse(
                            c,
                            scale as int,
                            i as int,
                            c - i * scale,
                        );
                        assert(c / (scale as int) == i);
                    }
                }
            }
            i += 1;
        }
        Ok(())
    }
}

} // verus!
