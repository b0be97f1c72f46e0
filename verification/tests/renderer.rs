use raycaster::angles::{strip_angle, strip_offset};
use raycaster::buffer::PixelBuffer;
use raycaster::caster::{cast, ColumnRay, RayConfig};
use raycaster::compositor::{composite, default_colors, SceneColors};
use raycaster::config::ScreenConfig;
use raycaster::direction::Direction;
use raycaster::grid::TileGrid;
use raycaster::observer::Observer;
use raycaster::projector::{crop_to_screen, get_vert_tex_map, project};
use raycaster::renderer::{RenderError, Renderer};
use raycaster::texture::{get_texture_slice, grey_brick, placeholder};

const ONE: i32 = 65536;
const CEILING: [u8; 3] = [0, 100, 0];
const FLOOR: [u8; 3] = [100, 0, 0];
const PURPLE: [u8; 3] = [128, 0, 128];
const BLACK: [u8; 3] = [0, 0, 0];

fn room() -> TileGrid {
    TileGrid::new(vec![
        vec![1, 1, 1, 1, 1, 1, 1, 1, 1, 1],
        vec![1, 0, 0, 0, 0, 0, 0, 0, 0, 1],
        vec![1, 0, 0, 0, 0, 0, 0, 0, 0, 1],
        vec![1, 0, 0, 1, 1, 0, 1, 0, 0, 1],
        vec![1, 0, 0, 1, 0, 0, 1, 0, 0, 1],
        vec![1, 0, 0, 1, 0, 0, 1, 0, 0, 1],
        vec![1, 0, 0, 1, 0, 1, 1, 0, 0, 1],
        vec![1, 0, 0, 0, 0, 0, 0, 0, 0, 1],
        vec![1, 0, 0, 0, 0, 0, 0, 0, 0, 1],
        vec![1, 1, 1, 1, 1, 1, 1, 1, 1, 1],
    ])
    .unwrap()
}

fn renderer(max_steps: u32) -> Renderer {
    Renderer::new(
        ScreenConfig::new(400, 240, 6, 120).unwrap(),
        RayConfig::new(64, max_steps).unwrap(),
        placeholder(),
        default_colors(),
    )
}

fn same_rays(count: usize, dx: i32, dy: i32) -> Vec<ColumnRay> {
    vec![ColumnRay::new(Direction::new(dx, dy).unwrap(), ONE).unwrap(); count]
}

fn fan(observer: &Observer, screen: &ScreenConfig) -> Vec<ColumnRay> {
    let width = screen.width() as f64;
    (0..screen.strip_count())
        .map(|strip| {
            let angle = (strip_angle(observer, screen, strip) as f64 / width).to_radians();
            let offset = (strip_offset(observer, screen, strip) as f64 / width).to_radians();
            let dir = Direction::new(
                (angle.cos() * 65536.0).round() as i32,
                (angle.sin() * 65536.0).round() as i32,
            )
            .unwrap();
            ColumnRay::new(dir, (offset.cos() * 65536.0).round() as i32).unwrap()
        })
        .collect()
}

#[test]
fn renderer_keeps_its_parts() {
    let r = renderer(4096);
    assert_eq!(r.screen().width(), 400);
    assert_eq!(r.rays().precision(), 64);
    assert_eq!(r.texture().sample(0, 0), BLACK);
    assert_eq!(r.colors().ceiling, CEILING);
}

#[test]
fn wrong_number_of_rays_paints_nothing() {
    let r = renderer(4096);
    let o = Observer::new(2 * ONE, 2 * ONE, 45, 60).unwrap();
    let mut b = PixelBuffer::from_raw(400, 240, 400, vec![9; 400 * 240 * 3]).unwrap();
    for count in [0usize, 66, 68, 400] {
        let rays = same_rays(count, 46341, 46341);
        assert_eq!(r.ray_casting(&o, &room(), &rays, &mut b), Err(RenderError::RayCountMismatch));
        assert_eq!(b.data(), &vec![9u8; 400 * 240 * 3]);
    }
}

#[test]
fn frame_of_like_rays_shows_one_wall() {
    let r = renderer(4096);
    let o = Observer::new(2 * ONE, 2 * ONE, 45, 60).unwrap();
    let mut b = PixelBuffer::new(400, 240);
    assert_eq!(r.ray_casting(&o, &room(), &same_rays(67, 46341, 46341), &mut b), Ok(()));
    // Distance 93183: half a wall of 84 rows from row 36, in texture column 0.
    for c in [0u32, 1, 5, 6, 199, 200, 398, 399] {
        for row in 0..240u32 {
            let expected = if row < 36 {
                CEILING
            } else if row < 36 + 83 {
                BLACK
            } else if row < 36 + 168 {
                PURPLE
            } else {
                FLOOR
            };
            assert_eq!(b.get_pixel(c, row), Some(expected));
        }
    }
}

#[test]
fn frame_without_a_hit_is_ceiling_over_floor() {
    let r = renderer(100);
    let o = Observer::new(2 * ONE, 2 * ONE, 1, 60).unwrap();
    let mut b = PixelBuffer::from_raw(400, 240, 400, vec![9; 400 * 240 * 3]).unwrap();
    assert_eq!(r.ray_casting(&o, &room(), &same_rays(67, ONE, 0), &mut b), Ok(()));
    for c in 0..400u32 {
        for row in 0..240u32 {
            assert_eq!(b.get_pixel(c, row), Some(if row < 120 { CEILING } else { FLOOR }));
        }
    }
}

#[test]
fn frame_with_a_wall_at_the_observer_fills_the_column_from_row_one() {
    let r = renderer(4096);
    let o = Observer::new(195952, 229376, 1, 60).unwrap();
    let mut b = PixelBuffer::new(400, 240);
    assert_eq!(r.ray_casting(&o, &room(), &same_rays(67, ONE, 0), &mut b), Ok(()));
    // Texture column 4 of the placeholder: four rows of the first colour, then four of the second.
    assert_eq!(b.get_pixel(10, 0), Some(CEILING));
    assert_eq!(b.get_pixel(10, 1), Some(PURPLE));
    assert_eq!(b.get_pixel(10, 119), Some(PURPLE));
    assert_eq!(b.get_pixel(10, 120), Some(BLACK));
    assert_eq!(b.get_pixel(10, 239), Some(BLACK));
}

fn by_hand(r: &Renderer, o: &Observer, grid: &TileGrid, rays: &[ColumnRay], b: &mut PixelBuffer) {
    let screen = r.screen();
    let mut map = Vec::new();
    for (strip, ray) in rays.iter().enumerate() {
        let found = cast(o, grid, ray, &r.rays());
        let slot = project(&screen, found.distance);
        let slice = get_texture_slice(&r.texture(), found.texture_column as usize);
        map.clear();
        get_vert_tex_map(&slice, 2 * slot.wall_pixel_height, &mut map);
        let shown = crop_to_screen(&map, screen.height() as usize);
        composite(
            b,
            strip as u32 * screen.resolution_scale() as u32,
            screen.resolution_scale() as u32,
            slot.wall_start_row,
            slot.wall_pixel_height,
            shown,
            found.is_hit(),
            &r.texture(),
            &r.colors(),
        );
    }
}

#[test]
fn frame_is_the_strips_side_by_side() {
    let grid = room();
    let colors = SceneColors { wall: [1, 2, 3], ceiling: [4, 5, 6], floor: [7, 8, 9] };
    for (width, height, scale, constant) in [(400, 240, 6, 120), (64, 48, 1, 24), (50, 31, 7, 10)] {
        let screen = ScreenConfig::new(width, height, scale, constant).unwrap();
        let r = Renderer::new(screen, RayConfig::new(64, 4096).unwrap(), grey_brick(), colors);
        for heading in [45i16, 90, 200, 359] {
            let o = Observer::new(2 * ONE + 1234, 2 * ONE + 100, heading, 60).unwrap();
            let rays = fan(&o, &screen);
            let mut frame = PixelBuffer::new(width, height);
            let mut expected = PixelBuffer::new(width, height);
            assert_eq!(r.ray_casting(&o, &grid, &rays, &mut frame), Ok(()));
            by_hand(&r, &o, &grid, &rays, &mut expected);
            assert_eq!(frame.data(), expected.data());
            assert!(frame.data().iter().all(|&byte| byte != 0));
        }
    }
}

#[test]
fn frame_is_clipped_to_a_smaller_surface() {
    let r = renderer(4096);
    let o = Observer::new(2 * ONE, 2 * ONE, 45, 60).unwrap();
    let mut b = PixelBuffer::from_raw(10, 50, 12, vec![9; 12 * 50 * 3]).unwrap();
    assert_eq!(r.ray_casting(&o, &room(), &same_rays(67, 46341, 46341), &mut b), Ok(()));
    for row in 0..50u32 {
        for c in 0..10u32 {
            assert_eq!(b.get_pixel(c, row), Some(if row < 36 { CEILING } else { BLACK }));
        }
    }
    let raw = b.into_raw();
    for row in 0..50usize {
        assert_eq!(&raw[(row * 12 + 10) * 3..(row * 12 + 12) * 3], &[9u8; 6]);
    }
}

#[test]
fn frame_leaves_a_wider_surface_beyond_its_strips() {
    let screen = ScreenConfig::new(10, 8, 4, 4).unwrap();
    let r = Renderer::new(screen, RayConfig::new(64, 4096).unwrap(), placeholder(), default_colors());
    let o = Observer::new(2 * ONE, 2 * ONE, 45, 60).unwrap();
    let mut b = PixelBuffer::from_raw(16, 8, 16, vec![9; 16 * 8 * 3]).unwrap();
    assert_eq!(r.ray_casting(&o, &room(), &same_rays(3, 46341, 46341), &mut b), Ok(()));
    for row in 0..8u32 {
        for c in 0..16u32 {
            let painted = b.get_pixel(c, row).unwrap() != [9, 9, 9];
            assert_eq!(painted, c < 12);
        }
    }
}
