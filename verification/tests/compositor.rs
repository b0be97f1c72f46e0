use raycaster::buffer::PixelBuffer;
use raycaster::compositor::{composite, default_colors, draw_filled_rec, SceneColors};
use raycaster::texture::placeholder;

const C0: [u8; 3] = [128, 0, 128];
const C1: [u8; 3] = [0, 0, 0];
const FLAT: [u8; 3] = [9, 9, 9];
const OLD: [u8; 3] = [5, 5, 5];

fn grey(width: u16, height: u16) -> PixelBuffer {
    PixelBuffer::from_raw(width, height, width, vec![5; width as usize * height as usize * 3])
        .unwrap()
}

#[test]
fn default_colors_are_the_plain_scene() {
    let c = default_colors();
    assert_eq!(c.wall, [0, 0, 255]);
    assert_eq!(c.ceiling, [0, 100, 0]);
    assert_eq!(c.floor, [100, 0, 0]);
}

#[test]
fn flat_rectangle_is_painted_inside_only() {
    let mut b = grey(6, 5);
    draw_filled_rec(&mut b, 1, 2, 3, 2, &FLAT, false, &[], &placeholder());
    for r in 0..5u32 {
        for c in 0..6u32 {
            let inside = (1..4).contains(&c) && (2..4).contains(&r);
            assert_eq!(b.get_pixel(c, r), Some(if inside { FLAT } else { OLD }));
        }
    }
}

#[test]
fn rectangle_is_clipped_to_the_surface() {
    let mut b = grey(4, 4);
    draw_filled_rec(&mut b, 2, 3, 100, 100, &FLAT, false, &[], &placeholder());
    for r in 0..4u32 {
        for c in 0..4u32 {
            let inside = c >= 2 && r >= 3;
            assert_eq!(b.get_pixel(c, r), Some(if inside { FLAT } else { OLD }));
        }
    }
    let before = b.data().clone();
    draw_filled_rec(&mut b, 4, 0, 5, 5, &C0, false, &[], &placeholder());
    draw_filled_rec(&mut b, 0, 4, 5, 5, &C0, false, &[], &placeholder());
    draw_filled_rec(&mut b, u32::MAX, u32::MAX, u32::MAX, u32::MAX, &C0, false, &[], &placeholder());
    draw_filled_rec(&mut b, 0, 0, 0, 4, &C0, false, &[], &placeholder());
    draw_filled_rec(&mut b, 0, 0, 4, 0, &C0, false, &[], &placeholder());
    assert_eq!(b.data(), &before);
}

#[test]
fn textured_rectangle_takes_each_row_from_its_entry() {
    let mut b = grey(3, 6);
    draw_filled_rec(&mut b, 0, 1, 2, 4, &FLAT, true, &[0, 1, 1, 0], &placeholder());
    let rows = [OLD, C0, C1, C1, C0, OLD];
    for r in 0..6u32 {
        assert_eq!(b.get_pixel(0, r), Some(rows[r as usize]));
        assert_eq!(b.get_pixel(1, r), Some(rows[r as usize]));
        assert_eq!(b.get_pixel(2, r), Some(OLD));
    }
}

#[test]
fn textured_rows_without_an_entry_are_flat() {
    let mut b = grey(1, 5);
    draw_filled_rec(&mut b, 0, 0, 1, 5, &FLAT, true, &[1, 0], &placeholder());
    let rows = [C1, C0, FLAT, FLAT, FLAT];
    for r in 0..5u32 {
        assert_eq!(b.get_pixel(0, r), Some(rows[r as usize]));
    }
}

#[test]
fn entries_past_the_palette_name_its_last_colour() {
    let mut b = grey(1, 3);
    draw_filled_rec(&mut b, 0, 0, 1, 3, &FLAT, true, &[2, 255, 0], &placeholder());
    assert_eq!(b.get_pixel(0, 0), Some(C1));
    assert_eq!(b.get_pixel(0, 1), Some(C1));
    assert_eq!(b.get_pixel(0, 2), Some(C0));
}

#[test]
fn untextured_rectangle_ignores_the_slice() {
    let mut b = grey(1, 2);
    draw_filled_rec(&mut b, 0, 0, 1, 2, &FLAT, false, &[1, 1], &placeholder());
    assert_eq!(b.get_pixel(0, 0), Some(FLAT));
    assert_eq!(b.get_pixel(0, 1), Some(FLAT));
}

fn colors() -> SceneColors {
    SceneColors { wall: FLAT, ceiling: [1, 1, 1], floor: [2, 2, 2] }
}

#[test]
fn strip_is_ceiling_then_wall_then_floor() {
    let mut b = grey(5, 10);
    composite(&mut b, 1, 2, 3, 2, &[1, 0, 0, 1], true, &placeholder(), &colors());
    let rows = [
        [1, 1, 1],
        [1, 1, 1],
        [1, 1, 1],
        C1,
        C0,
        C0,
        C1,
        [2, 2, 2],
        [2, 2, 2],
        [2, 2, 2],
    ];
    for r in 0..10u32 {
        assert_eq!(b.get_pixel(0, r), Some(OLD));
        assert_eq!(b.get_pixel(1, r), Some(rows[r as usize]));
        assert_eq!(b.get_pixel(2, r), Some(rows[r as usize]));
        assert_eq!(b.get_pixel(3, r), Some(OLD));
    }
}

#[test]
fn strip_without_a_wall_is_ceiling_and_floor() {
    let mut b = grey(1, 6);
    composite(&mut b, 0, 1, 3, 2, &[1, 0, 0, 1], false, &placeholder(), &colors());
    for r in 0..6u32 {
        assert_eq!(b.get_pixel(0, r), Some(if r < 3 { [1, 1, 1] } else { [2, 2, 2] }));
    }
}

#[test]
fn strip_tiles_the_whole_column() {
    for start in 0u32..12 {
        for half in 0u32..8 {
            let mut b = PixelBuffer::from_raw(2, 10, 2, vec![77; 60]).unwrap();
            let map = vec![1u8; 2 * half as usize];
            composite(&mut b, 0, 2, start, half, &map, true, &placeholder(), &colors());
            for r in 0..10u32 {
                let expected = if r < start {
                    [1, 1, 1]
                } else if r < start + 2 * half {
                    C1
                } else {
                    [2, 2, 2]
                };
                assert_eq!(b.get_pixel(0, r), Some(expected));
                assert_eq!(b.get_pixel(1, r), Some(expected));
            }
        }
    }
}

#[test]
fn wall_rows_past_the_map_are_flat() {
    let mut b = grey(1, 6);
    composite(&mut b, 0, 1, 1, 2, &[0, 1], true, &placeholder(), &colors());
    let rows = [[1, 1, 1], C0, C1, FLAT, FLAT, [2, 2, 2]];
    for r in 0..6u32 {
        assert_eq!(b.get_pixel(0, r), Some(rows[r as usize]));
    }
}

#[test]
fn strip_past_the_surface_paints_nothing() {
    let mut b = grey(3, 3);
    let before = b.data().clone();
    composite(&mut b, 3, 2, 1, 1, &[0, 1], true, &placeholder(), &colors());
    composite(&mut b, u32::MAX, u32::MAX, u32::MAX, u32::MAX, &[0, 1], true, &placeholder(), &colors());
    assert_eq!(b.data(), &before);
    composite(&mut b, 2, 100, u32::MAX, u32::MAX, &[], true, &placeholder(), &colors());
    for r in 0..3u32 {
        assert_eq!(b.get_pixel(1, r), Some(OLD));
        assert_eq!(b.get_pixel(2, r), Some([1, 1, 1]));
    }
}
