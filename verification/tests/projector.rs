use raycaster::config::ScreenConfig;
use raycaster::projector::{crop_to_screen, get_vert_tex_map, project, Projection};

fn screen() -> ScreenConfig {
    ScreenConfig::new(400, 240, 6, 120).unwrap()
}

#[test]
fn wall_height_is_constant_over_distance() {
    let s = screen();
    assert_eq!(project(&s, 131072), Projection { wall_pixel_height: 60, wall_start_row: 60 });
    assert_eq!(project(&s, 196608), Projection { wall_pixel_height: 40, wall_start_row: 80 });
    assert_eq!(project(&s, 93183), Projection { wall_pixel_height: 84, wall_start_row: 36 });
    assert_eq!(project(&s, 120 * 65536), Projection { wall_pixel_height: 1, wall_start_row: 119 });
    assert_eq!(project(&s, 121 * 65536), Projection { wall_pixel_height: 0, wall_start_row: 120 });
}

#[test]
fn wall_at_one_or_nearer_fills_the_column_from_row_one() {
    let s = screen();
    let full = Projection { wall_pixel_height: 120, wall_start_row: 1 };
    assert_eq!(project(&s, 65536), full);
    assert_eq!(project(&s, 65535), full);
    assert_eq!(project(&s, 1), full);
    assert_eq!(project(&s, 0), full);
    assert_eq!(project(&s, 65537), Projection { wall_pixel_height: 119, wall_start_row: 1 });
}

#[test]
fn wall_at_the_farthest_distance_has_no_height() {
    let s = screen();
    assert_eq!(project(&s, u64::MAX), Projection { wall_pixel_height: 0, wall_start_row: 120 });
}

#[test]
fn wall_height_never_grows_with_distance() {
    let s = screen();
    let mut last = project(&s, 0).wall_pixel_height;
    let mut d: u64 = 0;
    while d < 130 * 65536 {
        let h = project(&s, d).wall_pixel_height;
        assert!(h <= last);
        if d <= 65536 {
            assert_eq!(h, 120);
        }
        last = h;
        d += 997;
    }
    // Strictly lower where the distances lie a whole row apart.
    assert!(project(&s, 66100).wall_pixel_height < project(&s, 65537).wall_pixel_height);
    // Not so for neighbours: rows are whole numbers.
    assert_eq!(project(&s, 65537).wall_pixel_height, project(&s, 65538).wall_pixel_height);
}

#[test]
fn smaller_projection_constant_stands_lower() {
    let s = ScreenConfig::new(320, 200, 1, 50).unwrap();
    assert_eq!(project(&s, 2 * 65536), Projection { wall_pixel_height: 25, wall_start_row: 75 });
    assert_eq!(project(&s, 65536), Projection { wall_pixel_height: 50, wall_start_row: 1 });
}

fn tex_map(slice: &[u8], height: u32) -> Vec<u8> {
    let mut v = Vec::new();
    get_vert_tex_map(slice, height, &mut v);
    v
}

#[test]
fn vert_tex_map_is_appended_to_what_the_buffer_holds() {
    let rows = [10u8, 11, 12, 13, 14, 15, 16, 17];
    let mut v = vec![99];
    get_vert_tex_map(&rows, 2, &mut v);
    assert_eq!(v, vec![99, 14, 17]);
    get_vert_tex_map(&rows, 4, &mut v);
    assert_eq!(v, vec![99, 14, 17, 12, 14, 16, 17]);
}

#[test]
fn vert_tex_map_of_no_height_leaves_the_buffer() {
    let rows = [10u8, 11, 12, 13, 14, 15, 16, 17];
    let mut v = vec![5, 6];
    get_vert_tex_map(&rows, 0, &mut v);
    assert_eq!(v, vec![5, 6]);
}

#[test]
fn vert_tex_map_keeps_the_front_and_adds_the_height() {
    let rows = [0u8, 1, 2, 3, 4, 5, 6, 7];
    for held in 0usize..5 {
        for h in 0u32..40 {
            let front: Vec<u8> = (0..held as u8).map(|k| 200 + k).collect();
            let mut v = front.clone();
            get_vert_tex_map(&rows, h, &mut v);
            assert_eq!(v.len(), held + h as usize);
            assert_eq!(&v[..held], &front[..]);
            assert_eq!(&v[held..], &tex_map(&rows, h)[..]);
        }
    }
}

#[test]
fn vert_tex_map_stretches_a_column() {
    let rows = [10u8, 11, 12, 13, 14, 15, 16, 17];
    assert_eq!(
        tex_map(&rows, 16),
        vec![10, 11, 11, 12, 12, 13, 13, 14, 14, 15, 15, 16, 16, 17, 17, 17]
    );
    assert_eq!(tex_map(&rows, 10), vec![10, 11, 12, 13, 14, 14, 15, 16, 17, 17]);
}

#[test]
fn vert_tex_map_squeezes_a_column() {
    let rows = [10u8, 11, 12, 13, 14, 15, 16, 17];
    assert_eq!(tex_map(&rows, 8), vec![11, 12, 13, 14, 15, 16, 17, 17]);
    assert_eq!(tex_map(&rows, 4), vec![12, 14, 16, 17]);
    assert_eq!(tex_map(&rows, 3), vec![12, 15, 17]);
    assert_eq!(tex_map(&rows, 1), vec![17]);
}

#[test]
fn vert_tex_map_of_no_height_is_empty() {
    let rows = [10u8, 11, 12, 13, 14, 15, 16, 17];
    assert_eq!(tex_map(&rows, 0), Vec::<u8>::new());
}

#[test]
fn vert_tex_map_has_the_height_and_never_steps_back() {
    let rows = [0u8, 1, 2, 3, 4, 5, 6, 7];
    for h in 0u32..500 {
        let m = tex_map(&rows, h);
        assert_eq!(m.len(), h as usize);
        for j in 1..m.len() {
            assert!(m[j - 1] <= m[j]);
        }
        if h > 0 {
            assert_eq!(m[m.len() - 1], 7);
        }
    }
}

#[test]
fn vert_tex_map_of_full_height_shows_thirty_rows_each() {
    let rows = [0u8, 1, 2, 3, 4, 5, 6, 7];
    let m = tex_map(&rows, 240);
    assert_eq!(m.iter().filter(|&&r| r == 0).count(), 29);
    for k in 1u8..7 {
        assert_eq!(m.iter().filter(|&&r| r == k).count(), 30);
    }
    assert_eq!(m.iter().filter(|&&r| r == 7).count(), 31);
}

#[test]
fn vert_tex_map_works_on_any_slice_length() {
    assert_eq!(tex_map(&[5u8], 3), vec![5, 5, 5]);
    assert_eq!(tex_map(&[5u8, 6], 4), vec![5, 6, 6, 6]);
}

#[test]
fn crop_keeps_a_map_that_fits() {
    let m: Vec<u8> = (0..10).collect();
    assert_eq!(crop_to_screen(&m, 10), &m[..]);
    assert_eq!(crop_to_screen(&m, 240), &m[..]);
    assert_eq!(crop_to_screen(&[], 0), &[] as &[u8]);
}

#[test]
fn crop_of_even_overflow_trims_both_ends_alike() {
    let m: Vec<u8> = (0..10).collect();
    assert_eq!(crop_to_screen(&m, 6), &[2, 3, 4, 5, 6, 7]);
    assert_eq!(crop_to_screen(&m, 0), &[] as &[u8]);
}

#[test]
fn crop_of_odd_overflow_trims_one_more_from_the_bottom() {
    let m: Vec<u8> = (0..10).collect();
    assert_eq!(crop_to_screen(&m, 7), &[1, 2, 3, 4, 5, 6, 7]);
    assert_eq!(crop_to_screen(&m, 9), &[0, 1, 2, 3, 4, 5, 6, 7, 8]);
    assert_eq!(crop_to_screen(&m, 1), &[4]);
}

#[test]
fn cropped_map_of_a_wall_fits_the_screen() {
    let rows = [0u8, 1, 2, 3, 4, 5, 6, 7];
    for h in 0u32..300 {
        let m = tex_map(&rows, 2 * h);
        assert_eq!(m.len(), 2 * h as usize);
        let c = crop_to_screen(&m, 240);
        assert!(c.len() <= 240);
        let trimmed = m.len() - c.len();
        let top = trimmed / 2;
        assert_eq!(c, &m[top..m.len() - (trimmed - top)]);
    }
}
