use image::{DynamicImage, Rgba, RgbaImage};
use raycaster::fixed::ONE;
use raycaster::framebuffer::Framebuffer;
use raycaster::grid::CellKind;
use raycaster::ray::{RayHit, NO_HIT_DISTANCE};
use raycaster::texture::{Texture, Textures, BLACK};
use raycaster::wall::{draw_wall_column, project_wall, scale, Stripe, EPSILON};

const ONE_U: u64 = ONE as u64;

fn wall_at(distance: u64) -> RayHit {
    RayHit { distance, cell_kind: CellKind::WallA, wall_offset: 32 }
}

fn texture(seed: u8) -> Texture {
    Texture::new(DynamicImage::ImageRgba8(RgbaImage::from_fn(2, 2, |x, y| {
        Rgba([seed, x as u8, y as u8, 7])
    })))
    .unwrap()
}

fn textures() -> Textures {
    Textures::new(texture(1), texture(2), texture(3), texture(4)).unwrap()
}

#[test]
fn stripe_height_is_plane_over_distance_times_cell() {
    // 500 / 160 * 64 = 200 rows, about the middle of 480.
    let stripe = project_wall(&wall_at(160 * ONE_U), 500 * ONE_U, 64, 480);
    assert_eq!(stripe, Some(Stripe { top: 140, bottom: 340 }));
    // 554.25 / 100 * 64 = 354.72.
    let stripe = project_wall(&wall_at(100 * ONE_U), 554 * ONE_U + ONE_U / 4, 64, 480);
    assert_eq!(stripe, Some(Stripe { top: 63, bottom: 417 }));
}

#[test]
fn stripe_is_centered_on_the_screen() {
    for height in [1usize, 2, 3, 100, 479, 480, 481] {
        for distance in [1 * ONE_U, 7 * ONE_U, 160 * ONE_U, 1000 * ONE_U, 31999 * ONE_U] {
            let stripe = project_wall(&wall_at(distance), 500 * ONE_U, 64, height).unwrap();
            assert!(stripe.top < stripe.bottom);
            assert_eq!(stripe.top + stripe.bottom, height, "{height} rows at {distance}");
            assert!(stripe.bottom <= height);
        }
    }
}

#[test]
fn stripe_of_odd_difference_is_a_row_taller() {
    assert_eq!(
        project_wall(&wall_at(160 * ONE_U), 500 * ONE_U, 64, 481),
        Some(Stripe { top: 140, bottom: 341 })
    );
}

#[test]
fn near_wall_fills_the_column() {
    assert_eq!(
        project_wall(&wall_at(10 * ONE_U), 500 * ONE_U, 64, 480),
        Some(Stripe { top: 0, bottom: 480 })
    );
    assert_eq!(
        project_wall(&wall_at(EPSILON + 1), u64::MAX, usize::MAX, 480),
        Some(Stripe { top: 0, bottom: 480 })
    );
}

#[test]
fn far_wall_has_no_height() {
    assert_eq!(
        project_wall(&wall_at(32001 * ONE_U), 500 * ONE_U, 64, 480),
        Some(Stripe { top: 240, bottom: 240 })
    );
    assert_eq!(
        project_wall(&wall_at(100 * ONE_U), 0, 64, 481),
        Some(Stripe { top: 240, bottom: 240 })
    );
}

#[test]
fn wall_at_no_distance_is_skipped() {
    assert_eq!(project_wall(&wall_at(0), 500 * ONE_U, 64, 480), None);
    assert_eq!(project_wall(&wall_at(EPSILON), 500 * ONE_U, 64, 480), None);
    assert!(project_wall(&wall_at(EPSILON + 1), 500 * ONE_U, 64, 480).is_some());
}

#[test]
fn miss_is_skipped() {
    let miss = RayHit { distance: NO_HIT_DISTANCE, cell_kind: CellKind::Empty, wall_offset: 0 };
    assert_eq!(project_wall(&miss, 500 * ONE_U, 64, 480), None);
    assert_eq!(project_wall(&miss, u64::MAX, usize::MAX, 480), None);
}

#[test]
fn scale_rounds_down() {
    assert_eq!(scale(32, 64, 128), 64);
    assert_eq!(scale(63, 64, 128), 126);
    assert_eq!(scale(1, 3, 128), 42);
    assert_eq!(scale(2, 3, 128), 85);
    assert_eq!(scale(0, 1, 128), 0);
    assert_eq!(scale(usize::MAX - 1, usize::MAX, u32::MAX), u32::MAX - 1);
    assert_eq!(scale(5, 6, 0), 0);
}

#[test]
fn wall_column_shows_the_texture() {
    let mut bytes = vec![0u8; 4 * 20 * 4];
    let mut fb = Framebuffer::new(4, 20, &mut bytes);
    // 10 / 64 * 64 = 10 rows: 5 up to 15.
    draw_wall_column(&mut fb, 2, &wall_at(64 * ONE_U), 10 * ONE_U, 64, &textures());
    for y in 0..20 {
        for x in 0..4 {
            let i = (y * 4 + x) * 4;
            let expected = if x != 2 || !(5..15).contains(&y) {
                [0, 0, 0, 0]
            } else if y < 10 {
                [1, 1, 0, 255]
            } else {
                [1, 1, 1, 255]
            };
            assert_eq!(bytes[i..i + 4], expected, "pixel ({x}, {y})");
        }
    }
}

#[test]
fn wall_column_by_kind() {
    let draw = |kind: CellKind, wall_offset: usize| {
        let mut bytes = vec![0u8; 2 * 4 * 4];
        let mut fb = Framebuffer::new(2, 4, &mut bytes);
        let hit = RayHit { distance: 64 * ONE_U, cell_kind: kind, wall_offset };
        draw_wall_column(&mut fb, 0, &hit, 2 * ONE_U, 64, &textures());
        (bytes[0..4].to_vec(), bytes[8..12].to_vec(), bytes[16..20].to_vec())
    };
    let untouched = vec![0u8; 4];
    assert_eq!(draw(CellKind::WallA, 0), (untouched.clone(), vec![1, 0, 0, 255], vec![1, 0, 1, 255]));
    assert_eq!(draw(CellKind::Door, 63), (untouched.clone(), vec![2, 1, 0, 255], vec![2, 1, 1, 255]));
    assert_eq!(draw(CellKind::Goal, 31), (untouched.clone(), vec![2, 0, 0, 255], vec![2, 0, 1, 255]));
    assert_eq!(
        draw(CellKind::Collectible, 32),
        (untouched.clone(), vec![3, 1, 0, 255], vec![3, 1, 1, 255])
    );
    assert_eq!(draw(CellKind::SpawnMarker, 0), (untouched.clone(), BLACK.to_vec(), BLACK.to_vec()));
}

#[test]
fn wall_column_off_the_screen_draws_nothing() {
    let mut bytes = vec![0u8; 4 * 20 * 4];
    let mut fb = Framebuffer::new(4, 20, &mut bytes);
    draw_wall_column(&mut fb, 4, &wall_at(64 * ONE_U), 10 * ONE_U, 64, &textures());
    draw_wall_column(&mut fb, 1, &wall_at(EPSILON), 10 * ONE_U, 64, &textures());
    assert!(bytes.iter().all(|b| *b == 0));
}
