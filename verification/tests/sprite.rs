use image::{DynamicImage, Rgba, RgbaImage};
use raycaster::fixed::ONE;
use raycaster::framebuffer::Framebuffer;
use raycaster::grid::Grid;
use raycaster::player::{Player, Point};
use raycaster::sprite::{
    check_cat_collision, distance, integer_sqrt, project_sprite, render_cat_sprite, SpriteRect,
};
use raycaster::texture::Texture;
use raycaster::wall::EPSILON;

const ONE_U: u64 = ONE as u64;

fn rows(lines: &[&str]) -> Vec<Vec<char>> {
    lines.iter().map(|l| l.chars().collect()).collect()
}

fn open_grid() -> Grid {
    Grid::from_chars(&rows(&["    ", "    ", "  + ", "   g"]), 64).unwrap()
}

fn at(x: i64, y: i64) -> Point {
    Point { x: x * ONE, y: y * ONE }
}

fn player_at(x: i64, y: i64) -> Player {
    Player::new(at(x, y), 0, ONE)
}

fn texture() -> Texture {
    Texture::new(DynamicImage::ImageRgba8(RgbaImage::from_fn(3, 2, |x, y| {
        Rgba([50, x as u8, y as u8, 0])
    })))
    .unwrap()
}

#[test]
fn square_roots_round_down() {
    assert_eq!(integer_sqrt(0), 0);
    assert_eq!(integer_sqrt(1), 1);
    assert_eq!(integer_sqrt(3), 1);
    assert_eq!(integer_sqrt(4), 2);
    assert_eq!(integer_sqrt(15), 3);
    assert_eq!(integer_sqrt(16), 4);
    assert_eq!(integer_sqrt(17), 4);
    assert_eq!(integer_sqrt(2500 << 32), 50 << 16);
    assert_eq!(integer_sqrt(u128::MAX), u64::MAX);
    assert_eq!(integer_sqrt((u64::MAX as u128) * (u64::MAX as u128) - 1), u64::MAX - 1);
}

#[test]
fn distance_between_points() {
    assert_eq!(distance(&at(100, 100), &at(130, 140)), 50 * ONE_U);
    assert_eq!(distance(&at(130, 140), &at(100, 100)), 50 * ONE_U);
    assert_eq!(distance(&at(-3, 0), &at(0, -4)), 5 * ONE_U);
    assert_eq!(distance(&at(7, 7), &at(7, 7)), 0);
    assert_eq!(distance(&Point { x: 0, y: 0 }, &Point { x: 1, y: 1 }), 1);
    assert_eq!(distance(&Point { x: i64::MIN, y: 0 }, &Point { x: i64::MAX, y: 0 }), u64::MAX);
    assert_eq!(
        distance(&Point { x: i64::MIN, y: i64::MIN }, &Point { x: i64::MAX, y: i64::MAX }),
        u64::MAX
    );
}

#[test]
fn sprite_in_a_solid_cell_is_hidden() {
    let grid = open_grid();
    assert!(check_cat_collision(&at(2 * 64 + 1, 2 * 64 + 1), &grid));
    assert!(check_cat_collision(&at(3 * 64 + 5, 3 * 64 + 5), &grid));
    assert!(!check_cat_collision(&at(5, 5), &grid));
    assert!(!check_cat_collision(&at(-5, 5), &grid));
    for player in [player_at(10, 10), player_at(150, 150), player_at(-1000, 9999)] {
        for bearing in [0, ONE, -3 * ONE, i64::MAX] {
            let rect =
                project_sprite(&grid, &player, &at(150, 150), bearing, 500 * ONE_U, 640, 480);
            assert_eq!(rect, None);
        }
    }
}

#[test]
fn sprite_in_a_solid_cell_writes_no_pixel() {
    let grid = open_grid();
    for (px, py, a) in [(10, 10, 0), (100, 100, ONE), (150, 150, -ONE), (200, 40, 3 * ONE)] {
        let mut bytes = vec![7u8; 20 * 10 * 4];
        let mut fb = Framebuffer::new(20, 10, &mut bytes);
        let player = Player::new(at(px, py), a, ONE);
        render_cat_sprite(&mut fb, &player, &at(150, 150), 0, 5 * ONE_U, &grid, &texture());
        assert!(bytes.iter().all(|b| *b == 7));
    }
}

// The viewer and the sprite at one point: nothing is drawn.
#[test]
fn sprite_at_the_viewer_is_suppressed() {
    let grid = open_grid();
    let player = player_at(100, 100);
    assert_eq!(project_sprite(&grid, &player, &at(100, 100), 0, 500 * ONE_U, 640, 480), None);
    let mut bytes = vec![7u8; 20 * 10 * 4];
    let mut fb = Framebuffer::new(20, 10, &mut bytes);
    render_cat_sprite(&mut fb, &player, &at(100, 100), 0, 5 * ONE_U, &grid, &texture());
    assert!(bytes.iter().all(|b| *b == 7));
}

#[test]
fn sprite_closer_than_epsilon_is_suppressed() {
    let grid = open_grid();
    let player = player_at(100, 100);
    let near = Point { x: 100 * ONE + EPSILON as i64 - 1, y: 100 * ONE };
    assert_eq!(project_sprite(&grid, &player, &near, 0, 500 * ONE_U, 640, 480), None);
    let far_enough = Point { x: 100 * ONE + EPSILON as i64, y: 100 * ONE };
    assert!(project_sprite(&grid, &player, &far_enough, 0, 500 * ONE_U, 640, 480).is_some());
}

#[test]
fn sprite_rectangle() {
    let grid = open_grid();
    let player = player_at(10, 10);
    // 500 / 50 * 64 = 640 pixels either way, from the middle column on.
    let rect = project_sprite(&grid, &player, &at(40, 50), 0, 500 * ONE_U, 640, 480);
    assert_eq!(rect, Some(SpriteRect { left: 320, right: 640, top: 0, bottom: 480 }));
    // 50 / 50 * 64 = 64 pixels.
    let rect = project_sprite(&grid, &player, &at(40, 50), 0, 50 * ONE_U, 640, 480);
    assert_eq!(rect, Some(SpriteRect { left: 320, right: 384, top: 208, bottom: 272 }));
    // A tenth of a radian to the right: 0.1 * 500 = 50 pixels.
    let rect = project_sprite(&grid, &player, &at(40, 50), 6554, 500 * ONE_U, 640, 480);
    assert_eq!(rect.unwrap().left, 370);
    // And to the left, rounded down.
    let rect = project_sprite(&grid, &player, &at(40, 50), -6554, 500 * ONE_U, 640, 480);
    assert_eq!(rect.unwrap().left, 269);
}

#[test]
fn sprite_angle_is_taken_from_the_viewing_direction() {
    let grid = open_grid();
    let player = Player::new(at(10, 10), ONE, ONE);
    let rect = project_sprite(&grid, &player, &at(40, 50), ONE + 6554, 500 * ONE_U, 640, 480);
    assert_eq!(rect.unwrap().left, 370);
}

#[test]
fn sprite_behind_or_beside_is_cut_to_nothing() {
    let grid = open_grid();
    let player = player_at(10, 10);
    // Three radians to the right: far off the right edge.
    let rect = project_sprite(&grid, &player, &at(40, 50), 3 * ONE, 50 * ONE_U, 640, 480);
    assert_eq!(rect, Some(SpriteRect { left: 470, right: 534, top: 208, bottom: 272 }));
    let rect = project_sprite(&grid, &player, &at(40, 50), 7 * ONE, 50 * ONE_U, 640, 480);
    assert_eq!(rect, Some(SpriteRect { left: 640, right: 640, top: 208, bottom: 272 }));
    let rect = project_sprite(&grid, &player, &at(40, 50), -8 * ONE, 50 * ONE_U, 640, 480);
    assert_eq!(rect, Some(SpriteRect { left: 0, right: 0, top: 208, bottom: 272 }));
    let rect = project_sprite(&grid, &player, &at(40, 50), i64::MIN, u64::MAX, 640, 480);
    assert_eq!(rect.map(|r| (r.top, r.bottom)), Some((0, 480)));
}

#[test]
fn sprite_outside_the_grid_is_drawn() {
    let grid = open_grid();
    let player = player_at(100, 100);
    let rect = project_sprite(&grid, &player, &at(-200, 500), 0, 50 * ONE_U, 640, 480);
    // The distance is 500: 50 / 500 * 64 = 6.4.
    assert_eq!(rect, Some(SpriteRect { left: 320, right: 326, top: 237, bottom: 243 }));
}

#[test]
fn sprite_shows_the_texture_stretched() {
    let grid = open_grid();
    let mut bytes = vec![0u8; 20 * 10 * 4];
    let mut fb = Framebuffer::new(20, 10, &mut bytes);
    // 5 / 50 * 64 = 6.4: six pixels either way.
    render_cat_sprite(&mut fb, &player_at(10, 10), &at(40, 50), 0, 5 * ONE_U, &grid, &texture());
    for y in 0..10usize {
        for x in 0..20usize {
            let i = (y * 20 + x) * 4;
            let expected = if (10..16).contains(&x) && (2..8).contains(&y) {
                [50, ((x - 10) / 2) as u8, ((y - 2) / 3) as u8, 255]
            } else {
                [0, 0, 0, 0]
            };
            assert_eq!(bytes[i..i + 4], expected, "pixel ({x}, {y})");
        }
    }
}

#[test]
fn sprite_is_drawn_over_what_was_there() {
    let grid = open_grid();
    let mut bytes = vec![9u8; 20 * 10 * 4];
    let mut fb = Framebuffer::new(20, 10, &mut bytes);
    render_cat_sprite(&mut fb, &player_at(10, 10), &at(40, 50), 0, 5 * ONE_U, &grid, &texture());
    assert_eq!(bytes[(2 * 20 + 10) * 4..(2 * 20 + 10) * 4 + 4], [50, 0, 0, 255]);
    assert_eq!(bytes[(2 * 20 + 9) * 4..(2 * 20 + 9) * 4 + 4], [9, 9, 9, 9]);
}
