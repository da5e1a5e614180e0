use raycaster::fixed::ONE;
use raycaster::framebuffer::Framebuffer;
use raycaster::grid::{CellKind, Grid};
use raycaster::ray::{
    cast, corrected_distance, ray_stops_at, trace, wall_offset_at, Ray, RayHit, NO_HIT_DISTANCE,
    RAY_COLOR,
};

fn rows(lines: &[&str]) -> Vec<Vec<char>> {
    lines.iter().map(|l| l.chars().collect()).collect()
}

fn corridor() -> Grid {
    Grid::from_chars(&rows(&["+++++++", "+     +", "+++++++"]), 64).unwrap()
}

fn miss() -> RayHit {
    RayHit { distance: NO_HIT_DISTANCE, cell_kind: CellKind::Empty, wall_offset: 0 }
}

fn east() -> Ray {
    Ray::new(ONE, 0, ONE).unwrap()
}

#[test]
fn ray_needs_short_steps_and_a_forward_cosine() {
    assert_eq!(Ray::new(ONE, -ONE, 0), Some(Ray { dx: ONE, dy: -ONE, cos_offset: 0 }));
    assert_eq!(Ray::new(ONE + 1, 0, ONE), None);
    assert_eq!(Ray::new(-ONE - 1, 0, ONE), None);
    assert_eq!(Ray::new(0, ONE + 1, ONE), None);
    assert_eq!(Ray::new(0, -ONE - 1, ONE), None);
    assert_eq!(Ray::new(0, 0, -1), None);
    assert_eq!(Ray::new(0, 0, ONE + 1), None);
    assert!(Ray { dx: -ONE, dy: ONE, cos_offset: ONE }.is_wf());
    assert!(!Ray { dx: -ONE, dy: ONE, cos_offset: ONE + 1 }.is_wf());
}

// A corridor one cell wide, the viewer at its center facing down the
// corridor: the ray reports the far wall at its distance.
#[test]
fn corridor_ray_reaches_the_far_wall() {
    let grid = corridor();
    let hit = cast(&grid, 224 * ONE, 96 * ONE, &east(), 1000, false);
    assert_eq!(hit.distance, (160 * ONE) as u64);
    assert_eq!(hit.cell_kind, CellKind::WallA);
    assert_eq!(hit.wall_offset, 32);
    assert!(hit.wall_offset < 64);
    assert!(!hit.missed());
}

#[test]
fn ray_from_inside_a_wall_hits_at_once() {
    let grid = corridor();
    let hit = cast(&grid, 10 * ONE, 10 * ONE, &east(), 1000, false);
    assert_eq!(hit, RayHit { distance: 0, cell_kind: CellKind::WallA, wall_offset: 10 });
}

#[test]
fn ray_that_leaves_the_grid_misses() {
    let grid = Grid::from_chars(&rows(&["   ", "   ", "   "]), 10).unwrap();
    let hit = cast(&grid, 15 * ONE, 15 * ONE, &east(), 1000, false);
    assert_eq!(hit, miss());
    assert!(hit.missed());
    let west = Ray::new(-ONE, 0, ONE).unwrap();
    assert_eq!(cast(&grid, 15 * ONE, 15 * ONE, &west, 1000, false), miss());
    let north = Ray::new(0, -ONE, ONE).unwrap();
    assert_eq!(cast(&grid, 15 * ONE, 15 * ONE, &north, 1000, false), miss());
}

#[test]
fn ray_from_outside_the_grid_misses() {
    let grid = corridor();
    assert_eq!(cast(&grid, -ONE, 96 * ONE, &east(), 1000, false), miss());
    assert_eq!(cast(&grid, i64::MAX, i64::MAX, &east(), 1000, false), miss());
    assert_eq!(cast(&grid, i64::MIN, 0, &Ray::new(-ONE, -ONE, ONE).unwrap(), 1000, false), miss());
}

#[test]
fn ray_gives_up_after_max_steps() {
    let grid = corridor();
    assert_eq!(cast(&grid, 224 * ONE, 96 * ONE, &east(), 159, false), miss());
    assert_eq!(cast(&grid, 224 * ONE, 96 * ONE, &east(), 160, false).distance, (160 * ONE) as u64);
    assert_eq!(cast(&grid, 224 * ONE, 96 * ONE, &east(), 0, false), miss());
    // A ray that does not move never arrives.
    let still = Ray::new(0, 0, ONE).unwrap();
    assert_eq!(cast(&grid, 224 * ONE, 96 * ONE, &still, 50, false), miss());
    // With no step allowed a ray still sees the cell it starts in.
    assert_eq!(cast(&grid, 10 * ONE, 10 * ONE, &east(), 0, false).distance, 0);
}

#[test]
fn ray_straight_ahead_reports_its_length() {
    let grid = corridor();
    let hit = cast(&grid, 100 * ONE, 96 * ONE, &east(), 1000, false);
    assert_eq!(hit.distance, (284 * ONE) as u64);
}

#[test]
fn ray_at_an_angle_reports_less_than_its_length() {
    let grid = corridor();
    // Half a unit of cosine: sixty degrees off the viewing direction.
    let ray = Ray::new(ONE, 0, ONE / 2).unwrap();
    let hit = cast(&grid, 224 * ONE, 96 * ONE, &ray, 1000, false);
    assert_eq!(hit.distance, (80 * ONE) as u64);
    assert!(hit.distance <= (160 * ONE) as u64);
    let flat = Ray::new(ONE, 0, 0).unwrap();
    assert_eq!(cast(&grid, 224 * ONE, 96 * ONE, &flat, 1000, false).distance, 0);
}

#[test]
fn corrected_distance_is_steps_times_cosine() {
    assert_eq!(corrected_distance(160, ONE), (160 * ONE) as u64);
    assert_eq!(corrected_distance(160, 56756), 160 * 56756);
    assert_eq!(corrected_distance(0, ONE), 0);
    assert_eq!(corrected_distance(u32::MAX, ONE), (u32::MAX as u64) * (ONE as u64));
}

#[test]
fn ray_along_the_other_axis() {
    let grid = corridor();
    let south = Ray::new(0, ONE, ONE).unwrap();
    let hit = cast(&grid, 96 * ONE, 96 * ONE, &south, 1000, false);
    assert_eq!(hit, RayHit { distance: (32 * ONE) as u64, cell_kind: CellKind::WallA, wall_offset: 32 });
    let north = Ray::new(0, -ONE, ONE).unwrap();
    let hit = cast(&grid, 96 * ONE, 96 * ONE, &north, 1000, false);
    // The first point of the row above is 63.x: 33 steps up from 96.
    assert_eq!(hit, RayHit { distance: (33 * ONE) as u64, cell_kind: CellKind::WallA, wall_offset: 32 });
}

#[test]
fn diagonal_ray() {
    let grid = corridor();
    // About forty-five degrees: 0.7071 either way.
    let ray = Ray::new(46341, 46341, ONE).unwrap();
    let hit = cast(&grid, 96 * ONE, 96 * ONE, &ray, 1000, false);
    // y reaches 128 after 46 steps: 96 + 46 * 0.70711 = 128.53.
    assert_eq!(hit.distance, (46 * ONE) as u64);
    assert_eq!(hit.cell_kind, CellKind::WallA);
    // x = 96 + 32.53 = 128.53: half a unit into the third cell, so the place
    // along the face is taken from the other axis.
    assert_eq!(hit.wall_offset, 0);
}

#[test]
fn permissive_ray_stops_at_anything() {
    let grid = Grid::from_chars(&rows(&["+++++++", "+  pz +", "+++++++"]), 64).unwrap();
    let strict = cast(&grid, 96 * ONE, 96 * ONE, &east(), 1000, false);
    assert_eq!(strict.cell_kind, CellKind::WallA);
    assert_eq!(strict.distance, (288 * ONE) as u64);
    let loose = cast(&grid, 96 * ONE, 96 * ONE, &east(), 1000, true);
    assert_eq!(loose.cell_kind, CellKind::SpawnMarker);
    assert_eq!(loose.distance, (96 * ONE) as u64);
    let from_marker = cast(&grid, 200 * ONE, 96 * ONE, &east(), 1000, true);
    assert_eq!(from_marker.distance, 0);
}

#[test]
fn what_stops_a_ray() {
    for kind in [CellKind::WallA, CellKind::Door, CellKind::Goal] {
        assert!(ray_stops_at(kind, false));
        assert!(ray_stops_at(kind, true));
    }
    for kind in [CellKind::Collectible, CellKind::SpawnMarker] {
        assert!(!ray_stops_at(kind, false));
        assert!(ray_stops_at(kind, true));
    }
    assert!(!ray_stops_at(CellKind::Empty, false));
    assert!(!ray_stops_at(CellKind::Empty, true));
}

#[test]
fn ray_stops_at_door_and_goal() {
    let grid = Grid::from_chars(&rows(&["+++++", "+ d g", "+++++"]), 10).unwrap();
    let hit = cast(&grid, 15 * ONE, 15 * ONE, &east(), 1000, false);
    assert_eq!(hit, RayHit { distance: (5 * ONE) as u64, cell_kind: CellKind::Door, wall_offset: 5 });
    let hit = cast(&grid, 35 * ONE, 15 * ONE, &east(), 1000, false);
    assert_eq!(hit, RayHit { distance: (5 * ONE) as u64, cell_kind: CellKind::Goal, wall_offset: 5 });
}

#[test]
fn place_along_the_face() {
    assert_eq!(wall_offset_at(64, 384 * ONE, 96 * ONE), 32);
    assert_eq!(wall_offset_at(64, 96 * ONE, 128 * ONE), 32);
    assert_eq!(wall_offset_at(64, 65 * ONE, 70 * ONE), 6);
    assert_eq!(wall_offset_at(64, 66 * ONE, 70 * ONE), 2);
    assert_eq!(wall_offset_at(64, 126 * ONE, 70 * ONE), 62);
    assert_eq!(wall_offset_at(64, 127 * ONE, 70 * ONE), 6);
    assert_eq!(wall_offset_at(64, 66 * ONE + ONE - 1, 0), 2);
    assert_eq!(wall_offset_at(1, 5 * ONE, 7 * ONE), 0);
}

#[test]
fn trace_draws_the_path_and_reports_the_hit() {
    let grid = Grid::from_chars(&rows(&["+++++++", "+     +", "+++++++"]), 4).unwrap();
    let mut bytes = vec![0u8; 32 * 16 * 4];
    let mut fb = Framebuffer::new(32, 16, &mut bytes);
    let hit = trace(&mut fb, &grid, 14 * ONE, 6 * ONE, &east(), 1000, true, RAY_COLOR);
    assert_eq!(hit, cast(&grid, 14 * ONE, 6 * ONE, &east(), 1000, true));
    assert_eq!(hit.distance, (10 * ONE) as u64);
    for y in 0..16 {
        for x in 0..32 {
            let i = (y * 32 + x) * 4;
            let expected = if y == 6 && (14..24).contains(&x) { RAY_COLOR } else { [0, 0, 0, 0] };
            assert_eq!(bytes[i..i + 4], expected, "pixel ({x}, {y})");
        }
    }
}

#[test]
fn trace_of_a_ray_that_gives_up_draws_every_point() {
    let grid = Grid::from_chars(&rows(&["     "]), 4).unwrap();
    let mut bytes = vec![0u8; 20 * 4 * 4];
    let mut fb = Framebuffer::new(20, 4, &mut bytes);
    let hit = trace(&mut fb, &grid, 2 * ONE, ONE, &east(), 3, false, [9, 9, 9, 9]);
    assert!(hit.missed());
    for x in 0..20 {
        let i = (20 + x) * 4;
        let expected = if (2..6).contains(&x) { [9, 9, 9, 9] } else { [0, 0, 0, 0] };
        assert_eq!(bytes[i..i + 4], expected, "pixel ({x}, 1)");
    }
}
