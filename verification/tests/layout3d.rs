use cubeled::layout3d::{CubeFaces, Grid, GridIterator, Layout3d};
use cubeled::vec3::Vec3;

fn test_grid() -> Grid {
    Grid::new(Vec3::new(0, 0, 0), Vec3::new(4, 0, 0), Vec3::new(0, 4, 0), 3, 3)
        .expect("the test grid divides evenly")
}

fn collect(mut it: GridIterator) -> Vec<Vec3> {
    let mut out = Vec::new();
    while let Some(p) = it.next() {
        out.push(p);
    }
    out
}

#[test]
fn grid_pixel_count_is_rows_times_cols() {
    let grid = test_grid();
    assert_eq!(grid.pixel_count(), 9);
}

#[test]
fn grid_points_are_row_major_and_evenly_spaced() {
    let grid = test_grid();

    let expected = [
        Vec3::new(0, 0, 0),
        Vec3::new(2, 0, 0),
        Vec3::new(4, 0, 0),
        Vec3::new(0, 2, 0),
        Vec3::new(2, 2, 0),
        Vec3::new(4, 2, 0),
        Vec3::new(0, 4, 0),
        Vec3::new(2, 4, 0),
        Vec3::new(4, 4, 0),
    ];

    assert!(collect(grid.points()).iter().eq(expected.iter()));
}

#[test]
fn grid_points_terminates_after_pixel_count() {
    let grid = test_grid();
    assert_eq!(collect(grid.points()).len(), grid.pixel_count());
}

#[test]
fn cube_faces_has_six_shapes() {
    let cube = CubeFaces::new();
    assert_eq!(cube.shapes().len(), CubeFaces::SIDES);
}

#[test]
fn cube_faces_pixel_count_matches_sides_times_pixels_per_side() {
    assert_eq!(
        <CubeFaces as Layout3d>::PIXEL_COUNT,
        CubeFaces::SIDES * CubeFaces::PIXEL_PER_SIDE
    );
}

#[test]
fn cube_faces_points_yields_pixel_count_points() {
    let cube = CubeFaces::new();
    assert_eq!(cube.points().len(), <CubeFaces as Layout3d>::PIXEL_COUNT);
}

#[test]
fn cube_faces_first_point_matches_first_face_start() {
    let cube = CubeFaces::new();
    let first_face = cube.shapes().first().expect("cube has at least one face");
    let first_point = first_face
        .points()
        .next()
        .expect("grid has at least one point");
    assert_eq!(first_point, first_face.start());
}

#[test]
fn grid_iterator_stays_exhausted() {
    let grid = test_grid();
    let mut it = grid.points();
    for _ in 0..9 {
        assert!(it.next().is_some());
    }
    assert_eq!(it.next(), None);
    assert_eq!(it.next(), None);
}

#[test]
fn grid_new_rejects_a_count_of_one() {
    assert!(Grid::new(Vec3::new(0, 0, 0), Vec3::new(4, 0, 0), Vec3::new(0, 4, 0), 1, 3).is_none());
}

#[test]
fn grid_new_rejects_uneven_steps() {
    assert!(Grid::new(Vec3::new(0, 0, 0), Vec3::new(5, 0, 0), Vec3::new(0, 4, 0), 3, 3).is_none());
}

#[test]
fn grid_new_rejects_points_outside_i32() {
    let big = i32::MAX - 1;
    assert!(Grid::new(Vec3::new(big, 0, 0), Vec3::new(big, 0, 0), Vec3::new(big, 0, 0), 0, 0).is_some());
    assert!(Grid::new(Vec3::new(0, 0, 0), Vec3::new(i32::MAX, 0, 0), Vec3::new(i32::MAX, 0, 0), 2, 2).is_none());
}

#[test]
fn grid_with_no_columns_still_yields_a_point_per_row() {
    // A vertical count of zero gives each row its first point only.
    let grid = Grid::new(Vec3::new(0, 0, 0), Vec3::new(4, 0, 0), Vec3::new(0, 3, 0), 3, 0)
        .expect("zero counts divide by minus one");
    assert_eq!(grid.pixel_count(), 0);
    let points = collect(grid.points());
    assert_eq!(points, vec![Vec3::new(0, 0, 0), Vec3::new(0, -3, 0), Vec3::new(0, -6, 0)]);
}

#[test]
fn cube_faces_points_follow_the_first_face() {
    let cube = CubeFaces::new();
    let points = cube.points();
    assert_eq!(points[0], Vec3::new(-14, 14, 19));
    assert_eq!(points[1], Vec3::new(-7, 14, 19));
    assert_eq!(points[4], Vec3::new(14, 14, 19));
    assert_eq!(points[5], Vec3::new(-14, 7, 19));
    assert_eq!(points[24], Vec3::new(14, -14, 19));
    assert_eq!(points[25], Vec3::new(19, 14, 14));
    assert_eq!(points[149], Vec3::new(14, 19, 14));
}

#[test]
fn cube_faces_points_are_pairwise_distinct() {
    let points = CubeFaces::new().points();
    assert_eq!(points.len(), 150);
    for a in 0..points.len() {
        for b in (a + 1)..points.len() {
            assert_ne!(points[a], points[b]);
        }
    }
    assert_eq!(points[25], Vec3::new(19, 14, 14));
    assert_eq!(points[149], Vec3::new(14, 19, 14));
}
