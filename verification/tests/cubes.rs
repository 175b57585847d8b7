use geometrical_shapes::{Color, Cubes, Drawable, Point};
use raster::Image;

#[test]
fn test_cubes_new() {
    let center = Point::new(100, 100);
    let size = 50;
    let cubes = Cubes::new(&center, size);

    assert_eq!(cubes.cubes.len(), 1);
    let (cube_center, cube_size, color) = &cubes.cubes[0];
    assert_eq!(cube_center.x, center.x);
    assert_eq!(cube_center.y, center.y);
    assert_eq!(*cube_size, size);
    assert!(color.r >= 50 && color.r <= 200);
    assert!(color.g >= 50 && color.g <= 200);
    assert!(color.b >= 50 && color.b <= 200);
}

#[test]
fn test_cubes_random() {
    let cubes = Cubes::random(800, 800);

    // Check each cube's properties
    for (center, size, _color) in &cubes.cubes {
        assert!(center.x >= 0 && center.x <= 800);
        assert!(center.y >= 0 && center.y <= 800);
        assert!(*size >= 30 && *size <= 80);
    }
}

#[test]
fn test_cubes_get_isometric_projection() {
    let center = Point::new(100, 100);
    let size = 50;
    let vertices = Cubes::get_isometric_projection(&center, size);

    assert_eq!(vertices.len(), 8);

    // Check that all vertices are within the expected bounds
    for vertex in vertices {
        assert!(vertex.x >= center.x - size);
        assert!(vertex.x <= center.x + size);
        assert!(vertex.y >= center.y - size);
        assert!(vertex.y <= center.y + size);
    }
}

#[test]
fn test_cubes_draw() {
    let center = Point::new(100, 100);
    let size = 50;
    let cubes = Cubes::new(&center, size);

    let mut image = Image::blank(800, 800);
    cubes.draw(&mut image);
}

#[test]
fn test_cubes_color() {
    let center = Point::new(100, 100);
    let size = 50;
    let cubes = Cubes::new(&center, size);

    let color = cubes.color();
    assert_eq!(color.r, 0);
    assert_eq!(color.g, 0);
    assert_eq!(color.b, 0);
}

#[test]
fn test_cubes_edge_cases() {
    // Test with zero size
    let center = Point::new(100, 100);
    let cubes = Cubes::new(&center, 0);
    assert_eq!(cubes.cubes.len(), 1);

    // Test with negative coordinates
    let center = Point::new(-100, -100);
    let cubes = Cubes::new(&center, 50);
    assert_eq!(cubes.cubes.len(), 1);

    // Test with very large size
    let center = Point::new(100, 100);
    let cubes = Cubes::new(&center, 1000);
    assert_eq!(cubes.cubes.len(), 1);
}

fn corners(center: (i32, i32), size: i32) -> Vec<(i32, i32)> {
    Cubes::get_isometric_projection(&Point::new(center.0, center.1), size)
        .iter()
        .map(|p| (p.x, p.y))
        .collect()
}

#[test]
fn projection_follows_the_fixed_offsets() {
    assert_eq!(
        corners((100, 100), 50),
        vec![(50, 75), (150, 75), (50, 125), (150, 125), (75, 50), (125, 50), (75, 100), (125, 100)]
    );
}

#[test]
fn projection_halves_toward_zero() {
    assert_eq!(
        corners((0, 0), 5),
        vec![(-5, -2), (5, -2), (-5, 2), (5, 2), (-2, -5), (2, -5), (-2, 0), (2, 0)]
    );
    assert_eq!(
        corners((0, 0), -5),
        vec![(5, 2), (-5, 2), (5, -2), (-5, -2), (2, 5), (-2, 5), (2, 0), (-2, 0)]
    );
    assert_eq!(corners((3, 4), 0), vec![(3, 4); 8]);
    assert_eq!(
        corners((-10, 20), 1),
        vec![(-11, 20), (-9, 20), (-11, 20), (-9, 20), (-10, 19), (-10, 19), (-10, 20), (-10, 20)]
    );
}

#[test]
fn projection_stays_within_the_size() {
    for size in 0..200 {
        for &(x, y) in &corners((17, -23), size) {
            assert!((x - 17).abs() <= size);
            assert!((y + 23).abs() <= size);
        }
    }
}

#[test]
fn projection_reaches_the_ends_of_the_range() {
    let all = corners((i32::MAX - 7, i32::MIN + 7), 7);
    assert_eq!(all[1], (i32::MAX, i32::MIN + 4));
    assert_eq!(all[4], (i32::MAX - 10, i32::MIN));
}

#[test]
fn projected_corners_have_moderate_colours() {
    for p in Cubes::get_isometric_projection(&Point::new(0, 0), 10).iter() {
        assert!(p.color.r >= 50 && p.color.r < 200);
        assert!(p.color.g >= 50 && p.color.g < 200);
        assert!(p.color.b >= 50 && p.color.b < 200);
    }
}

#[test]
fn random_cubes_are_bright() {
    for _ in 0..500 {
        let cubes = Cubes::random(20, 10);
        assert_eq!(cubes.cubes.len(), 1);
        let (center, size, color) = &cubes.cubes[0];
        assert!(center.x >= 0 && center.x < 20);
        assert!(center.y >= 0 && center.y < 10);
        assert!(*size >= 30 && *size < 80);
        assert!(color.r >= 150 && color.r < 255);
        assert!(color.g >= 150 && color.g < 255);
        assert!(color.b >= 150 && color.b < 255);
    }
}

fn painted(image: &Image) -> Vec<(i32, i32)> {
    let mut cells = Vec::new();
    for y in 0..image.height {
        for x in 0..image.width {
            let pixel = image.get_pixel(x, y).unwrap();
            if (pixel.r, pixel.g, pixel.b) != (0, 0, 0) {
                cells.push((x, y));
            }
        }
    }
    cells
}

#[test]
fn cube_draws_its_twelve_edges() {
    let color = Color::rgb(40, 50, 60);
    let cubes = Cubes { cubes: vec![(Point::new(20, 20), 8, color)] };
    let mut image = Image::blank(40, 40);
    cubes.draw(&mut image);

    // The same picture, edge by edge.
    let corners = corners((20, 20), 8);
    let edges = [
        (0, 1), (1, 3), (3, 2), (2, 0),
        (4, 5), (5, 7), (7, 6), (6, 4),
        (0, 4), (1, 5), (2, 6), (3, 7),
    ];
    let mut expected = Image::blank(40, 40);
    for &(i, j) in &edges {
        let line = geometrical_shapes::Line::from_points(
            &Point::new(corners[i].0, corners[i].1),
            &Point::new(corners[j].0, corners[j].1),
            2,
            color,
        );
        line.draw(&mut expected);
    }
    assert_eq!(image.bytes, expected.bytes);

    let cells = painted(&image);
    for &(x, y) in &corners {
        assert!(cells.contains(&(x, y)));
    }
    assert_eq!(cubes.color(), Color::rgb(0, 0, 0));
}

#[test]
fn cube_with_corners_beyond_32_bits_is_drawn_without_fault() {
    let color = Color::rgb(1, 1, 1);
    let cubes = Cubes {
        cubes: vec![
            (Point::new(i32::MAX - 2, 3), 6, color),
            (Point::new(3, i32::MIN + 2), 6, color),
            (Point::new(i32::MIN, i32::MAX), -9, color),
        ],
    };
    let mut image = Image::blank(6, 6);
    cubes.draw(&mut image);
    assert_eq!(painted(&image), vec![]);
}

#[test]
fn cube_partly_off_the_grid_is_clipped() {
    let color = Color::rgb(1, 1, 1);
    let cubes = Cubes { cubes: vec![(Point::new(-4, 3), 6, color)] };
    let mut image = Image::blank(6, 6);
    cubes.draw(&mut image);
    // The right edge of the front face runs down column 2, from row 0 to
    // row 6, and is drawn two pixels thick toward the right.
    let cells = painted(&image);
    for y in 0..6 {
        assert!(cells.contains(&(2, y)));
        assert!(cells.contains(&(1, y)));
    }
}
