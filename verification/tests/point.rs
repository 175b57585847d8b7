use geometrical_shapes::{Drawable, Point};
use raster::Image;

// Test basic point creation with expected properties
#[test]
fn test_point_new() {
    let point = Point::new(100, 100);

    assert_eq!(point.x, 100);
    assert_eq!(point.y, 100);
    assert!(point.color.r >= 50 && point.color.r <= 200);
    assert!(point.color.g >= 50 && point.color.g <= 200);
    assert!(point.color.b >= 50 && point.color.b <= 200);
}

// Test random point generation stays within bounds
#[test]
fn test_point_random() {
    let point = Point::random(800, 800);

    assert!(point.x >= 0 && point.x < 800);
    assert!(point.y >= 0 && point.y < 800);
    assert!(point.color.r >= 50 && point.color.r <= 200);
    assert!(point.color.g >= 50 && point.color.g <= 200);
    assert!(point.color.b >= 50 && point.color.b <= 200);
}

// Test point drawing affects a 3x3 pixel area
#[test]
fn test_point_draw() {
    let point = Point::new(100, 100);

    let mut image = Image::blank(800, 800);
    point.draw(&mut image);

    // Verify that the image was modified in a 3x3 area around the point
    for dx in -1..=1 {
        for dy in -1..=1 {
            let pixel = image
                .get_pixel((100 + dx) as i32, (100 + dy) as i32)
                .unwrap();
            assert!(pixel.r >= 50 && pixel.r <= 200);
            assert!(pixel.g >= 50 && pixel.g <= 200);
            assert!(pixel.b >= 50 && pixel.b <= 200);
        }
    }
}

// Test color getter returns correct color
#[test]
fn test_point_color() {
    let point = Point::new(100, 100);
    let color = point.color();

    assert!(color.r >= 50 && color.r <= 200);
    assert!(color.g >= 50 && color.g <= 200);
    assert!(color.b >= 50 && color.b <= 200);
}

// Test edge cases including negative and large coordinates
#[test]
fn test_point_edge_cases() {
    // Test with negative coordinates
    let point = Point::new(-100, -100);
    assert_eq!(point.x, -100);
    assert_eq!(point.y, -100);

    // Test with very large coordinates
    let point = Point::new(1000, 1000);
    assert_eq!(point.x, 1000);
    assert_eq!(point.y, 1000);

    // Test with zero coordinates
    let point = Point::new(0, 0);
    assert_eq!(point.x, 0);
    assert_eq!(point.y, 0);
}

#[test]
fn point_colour_channels_stay_below_two_hundred() {
    for _ in 0..500 {
        let point = Point::new(0, 0);
        assert!(point.color.r >= 50 && point.color.r < 200);
        assert!(point.color.g >= 50 && point.color.g < 200);
        assert!(point.color.b >= 50 && point.color.b < 200);
        assert_eq!(point.color.a, 255);
        assert_eq!(point.color(), point.color);
    }
}

#[test]
fn random_points_cover_a_narrow_grid() {
    let mut seen = [false; 3];
    for _ in 0..500 {
        let point = Point::random(3, 1);
        assert!(point.x >= 0 && point.x < 3);
        assert_eq!(point.y, 0);
        seen[point.x as usize] = true;
    }
    assert_eq!(seen, [true, true, true]);
}

#[test]
fn points_compare_by_position_alone() {
    let a = Point::new(3, 4);
    let b = Point::new(3, 4);
    assert_eq!(a, b);
    assert_ne!(a, Point::new(4, 3));
    assert_ne!(a, Point::new(3, 5));
}

#[test]
fn point_draws_exactly_its_square() {
    let point = Point::new(5, 7);
    let mut image = Image::blank(12, 12);
    point.draw(&mut image);
    for y in 0..12 {
        for x in 0..12 {
            let pixel = image.get_pixel(x, y).unwrap();
            let inside = (4..=6).contains(&x) && (6..=8).contains(&y);
            if inside {
                assert_eq!((pixel.r, pixel.g, pixel.b), (point.color.r, point.color.g, point.color.b));
            } else {
                assert_eq!((pixel.r, pixel.g, pixel.b), (0, 0, 0));
            }
        }
    }
}

#[test]
fn point_at_the_corner_draws_what_fits() {
    let point = Point::new(0, 0);
    let mut image = Image::blank(4, 4);
    point.draw(&mut image);
    let mut painted = 0;
    for y in 0..4 {
        for x in 0..4 {
            let pixel = image.get_pixel(x, y).unwrap();
            if (pixel.r, pixel.g, pixel.b) != (0, 0, 0) {
                assert!(x <= 1 && y <= 1);
                painted += 1;
            }
        }
    }
    assert_eq!(painted, 4);
}

#[test]
fn point_far_off_the_grid_draws_nothing() {
    let mut image = Image::blank(4, 4);
    let before = image.bytes.clone();
    Point::new(i32::MAX, i32::MAX).draw(&mut image);
    Point::new(i32::MIN, i32::MIN).draw(&mut image);
    Point::new(-2, 1).draw(&mut image);
    assert_eq!(image.bytes, before);
}
