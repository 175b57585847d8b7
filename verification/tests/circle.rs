use geometrical_shapes::{Circle, Color, Drawable, Point};
use raster::Image;

#[test]
fn test_circle_new() {
    let center = Point::new(100, 100);
    let radius = 50;
    let circle = Circle::new(&center, radius);

    assert_eq!(circle.circles.len(), 1);
    let (circle_center, circle_radius) = &circle.circles[0];
    assert_eq!(circle_center.x, center.x);
    assert_eq!(circle_center.y, center.y);
    assert_eq!(*circle_radius, radius);
}

#[test]
fn test_circle_random() {
    let circle = Circle::random(800, 800);

    // Random circle should have 0 or 1 circles
    assert!(circle.circles.len() <= 1);

    // If there is a circle, check its properties
    if let Some((center, radius)) = circle.circles.first() {
        assert!(center.x >= 0 && center.x <= 800);
        assert!(center.y >= 0 && center.y <= 800);
        assert!(*radius >= 50 && *radius <= 300);
    }
}

#[test]
fn test_circle_draw() {
    let center = Point::new(100, 100);
    let radius = 50;
    let circle = Circle::new(&center, radius);

    let mut image = Image::blank(800, 800);
    circle.draw(&mut image);
}

#[test]
fn test_circle_color() {
    let center = Point::new(100, 100);
    let radius = 50;
    let circle = Circle::new(&center, radius);

    let color = circle.color();
    assert!(color.r >= 50 && color.r <= 200);
    assert!(color.g >= 50 && color.g <= 200);
    assert!(color.b >= 50 && color.b <= 200);
}

#[test]
fn test_circle_edge_cases() {
    // Test with zero radius
    let center = Point::new(100, 100);
    let circle = Circle::new(&center, 0);
    assert_eq!(circle.circles.len(), 1);

    // Test with negative coordinates
    let center = Point::new(-100, -100);
    let circle = Circle::new(&center, 50);
    assert_eq!(circle.circles.len(), 1);

    // Test with very large radius
    let center = Point::new(100, 100);
    let circle = Circle::new(&center, 1000);
    assert_eq!(circle.circles.len(), 1);
}

fn painted(image: &Image) -> Vec<(i32, i32)> {
    let mut cells = Vec::new();
    for y in 0..image.height {
        for x in 0..image.width {
            let pixel = image.get_pixel(x, y).unwrap();
            if (pixel.r, pixel.g, pixel.b) != (0, 0, 0) {
                cells.push((x, y));
            }
        }
    }
    cells
}

fn circle_of(center: (i32, i32), radius: i32) -> Circle {
    Circle {
        circles: vec![(Point::new(center.0, center.1), radius)],
        color: Color::rgb(200, 100, 50),
    }
}

// The columns of the walked eighth, row by row, for one radius.
fn columns(radius: i32) -> Vec<i32> {
    let mut image = Image::blank(4 * radius + 8, 4 * radius + 8);
    let c = 2 * radius + 4;
    circle_of((c, c), radius).draw(&mut image);
    let cells = painted(&image);
    let mut found = Vec::new();
    let mut row = 0;
    // On each row above the centre, the leftmost painted pixel is the mirror
    // of the ring's column.
    while row <= radius {
        let leftmost = cells.iter().filter(|&&(_, y)| y == c - row).map(|&(x, _)| x).min();
        match leftmost {
            Some(x) if c - x >= row => found.push(c - x),
            _ => break,
        }
        row += 1;
    }
    found
}

#[test]
fn ring_of_radius_nine_walks_six_rows() {
    assert_eq!(columns(9), vec![9, 9, 9, 8, 7, 6]);
    assert_eq!(columns(5), vec![5, 5, 4, 3]);
    assert_eq!(columns(1), vec![1]);
}

#[test]
fn circle_of_radius_two_paints_ring_and_neighbours() {
    let mut image = Image::blank(9, 9);
    circle_of((4, 4), 2).draw(&mut image);
    // Ring pixels: (2,0) and (1,1) in all eight mirrorings; each one also
    // paints the pixel to its right and the pixel below it.
    let ring = [
        (2, 0), (0, 2), (-2, 0), (0, -2),
        (1, 1), (-1, 1), (-1, -1), (1, -1),
    ];
    let mut expected = Vec::new();
    for &(dx, dy) in &ring {
        for &(fx, fy) in &[(0, 0), (1, 0), (0, 1)] {
            let cell = (4 + dx + fx, 4 + dy + fy);
            if !expected.contains(&cell) {
                expected.push(cell);
            }
        }
    }
    expected.sort_by_key(|&(x, y)| (y, x));
    assert_eq!(painted(&image), expected);
}

#[test]
fn circle_of_radius_zero_paints_the_centre_and_two_neighbours() {
    let mut image = Image::blank(5, 5);
    circle_of((2, 2), 0).draw(&mut image);
    assert_eq!(painted(&image), vec![(2, 2), (3, 2), (2, 3)]);
}

#[test]
fn circle_of_negative_radius_paints_nothing() {
    let mut image = Image::blank(5, 5);
    circle_of((2, 2), -1).draw(&mut image);
    circle_of((2, 2), i32::MIN).draw(&mut image);
    assert_eq!(painted(&image), vec![]);
}

#[test]
fn ring_pixels_stay_close_to_the_circle() {
    for radius in 1..60 {
        let mut x = radius;
        let mut y = 0;
        let mut err = 0;
        let mut image = Image::blank(2 * radius + 3, 2 * radius + 3);
        let c = radius + 1;
        circle_of((c, c), radius).draw(&mut image);
        while x >= y {
            // The pixel of the walk is painted, and lies near the circle.
            let pixel = image.get_pixel(c + x, c - y).unwrap();
            assert_eq!((pixel.r, pixel.g, pixel.b), (200, 100, 50));
            let far = x * x + y * y;
            assert!(radius * radius - 3 * radius <= far && far <= radius * radius + radius);
            if 2 * y < x {
                assert!((radius - 1) * (radius - 1) <= far && far <= (radius + 1) * (radius + 1));
            }
            y += 1;
            err += 1 + 2 * y;
            if 2 * (err - x) + 1 > 0 {
                x -= 1;
                err += 1 - 2 * x;
            }
        }
    }
}

#[test]
fn ring_pixel_of_radius_nine_falls_short_of_eight() {
    let mut image = Image::blank(24, 24);
    circle_of((12, 12), 9).draw(&mut image);
    // (6, 5) is on the ring although 36 + 25 is less than 64, and nothing
    // nearer to the circle is painted on that row to its right but its
    // neighbour.
    let cells = painted(&image);
    assert!(cells.contains(&(12 + 6, 12 - 5)));
    assert!(cells.contains(&(12 + 7, 12 - 5)));
    assert!(!cells.contains(&(12 + 8, 12 - 5)));
}

#[test]
fn several_circles_are_all_drawn() {
    let circle = Circle {
        circles: vec![(Point::new(3, 3), 1), (Point::new(10, 10), 0)],
        color: Color::rgb(1, 2, 3),
    };
    let mut image = Image::blank(14, 14);
    circle.draw(&mut image);
    let cells = painted(&image);
    assert!(cells.contains(&(4, 3)) && cells.contains(&(2, 3)));
    assert!(cells.contains(&(10, 10)) && cells.contains(&(11, 10)) && cells.contains(&(10, 11)));
    assert_eq!(circle.color(), Color::rgb(1, 2, 3));
}

#[test]
fn circle_partly_off_the_grid_is_clipped() {
    let mut image = Image::blank(6, 6);
    circle_of((0, 0), 4).draw(&mut image);
    for &(x, y) in &painted(&image) {
        let far = x * x + y * y;
        assert!(far >= 4 && far <= 36);
    }
    assert!(painted(&image).contains(&(4, 0)));
    assert!(painted(&image).contains(&(0, 4)));
}

#[test]
fn random_circles_come_and_go() {
    let mut with = 0;
    let mut without = 0;
    let mut small = 0;
    let mut large = 0;
    for _ in 0..2000 {
        let circle = Circle::random(40, 30);
        assert!(circle.color.r >= 50 && circle.color.r < 200);
        assert!(circle.color.g >= 50 && circle.color.g < 200);
        assert!(circle.color.b >= 50 && circle.color.b < 200);
        match circle.circles.first() {
            Some((center, radius)) => {
                with += 1;
                assert!(center.x >= 0 && center.x < 40);
                assert!(center.y >= 0 && center.y < 30);
                assert!(*radius >= 50 && *radius < 300);
                if *radius < 150 {
                    small += 1;
                } else {
                    large += 1;
                }
            }
            None => without += 1,
        }
    }
    assert!(with > without && without > 0);
    assert!(small > large && large > 0);
}

#[test]
fn drawing_a_circle_twice_gives_the_same_picture() {
    let circle = circle_of((20, 20), 15);
    let mut first = Image::blank(40, 40);
    let mut second = Image::blank(40, 40);
    circle.draw(&mut first);
    circle.draw(&mut second);
    assert_eq!(first.bytes, second.bytes);
    circle.draw(&mut second);
    assert_eq!(first.bytes, second.bytes);
}
