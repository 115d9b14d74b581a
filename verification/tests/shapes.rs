use geometrical_shapes::canvas::{Canvas, Displayable};
use geometrical_shapes::circle::Circle;
use geometrical_shapes::color::Color;
use geometrical_shapes::drawable::Drawable;
use geometrical_shapes::line::Line;
use geometrical_shapes::point::Point;
use geometrical_shapes::rectangle::Rectangle;
use geometrical_shapes::triangle::Triangle;

#[test]
fn canvas_records_writes_in_order() {
    let mut c = Canvas::new(10, 10);
    assert_eq!(c.writes.len(), 0);
    c.set_pixel(3, 4, Color::rgb(1, 2, 3));
    c.display(-5, 11, Color::rgb(9, 8, 7));
    assert_eq!(c.writes.len(), 2);
    assert_eq!((c.writes[0].x, c.writes[0].y), (3, 4));
    assert_eq!(c.writes[0].color, Color::rgb(1, 2, 3));
    assert_eq!((c.writes[1].x, c.writes[1].y), (-5, 11));
}

#[test]
fn point_draws_one_red_pixel() {
    let mut c = Canvas::new(10, 10);
    Point::new(6, 2).draw(&mut c);
    assert_eq!(c.writes.len(), 1);
    assert_eq!((c.writes[0].x, c.writes[0].y), (6, 2));
    assert_eq!(c.writes[0].color, Color::rgb(255, 0, 0));
}

#[test]
fn degenerate_line_draws_one_pixel_at_start() {
    let mut c = Canvas::new(100, 100);
    Line::new(&Point::new(7, 9), &Point::new(7, 9)).draw(&mut c);
    assert_eq!(c.writes.len(), 1);
    assert_eq!((c.writes[0].x, c.writes[0].y), (7, 9));
    assert_eq!(c.writes[0].color, Color::rgb(0, 255, 0));
}

#[test]
fn degenerate_line_keeps_negative_coordinates() {
    let mut c = Canvas::new(100, 100);
    Line::new(&Point::new(-3, -4), &Point::new(-3, -4)).draw(&mut c);
    assert_eq!(c.writes.len(), 1);
    assert_eq!((c.writes[0].x, c.writes[0].y), (-3, -4));
}

#[test]
fn horizontal_line_writes_five_pixels() {
    let mut c = Canvas::new(100, 100);
    Line::new(&Point::new(0, 0), &Point::new(4, 0)).draw(&mut c);
    let got: Vec<(i32, i32)> = c.writes.iter().map(|w| (w.x, w.y)).collect();
    assert_eq!(got, vec![(0, 0), (1, 0), (2, 0), (3, 0), (4, 0)]);
    for w in &c.writes {
        assert_eq!(w.color, Color::rgb(0, 255, 0));
    }
}

#[test]
fn vertical_line_writes_five_pixels() {
    let mut c = Canvas::new(100, 100);
    Line::new(&Point::new(2, 6), &Point::new(2, 2)).draw(&mut c);
    let got: Vec<(i32, i32)> = c.writes.iter().map(|w| (w.x, w.y)).collect();
    assert_eq!(got, vec![(2, 6), (2, 5), (2, 4), (2, 3), (2, 2)]);
}

#[test]
fn line_write_count_is_dominant_axis_plus_one() {
    let cases = [
        ((0, 0), (7, 3)),
        ((5, 5), (-2, 9)),
        ((-10, -10), (10, 10)),
        ((3, 1), (3, 1)),
        ((0, 0), (0, -6)),
    ];
    for ((sx, sy), (ex, ey)) in cases {
        let mut c = Canvas::new(100, 100);
        Line::new(&Point::new(sx, sy), &Point::new(ex, ey)).draw(&mut c);
        let steps = ((ex - sx) as i64).abs().max(((ey - sy) as i64).abs());
        assert_eq!(c.writes.len() as i64, steps + 1);
    }
}

#[test]
fn line_has_no_gaps_between_consecutive_pixels() {
    let cases = [((0, 0), (7, 3)), ((4, -6), (-9, 5)), ((1, 1), (2, 11))];
    for ((sx, sy), (ex, ey)) in cases {
        let mut c = Canvas::new(100, 100);
        Line::new(&Point::new(sx, sy), &Point::new(ex, ey)).draw(&mut c);
        assert_eq!((c.writes[0].x, c.writes[0].y), (sx, sy));
        let last = &c.writes[c.writes.len() - 1];
        assert_eq!((last.x, last.y), (ex, ey));
        for pair in c.writes.windows(2) {
            assert!((pair[1].x - pair[0].x).abs() <= 1);
            assert!((pair[1].y - pair[0].y).abs() <= 1);
        }
    }
}

#[test]
fn inverted_rectangle_draws_nothing() {
    let mut c = Canvas::new(1000, 1000);
    Rectangle::new(&Point::new(150, 150), &Point::new(50, 50)).draw(&mut c);
    assert_eq!(c.writes.len(), 0);
}

#[test]
fn flat_rectangle_draws_nothing() {
    let mut c = Canvas::new(10, 10);
    Rectangle::new(&Point::new(2, 2), &Point::new(5, 2)).draw(&mut c);
    assert_eq!(c.writes.len(), 0);
    Rectangle::new(&Point::new(2, 2), &Point::new(2, 5)).draw(&mut c);
    assert_eq!(c.writes.len(), 0);
}

#[test]
fn rectangle_fills_half_open_box() {
    let mut c = Canvas::new(10, 10);
    Rectangle::new(&Point::new(2, 2), &Point::new(5, 5)).draw(&mut c);
    assert_eq!(c.writes.len(), 9);
    for x in 2..5 {
        for y in 2..5 {
            let hits = c.writes.iter().filter(|w| w.x == x && w.y == y).count();
            assert_eq!(hits, 1);
        }
    }
    for w in &c.writes {
        assert!(2 <= w.x && w.x < 5 && 2 <= w.y && w.y < 5);
        assert_eq!(w.color, Color::rgb(255, 255, 0));
    }
}

#[test]
fn triangle_draws_exactly_its_three_edges() {
    let v0 = Point::new(0, 0);
    let v1 = Point::new(8, 2);
    let v2 = Point::new(3, 9);
    let mut drawn = Canvas::new(100, 100);
    Triangle::new(&v0, &v1, &v2).draw(&mut drawn);

    let blue = Color::rgb(0, 0, 255);
    let mut edges = Canvas::new(100, 100);
    Line::new(&v0, &v1).draw_with(blue, &mut edges);
    Line::new(&v1, &v2).draw_with(blue, &mut edges);
    Line::new(&v2, &v0).draw_with(blue, &mut edges);

    assert_eq!(drawn.writes, edges.writes);
}

#[test]
fn triangle_pixels_carry_the_triangle_color() {
    let mut c = Canvas::new(100, 100);
    Triangle::new(&Point::new(10, 10), &Point::new(40, 10), &Point::new(10, 30)).draw(&mut c);
    assert!(c.writes.len() > 0);
    for w in &c.writes {
        assert_eq!(w.color, Color::rgb(0, 0, 255));
    }
}

#[test]
fn huge_circle_on_small_canvas_writes_nothing() {
    let mut c = Canvas::new(100, 100);
    Circle::new(&Point::new(50, 50), 1000).draw(&mut c);
    assert_eq!(c.writes.len(), 0);
}

#[test]
fn circle_writes_stay_inside_the_canvas() {
    let mut c = Canvas::new(30, 30);
    Circle::new(&Point::new(5, 5), 40).draw(&mut c);
    for w in &c.writes {
        assert!(0 <= w.x && w.x < 30);
        assert!(0 <= w.y && w.y < 30);
    }
}

#[test]
fn circle_fully_inside_writes_all_samples_in_one_color() {
    let mut c = Canvas::new(100, 100);
    Circle::new(&Point::new(50, 50), 10).draw(&mut c);
    assert_eq!(c.writes.len(), 361);
    // at 0 degrees the sample sits exactly one radius to the right
    assert_eq!((c.writes[0].x, c.writes[0].y), (60, 50));
    let col = c.writes[0].color;
    for w in &c.writes {
        assert_eq!(w.color, col);
        assert!(w.color.r < 255 && w.color.g < 255 && w.color.b < 255);
    }
}

#[test]
fn circle_samples_hit_exact_trig_values() {
    let mut c = Canvas::new(1000, 1000);
    Circle::new(&Point::new(200, 200), 100).draw(&mut c);
    assert_eq!(c.writes.len(), 361);
    // angle 0: one radius to the right of the center
    assert_eq!((c.writes[0].x, c.writes[0].y), (300, 200));
    // angle 60: cos = 0.5 exactly under the rational approximation
    assert_eq!((c.writes[60].x, c.writes[60].y), (250, 286));
    // angle 90: straight below the center in image coordinates
    assert_eq!((c.writes[90].x, c.writes[90].y), (200, 300));
    // angle 180: one radius to the left
    assert_eq!((c.writes[180].x, c.writes[180].y), (100, 200));
}

#[test]
fn zero_radius_circle_writes_its_center() {
    let mut c = Canvas::new(100, 100);
    Circle::new(&Point::new(9, 9), 0).draw(&mut c);
    assert_eq!(c.writes.len(), 361);
    for w in &c.writes {
        assert_eq!((w.x, w.y), (9, 9));
    }
}

#[test]
fn shape_colors_are_fixed_per_type() {
    assert_eq!(Point::new(0, 0).color(), Color::rgb(255, 0, 0));
    assert_eq!(Line::new(&Point::new(0, 0), &Point::new(1, 1)).color(), Color::rgb(0, 255, 0));
    assert_eq!(
        Triangle::new(&Point::new(0, 0), &Point::new(1, 1), &Point::new(2, 2)).color(),
        Color::rgb(0, 0, 255)
    );
    assert_eq!(
        Rectangle::new(&Point::new(0, 0), &Point::new(1, 1)).color(),
        Color::rgb(255, 255, 0)
    );
}

#[test]
fn random_point_stays_in_the_given_extent() {
    for _ in 0..200 {
        let p = Point::random(10, 7);
        assert!(0 <= p.x && p.x < 10);
        assert!(0 <= p.y && p.y < 7);
    }
}

#[test]
fn random_line_endpoints_stay_in_the_given_extent() {
    for _ in 0..100 {
        let l = Line::random(20, 30);
        assert!(0 <= l.start.x && l.start.x < 20);
        assert!(0 <= l.start.y && l.start.y < 30);
        assert!(0 <= l.end.x && l.end.x < 20);
        assert!(0 <= l.end.y && l.end.y < 30);
    }
}

#[test]
fn random_circle_radius_and_center_stay_in_range() {
    for _ in 0..200 {
        let c = Circle::random(15, 25);
        assert!(0 <= c.center.x && c.center.x < 15);
        assert!(0 <= c.center.y && c.center.y < 25);
        assert!(10 <= c.radius && c.radius < 100);
    }
}

#[test]
fn circle_color_channels_stay_below_255() {
    let circle = Circle::new(&Point::new(0, 0), 5);
    for _ in 0..200 {
        let c = circle.color();
        assert!(c.r < 255 && c.g < 255 && c.b < 255);
    }
}
