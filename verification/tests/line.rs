use eadk::kandinsky::{draw_line, Canvas, Color, Point, Rect, Surface};

#[derive(Debug, PartialEq, Eq)]
enum LineSent {
    Fill(Rect, Color),
    Write(Rect, Vec<Color>),
    Read(Rect),
    Sync,
}

struct LineTape {
    sent: Vec<LineSent>,
    answer: Color,
}

impl LineTape {
    fn canvas() -> Canvas<LineTape> {
        Canvas::new(LineTape { sent: Vec::new(), answer: Color(0) })
    }
}

impl Surface for LineTape {
    fn push_rect_uniform(&mut self, rect: Rect, color: Color) {
        self.sent.push(LineSent::Fill(rect, color));
    }

    fn push_rect(&mut self, rect: Rect, pixels: &[Color]) {
        self.sent.push(LineSent::Write(rect, pixels.to_vec()));
    }

    fn pull_rect(&mut self, rect: Rect, pixels: &mut [Color]) {
        self.sent.push(LineSent::Read(rect));
        for pixel in pixels.iter_mut() {
            *pixel = self.answer;
        }
    }

    fn wait_for_vblank(&mut self) -> bool {
        self.sent.push(LineSent::Sync);
        true
    }
}

fn drawn_line(start: (i16, i16), end: (i16, i16)) -> Vec<(i16, i16)> {
    let ink = Color(0x1234);
    let mut canvas = LineTape::canvas();
    draw_line(
        &mut canvas,
        Point { x: start.0, y: start.1 },
        Point { x: end.0, y: end.1 },
        ink,
    );
    let mut pixels = Vec::new();
    for request in canvas.into_surface().sent {
        match request {
            LineSent::Fill(rect, color) => {
                assert_eq!((rect.w, rect.h), (1, 1));
                assert_eq!(color, ink);
                pixels.push((rect.point.x, rect.point.y));
            }
            other => panic!("a line made the request {:?}", other),
        }
    }
    pixels
}

fn as_sorted_set(mut pixels: Vec<(i16, i16)>) -> Vec<(i16, i16)> {
    pixels.sort();
    pixels.dedup();
    pixels
}

#[test]
fn line_to_itself_is_one_pixel() {
    assert_eq!(drawn_line((7, -3), (7, -3)), vec![(7, -3)]);
    assert_eq!(drawn_line((i16::MIN, i16::MAX), (i16::MIN, i16::MAX)), vec![(i16::MIN, i16::MAX)]);
}

#[test]
fn line_writes_single_pixels_in_the_given_colour() {
    let mut canvas = LineTape::canvas();
    draw_line(&mut canvas, Point { x: 1, y: 1 }, Point { x: 2, y: 1 }, Color(9));
    assert_eq!(
        canvas.surface().sent,
        vec![
            LineSent::Fill(Rect { point: Point { x: 1, y: 1 }, w: 1, h: 1 }, Color(9)),
            LineSent::Fill(Rect { point: Point { x: 2, y: 1 }, w: 1, h: 1 }, Color(9)),
        ]
    );
}

#[test]
fn horizontal_line_is_straight() {
    assert_eq!(
        drawn_line((0, 0), (5, 0)),
        vec![(0, 0), (1, 0), (2, 0), (3, 0), (4, 0), (5, 0)]
    );
}

#[test]
fn horizontal_line_leftwards() {
    assert_eq!(drawn_line((2, 4), (-1, 4)), vec![(2, 4), (1, 4), (0, 4), (-1, 4)]);
}

#[test]
fn vertical_line_is_straight() {
    assert_eq!(drawn_line((3, 1), (3, 4)), vec![(3, 1), (3, 2), (3, 3), (3, 4)]);
    assert_eq!(drawn_line((3, 1), (3, -1)), vec![(3, 1), (3, 0), (3, -1)]);
}

#[test]
fn diagonal_line_is_straight() {
    assert_eq!(drawn_line((0, 0), (3, 3)), vec![(0, 0), (1, 1), (2, 2), (3, 3)]);
    assert_eq!(drawn_line((0, 0), (-2, 2)), vec![(0, 0), (-1, 1), (-2, 2)]);
    assert_eq!(drawn_line((5, 5), (3, 3)), vec![(5, 5), (4, 4), (3, 3)]);
}

#[test]
fn shallow_line_rounds_to_the_nearest_row() {
    assert_eq!(
        drawn_line((0, 0), (7, 3)),
        vec![(0, 0), (1, 0), (2, 1), (3, 1), (4, 2), (5, 2), (6, 3), (7, 3)]
    );
}

#[test]
fn steep_line_rounds_to_the_nearest_column() {
    assert_eq!(
        drawn_line((1, 2), (-3, 9)),
        vec![(1, 2), (0, 3), (0, 4), (-1, 5), (-1, 6), (-2, 7), (-2, 8), (-3, 9)]
    );
}

#[test]
fn halfway_point_goes_to_the_pixel_farther_from_the_start() {
    assert_eq!(drawn_line((0, 0), (2, 1)), vec![(0, 0), (1, 1), (2, 1)]);
    assert_eq!(drawn_line((2, 1), (0, 0)), vec![(2, 1), (1, 0), (0, 0)]);
}

#[test]
fn reversed_line_without_halfway_points_has_the_same_pixels() {
    let forth = drawn_line((0, 0), (3, 1));
    let mut back = drawn_line((3, 1), (0, 0));
    assert_eq!(as_sorted_set(forth.clone()), as_sorted_set(back.clone()));
    back.reverse();
    assert_eq!(forth, back);
}

#[test]
fn reversed_lines_agree_whenever_no_step_is_a_halfway_point() {
    let mut x: i16 = -9;
    while x <= 9 {
        let mut y: i16 = -9;
        while y <= 9 {
            let (w, h) = (x.unsigned_abs() as u32, y.unsigned_abs() as u32);
            let (major, minor) = if w >= h { (w, h) } else { (h, w) };
            let tie = (0..=major).any(|k| major > 0 && (2 * k * minor + major) % (2 * major) == 0);
            let forth = as_sorted_set(drawn_line((2, -1), (2 + x, -1 + y)));
            let back = as_sorted_set(drawn_line((2 + x, -1 + y), (2, -1)));
            assert_eq!(forth == back, !tie, "towards ({}, {})", x, y);
            y += 1;
        }
        x += 1;
    }
}

#[test]
fn line_starts_and_ends_where_asked_and_never_repeats() {
    let cases =
        [((0, 0), (17, 5)), ((4, -4), (-9, 30)), ((-3, 8), (12, 7)), ((100, 100), (90, 35))];
    for (start, end) in cases {
        let pixels = drawn_line(start, end);
        let steps = (end.0 - start.0).abs().max((end.1 - start.1).abs()) as usize;
        assert_eq!(pixels.len(), steps + 1);
        assert_eq!(pixels[0], start);
        assert_eq!(pixels[steps], end);
        assert_eq!(as_sorted_set(pixels.clone()).len(), pixels.len());
    }
}

#[test]
fn line_never_steps_back() {
    let pixels = drawn_line((-5, 12), (20, 3));
    for pair in pixels.windows(2) {
        let (dx, dy) = (pair[1].0 - pair[0].0, pair[1].1 - pair[0].1);
        assert_eq!(dx, 1);
        assert!(dy == 0 || dy == -1);
    }
}

#[test]
fn line_across_the_whole_coordinate_range() {
    let pixels = drawn_line((i16::MIN, i16::MIN), (i16::MAX, i16::MAX));
    assert_eq!(pixels.len(), 65536);
    assert_eq!(pixels[0], (i16::MIN, i16::MIN));
    assert_eq!(pixels[32768], (0, 0));
    assert_eq!(pixels[65535], (i16::MAX, i16::MAX));
}

#[test]
fn long_shallow_line_keeps_to_the_ideal_line() {
    let pixels = drawn_line((i16::MIN, 0), (i16::MAX, 30000));
    assert_eq!(pixels.len(), 65536);
    assert_eq!(pixels[65535], (i16::MAX, 30000));
    for (k, pixel) in pixels.iter().enumerate() {
        let k = k as i64;
        assert_eq!(pixel.0 as i64, i16::MIN as i64 + k);
        assert_eq!(pixel.1 as i64, (2 * k * 30000 + 65535) / (2 * 65535));
    }
}

#[test]
fn line_down_the_whole_coordinate_range() {
    let pixels = drawn_line((5, i16::MAX), (-5, i16::MIN));
    assert_eq!(pixels.len(), 65536);
    assert_eq!(pixels[0], (5, i16::MAX));
    assert_eq!(pixels[65535], (-5, i16::MIN));
    for (k, pixel) in pixels.iter().enumerate() {
        let k = k as i64;
        assert_eq!(pixel.1 as i64, i16::MAX as i64 - k);
        assert_eq!(pixel.0 as i64, 5 - (2 * k * 10 + 65535) / (2 * 65535));
    }
}
