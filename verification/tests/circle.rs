use eadk::kandinsky::{draw_circle, Canvas, Color, Point, Rect, Surface};

#[derive(Debug, PartialEq, Eq)]
enum CircleSent {
    Fill(Rect, Color),
    Write(Rect, Vec<Color>),
    Read(Rect),
    Sync,
}

struct CircleTape {
    sent: Vec<CircleSent>,
    answer: Color,
}

impl CircleTape {
    fn canvas() -> Canvas<CircleTape> {
        Canvas::new(CircleTape { sent: Vec::new(), answer: Color(0) })
    }
}

impl Surface for CircleTape {
    fn push_rect_uniform(&mut self, rect: Rect, color: Color) {
        self.sent.push(CircleSent::Fill(rect, color));
    }

    fn push_rect(&mut self, rect: Rect, pixels: &[Color]) {
        self.sent.push(CircleSent::Write(rect, pixels.to_vec()));
    }

    fn pull_rect(&mut self, rect: Rect, pixels: &mut [Color]) {
        self.sent.push(CircleSent::Read(rect));
        for pixel in pixels.iter_mut() {
            *pixel = self.answer;
        }
    }

    fn wait_for_vblank(&mut self) -> bool {
        self.sent.push(CircleSent::Sync);
        true
    }
}

fn drawn_circle(center: (i16, i16), radius: u16) -> Vec<(i16, i16)> {
    let ink = Color(0x0F0F);
    let mut canvas = CircleTape::canvas();
    draw_circle(&mut canvas, Point { x: center.0, y: center.1 }, radius, ink);
    let mut pixels = Vec::new();
    for request in canvas.into_surface().sent {
        match request {
            CircleSent::Fill(rect, color) => {
                assert_eq!((rect.w, rect.h), (1, 1));
                assert_eq!(color, ink);
                pixels.push((rect.point.x, rect.point.y));
            }
            other => panic!("a circle made the request {:?}", other),
        }
    }
    pixels
}

fn circle_pixel_set(center: (i16, i16), radius: u16) -> Vec<(i16, i16)> {
    let mut pixels = drawn_circle(center, radius);
    pixels.sort();
    pixels.dedup();
    pixels
}

#[test]
fn circle_of_radius_zero_is_its_centre() {
    assert_eq!(circle_pixel_set((12, -34), 0), vec![(12, -34)]);
    assert_eq!(drawn_circle((12, -34), 0), vec![(12, -34); 8]);
}

#[test]
fn circle_of_radius_zero_at_the_corner_of_the_range() {
    assert_eq!(circle_pixel_set((i16::MIN, i16::MAX), 0), vec![(i16::MIN, i16::MAX)]);
}

#[test]
fn circle_of_radius_one_in_painting_order() {
    assert_eq!(
        drawn_circle((0, 0), 1),
        vec![(1, 0), (-1, 0), (-1, 0), (1, 0), (0, 1), (0, -1), (0, -1), (0, 1)]
    );
}

#[test]
fn circle_of_radius_three_in_painting_order() {
    assert_eq!(
        drawn_circle((10, 20), 3),
        vec![
            (13, 20), (7, 20), (7, 20), (13, 20), (10, 23), (10, 17), (10, 17), (10, 23),
            (13, 21), (7, 21), (7, 19), (13, 19), (9, 23), (9, 17), (11, 17), (11, 23),
            (12, 22), (8, 22), (8, 18), (12, 18), (8, 22), (8, 18), (12, 18), (12, 22),
        ]
    );
}

#[test]
fn circle_of_radius_five_has_the_expected_pixels() {
    assert_eq!(
        circle_pixel_set((0, 0), 5),
        vec![
            (-5, -2), (-5, -1), (-5, 0), (-5, 1), (-5, 2), (-4, -3), (-4, 3), (-3, -4),
            (-3, 4), (-2, -5), (-2, 5), (-1, -5), (-1, 5), (0, -5), (0, 5), (1, -5), (1, 5),
            (2, -5), (2, 5), (3, -4), (3, 4), (4, -3), (4, 3), (5, -2), (5, -1), (5, 0), (5, 1),
            (5, 2),
        ]
    );
}

#[test]
fn circle_pixels_keep_the_radius_to_within_one() {
    let radii = [0u16, 1, 2, 3, 7, 15, 16, 17, 31, 32, 100, 255, 256, 1000, 4095, 4096];
    for radius in radii {
        for (x, y) in drawn_circle((0, 0), radius) {
            let squared = (x as f64) * (x as f64) + (y as f64) * (y as f64);
            let distance = squared.sqrt().round();
            assert!(
                (distance - radius as f64).abs() <= 1.0,
                "({}, {}) on the circle of radius {}",
                x,
                y,
                radius
            );
        }
    }
}

#[test]
fn circle_is_the_same_in_every_octant() {
    let pixels = circle_pixel_set((0, 0), 37);
    for &(x, y) in pixels.iter() {
        for mirrored in [(-x, y), (x, -y), (-x, -y), (y, x), (-y, x), (y, -x), (-y, -x)] {
            assert!(pixels.binary_search(&mirrored).is_ok());
        }
    }
}

#[test]
fn circle_moves_with_its_centre() {
    let at_origin = drawn_circle((0, 0), 20);
    let moved = drawn_circle((-100, 50), 20);
    assert_eq!(at_origin.len(), moved.len());
    for (a, b) in at_origin.iter().zip(moved.iter()) {
        assert_eq!((a.0 - 100, a.1 + 50), *b);
    }
}

#[test]
fn circle_paints_eight_pixels_for_each_row_of_its_arc() {
    assert_eq!(drawn_circle((0, 0), 100).len(), 576);
}

#[test]
fn circle_of_the_largest_radius_that_fits() {
    let pixels = drawn_circle((0, 0), 32767);
    assert_eq!(pixels.len(), 185_368);
    assert_eq!(pixels[0], (32767, 0));
    assert_eq!(pixels[1], (-32767, 0));
    assert_eq!(pixels[4], (0, 32767));
}

#[test]
fn circle_with_a_radius_beyond_the_coordinates_paints_nothing() {
    assert_eq!(drawn_circle((0, 0), 32768), vec![]);
    assert_eq!(drawn_circle((i16::MAX, i16::MIN), 65535), vec![]);
}
