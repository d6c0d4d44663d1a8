use eadk::kandinsky::{
    draw_circle, draw_line, draw_rect, get_pixel, pull_rect, set_pixel, wait_for_vblank, Canvas,
    Color, Point, Recorded, Recorder, Rect, Surface,
};

fn one_pixel(x: i16, y: i16, color: u16) -> Recorded {
    Recorded::Fill { rect: Rect { point: Point { x, y }, w: 1, h: 1 }, color: Color(color) }
}

#[test]
fn new_recorder_holds_nothing() {
    assert!(Recorder::new().log.is_empty());
}

#[test]
fn recorder_keeps_each_kind_of_call() {
    let mut recorder = Recorder::new();
    let rect = Rect { point: Point { x: 1, y: 2 }, w: 3, h: 4 };
    recorder.push_rect_uniform(rect, Color(5));
    recorder.push_rect(rect, &[Color(6), Color(7)]);
    let mut buffer = [Color(8), Color(9)];
    recorder.pull_rect(rect, &mut buffer);
    assert!(recorder.wait_for_vblank());
    assert_eq!(
        recorder.log,
        vec![
            Recorded::Fill { rect, color: Color(5) },
            Recorded::Write { rect, pixels: vec![Color(6), Color(7)] },
            Recorded::Read { rect },
            Recorded::Sync,
        ]
    );
    assert_eq!(buffer, [Color(8), Color(9)]);
}

#[test]
fn recorder_holds_the_pixels_of_a_line_in_order() {
    let mut canvas = Canvas::new(Recorder::new());
    draw_line(&mut canvas, Point { x: 0, y: 0 }, Point { x: 3, y: 1 }, Color(2));
    assert_eq!(
        canvas.into_surface().log,
        vec![one_pixel(0, 0, 2), one_pixel(1, 0, 2), one_pixel(2, 1, 2), one_pixel(3, 1, 2)]
    );
}

#[test]
fn recorder_holds_the_pixels_of_a_circle_in_order() {
    let mut canvas = Canvas::new(Recorder::new());
    draw_circle(&mut canvas, Point { x: 5, y: 5 }, 1, Color(4));
    assert_eq!(
        canvas.into_surface().log,
        vec![
            one_pixel(6, 5, 4),
            one_pixel(4, 5, 4),
            one_pixel(4, 5, 4),
            one_pixel(6, 5, 4),
            one_pixel(5, 6, 4),
            one_pixel(5, 4, 4),
            one_pixel(5, 4, 4),
            one_pixel(5, 6, 4),
        ]
    );
}

#[test]
fn recorder_holds_what_came_before_a_line() {
    let mut canvas = Canvas::new(Recorder::new());
    set_pixel(&mut canvas, Point { x: 9, y: 9 }, Color(1));
    draw_line(&mut canvas, Point { x: 0, y: 0 }, Point { x: 0, y: 1 }, Color(2));
    assert_eq!(
        canvas.surface().log,
        vec![one_pixel(9, 9, 1), one_pixel(0, 0, 2), one_pixel(0, 1, 2)]
    );
}

#[test]
fn recorder_answers_a_read_by_leaving_the_buffer() {
    let mut canvas = Canvas::new(Recorder::new());
    let rect = Rect { point: Point { x: 0, y: 0 }, w: 2, h: 1 };
    let mut buffer = [Color(11), Color(12)];
    pull_rect(&mut canvas, rect, &mut buffer);
    assert_eq!(buffer, [Color(11), Color(12)]);
    assert_eq!(get_pixel(&mut canvas, Point { x: 3, y: 3 }), Color(0));
    assert_eq!(
        canvas.surface().log,
        vec![
            Recorded::Read { rect },
            Recorded::Read { rect: Rect { point: Point { x: 3, y: 3 }, w: 1, h: 1 } },
        ]
    );
}

#[test]
fn recorder_answers_a_wait_with_yes() {
    let mut canvas = Canvas::new(Recorder::new());
    assert!(wait_for_vblank(&mut canvas));
    assert_eq!(canvas.surface().log, vec![Recorded::Sync]);
}

#[test]
fn recorder_keeps_the_pixels_of_a_bulk_write() {
    let mut canvas = Canvas::new(Recorder::new());
    let rect = Rect { point: Point { x: -1, y: -1 }, w: 2, h: 2 };
    let pixels = [Color(1), Color(2), Color(3), Color(4)];
    draw_rect(&mut canvas, rect, &pixels);
    assert_eq!(canvas.surface().log, vec![Recorded::Write { rect, pixels: pixels.to_vec() }]);
}
