//! Drawing: colours, points and rectangles, the display surface and the
//! record of what is asked of it, a surface that keeps its calls for trying
//! things out, and the rasterizers that turn lines and circles into
//! single-pixel writes.

pub mod cells;
pub mod circle;
pub mod color;
pub mod geometry;
pub mod line;
pub mod recorder;
pub mod rounding;
pub mod surface;

pub use cells::{pull_rect_cell, try_pull_rect_cell};
pub use circle::draw_circle;
pub use color::Color;
pub use geometry::{Point, Rect};
pub use line::draw_line;
pub use recorder::{Recorded, Recorder};
pub use surface::{
    draw_rect, fill_rect, get_pixel, pull_rect, set_pixel, try_draw_rect, try_pull_rect,
    wait_for_vblank, Canvas, Request, Surface,
};
