//! Safe, verified building blocks for programs that run on a graphing
//! calculator: the colour and geometry types of its display, the line and
//! circle rasterizers, and the decoding of its keyboard state and events.

pub mod ion;
pub mod kandinsky;
