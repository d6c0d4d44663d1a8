//! Input: keys, the events the keyboard reports, and the state of the
//! keyboard as one bit for each key.

pub mod event;
pub mod key;
pub mod keyboard;

pub use event::Event;
pub use key::Key;
pub use keyboard::KeyboardState;
