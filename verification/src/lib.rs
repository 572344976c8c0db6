//! Seven-segment clock face rendering into an off-screen frame, and the
//! rules of a small snake game that shares the same frame type.

pub mod clock;
pub mod dht11;
pub mod frame;
pub mod geometry;
pub mod segments;
pub mod seven_segment;
pub mod snake;
pub mod snake_screen;

pub use segments::Segments;
pub use seven_segment::{SevenSegmentConfig, SevenSegmentDisplay};
