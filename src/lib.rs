//! A side-scrolling obstacle course: obstacles spawn past the right edge of
//! the viewport, drift left at a slowly growing speed, and are dropped once
//! they have scrolled past the left edge.
//!
//! Time and speed are kept in fixed point: elapsed time in microseconds, speed
//! in thousandths of a pixel per second, and the scroll not yet applied in
//! billionths of a pixel, so that one tick moves the course by exactly
//! `speed * dt` of those units.
pub mod object;
pub mod scroller;

pub use object::Object;
pub use scroller::{App, AppView};
