//! A body-weight journal: a date-ordered record store, the windowing arithmetic
//! behind its chart, validation of typed input, the key-driven interaction
//! machine and the marquee that scrolls over-long hints.

pub mod date;
pub mod error;
pub mod machine;
pub mod persist;
pub mod scroll;
pub mod store;
pub mod text;
pub mod validate;
pub mod weight;
pub mod window;
