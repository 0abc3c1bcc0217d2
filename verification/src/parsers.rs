//! The parser: a backtracking recursive-descent engine.  Each production is a
//! function from the input and a position to a new position and a value, or
//! to nothing when the production does not apply there.

pub mod at;
pub mod css_entity;
pub mod parameters;
pub mod selector;
pub mod utils;
