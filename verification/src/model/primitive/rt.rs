//! The integer rectangle, under the name this module gives it.
pub use crate::model::primitive::rect::RtI;
