//! The integer point, under the name this module gives it.
pub use crate::model::primitive::point::PtI;
