//! Integer geometry, the DSN tokenizer and parser primitives, and the
//! name tables of a printed-circuit-board router.
pub mod name;
pub mod text;
pub mod model;
pub mod dsn;
