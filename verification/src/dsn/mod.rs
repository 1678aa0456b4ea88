pub mod design;
pub mod design_to_pcb;
pub mod error;
pub mod lexer;
pub mod library;
pub mod models;
pub mod network;
pub mod number;
pub mod parser;
pub mod placement;
pub mod session;
pub mod shapes;
pub mod structure;
pub mod token;
pub mod types;
