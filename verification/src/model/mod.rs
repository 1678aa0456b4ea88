pub mod geom;
pub mod primitive;
pub mod pt;
pub mod shape;
pub mod pcb;
pub mod dense_bits;
