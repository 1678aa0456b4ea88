pub mod rt;
