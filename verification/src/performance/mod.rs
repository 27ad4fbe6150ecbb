pub mod benchmark;
pub mod model;
pub mod sweep;
pub mod optimizer;
