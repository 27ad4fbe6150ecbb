pub mod refs;
pub mod remote;
pub mod repository;
pub mod runner;
pub mod status;
