pub mod runner;
pub mod command;
