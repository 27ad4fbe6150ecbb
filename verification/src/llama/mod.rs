pub mod artifacts;
pub mod capabilities;
pub mod discovery;
pub mod parser;
