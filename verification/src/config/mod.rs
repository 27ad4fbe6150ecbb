pub mod paths;
pub mod settings;
