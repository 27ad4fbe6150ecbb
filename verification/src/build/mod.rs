pub mod directory;
pub mod plan;
pub mod profile;
pub mod service;
pub mod toolchain;
