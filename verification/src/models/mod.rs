pub mod download;
pub mod identity;
pub mod catalog;
pub mod shards;
pub mod listing;
