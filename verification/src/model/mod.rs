pub mod exporter;
pub mod place;
pub mod resource;
