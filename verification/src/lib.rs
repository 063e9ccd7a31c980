pub mod app;
pub mod config;
pub mod event;
pub mod grpc;
pub mod laws;
pub mod model;
pub mod sorted_map;
pub mod text;
pub mod ui;
