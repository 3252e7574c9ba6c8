pub mod http;
pub mod lifecycle;
pub mod models;
pub mod policy;
pub mod service;
pub mod targets;
pub mod ui;
