pub mod auth;
pub mod chart;
pub mod cli;
pub mod commands;
pub mod connection;
pub mod dashboard;
pub mod docker_panel;
pub mod history;
pub mod identity;
pub mod json;
pub mod keys;
pub mod loading;
pub mod log_view;
pub mod markup;
pub mod picker;
pub mod reconnect;
pub mod render;
pub mod streaming;
pub mod telemetry;
pub mod text;
pub mod version;
