//! Kovi: the message model, CQ codes, events, access control and API requests
//! of a OneBot V11 bot framework.
pub mod api;
pub mod bot;
pub mod default_plugin;
pub mod cq;
pub mod error;
pub mod event;
pub mod handler;
pub mod json;
pub mod lagrange;
pub mod message;
pub mod onebot;
pub mod project;
pub mod registry;
pub mod task;
pub mod text;
pub mod utils;
