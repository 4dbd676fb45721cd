pub mod app;
pub mod backend;
pub mod events;
pub mod input;
pub mod install;
pub mod models;
pub mod mouse;
pub mod search;
pub mod select;
pub mod text;
pub mod ui;
