pub mod install;
pub mod scoring;
pub mod search;
