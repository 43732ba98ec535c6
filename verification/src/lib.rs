//! A terminal browser for voting on e621 posts: the verified core.

pub mod args;
pub mod config;
pub mod database;
pub mod error;
pub mod post;
pub mod request;
pub mod session;
pub mod text;
pub mod tui;
pub mod vote;
