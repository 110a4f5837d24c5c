//! The logic of a wrapper that runs a chat program in a terminal of its own, types
//! one prompt into it, and hands out nothing but the reply; and of the reviews that
//! are coordinated on top of that, with their deadlines, their cleanup and their
//! log.
//!
//! Everything here computes: what has to be read, waited for, typed or killed is
//! said to the caller, who says in turn what came of it.

pub mod args;
pub mod child;
pub mod config;
pub mod coordinator;
pub mod hook;
pub mod inject;
pub mod json;
pub mod lifecycle;
pub mod names;
pub mod processes;
pub mod session;
pub mod startup;
pub mod text;
pub mod time;
pub mod transcript;
