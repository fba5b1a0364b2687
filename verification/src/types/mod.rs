//! The data types shared by the layout components.

pub mod agent;
pub mod config;
pub mod session;
pub mod tiles;
