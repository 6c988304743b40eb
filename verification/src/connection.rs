pub mod handler;
pub mod state;
