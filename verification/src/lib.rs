pub mod addr;
pub mod connection;
pub mod error;
pub mod packet;
pub mod utils;
