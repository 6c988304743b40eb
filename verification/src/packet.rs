pub mod ip_header;
pub mod segment;
pub mod tcp_header;
