pub mod client;
pub mod handlers;
