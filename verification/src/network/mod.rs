pub mod protocol;
pub mod server;
