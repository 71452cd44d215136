pub mod codec;
pub mod message;
pub mod registry;
pub mod server;
