pub mod bytes;
pub mod hex;
pub mod auth;
pub mod json;
pub mod message;
pub mod codec;
pub mod calc;
pub mod kernel;
pub mod config;
pub mod server;
