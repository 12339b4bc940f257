pub mod bytes;
pub mod config;
pub mod filter;
pub mod parser;
pub mod reader;
pub mod relay;
pub mod response;
pub mod text;
