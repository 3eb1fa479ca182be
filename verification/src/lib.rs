pub mod config;
pub mod emulation;
pub mod headers;
pub mod request;
pub mod response;
pub mod rng;
pub mod text;
