pub mod connection;
pub mod headers;
pub mod parser;
pub mod request;
pub mod response;
pub mod util;
