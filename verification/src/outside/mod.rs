//! The crates and std functions this library calls, each behind a contract
//! that is believed rather than proved.

pub mod bytes_api;
pub mod http_api;
pub mod json_api;
pub mod std_api;
pub mod url_api;
pub mod uuid_api;
