//! A storage backend for Huawei Cloud OBS: configuration resolution, request
//! construction, response interpretation and a paginated listing cursor, each
//! stated by a contract and verified.
pub mod config;
pub mod date;
pub mod laws;
pub mod list;
pub mod path;
pub mod request;
pub mod response;
pub mod text;
