//! Verified decision logic of the SmallPict image upload service.

pub mod mime;
pub mod paths;
pub mod text;
pub mod config;
pub mod extract;
pub mod handler;
pub mod upload;
