//! The core of a small static file server: it maps request URLs to paths
//! below a configured root directory, decides how each target is served and
//! renders directory listings. All input and output is left to the caller.

pub mod classify;
pub mod config;
pub mod dispatch;
pub mod listing;
pub mod path;
pub mod resolve;
pub mod response;
pub mod text;
