//! Registration of the nicknames that are currently logged in.
pub mod auth;
pub mod storage;

pub use auth::auth;
