pub mod deprecation;
pub mod log;
pub mod ver;
pub mod verlog;
