pub mod banned;
pub mod config;
pub mod domain;
pub mod errors;
pub mod service;
pub mod signup;
pub mod text;
pub mod token;
pub mod two_factor;
pub mod two_factor_store;
pub mod user_store;
