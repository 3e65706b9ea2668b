pub mod account;
pub mod base32;
pub mod config;
pub mod crypto;
pub mod entity;
pub mod error;
pub mod kdf;
pub mod meta;
pub mod otp;
pub mod password;
pub mod paths;
pub mod text;
pub mod uri;
pub mod vault;
pub mod version;
pub mod window;
