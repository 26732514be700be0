pub mod base;
pub mod login;
pub mod oauth;
pub mod profile;
pub mod signup;
