//! Authentication and session-lifecycle core: credential checks, signed access
//! tokens bound to rotating refresh tokens, revocation, TOTP devices and
//! single-use recovery codes.
pub mod access_token;
pub mod auth;
pub mod crypto;
pub mod ids;
pub mod login;
pub mod mfa;
pub mod mfa_service;
pub mod provider;
pub mod revocation;
pub mod session;
pub mod user_service;
pub mod users;
