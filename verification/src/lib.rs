//! Server-side logic of a supermarket self-scanning service: the per-connection
//! protocol that moves a client through the token handshake, login, sign-up,
//! store selection, scanning and payment screens.

pub mod screen;
pub mod text;
pub mod entropy;
pub mod connection;
pub mod error;
pub mod session;
pub mod sign_up;
pub mod password;
pub mod login;
pub mod store_locator;
pub mod main_app;
pub mod payment;
