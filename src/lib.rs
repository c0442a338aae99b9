//! Authentication and session lifecycle: signed access tokens, rotating
//! refresh sessions, and the request gate that checks a bearer credential.

pub mod controller;
pub mod gate;
pub mod hex;
pub mod session;
pub mod token;
