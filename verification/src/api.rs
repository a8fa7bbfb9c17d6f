//! Request payloads of the HTTP API.
//!
//! The decoded bodies the route handlers receive. Decoding itself happens
//! at the transport boundary; the library holds the plain values.

use vstd::prelude::*;

verus! {

/// A login attempt: who, and with which password.
#[derive(Debug, Clone)]
pub struct LoginRequest {
    pub username: String,
    pub password: String,
}

/// A registration: the new account's name and password.
#[derive(Debug, Clone)]
pub struct RegisterRequest {
    pub username: String,
    pub password: String,
}

/// A request to create a tour with the given display name.
#[derive(Debug, Clone)]
pub struct CreateTourRequest {
    pub name: String,
}

} // verus!
