//! A small todo-list library: request validation, a user-scoped store of
//! todo records, service operations over it, and the mapping from domain
//! errors to HTTP status codes and response envelopes.

use vstd::prelude::*;

pub mod config;
pub mod dto;
pub mod error;
pub mod handler;
pub mod service;
pub mod store;
pub mod text;

verus! {

/// Liveness payload returned by the health endpoint.
pub struct HealthResponse {
    pub status: &'static str,
}

/// Greeting payload returned by the hello endpoint.
pub struct HelloResponse {
    pub message: &'static str,
}

/// Liveness check: always reports an "ok" status.
pub fn health() -> (r: HealthResponse)
    ensures
        r.status@ == "ok"@,
{
    HealthResponse { status: "ok" }
}

/// Quick routing check with a fixed greeting.
pub fn hello() -> (r: HelloResponse)
    ensures
        r.message@ == "hello, i am from rust"@,
{
    HelloResponse { message: "hello, i am from rust" }
}

} // verus!
