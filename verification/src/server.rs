//! Middleware for the server side of a wire.

pub mod middleware;
