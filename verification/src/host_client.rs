//! Middleware for the host side of a wire.

pub mod middleware;
