//! Routing: route patterns and middleware.
pub mod middleware;
pub mod routes;
