//! Server settings and the choice of the service that answers a request.
pub mod builder;
pub mod config;
pub mod dispatch;
