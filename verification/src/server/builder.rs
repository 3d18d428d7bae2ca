//! Assembling a server: its settings and the services, filters, wrappers
//! and tasks it runs with.
use crate::server::config::{ServerConfig, SslConfig};
use crate::services::group::{ServiceGroup, ServiceRegistry};
use crate::services::{attach, clone_state, empty_state, extend_state, insert_state, Service};
use std::sync::Arc;
use vstd::prelude::*;

verus! {

/// A server being assembled.
pub struct ServerBuilder<F: ?Sized, W: ?Sized, H: ?Sized, T: ?Sized> {
    pub services: ServiceRegistry<F, W, H, T>,
    pub config: ServerConfig,
    /// The values shared with every service registered from now on (one
    /// per type).
    pub shared_state: http::Extensions,
}

impl<F: ?Sized, W: ?Sized, H: ?Sized, T: ?Sized> ServerBuilder<F, W, H, T> {
    /// A server with the given settings and nothing registered.
    pub fn from_config(config: ServerConfig) -> (builder: Self)
        ensures
            builder.config == config,
            builder.services.services@.len() == 0,
            builder.services.default_service is None,
            builder.services.filters@.len() == 0,
            builder.services.wrappers@.len() == 0,
            builder.services.tasks@.len() == 0,
    {
        ServerBuilder { services: ServiceRegistry::new(), config, shared_state: empty_state() }
    }

    /// A server with the default settings and nothing registered.
    pub fn new() -> (builder: Self)
        ensures
            builder.config.host@ == "localhost"@,
            builder.config.port == crate::server::config::DEFAULT_PORT,
            builder.services.services@.len() == 0,
            builder.services.default_service is None,
    {
        Self::from_config(ServerConfig::default())
    }

    /// The server with the host it listens on set to `host`.
    pub fn host(self, host: String) -> (builder: Self)
        ensures
            builder.config.host == host,
            builder.config.port == self.config.port,
            builder.config.ssl_config == self.config.ssl_config,
            builder.services == self.services,
    {
        let mut s = self;
        s.config.host = host;
        s
    }

    /// The server with the port it listens on set to `port`.
    pub fn port(self, port: u16) -> (builder: Self)
        ensures
            builder.config.port == port,
            builder.config.host == self.config.host,
            builder.config.ssl_config == self.config.ssl_config,
            builder.services == self.services,
    {
        let mut s = self;
        s.config.port = port;
        s
    }

    /// The server with its TLS settings set to `ssl_config`.
    pub fn ssl_config(self, ssl_config: Option<SslConfig>) -> (builder: Self)
        ensures
            builder.config.ssl_config == ssl_config,
            builder.config.host == self.config.host,
            builder.config.port == self.config.port,
            builder.services == self.services,
    {
        let mut s = self;
        s.config.ssl_config = ssl_config;
        s
    }

    /// Registers a service after those registered; it takes on the shared
    /// values over its own of the same type.
    pub fn register(self, service: Service<F, W, H>) -> (builder: Self)
        ensures
            builder.services.services@.len() == self.services.services@.len() + 1,
            builder.services.services@.last()@ == attach(service@, self.services.filters@, self.services.wrappers@),
            builder.config == self.config,
    {
        let mut s = self;
        let mut service = service;
        extend_state(&mut service.shared_state, clone_state(&s.shared_state));
        s.services.register(service);
        s
    }

    /// Registers the services and tasks of a group; each service takes on
    /// the shared values over its own of the same type.
    pub fn register_group(self, group: ServiceGroup<F, W, H, T>) -> (builder: Self)
        ensures
            builder.services.services@.len() == self.services.services@.len() + group@.services.len(),
            builder.services.tasks@ == self.services.tasks@ + group@.tasks,
            builder.config == self.config,
    {
        let mut s = self;
        s.services.register_group(group, &s.shared_state);
        s
    }

    /// Shares the value behind `value` with the services registered from now
    /// on, in place of a shared value of the same type.
    pub fn shared_state<X: Send + Sync + 'static>(self, value: Arc<X>) -> (builder: Self)
        ensures
            builder.services == self.services,
            builder.config == self.config,
    {
        let mut s = self;
        insert_state(&mut s.shared_state, value);
        s
    }

    /// Sets the service that answers when no registered one does.
    pub fn default_service(self, service: Service<F, W, H>) -> (builder: Self)
        ensures
            builder.services.default_service matches Some(d) && (*d)@ == attach(
                service@,
                self.services.filters@,
                self.services.wrappers@,
            ),
            builder.services.services == self.services.services,
            builder.config == self.config,
    {
        let mut s = self;
        let mut service = service;
        extend_state(&mut service.shared_state, clone_state(&s.shared_state));
        s.services.set_default_service(service);
        s
    }

    /// Adds a filter for the services registered from now on.
    pub fn filter(self, filter: Arc<F>) -> (builder: Self)
        ensures
            builder.services.filters@ == self.services.filters@.push(filter),
            builder.services.services == self.services.services,
            builder.config == self.config,
    {
        let mut s = self;
        s.services.filter(filter);
        s
    }

    /// Adds a wrapper for the services registered from now on.
    pub fn wrap(self, wrapper: Arc<W>) -> (builder: Self)
        ensures
            builder.services.wrappers@ == self.services.wrappers@.push(wrapper),
            builder.services.services == self.services.services,
            builder.config == self.config,
    {
        let mut s = self;
        s.services.wrap(wrapper);
        s
    }

    /// Adds a background task.
    pub fn task(self, task: Arc<T>) -> (builder: Self)
        ensures
            builder.services.tasks@ == self.services.tasks@.push(task),
            builder.services.services == self.services.services,
            builder.config == self.config,
    {
        let mut s = self;
        s.services.tasks.push(task);
        s
    }
}

} // verus!
