use portfu::server::builder::ServerBuilder;
use portfu::server::config::ServerConfig;
use portfu::services::builder::ServiceBuilder;
use portfu::services::group::{ServiceGroup, ServiceRegistry};
use portfu::services::Service;
use std::sync::Arc;

type Svc = Service<str, str, str>;
type Group = ServiceGroup<str, str, str, str>;

fn service(path: &str, filters: &[&str]) -> Svc {
    let mut builder = ServiceBuilder::<str, str, str, str>::new(path).name(path);
    for f in filters {
        builder = builder.filter(Arc::from(*f));
    }
    builder.build()
}

fn filters(s: &Svc) -> Vec<String> {
    s.filters.iter().map(|f| f.to_string()).collect()
}

#[test]
fn builder_builds_named_service() {
    let s = ServiceBuilder::<str, str, str, str>::new("/a/{id}")
        .name("a")
        .filter(Arc::from("f"))
        .wrap(Arc::from("w"))
        .handler(Arc::from("h"))
        .task(Arc::from("t"))
        .build();
    assert_eq!(s.name(), "a");
    assert_eq!(s.path.to_string(), "/a/{id}");
    assert_eq!(filters(&s), vec!["f"]);
    assert_eq!(s.wrappers.len(), 1);
    assert_eq!(s.handler.as_deref(), Some("h"));
    let unnamed = ServiceBuilder::<str, str, str, str>::new("/b").build();
    assert_eq!(unnamed.name(), "");
    assert!(ServiceBuilder::<str, str, str, str>::try_new("/c/{x").is_none());
}

#[test]
fn service_ids_differ() {
    let a = service("/a", &[]);
    let b = service("/a", &[]);
    assert_ne!(a.uuid(), b.uuid());
}

#[test]
fn group_filters_apply_only_to_later_services() {
    let group = Group::new()
        .service(service("/early", &["own"]))
        .filter(Arc::from("g1"))
        .service(service("/late", &["own"]))
        .filter(Arc::from("g2"));
    assert_eq!(filters(&group.services[0]), vec!["own"]);
    assert_eq!(filters(&group.services[1]), vec!["own", "g1"]);
}

#[test]
fn sub_groups_inherit_parent_configuration() {
    let inner = Group::new().filter(Arc::from("inner")).service(service("/x", &["own"])).task(Arc::from("t1"));
    let outer = Group::new()
        .filter(Arc::from("outer"))
        .wrap(Arc::from("w"))
        .service(service("/first", &[]))
        .sub_group(inner);
    assert_eq!(outer.services.len(), 2);
    assert_eq!(filters(&outer.services[0]), vec!["outer"]);
    assert_eq!(filters(&outer.services[1]), vec!["own", "inner", "outer"]);
    assert_eq!(outer.services[1].wrappers.len(), 1);
    assert_eq!(outer.tasks.len(), 1);
}

#[test]
fn registry_attaches_its_filters() {
    let mut registry: ServiceRegistry<str, str, str, str> = ServiceRegistry::new();
    registry.register(service("/a", &["own"]));
    registry.filter(Arc::from("server"));
    registry.register(service("/b", &["own"]));
    registry.set_default_service(service("/fallback", &[]));
    assert_eq!(filters(&registry.services[0]), vec!["own"]);
    assert_eq!(filters(&registry.services[1]), vec!["own", "server"]);
    assert_eq!(filters(registry.default_service.as_ref().unwrap()), vec!["server"]);
    registry.register_group(Group::new().filter(Arc::from("g")).service(service("/c", &[])), &http::Extensions::new());
    assert_eq!(filters(&registry.services[2]), vec!["g", "server"]);
}

#[test]
fn server_builder_settings() {
    let builder = ServerBuilder::<str, str, str, str>::new().host("0.0.0.0".to_string()).port(9090);
    assert_eq!(builder.config.host, "0.0.0.0");
    assert_eq!(builder.config.port, 9090);
    let builder = builder.filter(Arc::from("f")).register(service("/a", &[])).default_service(service("/d", &[]));
    assert_eq!(filters(&builder.services.services[0]), vec!["f"]);
    assert!(builder.services.default_service.is_some());
    let from = ServerBuilder::<str, str, str, str>::from_config(ServerConfig { port: 1, ..ServerConfig::default() });
    assert_eq!(from.config.port, 1);
}

#[test]
fn built_services_carry_version_four_ids() {
    let a = ServiceBuilder::<str, str, str, str>::new("/v4").build();
    let b = ServiceBuilder::<str, str, str, str>::new("/v4").build();
    assert_eq!(a.uuid() & 0xF000C000000000000000, 0x40008000000000000000);
    assert_eq!(b.uuid() & 0xF000C000000000000000, 0x40008000000000000000);
    assert_ne!(a.uuid(), b.uuid());
}

fn shared_u32(s: &Svc) -> Option<u32> {
    s.shared_state.get::<Arc<u32>>().map(|v| **v)
}

#[test]
fn groups_share_their_state_with_their_services() {
    let own = ServiceBuilder::<str, str, str, str>::new("/own").shared_state(1u32).shared_state("kept").build();
    assert_eq!(shared_u32(&own), Some(1));
    let group = Group::new().shared_state(2u32).service(own).service(service("/plain", &[]));
    // The group's value wins over the service's own value of the same type.
    assert_eq!(shared_u32(&group.services[0]), Some(2));
    assert_eq!(group.services[0].shared_state.get::<Arc<&str>>().map(|v| **v), Some("kept"));
    assert_eq!(shared_u32(&group.services[1]), Some(2));
    let inner = Group::new().shared_state(3u32).service(service("/inner", &[]));
    let outer = Group::new().shared_state(4u32).sub_group(inner);
    // The sub-group's value wins in the parent, and its services take on the parent's.
    assert_eq!(outer.shared_state.get::<Arc<u32>>().map(|v| **v), Some(3));
    assert_eq!(shared_u32(&outer.services[0]), Some(3));
}

#[test]
fn server_builder_shares_its_state() {
    let builder = ServerBuilder::<str, str, str, str>::new()
        .shared_state(Arc::new(7u32))
        .register(service("/a", &[]))
        .register_group(Group::new().service(service("/b", &[])))
        .default_service(service("/d", &[]));
    assert_eq!(shared_u32(&builder.services.services[0]), Some(7));
    assert_eq!(shared_u32(&builder.services.services[1]), Some(7));
    assert_eq!(shared_u32(builder.services.default_service.as_ref().unwrap()), Some(7));
}
