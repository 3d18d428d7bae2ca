use portfu::operator::{
    claim_plan, deploy_start, deploy_step, deployment_plan, ingress_plan, namespace_or_default, namespace_plan,
    runtime_configs, service_plan, DeployStep, HostConfig, IngressConfig, PathConfig, RuntimeConfig, RuntimeConfigMap,
    ServiceConfig, VolumeConfig, DEFAULT_CONFIG_PREFIX, DEFAULT_NAMESPACE,
};
use portfu::runtime::Config;

fn runtime(name: &str, ingress: IngressConfig) -> RuntimeConfig {
    RuntimeConfig {
        portfu: Config::default(),
        env_vars: vec![],
        volumes: vec![],
        ingress,
        name: name.to_string(),
        replicas: None,
    }
}

#[test]
fn namespace_defaults() {
    assert_eq!(namespace_or_default(&None), "portfu-infrastructure");
    assert_eq!(namespace_or_default(&Some("ns".to_string())), "ns");
    let plan = namespace_plan(&None);
    assert_eq!(plan.name, DEFAULT_NAMESPACE);
    assert_eq!(plan.namespace, DEFAULT_NAMESPACE);
}

#[test]
fn claim_plan_names_and_sizes() {
    let volume = VolumeConfig { name: "data".to_string(), ..VolumeConfig::default() };
    let plan = claim_plan(&None, &volume);
    assert_eq!(plan.name, "pvc-data");
    assert_eq!(plan.storage, "5Gi");
    assert_eq!(plan.access_modes, vec!["ReadWriteOnce".to_string()]);
    assert_eq!(plan.storage_class, None);
    let volume = VolumeConfig {
        name: "data".to_string(),
        claim_name: Some("mine".to_string()),
        storage_size: Some("1Gi".to_string()),
        storage_class: Some("fast".to_string()),
        ..VolumeConfig::default()
    };
    let plan = claim_plan(&Some("ns".to_string()), &volume);
    assert_eq!(plan.name, "mine");
    assert_eq!(plan.namespace, "ns");
    assert_eq!(plan.storage, "1Gi");
    assert_eq!(plan.storage_class, Some("fast".to_string()));
}

#[test]
fn service_plan_ports() {
    let plan = service_plan(&None, &runtime("app", IngressConfig::default()));
    assert!(plan.ports.is_none());
    assert_eq!(plan.selector_app, "app");
    let ingress = IngressConfig {
        services: vec![ServiceConfig { name: "http".to_string(), port: 80, target_port: 8080, tls: false }],
        ..IngressConfig::default()
    };
    let plan = service_plan(&None, &runtime("app", ingress));
    let ports = plan.ports.expect("one service is configured");
    assert_eq!(ports.len(), 1);
    assert_eq!((ports[0].name.as_str(), ports[0].port, ports[0].target_port), ("http", 80, 8080));
}

fn host(name: &str, tls: bool) -> HostConfig {
    HostConfig {
        name: name.to_string(),
        hostname: format!("{name}.example.test"),
        port: 443,
        tls,
        paths: vec![PathConfig { path: "/".to_string(), service_name: "svc".to_string(), service_port: 80 }],
    }
}

#[test]
fn ingress_plan_without_hosts() {
    let plan = ingress_plan(&None, &runtime("app", IngressConfig::default()));
    assert_eq!(plan.name, "ing-app");
    assert!(plan.annotations.is_none());
    assert!(plan.labels.is_none());
    assert!(plan.rules.is_none());
    assert!(plan.tls.is_none());
}

#[test]
fn ingress_plan_rules_only_for_tls_hosts_and_tls_for_all() {
    let ingress = IngressConfig {
        name: Some("edge".to_string()),
        hosts: vec![host("a", true), host("b", false)],
        annotations: vec![("k".to_string(), "v".to_string())],
        class_name: Some("nginx".to_string()),
        ..IngressConfig::default()
    };
    let plan = ingress_plan(&None, &runtime("app", ingress));
    assert_eq!(plan.name, "edge");
    assert_eq!(plan.annotations, Some(vec![("k".to_string(), "v".to_string())]));
    assert_eq!(plan.class_name, Some("nginx".to_string()));
    let rules = plan.rules.expect("hosts are configured");
    assert_eq!(rules.len(), 1);
    assert_eq!(rules[0].host, "a.example.test");
    assert_eq!(rules[0].paths[0].path_type, "ImplementationSpecific");
    assert_eq!(rules[0].paths[0].service_port, 80);
    let tls = plan.tls.expect("one host asks for TLS");
    assert_eq!(tls.len(), 2);
    assert_eq!(tls[1].secret_name, "tls-b");
    assert_eq!(tls[1].hosts, vec!["b.example.test".to_string()]);
}

#[test]
fn ingress_plan_hosts_without_tls() {
    let ingress = IngressConfig { hosts: vec![host("a", false)], ..IngressConfig::default() };
    let plan = ingress_plan(&None, &runtime("app", ingress));
    assert_eq!(plan.rules.map(|r| r.len()), Some(0));
    assert!(plan.tls.is_none());
}

#[test]
fn deployment_plan_rolls_out_by_quarters() {
    let plan = deployment_plan(&None, &runtime("app", IngressConfig::default()));
    assert_eq!(plan.name, "app");
    assert_eq!(plan.app, "app");
    assert_eq!(plan.strategy, "RollingUpdate");
    assert_eq!(plan.max_surge, "25%");
    assert_eq!(plan.max_unavailable, "25%");
}

fn config_map(name: Option<&str>, data: &[(&str, &str)]) -> RuntimeConfigMap {
    RuntimeConfigMap {
        name: name.map(|n| n.to_string()),
        data: Some(data.iter().map(|(k, v)| (k.to_string(), v.to_string())).collect()),
    }
}

#[test]
fn runtime_config_map_reads_its_data() {
    let map = config_map(Some("portfu-config-1"), &[("managed", "TRUE"), ("pod_name", "p"), ("uuid", "u")]);
    assert_eq!(map.name().map(|s| s.as_str()), Some("portfu-config-1"));
    assert_eq!(map.uuid().map(|s| s.as_str()), Some("u"));
    assert_eq!(map.pod_name().map(|s| s.as_str()), Some("p"));
    assert!(map.managed());
    assert_eq!(map.config_json(), None);
    let map = config_map(None, &[("managed", "yes")]);
    assert!(!map.managed());
    let empty = RuntimeConfigMap { name: None, data: None };
    assert!(!empty.managed());
    assert_eq!(empty.uuid(), None);
}

#[test]
fn runtime_configs_keep_prefixed_names_in_order() {
    let maps = vec![
        config_map(Some("portfu-config-a"), &[]),
        config_map(Some("other"), &[]),
        config_map(None, &[]),
        config_map(Some("portfu-config-b"), &[]),
    ];
    let kept = runtime_configs(maps);
    let names: Vec<Option<String>> = kept.into_iter().map(|m| m.name).collect();
    assert_eq!(names, vec![Some("portfu-config-a".to_string()), Some("portfu-config-b".to_string())]);
    assert!("portfu-config-a".starts_with(DEFAULT_CONFIG_PREFIX));
}

fn deploy(claims: &[bool], service: bool, ingress: bool) -> Vec<DeployStep> {
    let mut trace = vec![];
    let mut step = deploy_start(claims.len());
    while step != DeployStep::Done {
        trace.push(step);
        let found = match step {
            DeployStep::CheckClaim(i) => claims[i],
            DeployStep::CheckService => service,
            DeployStep::CheckIngress => ingress,
            _ => false,
        };
        step = deploy_step(step, found, claims.len());
    }
    trace
}

#[test]
fn deploy_creates_only_what_is_missing() {
    assert_eq!(
        deploy(&[true, false], false, true),
        vec![
            DeployStep::CheckClaim(0),
            DeployStep::CheckClaim(1),
            DeployStep::CreateClaim(1),
            DeployStep::PatchDeployment,
            DeployStep::CheckService,
            DeployStep::CreateService,
            DeployStep::CheckIngress,
        ]
    );
    assert_eq!(
        deploy(&[], true, false),
        vec![
            DeployStep::PatchDeployment,
            DeployStep::CheckService,
            DeployStep::CheckIngress,
            DeployStep::CreateIngress,
        ]
    );
}
