//! What the operator asks the cluster for: the settings a runtime is
//! deployed with, and the namespace, volume claims, service, ingress and
//! deployment made from them.
use crate::runtime::Config as PortfuConfig;
use crate::text::{chars_eq_ignore_ascii_case, chars_of, concat, eq_ignore_ascii_case, has_prefix, starts_with};
use vstd::prelude::*;

verus! {

/// The namespace the operator works in unless told otherwise.
pub const DEFAULT_NAMESPACE: &'static str = "portfu-infrastructure";

/// The name prefix of the config maps that hold runtime settings.
pub const DEFAULT_CONFIG_PREFIX: &'static str = "portfu-config-";

/// The name prefix of the pods the operator runs.
pub const DEFAULT_POD_PREFIX: &'static str = "portfu-";

/// What a listing of cluster objects is narrowed by.
#[derive(Clone, Debug, Default, PartialEq)]
pub struct SearchParams {
    pub label_selector: Option<String>,
    pub field_selector: Option<String>,
    pub limit: Option<u32>,
    pub continue_token: Option<String>,
}

/// A volume a runtime mounts, backed by a persistent volume claim.
#[derive(Default, Debug, Clone, PartialEq)]
pub struct VolumeConfig {
    pub read_only: bool,
    pub name: String,
    pub claim_name: Option<String>,
    pub storage_class: Option<String>,
    pub storage_size: Option<String>,
    pub mount_path: String,
}

/// A host the ingress answers for, with its paths.
#[derive(Default, Debug, Clone, PartialEq)]
pub struct HostConfig {
    pub name: String,
    pub hostname: String,
    pub port: u16,
    pub tls: bool,
    pub paths: Vec<PathConfig>,
}

/// A path of a host and the service port it leads to.
#[derive(Default, Debug, Clone, PartialEq)]
pub struct PathConfig {
    pub path: String,
    pub service_name: String,
    pub service_port: u16,
}

/// A port the runtime's service exposes.
#[derive(Default, Debug, Clone, PartialEq)]
pub struct ServiceConfig {
    pub name: String,
    pub port: u16,
    pub target_port: u16,
    pub tls: bool,
}

/// How a runtime is reached from outside. The annotations and labels are
/// key-value pairs in key order, each key once.
#[derive(Default, Debug, Clone, PartialEq)]
pub struct IngressConfig {
    pub name: Option<String>,
    pub services: Vec<ServiceConfig>,
    pub hosts: Vec<HostConfig>,
    pub class_name: Option<String>,
    pub annotations: Vec<(String, String)>,
    pub labels: Vec<(String, String)>,
}

/// Everything a runtime is deployed with.
#[derive(Debug, Clone, PartialEq)]
pub struct RuntimeConfig {
    pub portfu: PortfuConfig,
    pub env_vars: Vec<(String, String)>,
    pub volumes: Vec<VolumeConfig>,
    pub ingress: IngressConfig,
    pub name: String,
    pub replicas: Option<i32>,
}

/// The namespace the cluster services work in.
pub struct KubeNamespace(pub String);

/// The namespace to work in: the one given, or the default.
pub fn namespace_or_default(namespace: &Option<String>) -> (ns: String)
    ensures
        ns@ == (match namespace {
            Some(n) => n@,
            None => DEFAULT_NAMESPACE@,
        }),
{
    match namespace {
        Some(n) => n.clone(),
        None => String::from_str(DEFAULT_NAMESPACE),
    }
}

/// A namespace to create: named, and placed in, itself.
pub struct NamespacePlan {
    pub name: String,
    pub namespace: String,
}

/// The namespace the operator creates.
pub fn namespace_plan(namespace: &Option<String>) -> (plan: NamespacePlan)
    ensures
        plan.name@ == (match namespace {
            Some(n) => n@,
            None => DEFAULT_NAMESPACE@,
        }),
        plan.namespace@ == plan.name@,
{
    let name = namespace_or_default(namespace);
    let ns = name.clone();
    NamespacePlan { name, namespace: ns }
}

/// A persistent volume claim to create.
pub struct ClaimPlan {
    pub name: String,
    pub namespace: String,
    pub access_modes: Vec<String>,
    pub storage: String,
    pub storage_class: Option<String>,
}

/// The storage a claim asks for unless its volume says otherwise.
pub const DEFAULT_STORAGE_SIZE: &'static str = "5Gi";

/// The access mode of every claim the operator creates.
pub const CLAIM_ACCESS_MODE: &'static str = "ReadWriteOnce";

/// The name of a volume's claim: the one it gives, or `pvc-` and its name.
pub open spec fn claim_name(volume: VolumeConfig) -> Seq<char> {
    match volume.claim_name {
        Some(c) => c@,
        None => "pvc-"@ + volume.name@,
    }
}

/// The claim that backs `volume`: its name (see `claim_name`), one
/// read-write-once access, the volume's storage size (5Gi if it gives none)
/// and its storage class.
pub fn claim_plan(namespace: &Option<String>, volume: &VolumeConfig) -> (plan: ClaimPlan)
    ensures
        plan.name@ == claim_name(*volume),
        plan.namespace@ == (match namespace {
            Some(n) => n@,
            None => DEFAULT_NAMESPACE@,
        }),
        plan.access_modes@.len() == 1,
        plan.access_modes@[0]@ == CLAIM_ACCESS_MODE@,
        plan.storage@ == (match volume.storage_size {
            Some(s) => s@,
            None => DEFAULT_STORAGE_SIZE@,
        }),
        plan.storage_class == volume.storage_class,
{
    let name = match &volume.claim_name {
        Some(c) => c.clone(),
        None => concat("pvc-", volume.name.as_str()),
    };
    let storage = match &volume.storage_size {
        Some(s) => s.clone(),
        None => String::from_str(DEFAULT_STORAGE_SIZE),
    };
    let mut access_modes: Vec<String> = Vec::new();
    access_modes.push(String::from_str(CLAIM_ACCESS_MODE));
    ClaimPlan {
        name,
        namespace: namespace_or_default(namespace),
        access_modes,
        storage,
        storage_class: volume.storage_class.clone(),
    }
}

/// A port of a service to create.
pub struct PortPlan {
    pub name: String,
    pub port: i32,
    pub target_port: i32,
}

/// The service to create for a runtime.
pub struct ServicePlan {
    pub name: String,
    pub namespace: String,
    pub ports: Option<Vec<PortPlan>>,
    /// The value of the `app` label the service selects.
    pub selector_app: String,
}

/// A service port as (name, port, target port).
pub open spec fn port_view(p: PortPlan) -> (Seq<char>, int, int) {
    (p.name@, p.port as int, p.target_port as int)
}

/// The port a service configuration asks for.
pub open spec fn port_of(s: ServiceConfig) -> (Seq<char>, int, int) {
    (s.name@, s.port as int, s.target_port as int)
}

/// The service of a runtime: named as the runtime, selecting the pods of
/// its `app`, with one port for each configured service, or no ports when
/// none is configured.
pub fn service_plan(namespace: &Option<String>, config: &RuntimeConfig) -> (plan: ServicePlan)
    ensures
        plan.name@ == config.name@,
        plan.namespace@ == (match namespace {
            Some(n) => n@,
            None => DEFAULT_NAMESPACE@,
        }),
        plan.selector_app@ == config.name@,
        config.ingress.services@.len() == 0 ==> plan.ports is None,
        config.ingress.services@.len() > 0 ==> (plan.ports matches Some(ports)
            && ports@.map_values(|p: PortPlan| port_view(p)) == config.ingress.services@.map_values(
            |s: ServiceConfig| port_of(s),
        )),
{
    let services = &config.ingress.services;
    let ports = if services.len() == 0 {
        None
    } else {
        let mut ports: Vec<PortPlan> = Vec::new();
        let mut i: usize = 0;
        while i < services.len()
            invariant
                i <= services@.len(),
                ports@.map_values(|p: PortPlan| port_view(p)) == services@.take(i as int).map_values(
                    |s: ServiceConfig| port_of(s),
                ),
            decreases services.len() - i,
        {
            let s = &services[i];
            let ghost before = ports@;
            ports.push(PortPlan { name: s.name.clone(), port: s.port as i32, target_port: s.target_port as i32 });
            proof {
                assert(services@.take(i + 1 as int) =~= services@.take(i as int).push(services@[i as int]));
                assert(port_view(ports@.last()) == port_of(services@[i as int]));
                assert(ports@ == before.push(ports@.last()));
                assert(ports@.map_values(|p: PortPlan| port_view(p)) =~= before.map_values(|p: PortPlan| port_view(p)).push(port_view(ports@.last())));
                assert(ports@.map_values(|p: PortPlan| port_view(p)) =~= services@.take(i + 1 as int).map_values(
                    |s: ServiceConfig| port_of(s),
                ));
            }
            i = i + 1;
        }
        assert(services@.take(services@.len() as int) =~= services@);
        Some(ports)
    };
    ServicePlan {
        name: config.name.clone(),
        namespace: namespace_or_default(namespace),
        ports,
        selector_app: config.name.clone(),
    }
}

/// A copy of a list of key-value pairs.
pub fn clone_pairs(pairs: &Vec<(String, String)>) -> (copy: Vec<(String, String)>)
    ensures
        copy@ == pairs@,
{
    let mut copy: Vec<(String, String)> = Vec::new();
    let mut i: usize = 0;
    while i < pairs.len()
        invariant
            i <= pairs@.len(),
            copy@ == pairs@.take(i as int),
        decreases pairs.len() - i,
    {
        let (k, v) = &pairs[i];
        copy.push((k.clone(), v.clone()));
        assert(copy@ =~= pairs@.take(i + 1 as int));
        i = i + 1;
    }
    assert(pairs@.take(pairs@.len() as int) =~= pairs@);
    copy
}

/// A path of an ingress rule.
pub struct PathPlan {
    pub path: String,
    pub service_name: String,
    pub service_port: i32,
    pub path_type: String,
}

/// An ingress rule: the paths of one host.
pub struct RulePlan {
    pub host: String,
    pub paths: Vec<PathPlan>,
}

/// The TLS settings of an ingress for some hosts: the secret holding their
/// certificate.
pub struct TlsPlan {
    pub hosts: Vec<String>,
    pub secret_name: String,
}

/// The ingress to create for a runtime.
pub struct IngressPlan {
    pub name: String,
    pub namespace: String,
    pub annotations: Option<Vec<(String, String)>>,
    pub labels: Option<Vec<(String, String)>>,
    pub class_name: Option<String>,
    pub rules: Option<Vec<RulePlan>>,
    pub tls: Option<Vec<TlsPlan>>,
}

/// How every ingress path matches requests.
pub const INGRESS_PATH_TYPE: &'static str = "ImplementationSpecific";

pub open spec fn path_view(p: PathPlan) -> (Seq<char>, Seq<char>, int, Seq<char>) {
    (p.path@, p.service_name@, p.service_port as int, p.path_type@)
}

/// The ingress path a path configuration asks for.
pub open spec fn path_of(p: PathConfig) -> (Seq<char>, Seq<char>, int, Seq<char>) {
    (p.path@, p.service_name@, p.service_port as int, INGRESS_PATH_TYPE@)
}

pub open spec fn rule_view(r: RulePlan) -> (Seq<char>, Seq<(Seq<char>, Seq<char>, int, Seq<char>)>) {
    (r.host@, r.paths@.map_values(|p: PathPlan| path_view(p)))
}

/// The ingress rule a host configuration asks for.
pub open spec fn rule_of(h: HostConfig) -> (Seq<char>, Seq<(Seq<char>, Seq<char>, int, Seq<char>)>) {
    (h.hostname@, h.paths@.map_values(|p: PathConfig| path_of(p)))
}

pub open spec fn tls_view(t: TlsPlan) -> (Seq<Seq<char>>, Seq<char>) {
    (t.hosts@.map_values(|s: String| s@), t.secret_name@)
}

/// The TLS entry of a host: its name, and the secret `tls-` and the host's name.
pub open spec fn tls_of(h: HostConfig) -> (Seq<Seq<char>>, Seq<char>) {
    (seq![h.hostname@], "tls-"@ + h.name@)
}

pub open spec fn is_tls(h: HostConfig) -> bool {
    h.tls
}

/// The name of a runtime's ingress: the one configured, or `ing-` and the
/// runtime's name.
pub open spec fn ingress_name(config: RuntimeConfig) -> Seq<char> {
    match config.ingress.name {
        Some(n) => n@,
        None => "ing-"@ + config.name@,
    }
}

/// The ingress paths of a host.
pub fn path_plans(paths: &Vec<PathConfig>) -> (plans: Vec<PathPlan>)
    ensures
        plans@.map_values(|p: PathPlan| path_view(p)) == paths@.map_values(|p: PathConfig| path_of(p)),
        plans@.len() == paths@.len(),
        forall|i: int|
            0 <= i < paths@.len() ==> {
                &&& (#[trigger] plans@[i]).path@ == paths@[i].path@
                &&& plans@[i].service_name@ == paths@[i].service_name@
                &&& plans@[i].service_port == paths@[i].service_port as i32
                &&& plans@[i].path_type@ == "ImplementationSpecific"@
            },
{
    let mut plans: Vec<PathPlan> = Vec::new();
    let mut i: usize = 0;
    while i < paths.len()
        invariant
            i <= paths@.len(),
            plans@.map_values(|p: PathPlan| path_view(p)) == paths@.take(i as int).map_values(
                |p: PathConfig| path_of(p),
            ),
        decreases paths.len() - i,
    {
        let p = &paths[i];
        let ghost before = plans@;
        plans.push(PathPlan {
            path: p.path.clone(),
            service_name: p.service_name.clone(),
            service_port: p.service_port as i32,
            path_type: String::from_str(INGRESS_PATH_TYPE),
        });
        proof {
            assert(paths@.take(i + 1 as int) =~= paths@.take(i as int).push(paths@[i as int]));
            assert(path_view(plans@.last()) == path_of(paths@[i as int]));
            assert(plans@ == before.push(plans@.last()));
            assert(plans@.map_values(|p: PathPlan| path_view(p)) =~= before.map_values(|p: PathPlan| path_view(p)).push(
                path_view(plans@.last()),
            ));
            assert(plans@.map_values(|p: PathPlan| path_view(p)) =~= paths@.take(i + 1 as int).map_values(
                |p: PathConfig| path_of(p),
            ));
        }
        i = i + 1;
    }
    assert(paths@.take(paths@.len() as int) =~= paths@);
    proof {
        law_path_plans_carry_config(plans@, paths@);
    }
    plans
}

/// The rules of an ingress: one for each host with TLS, in order.
pub fn rule_plans(hosts: &Vec<HostConfig>) -> (rules: Vec<RulePlan>)
    ensures
        rules@.map_values(|r: RulePlan| rule_view(r)) == hosts@.filter(|h: HostConfig| is_tls(h)).map_values(
            |h: HostConfig| rule_of(h),
        ),
{
    let mut rules: Vec<RulePlan> = Vec::new();
    let mut i: usize = 0;
    proof {
        reveal(Seq::filter);
        assert(hosts@.take(0).filter(|h: HostConfig| is_tls(h)) =~= Seq::<HostConfig>::empty());
    }
    while i < hosts.len()
        invariant
            i <= hosts@.len(),
            rules@.map_values(|r: RulePlan| rule_view(r)) == hosts@.take(i as int).filter(
                |h: HostConfig| is_tls(h),
            ).map_values(|h: HostConfig| rule_of(h)),
        decreases hosts.len() - i,
    {
        let h = &hosts[i];
        let ghost before = rules@;
        let ghost prefix = hosts@.take(i as int);
        proof {
            reveal(Seq::filter);
            assert(hosts@.take(i + 1 as int).drop_last() =~= prefix);
            assert(hosts@.take(i + 1 as int).last() == hosts@[i as int]);
        }
        if h.tls {
            rules.push(RulePlan { host: h.hostname.clone(), paths: path_plans(&h.paths) });
            proof {
                assert(rule_view(rules@.last()) == rule_of(hosts@[i as int]));
                assert(rules@ == before.push(rules@.last()));
                assert(rules@.map_values(|r: RulePlan| rule_view(r)) =~= before.map_values(|r: RulePlan| rule_view(r)).push(
                    rule_view(rules@.last()),
                ));
                assert(hosts@.take(i + 1 as int).filter(|h: HostConfig| is_tls(h)) == prefix.filter(
                    |h: HostConfig| is_tls(h),
                ).push(hosts@[i as int]));
                assert(rules@.map_values(|r: RulePlan| rule_view(r)) =~= hosts@.take(i + 1 as int).filter(
                    |h: HostConfig| is_tls(h),
                ).map_values(|h: HostConfig| rule_of(h)));
            }
        } else {
            proof {
                assert(hosts@.take(i + 1 as int).filter(|h: HostConfig| is_tls(h)) == prefix.filter(
                    |h: HostConfig| is_tls(h),
                ));
            }
        }
        i = i + 1;
    }
    assert(hosts@.take(hosts@.len() as int) =~= hosts@);
    rules
}

/// The TLS entries of an ingress: one for each host, in order.
pub fn tls_plans(hosts: &Vec<HostConfig>) -> (tls: Vec<TlsPlan>)
    ensures
        tls@.map_values(|t: TlsPlan| tls_view(t)) == hosts@.map_values(|h: HostConfig| tls_of(h)),
{
    let mut tls: Vec<TlsPlan> = Vec::new();
    let mut i: usize = 0;
    while i < hosts.len()
        invariant
            i <= hosts@.len(),
            tls@.map_values(|t: TlsPlan| tls_view(t)) == hosts@.take(i as int).map_values(|h: HostConfig| tls_of(h)),
        decreases hosts.len() - i,
    {
        let h = &hosts[i];
        let ghost before = tls@;
        let mut names: Vec<String> = Vec::new();
        names.push(h.hostname.clone());
        tls.push(TlsPlan { hosts: names, secret_name: concat("tls-", h.name.as_str()) });
        proof {
            assert(tls@.last().hosts@.map_values(|s: String| s@) =~= seq![h.hostname@]);
            assert(tls_view(tls@.last()) == tls_of(hosts@[i as int]));
            assert(hosts@.take(i + 1 as int) =~= hosts@.take(i as int).push(hosts@[i as int]));
            assert(tls@ == before.push(tls@.last()));
            assert(tls@.map_values(|t: TlsPlan| tls_view(t)) =~= before.map_values(|t: TlsPlan| tls_view(t)).push(
                tls_view(tls@.last()),
            ));
            assert(tls@.map_values(|t: TlsPlan| tls_view(t)) =~= hosts@.take(i + 1 as int).map_values(
                |h: HostConfig| tls_of(h),
            ));
        }
        i = i + 1;
    }
    assert(hosts@.take(hosts@.len() as int) =~= hosts@);
    tls
}

/// Whether some host asks for TLS.
pub fn any_tls(hosts: &Vec<HostConfig>) -> (any: bool)
    ensures
        any == exists|i: int| 0 <= i < hosts@.len() && is_tls(#[trigger] hosts@[i]),
{
    let mut i: usize = 0;
    while i < hosts.len()
        invariant
            i <= hosts@.len(),
            forall|j: int| 0 <= j < i ==> !is_tls(#[trigger] hosts@[j]),
        decreases hosts.len() - i,
    {
        if hosts[i].tls {
            assert(is_tls(hosts@[i as int]));
            return true;
        }
        i = i + 1;
    }
    false
}

/// The ingress of a runtime: its name (see `ingress_name`); its annotations
/// and labels, or none where there are none; its class; when it has hosts,
/// a rule for each host with TLS; and, when some host asks for TLS, a TLS
/// entry for every host.
pub fn ingress_plan(namespace: &Option<String>, config: &RuntimeConfig) -> (plan: IngressPlan)
    ensures
        plan.name@ == ingress_name(*config),
        plan.namespace@ == (match namespace {
            Some(n) => n@,
            None => DEFAULT_NAMESPACE@,
        }),
        plan.annotations is None <==> config.ingress.annotations@.len() == 0,
        plan.annotations matches Some(a) ==> a@ == config.ingress.annotations@,
        plan.labels is None <==> config.ingress.labels@.len() == 0,
        plan.labels matches Some(l) ==> l@ == config.ingress.labels@,
        plan.class_name == config.ingress.class_name,
        config.ingress.hosts@.len() == 0 ==> plan.rules is None,
        config.ingress.hosts@.len() > 0 ==> (plan.rules matches Some(rules)
            && rules@.map_values(|r: RulePlan| rule_view(r)) == config.ingress.hosts@.filter(
            |h: HostConfig| is_tls(h),
        ).map_values(|h: HostConfig| rule_of(h))),
        !(exists|i: int| 0 <= i < config.ingress.hosts@.len() && is_tls(#[trigger] config.ingress.hosts@[i]))
            ==> plan.tls is None,
        (exists|i: int| 0 <= i < config.ingress.hosts@.len() && is_tls(#[trigger] config.ingress.hosts@[i]))
            ==> (plan.tls matches Some(tls) && tls@.map_values(|t: TlsPlan| tls_view(t))
            == config.ingress.hosts@.map_values(|h: HostConfig| tls_of(h))),
{
    let ingress = &config.ingress;
    let name = match &ingress.name {
        Some(n) => n.clone(),
        None => concat("ing-", config.name.as_str()),
    };
    let annotations = if ingress.annotations.len() == 0 {
        None
    } else {
        Some(clone_pairs(&ingress.annotations))
    };
    let labels = if ingress.labels.len() == 0 {
        None
    } else {
        Some(clone_pairs(&ingress.labels))
    };
    let rules = if ingress.hosts.len() == 0 {
        None
    } else {
        Some(rule_plans(&ingress.hosts))
    };
    let tls = if ingress.hosts.len() == 0 || !any_tls(&ingress.hosts) {
        None
    } else {
        Some(tls_plans(&ingress.hosts))
    };
    let class_name = ingress.class_name.clone();
    IngressPlan {
        name,
        namespace: namespace_or_default(namespace),
        annotations,
        labels,
        class_name,
        rules,
        tls,
    }
}

/// The deployment to create for a runtime: patched under the runtime's
/// name, selecting the pods labelled with its `app`, rolled out a quarter
/// at a time.
pub struct DeploymentPlan {
    pub name: String,
    pub namespace: String,
    /// The value of the `app` label the deployment selects.
    pub app: String,
    pub strategy: String,
    pub max_surge: String,
    pub max_unavailable: String,
}

/// How deployments roll out.
pub const ROLLOUT_STRATEGY: &'static str = "RollingUpdate";

/// How many pods a rollout may add, and take away, at a time.
pub const ROLLOUT_STEP: &'static str = "25%";

/// The deployment of a runtime.
pub fn deployment_plan(namespace: &Option<String>, config: &RuntimeConfig) -> (plan: DeploymentPlan)
    ensures
        plan.name@ == config.name@,
        plan.namespace@ == (match namespace {
            Some(n) => n@,
            None => DEFAULT_NAMESPACE@,
        }),
        plan.app@ == config.name@,
        plan.strategy@ == ROLLOUT_STRATEGY@,
        plan.max_surge@ == ROLLOUT_STEP@,
        plan.max_unavailable@ == ROLLOUT_STEP@,
{
    DeploymentPlan {
        name: config.name.clone(),
        namespace: namespace_or_default(namespace),
        app: config.name.clone(),
        strategy: String::from_str(ROLLOUT_STRATEGY),
        max_surge: String::from_str(ROLLOUT_STEP),
        max_unavailable: String::from_str(ROLLOUT_STEP),
    }
}

/// A config map that holds the settings of a runtime: its name, and its
/// data as key-value pairs in key order, each key once.
#[derive(Debug, Clone, Default, PartialEq)]
pub struct RuntimeConfigMap {
    pub name: Option<String>,
    pub data: Option<Vec<(String, String)>>,
}

/// The value stored under `key`, if any.
pub open spec fn lookup(data: Seq<(String, String)>, key: Seq<char>) -> Option<Seq<char>>
    decreases data.len(),
{
    if data.len() == 0 {
        None
    } else if data[0].0@ == key {
        Some(data[0].1@)
    } else {
        lookup(data.drop_first(), key)
    }
}

/// The value stored under `key` in a config map's data, if it has data.
pub open spec fn data_value(map: RuntimeConfigMap, key: Seq<char>) -> Option<Seq<char>> {
    match map.data {
        Some(d) => lookup(d@, key),
        None => None,
    }
}

/// The value stored under `key`, if any.
pub fn find_value<'a>(data: &'a Vec<(String, String)>, key: &str) -> (value: Option<&'a String>)
    ensures
        match value {
            Some(v) => lookup(data@, key@) == Some(v@),
            None => lookup(data@, key@) is None,
        },
{
    let wanted = String::from_str(key);
    let mut i: usize = 0;
    assert(data@.skip(0) =~= data@);
    while i < data.len()
        invariant
            i <= data@.len(),
            wanted@ == key@,
            lookup(data@, key@) == lookup(data@.skip(i as int), key@),
        decreases data.len() - i,
    {
        assert(data@.skip(i as int).drop_first() =~= data@.skip(i + 1 as int));
        if data[i].0 == wanted {
            return Some(&data[i].1);
        }
        i = i + 1;
    }
    None
}

impl RuntimeConfigMap {
    /// The config map's name.
    pub fn name(&self) -> (name: Option<&String>)
        ensures
            match name {
                Some(n) => self.name == Some(*n),
                None => self.name is None,
            },
    {
        match &self.name {
            Some(n) => Some(n),
            None => None,
        }
    }

    fn value(&self, key: &str) -> (value: Option<&String>)
        ensures
            match value {
                Some(v) => data_value(*self, key@) == Some(v@),
                None => data_value(*self, key@) is None,
            },
    {
        match &self.data {
            Some(d) => find_value(d, key),
            None => None,
        }
    }

    /// The runtime's id, stored under `uuid`.
    pub fn uuid(&self) -> (uuid: Option<&String>)
        ensures
            match uuid {
                Some(v) => data_value(*self, "uuid"@) == Some(v@),
                None => data_value(*self, "uuid"@) is None,
            },
    {
        self.value("uuid")
    }

    /// The runtime's pod, stored under `pod_name`.
    pub fn pod_name(&self) -> (pod: Option<&String>)
        ensures
            match pod {
                Some(v) => data_value(*self, "pod_name"@) == Some(v@),
                None => data_value(*self, "pod_name"@) is None,
            },
    {
        self.value("pod_name")
    }

    /// Whether the operator manages the runtime: `managed` holds `true`, in
    /// any case.
    pub fn managed(&self) -> (managed: bool)
        ensures
            managed == (match data_value(*self, "managed"@) {
                Some(v) => eq_ignore_ascii_case(v, "true"@),
                None => false,
            }),
    {
        match self.value("managed") {
            Some(v) => {
                let chars = chars_of(v.as_str());
                let yes = chars_of("true");
                chars_eq_ignore_ascii_case(&chars, &yes)
            },
            None => false,
        }
    }

    /// The JSON text of the runtime's settings, stored under `config.json`.
    pub fn config_json(&self) -> (json: Option<&String>)
        ensures
            match json {
                Some(v) => data_value(*self, "config.json"@) == Some(v@),
                None => data_value(*self, "config.json"@) is None,
            },
    {
        self.value("config.json")
    }
}

/// Whether a config map holds runtime settings: its name carries the prefix.
pub open spec fn is_runtime_config(map: RuntimeConfigMap) -> bool {
    match map.name {
        Some(n) => has_prefix(n@, DEFAULT_CONFIG_PREFIX@),
        None => false,
    }
}

/// The config maps that hold runtime settings, in the order listed.
pub fn runtime_configs(maps: Vec<RuntimeConfigMap>) -> (configs: Vec<RuntimeConfigMap>)
    ensures
        configs@ == maps@.filter(|m: RuntimeConfigMap| is_runtime_config(m)),
{
    let ghost all = maps@;
    let total = maps.len();
    assert(all.len() == total);
    let mut rest = maps;
    let mut configs: Vec<RuntimeConfigMap> = Vec::new();
    let mut taken: usize = 0;
    proof {
        reveal(Seq::filter);
        assert(all.take(0).filter(|m: RuntimeConfigMap| is_runtime_config(m)) =~= Seq::<RuntimeConfigMap>::empty());
        assert(rest@ =~= all.skip(0));
    }
    while rest.len() > 0
        invariant
            taken <= all.len(),
            all.len() <= usize::MAX,
            rest@ == all.skip(taken as int),
            configs@ == all.take(taken as int).filter(|m: RuntimeConfigMap| is_runtime_config(m)),
        decreases rest.len(),
    {
        let m = rest.remove(0);
        let keep = match &m.name {
            Some(n) => starts_with(n.as_str(), DEFAULT_CONFIG_PREFIX),
            None => false,
        };
        proof {
            reveal(Seq::filter);
            assert(m == all[taken as int]);
            assert(all.take(taken + 1 as int).drop_last() =~= all.take(taken as int));
            assert(all.take(taken + 1 as int).last() == all[taken as int]);
            assert(rest@ =~= all.skip(taken + 1 as int));
        }
        if keep {
            configs.push(m);
        }
        taken = taken + 1;
    }
    assert(all.take(taken as int) =~= all);
    configs
}

/// Where deploying a runtime stands.
#[derive(Clone, Copy, PartialEq, Eq, Structural, Debug)]
pub enum DeployStep {
    /// Look up the claim of the volume at this position.
    CheckClaim(usize),
    /// Create the claim of the volume at this position.
    CreateClaim(usize),
    /// Apply the deployment.
    PatchDeployment,
    /// Look up the runtime's service.
    CheckService,
    /// Create the runtime's service.
    CreateService,
    /// Look up the runtime's ingress.
    CheckIngress,
    /// Create the runtime's ingress.
    CreateIngress,
    /// The runtime is deployed.
    Done,
}

/// The step after the claims of the volumes before `next` are in place.
pub open spec fn claims_from(next: nat, volumes: nat) -> DeployStep {
    if next < volumes {
        DeployStep::CheckClaim(next as usize)
    } else {
        DeployStep::PatchDeployment
    }
}

/// The step after `step`, where `found` tells whether a lookup found the
/// object (it is not read after other steps): every volume's claim is looked
/// up and created where missing, then the deployment is applied, then the
/// service and the ingress are each looked up and created where missing.
pub open spec fn deploy_next(step: DeployStep, found: bool, volumes: nat) -> DeployStep {
    match step {
        DeployStep::CheckClaim(i) => if found {
            claims_from((i + 1) as nat, volumes)
        } else {
            DeployStep::CreateClaim(i)
        },
        DeployStep::CreateClaim(i) => claims_from((i + 1) as nat, volumes),
        DeployStep::PatchDeployment => DeployStep::CheckService,
        DeployStep::CheckService => if found {
            DeployStep::CheckIngress
        } else {
            DeployStep::CreateService
        },
        DeployStep::CreateService => DeployStep::CheckIngress,
        DeployStep::CheckIngress => if found {
            DeployStep::Done
        } else {
            DeployStep::CreateIngress
        },
        DeployStep::CreateIngress => DeployStep::Done,
        DeployStep::Done => DeployStep::Done,
    }
}

/// The first step of deploying a runtime with `volumes` volumes.
pub fn deploy_start(volumes: usize) -> (step: DeployStep)
    ensures
        step == claims_from(0, volumes as nat),
{
    if volumes > 0 {
        DeployStep::CheckClaim(0)
    } else {
        DeployStep::PatchDeployment
    }
}

/// The step after `step`: see `deploy_next`.
pub fn deploy_step(step: DeployStep, found: bool, volumes: usize) -> (next: DeployStep)
    requires
        step matches DeployStep::CheckClaim(i) ==> i < volumes,
        step matches DeployStep::CreateClaim(i) ==> i < volumes,
    ensures
        next == deploy_next(step, found, volumes as nat),
{
    match step {
        DeployStep::CheckClaim(i) => if found {
            if i + 1 < volumes {
                DeployStep::CheckClaim(i + 1)
            } else {
                DeployStep::PatchDeployment
            }
        } else {
            DeployStep::CreateClaim(i)
        },
        DeployStep::CreateClaim(i) => if i + 1 < volumes {
            DeployStep::CheckClaim(i + 1)
        } else {
            DeployStep::PatchDeployment
        },
        DeployStep::PatchDeployment => DeployStep::CheckService,
        DeployStep::CheckService => if found {
            DeployStep::CheckIngress
        } else {
            DeployStep::CreateService
        },
        DeployStep::CreateService => DeployStep::CheckIngress,
        DeployStep::CheckIngress => if found {
            DeployStep::Done
        } else {
            DeployStep::CreateIngress
        },
        DeployStep::CreateIngress => DeployStep::Done,
        DeployStep::Done => DeployStep::Done,
    }
}

/// The steps of deploying the volumes' claims from volume `from` on, where
/// `claims` tells for each volume whether its claim exists: a lookup for
/// each, followed by a creation where it is missing.
pub open spec fn claim_steps(claims: Seq<bool>, from: nat) -> Seq<DeployStep>
    decreases claims.len() - from,
{
    if from >= claims.len() {
        Seq::empty()
    } else {
        seq![DeployStep::CheckClaim(from as usize)] + (if claims[from as int] {
            Seq::empty()
        } else {
            seq![DeployStep::CreateClaim(from as usize)]
        }) + claim_steps(claims, from + 1)
    }
}

/// The steps after the claims: apply the deployment, then look up the
/// service and the ingress, each created where missing.
pub open spec fn final_steps(service_found: bool, ingress_found: bool) -> Seq<DeployStep> {
    seq![DeployStep::PatchDeployment, DeployStep::CheckService] + (if service_found {
        Seq::empty()
    } else {
        seq![DeployStep::CreateService]
    }) + seq![DeployStep::CheckIngress] + (if ingress_found {
        Seq::empty()
    } else {
        seq![DeployStep::CreateIngress]
    })
}

/// What a lookup step finds, given what exists.
pub open spec fn found_at(step: DeployStep, claims: Seq<bool>, service_found: bool, ingress_found: bool) -> bool {
    match step {
        DeployStep::CheckClaim(i) => claims[i as int],
        DeployStep::CheckService => service_found,
        DeployStep::CheckIngress => ingress_found,
        _ => false,
    }
}

/// Whether `steps` is what the step function walks through, one step after
/// another, ending in `Done`.
pub open spec fn walks(steps: Seq<DeployStep>, claims: Seq<bool>, service_found: bool, ingress_found: bool) -> bool {
    &&& forall|k: int|
        0 <= k < steps.len() - 1 ==> deploy_next(
            #[trigger] steps[k],
            found_at(steps[k], claims, service_found, ingress_found),
            claims.len(),
        ) == steps[k + 1]
    &&& steps.len() > 0 ==> deploy_next(
        steps.last(),
        found_at(steps.last(), claims, service_found, ingress_found),
        claims.len(),
    ) == DeployStep::Done
}

proof fn lemma_final_steps_walk(claims: Seq<bool>, service_found: bool, ingress_found: bool)
    ensures
        walks(final_steps(service_found, ingress_found), claims, service_found, ingress_found),
        final_steps(service_found, ingress_found)[0] == DeployStep::PatchDeployment,
{
    let steps = final_steps(service_found, ingress_found);
    assert forall|k: int|
        0 <= k < steps.len() - 1 implies deploy_next(
        #[trigger] steps[k],
        found_at(steps[k], claims, service_found, ingress_found),
        claims.len(),
    ) == steps[k + 1] by {
    }
}

proof fn lemma_claim_steps_walk(claims: Seq<bool>, from: nat, service_found: bool, ingress_found: bool)
    requires
        from <= claims.len(),
        claims.len() <= usize::MAX,
    ensures
        walks(
            claim_steps(claims, from) + final_steps(service_found, ingress_found),
            claims,
            service_found,
            ingress_found,
        ),
        (claim_steps(claims, from) + final_steps(service_found, ingress_found))[0] == claims_from(
            from,
            claims.len(),
        ),
    decreases claims.len() - from,
{
    let tail = final_steps(service_found, ingress_found);
    lemma_final_steps_walk(claims, service_found, ingress_found);
    if from < claims.len() {
        lemma_claim_steps_walk(claims, from + 1, service_found, ingress_found);
        let rest = claim_steps(claims, from + 1) + tail;
        let head: Seq<DeployStep> = seq![DeployStep::CheckClaim(from as usize)] + (if claims[from as int] {
            Seq::empty()
        } else {
            seq![DeployStep::CreateClaim(from as usize)]
        });
        let steps = claim_steps(claims, from) + tail;
        assert(steps =~= head + rest);
        assert(rest[0] == claims_from(from + 1, claims.len()));
        assert forall|k: int|
            0 <= k < steps.len() - 1 implies deploy_next(
            #[trigger] steps[k],
            found_at(steps[k], claims, service_found, ingress_found),
            claims.len(),
        ) == steps[k + 1] by {
            if k >= head.len() {
                assert(steps[k] == rest[k - head.len()]);
                assert(steps[k + 1] == rest[k - head.len() + 1]);
            }
        }
        assert(steps.last() == rest.last());
    } else {
        assert(claim_steps(claims, from) + tail =~= tail);
    }
}

/// Deploying a runtime looks up every volume's claim in order and creates
/// exactly those that are missing, then applies the deployment, then looks
/// up the service and the ingress and creates each only where it is missing:
/// from the first step, the step function walks through `claim_steps`
/// followed by `final_steps` and then stops.
pub proof fn law_deploy_creates_what_is_missing(claims: Seq<bool>, service_found: bool, ingress_found: bool)
    requires
        claims.len() <= usize::MAX,
    ensures
        ({
            let steps = claim_steps(claims, 0) + final_steps(service_found, ingress_found);
            &&& steps[0] == claims_from(0, claims.len())
            &&& walks(steps, claims, service_found, ingress_found)
        }),
{
    lemma_claim_steps_walk(claims, 0, service_found, ingress_found);
}

/// Each planned ingress path carries its configuration as it is: the
/// configured path, then the service's name and port, with the path type
/// `ImplementationSpecific`.
pub proof fn law_path_plans_carry_config(plans: Seq<PathPlan>, paths: Seq<PathConfig>)
    requires
        plans.map_values(|p: PathPlan| path_view(p)) == paths.map_values(|p: PathConfig| path_of(p)),
    ensures
        plans.len() == paths.len(),
        forall|i: int|
            0 <= i < paths.len() ==> {
                &&& (#[trigger] plans[i]).path@ == paths[i].path@
                &&& plans[i].service_name@ == paths[i].service_name@
                &&& plans[i].service_port == paths[i].service_port as i32
                &&& plans[i].path_type@ == "ImplementationSpecific"@
            },
{
    reveal_strlit("ImplementationSpecific");
    let a = plans.map_values(|p: PathPlan| path_view(p));
    let b = paths.map_values(|p: PathConfig| path_of(p));
    assert(a.len() == plans.len());
    assert(b.len() == paths.len());
    assert(a == b);
    assert forall|i: int| 0 <= i < paths.len() implies {
        &&& (#[trigger] plans[i]).path@ == paths[i].path@
        &&& plans[i].service_name@ == paths[i].service_name@
        &&& plans[i].service_port == paths[i].service_port as i32
        &&& plans[i].path_type@ == "ImplementationSpecific"@
    } by {
        assert(a[i] == b[i]);
        assert(path_view(plans[i]) == path_of(paths[i]));
    }
}

/// Each planned ingress rule carries its host's configuration: the host's
/// name, and for each of its paths the configured path, the service's name
/// and port, with the path type `ImplementationSpecific`.
pub proof fn law_ingress_rules_carry_config(rules: Seq<RulePlan>, hosts: Seq<HostConfig>)
    requires
        rules.map_values(|r: RulePlan| rule_view(r)) == hosts.map_values(|h: HostConfig| rule_of(h)),
    ensures
        rules.len() == hosts.len(),
        forall|i: int|
            0 <= i < hosts.len() ==> (#[trigger] rules[i]).host@ == hosts[i].hostname@ && rules[i].paths@.len()
                == hosts[i].paths@.len(),
        forall|i: int, j: int|
            0 <= i < hosts.len() && 0 <= j < hosts[i].paths@.len() ==> {
                &&& (#[trigger] rules[i].paths@[j]).path@ == hosts[i].paths@[j].path@
                &&& rules[i].paths@[j].service_name@ == hosts[i].paths@[j].service_name@
                &&& rules[i].paths@[j].service_port == hosts[i].paths@[j].service_port as i32
                &&& rules[i].paths@[j].path_type@ == "ImplementationSpecific"@
            },
{
    let a = rules.map_values(|r: RulePlan| rule_view(r));
    let b = hosts.map_values(|h: HostConfig| rule_of(h));
    assert(a.len() == rules.len());
    assert(b.len() == hosts.len());
    assert(a == b);
    assert forall|i: int| 0 <= i < hosts.len() implies (#[trigger] rules[i]).host@ == hosts[i].hostname@
        && rules[i].paths@.len() == hosts[i].paths@.len() && forall|j: int|
        0 <= j < hosts[i].paths@.len() ==> {
            &&& (#[trigger] rules[i].paths@[j]).path@ == hosts[i].paths@[j].path@
            &&& rules[i].paths@[j].service_name@ == hosts[i].paths@[j].service_name@
            &&& rules[i].paths@[j].service_port == hosts[i].paths@[j].service_port as i32
            &&& rules[i].paths@[j].path_type@ == "ImplementationSpecific"@
        } by {
        assert(a[i] == b[i]);
        assert(rule_view(rules[i]) == rule_of(hosts[i]));
        law_path_plans_carry_config(rules[i].paths@, hosts[i].paths@);
    }
}

/// The fixed names and settings of the operator's plans: the namespace
/// `portfu-infrastructure`, configuration maps and pods named with the
/// prefixes `portfu-config-` and `portfu-`, claims of `5Gi` unless a volume
/// says otherwise, with one `ReadWriteOnce` access, ingress paths of type
/// `ImplementationSpecific`, and rolling updates by steps of `25%`.
pub proof fn law_operator_settings()
    ensures
        DEFAULT_NAMESPACE@ == "portfu-infrastructure"@,
        DEFAULT_CONFIG_PREFIX@ == "portfu-config-"@,
        DEFAULT_POD_PREFIX@ == "portfu-"@,
        DEFAULT_STORAGE_SIZE@ == "5Gi"@,
        CLAIM_ACCESS_MODE@ == "ReadWriteOnce"@,
        INGRESS_PATH_TYPE@ == "ImplementationSpecific"@,
        ROLLOUT_STRATEGY@ == "RollingUpdate"@,
        ROLLOUT_STEP@ == "25%"@,
{
}

/// A volume's claim is named as the volume says, else `pvc-` and the
/// volume's name; an ingress is named as configured, else `ing-` and the
/// runtime's name.
pub proof fn law_plan_names(volume: VolumeConfig, config: RuntimeConfig)
    ensures
        volume.claim_name matches Some(c) ==> claim_name(volume) == c@,
        volume.claim_name is None ==> claim_name(volume) == seq!['p', 'v', 'c', '-'] + volume.name@,
        config.ingress.name matches Some(n) ==> ingress_name(config) == n@,
        config.ingress.name is None ==> ingress_name(config) == seq!['i', 'n', 'g', '-'] + config.name@,
{
    reveal_strlit("pvc-");
    reveal_strlit("ing-");
    assert("pvc-"@ =~= seq!['p', 'v', 'c', '-']);
    assert("ing-"@ =~= seq!['i', 'n', 'g', '-']);
}

/// Each planned service port carries its configuration as it is: the
/// configured name, port and target port.
pub proof fn law_service_ports_carry_config(ports: Seq<PortPlan>, services: Seq<ServiceConfig>)
    requires
        ports.map_values(|p: PortPlan| port_view(p)) == services.map_values(|s: ServiceConfig| port_of(s)),
    ensures
        ports.len() == services.len(),
        forall|i: int|
            0 <= i < services.len() ==> {
                &&& (#[trigger] ports[i]).name@ == services[i].name@
                &&& ports[i].port as int == services[i].port as int
                &&& ports[i].target_port as int == services[i].target_port as int
            },
{
    let a = ports.map_values(|p: PortPlan| port_view(p));
    let b = services.map_values(|s: ServiceConfig| port_of(s));
    assert(a.len() == ports.len());
    assert(b.len() == services.len());
    assert(a == b);
    assert forall|i: int| 0 <= i < services.len() implies {
        &&& (#[trigger] ports[i]).name@ == services[i].name@
        &&& ports[i].port as int == services[i].port as int
        &&& ports[i].target_port as int == services[i].target_port as int
    } by {
        assert(a[i] == b[i]);
    }
}

} // verus!
