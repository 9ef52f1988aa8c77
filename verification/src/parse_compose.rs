//! The service-topology model and its cross-reference validation: restart
//! policies drawn from a fixed set, network memberships resolving to declared
//! networks, and dependency references resolving to declared services.

use vstd::prelude::*;

use crate::util::str_eq;

verus! {

broadcast use vstd::string::group_string_axioms;

// ---------------------------------------------------------------------------
// The topology model
// ---------------------------------------------------------------------------

/// Health-check parameters of one service.
#[derive(Debug, Clone, PartialEq, Eq)]
pub struct Healthcheck {
    pub test: Vec<String>,
    pub interval: Option<String>,
    pub timeout: Option<String>,
    pub retries: Option<i32>,
    pub start_period: Option<String>,
}

/// A named readiness condition of a dependency.
#[derive(Debug, Clone, PartialEq, Eq)]
pub struct Condition {
    pub condition: String,
}

/// A dependency specification: either a plain list of service names or a
/// mapping from service name to a readiness condition.
#[derive(Debug, Clone, PartialEq, Eq)]
pub enum DependsOn {
    List(Vec<String>),
    Conditions(Vec<(String, Condition)>),
}

/// Logging configuration of one service.
#[derive(Debug, Clone, PartialEq, Eq)]
pub struct Logging {
    pub driver: String,
    pub options: Option<Vec<(String, String)>>,
}

/// An address range in a network configuration, kept as text.
#[derive(Debug, Clone, PartialEq, Eq)]
pub enum IpNetwork {
    V4(String),
    V6(String),
}

#[derive(Debug, Clone, PartialEq, Eq)]
pub struct SubnetConfig {
    pub subnet: IpNetwork,
}

#[derive(Debug, Clone, PartialEq, Eq)]
pub struct Ipam {
    pub driver: Option<String>,
    pub config: Option<Vec<SubnetConfig>>,
}

/// A declared network.
#[derive(Debug, Clone, PartialEq, Eq)]
pub struct Network {
    pub enable_ipv6: Option<bool>,
    pub driver: Option<String>,
    pub ipam: Option<Ipam>,
    pub internal: Option<bool>,
}

/// One service of the topology.
#[derive(Debug, Clone, PartialEq, Eq)]
pub struct Service {
    pub image: Option<String>,
    pub container_name: Option<String>,
    pub command: Option<String>,
    pub restart: Option<String>,
    pub env_file: Option<String>,
    pub logging: Option<Logging>,
    /// Port declarations, normalized to text (a numeric entry in the source
    /// document is indistinguishable from its string form here).
    pub ports: Option<Vec<String>>,
    pub networks: Option<Vec<String>>,
    pub volumes: Option<Vec<String>>,
    pub depends_on: Option<DependsOn>,
    /// Resolver addresses, kept as text.
    pub dns: Option<Vec<String>>,
    pub hostname: Option<String>,
    pub environment: Option<Vec<(String, String)>>,
    pub extra_hosts: Option<Vec<String>>,
    pub healthcheck: Option<Healthcheck>,
}

impl Default for Service {
    /// A service with every field absent.
    fn default() -> (r: Self)
        ensures
            r == (Service {
                image: Option::None,
                container_name: Option::None,
                command: Option::None,
                restart: Option::None,
                env_file: Option::None,
                logging: Option::None,
                ports: Option::None,
                networks: Option::None,
                volumes: Option::None,
                depends_on: Option::None,
                dns: Option::None,
                hostname: Option::None,
                environment: Option::None,
                extra_hosts: Option::None,
                healthcheck: Option::None,
            }),
    {
        Service {
            image: None,
            container_name: None,
            command: None,
            restart: None,
            env_file: None,
            logging: None,
            ports: None,
            networks: None,
            volumes: None,
            depends_on: None,
            dns: None,
            hostname: None,
            environment: None,
            extra_hosts: None,
            healthcheck: None,
        }
    }
}

impl Default for Network {
    /// A network with every field absent.
    fn default() -> (r: Self)
        ensures
            r == (Network {
                enable_ipv6: Option::None,
                driver: Option::None,
                ipam: Option::None,
                internal: Option::None,
            }),
    {
        Network { enable_ipv6: None, driver: None, ipam: None, internal: None }
    }
}

/// One element of a port list as the source document gives it: text, a
/// native integer, or some other value shape.
#[derive(Debug, Clone, PartialEq, Eq)]
pub enum PortValue {
    Text(String),
    Number(u64),
    Other,
}

/// Normalizes one port-list element to text: a native integer becomes its
/// decimal numeral, so a numeric entry and its string form are
/// indistinguishable afterwards; any other value shape is rejected.
pub fn normalize_port_value(v: &PortValue) -> (r: Result<String, String>)
    ensures
        match v {
            PortValue::Text(s) => r matches Ok(o) && o@ == s@,
            PortValue::Number(n) => r matches Ok(o) && o@ == crate::util::dec_str(*n as nat),
            PortValue::Other => r matches Err(m) && m@ == "unexpected value type"@,
        },
{
    match v {
        PortValue::Text(s) => Ok(s.clone()),
        PortValue::Number(n) => Ok(crate::util::dec_of_u64(*n)),
        PortValue::Other => Err("unexpected value type".to_owned()),
    }
}

/// A service map alone, keyed by name.
#[derive(Debug, Clone, PartialEq, Eq)]
pub struct Services {
    pub services: Vec<(String, Service)>,
}

/// A whole topology document: services and, optionally, networks, each keyed
/// by name in document order with unique keys.
#[derive(Debug, Clone, PartialEq, Eq)]
pub struct Compose {
    pub version: Option<String>,
    pub services: Vec<(String, Service)>,
    pub networks: Option<Vec<(String, Network)>>,
}

// ---------------------------------------------------------------------------
// Validation: specification
// ---------------------------------------------------------------------------

/// The keys of a name-keyed entry list.
pub open spec fn keys_of<V>(s: Seq<(String, V)>) -> Seq<Seq<char>> {
    s.map_values(|p: (String, V)| p.0@)
}

pub open spec fn service_names(c: Compose) -> Seq<Seq<char>> {
    keys_of(c.services@)
}

pub open spec fn network_names(c: Compose) -> Seq<Seq<char>> {
    match c.networks {
        Option::Some(ns) => keys_of(ns@),
        Option::None => Seq::empty(),
    }
}

/// The closed set of accepted restart policies.
pub open spec fn restart_allowed(r: Seq<char>) -> bool {
    r == "no"@ || r == "always"@ || r == "on-failure"@ || r == "unless-stopped"@
}

/// The names a dependency specification refers to, in stored order.
pub open spec fn dep_names(d: DependsOn) -> Seq<Seq<char>> {
    match d {
        DependsOn::List(l) => l.deep_view(),
        DependsOn::Conditions(m) => keys_of(m@),
    }
}

/// Index of the first name in `ks` that `names` does not contain, or
/// `ks.len()` when every name resolves.
pub open spec fn first_missing(ks: Seq<Seq<char>>, names: Seq<Seq<char>>) -> int
    decreases ks.len(),
{
    if ks.len() == 0 {
        0
    } else if !names.contains(ks[0]) {
        0
    } else {
        1 + first_missing(ks.subrange(1, ks.len() as int), names)
    }
}

pub proof fn lemma_first_missing(ks: Seq<Seq<char>>, names: Seq<Seq<char>>)
    ensures
        0 <= first_missing(ks, names) <= ks.len(),
        forall|j: int| 0 <= j < first_missing(ks, names) ==> names.contains(#[trigger] ks[j]),
        first_missing(ks, names) < ks.len() ==> !names.contains(ks[first_missing(ks, names)]),
    decreases ks.len(),
{
    if ks.len() > 0 && names.contains(ks[0]) {
        let t = ks.subrange(1, ks.len() as int);
        lemma_first_missing(t, names);
        assert forall|j: int| 0 <= j < first_missing(ks, names) implies names.contains(
            #[trigger] ks[j],
        ) by {
            if j > 0 {
                assert(names.contains(t[j - 1]));
            }
        }
    }
}

/// The violation message for an unrecognized restart policy.
pub open spec fn msg_invalid_restart(r: Seq<char>, name: Seq<char>) -> Seq<char> {
    "Invalid restart value '"@ + r + "' for service '"@ + name + "'"@
}

/// The violation message for a network reference that does not resolve.
pub open spec fn msg_missing_network(net: Seq<char>, name: Seq<char>) -> Seq<char> {
    "Referenced network '"@ + net + "' not found for service '"@ + name + "'"@
}

/// The violation message for a dependency reference that does not resolve;
/// it names both the missing dependency and the referencing service.
pub open spec fn msg_missing_dependency(dep: Seq<char>, name: Seq<char>) -> Seq<char> {
    "Referenced service '"@ + dep + "' in depends_on not found for service '"@ + name + "'"@
}

/// The restart-policy violation of one service, if any.
pub open spec fn restart_violation(name: Seq<char>, s: Service) -> Option<Seq<char>> {
    match s.restart {
        Option::Some(r) => if !restart_allowed(r@) {
            Option::Some(msg_invalid_restart(r@, name))
        } else {
            Option::None
        },
        Option::None => Option::None,
    }
}

/// The first unresolved network reference of one service, if any.
pub open spec fn networks_violation(c: Compose, name: Seq<char>, s: Service) -> Option<Seq<char>> {
    match s.networks {
        Option::Some(nets) => {
            let fm = first_missing(nets.deep_view(), network_names(c));
            if fm < nets.deep_view().len() {
                Option::Some(msg_missing_network(nets.deep_view()[fm], name))
            } else {
                Option::None
            }
        },
        Option::None => Option::None,
    }
}

/// The first unresolved dependency reference of one service, if any.
pub open spec fn deps_violation(c: Compose, name: Seq<char>, s: Service) -> Option<Seq<char>> {
    match s.depends_on {
        Option::Some(d) => {
            let fm = first_missing(dep_names(d), service_names(c));
            if fm < dep_names(d).len() {
                Option::Some(msg_missing_dependency(dep_names(d)[fm], name))
            } else {
                Option::None
            }
        },
        Option::None => Option::None,
    }
}

/// The first violation of one service, checked in a fixed order: restart
/// policy, then network references, then dependency references.
pub open spec fn service_violation(c: Compose, name: Seq<char>, s: Service) -> Option<Seq<char>> {
    if restart_violation(name, s) is Some {
        restart_violation(name, s)
    } else if networks_violation(c, name, s) is Some {
        networks_violation(c, name, s)
    } else {
        deps_violation(c, name, s)
    }
}

/// The first violation across the whole model, services in stored order.
pub open spec fn first_violation(c: Compose, i: int) -> Option<Seq<char>>
    decreases c.services@.len() - i,
{
    if i < 0 || i >= c.services@.len() {
        Option::None
    } else {
        match service_violation(c, c.services@[i].0@, c.services@[i].1) {
            Option::Some(m) => Option::Some(m),
            Option::None => first_violation(c, i + 1),
        }
    }
}

/// One service passes every check.
pub open spec fn service_ok(c: Compose, s: Service) -> bool {
    &&& (s.restart matches Some(r) ==> restart_allowed(r@))
    &&& (s.networks matches Some(nets) ==> forall|j: int|
        0 <= j < nets.deep_view().len() ==> network_names(c).contains(
            #[trigger] nets.deep_view()[j],
        ))
    &&& (s.depends_on matches Some(d) ==> forall|j: int|
        0 <= j < dep_names(d).len() ==> service_names(c).contains(#[trigger] dep_names(d)[j]))
}

/// Every restart policy is drawn from the accepted set and every network and
/// dependency reference resolves.
pub open spec fn compose_valid(c: Compose) -> bool {
    forall|i: int|
        0 <= i < c.services@.len() ==> service_ok(c, (#[trigger] c.services@[i]).1)
}

/// A single service reports no violation exactly when it passes every check.
proof fn lemma_service_violation_none(c: Compose, name: Seq<char>, s: Service)
    ensures
        service_violation(c, name, s) is None <==> service_ok(c, s),
{
    match s.networks {
        Option::Some(nets) => lemma_first_missing(nets.deep_view(), network_names(c)),
        Option::None => (),
    }
    match s.depends_on {
        Option::Some(d) => lemma_first_missing(dep_names(d), service_names(c)),
        Option::None => (),
    }
}

proof fn lemma_first_violation_none(c: Compose, i: int)
    requires
        0 <= i <= c.services@.len(),
    ensures
        first_violation(c, i) is None <==> (forall|j: int|
            i <= j < c.services@.len() ==> service_ok(c, (#[trigger] c.services@[j]).1)),
    decreases c.services@.len() - i,
{
    if i < c.services@.len() {
        lemma_service_violation_none(c, c.services@[i].0@, c.services@[i].1);
        lemma_first_violation_none(c, i + 1);
    }
}

/// Validation reports no violation exactly on a valid model.
pub proof fn lemma_validate_ok_iff_valid(c: Compose)
    ensures
        first_violation(c, 0) is None <==> compose_valid(c),
{
    lemma_first_violation_none(c, 0);
}

// ---------------------------------------------------------------------------
// Validation: executable
// ---------------------------------------------------------------------------

/// Whether a name-keyed entry list has an entry named `k`.
fn key_list_contains<V>(m: &Vec<(String, V)>, k: &str) -> (r: bool)
    ensures
        r == keys_of(m@).contains(k@),
{
    let n = m.len();
    let mut i: usize = 0;
    while i < n
        invariant
            n == m@.len(),
            0 <= i <= n,
            forall|j: int| 0 <= j < i ==> keys_of(m@)[j] != k@,
        decreases n - i,
    {
        if str_eq(m[i].0.as_str(), k) {
            assert(keys_of(m@)[i as int] == k@);
            return true;
        }
        i += 1;
    }
    assert(forall|j: int| 0 <= j < keys_of(m@).len() ==> keys_of(m@)[j] != k@);
    false
}

/// Whether a plain name list contains `k`.
fn name_list_contains(l: &Vec<String>, k: &str) -> (r: bool)
    ensures
        r == l.deep_view().contains(k@),
{
    let n = l.len();
    let mut i: usize = 0;
    while i < n
        invariant
            n == l@.len(),
            0 <= i <= n,
            forall|j: int| 0 <= j < i ==> l.deep_view()[j] != k@,
        decreases n - i,
    {
        if str_eq(l[i].as_str(), k) {
            assert(l.deep_view()[i as int] == k@);
            return true;
        }
        i += 1;
    }
    assert(forall|j: int| 0 <= j < l.deep_view().len() ==> l.deep_view()[j] != k@);
    false
}

/// Concatenation of five string pieces, used for violation messages.
fn concat5(a: &str, b: &str, c: &str, d: &str, e: &str) -> (r: String)
    ensures
        r@ == a@ + b@ + c@ + d@ + e@,
{
    let mut r = a.to_owned();
    r.append(b);
    r.append(c);
    r.append(d);
    r.append(e);
    r
}

impl Compose {
    /// Whether `name` is a declared network of this model.
    fn has_network(&self, name: &str) -> (r: bool)
        ensures
            r == network_names(*self).contains(name@),
    {
        match &self.networks {
            Some(ns) => key_list_contains(ns, name),
            None => {
                assert(network_names(*self).len() == 0);
                false
            },
        }
    }

    /// Whether `name` is a declared service of this model.
    fn has_service(&self, name: &str) -> (r: bool)
        ensures
            r == service_names(*self).contains(name@),
    {
        key_list_contains(&self.services, name)
    }

    /// Checks every cross-reference of the model: restart policies against
    /// the fixed accepted set, network memberships against the declared
    /// networks, dependency references against the declared services.
    /// Reports the first violation found, services in stored order.
    pub fn validate(&self) -> (r: Result<(), String>)
        ensures
            r is Ok <==> compose_valid(*self),
            r matches Err(m) ==> first_violation(*self, 0) == Option::Some(m@),
            r is Ok <==> first_violation(*self, 0) is None,
    {
        proof {
            lemma_validate_ok_iff_valid(*self);
        }
        let n = self.services.len();
        let mut i: usize = 0;
        while i < n
            invariant
                n == self.services@.len(),
                0 <= i <= n,
                first_violation(*self, 0) == first_violation(*self, i as int),
                compose_valid(*self) <==> first_violation(*self, 0) is None,
            decreases n - i,
        {
            let entry = &self.services[i];
            let name = &entry.0;
            let svc = &entry.1;
            let ghost gname = name@;
            let ghost gsvc = *svc;

            // restart policy
            match &svc.restart {
                Some(restart) => {
                    let rs = restart.as_str();
                    if !(str_eq(rs, "no") || str_eq(rs, "always") || str_eq(rs, "on-failure")
                        || str_eq(rs, "unless-stopped")) {
                        let m = concat5(
                            "Invalid restart value '",
                            rs,
                            "' for service '",
                            name.as_str(),
                            "'",
                        );
                        assert(m@ == msg_invalid_restart(restart@, gname));
                        assert(service_violation(*self, gname, gsvc) == Option::Some(m@));
                        return Err(m);
                    }
                },
                None => {},
            }

            // referenced networks
            match &svc.networks {
                Some(nets) => {
                    let ghost nv = nets.deep_view();
                    proof {
                        lemma_first_missing(nv, network_names(*self));
                    }
                    let nn = nets.len();
                    let mut j: usize = 0;
                    while j < nn
                        invariant
                            gname == name@,
                            0 <= i < self.services@.len(),
                            gname == self.services@[i as int].0@,
                            gsvc == self.services@[i as int].1,
                            first_violation(*self, 0) == first_violation(*self, i as int),
                            compose_valid(*self) <==> first_violation(*self, 0) is None,
                            gsvc.networks == Some(*nets),
                            restart_violation(gname, gsvc) is None,
                            nv == nets.deep_view(),
                            nn == nv.len(),
                            0 <= j <= nn,
                            forall|jj: int|
                                0 <= jj < j ==> network_names(*self).contains(#[trigger] nv[jj]),
                        decreases nn - j,
                    {
                        let net = &nets[j];
                        if !self.has_network(net.as_str()) {
                            proof {
                                lemma_first_missing(nv, network_names(*self));
                                assert(nv[j as int] == net@);
                                assert(first_missing(nv, network_names(*self)) == j);
                            }
                            let m = concat5(
                                "Referenced network '",
                                net.as_str(),
                                "' not found for service '",
                                name.as_str(),
                                "'",
                            );
                            assert(m@ == msg_missing_network(net@, gname));
                            assert(service_violation(*self, gname, gsvc) == Option::Some(m@));
                            return Err(m);
                        }
                        j += 1;
                    }
                    proof {
                        lemma_first_missing(nv, network_names(*self));
                    }
                },
                None => {},
            }

            // referenced dependencies
            match &svc.depends_on {
                Some(dep) => {
                    let ghost dv = dep_names(*dep);
                    proof {
                        lemma_first_missing(dv, service_names(*self));
                    }
                    match dep {
                        DependsOn::List(l) => {
                            let nn = l.len();
                            let mut j: usize = 0;
                            while j < nn
                                invariant
                                    gname == name@,
                                    0 <= i < self.services@.len(),
                                    gname == self.services@[i as int].0@,
                                    gsvc == self.services@[i as int].1,
                                    first_violation(*self, 0) == first_violation(*self, i as int),
                                    compose_valid(*self) <==> first_violation(*self, 0) is None,
                                    gsvc.depends_on == Some(DependsOn::List(*l)),
                                    restart_violation(gname, gsvc) is None,
                                    networks_violation(*self, gname, gsvc) is None,
                                    dv == l.deep_view(),
                                    nn == dv.len(),
                                    0 <= j <= nn,
                                    forall|jj: int|
                                        0 <= jj < j ==> service_names(*self).contains(
                                            #[trigger] dv[jj],
                                        ),
                                decreases nn - j,
                            {
                                let depn = &l[j];
                                if !self.has_service(depn.as_str()) {
                                    proof {
                                        lemma_first_missing(dv, service_names(*self));
                                        assert(dv[j as int] == depn@);
                                        assert(first_missing(dv, service_names(*self)) == j);
                                    }
                                    let m = concat5(
                                        "Referenced service '",
                                        depn.as_str(),
                                        "' in depends_on not found for service '",
                                        name.as_str(),
                                        "'",
                                    );
                                    assert(m@ == msg_missing_dependency(depn@, gname));
                                    assert(service_violation(*self, gname, gsvc)
                                        == Option::Some(m@));
                                    return Err(m);
                                }
                                j += 1;
                            }
                            proof {
                                lemma_first_missing(dv, service_names(*self));
                            }
                        },
                        DependsOn::Conditions(cm) => {
                            let nn = cm.len();
                            let mut j: usize = 0;
                            while j < nn
                                invariant
                                    gname == name@,
                                    0 <= i < self.services@.len(),
                                    gname == self.services@[i as int].0@,
                                    gsvc == self.services@[i as int].1,
                                    first_violation(*self, 0) == first_violation(*self, i as int),
                                    compose_valid(*self) <==> first_violation(*self, 0) is None,
                                    gsvc.depends_on == Some(DependsOn::Conditions(*cm)),
                                    restart_violation(gname, gsvc) is None,
                                    networks_violation(*self, gname, gsvc) is None,
                                    dv == keys_of(cm@),
                                    nn == dv.len(),
                                    0 <= j <= nn,
                                    forall|jj: int|
                                        0 <= jj < j ==> service_names(*self).contains(
                                            #[trigger] dv[jj],
                                        ),
                                decreases nn - j,
                            {
                                let depn = &cm[j].0;
                                if !self.has_service(depn.as_str()) {
                                    proof {
                                        lemma_first_missing(dv, service_names(*self));
                                        assert(dv[j as int] == depn@);
                                        assert(first_missing(dv, service_names(*self)) == j);
                                    }
                                    let m = concat5(
                                        "Referenced service '",
                                        depn.as_str(),
                                        "' in depends_on not found for service '",
                                        name.as_str(),
                                        "'",
                                    );
                                    assert(m@ == msg_missing_dependency(depn@, gname));
                                    assert(service_violation(*self, gname, gsvc)
                                        == Option::Some(m@));
                                    return Err(m);
                                }
                                j += 1;
                            }
                            proof {
                                lemma_first_missing(dv, service_names(*self));
                            }
                        },
                    }
                },
                None => {},
            }

            proof {
                assert(service_violation(*self, gname, gsvc) is None) by {
                    lemma_service_violation_none(*self, gname, gsvc);
                }
                assert(first_violation(*self, i as int) == first_violation(*self, i + 1));
            }
            i += 1;
        }
        proof {
            assert(first_violation(*self, n as int) is None);
        }
        Ok(())
    }
}

} // verus!
