//! The configuration read from the SEED device.
use vstd::prelude::*;

use crate::network::NetworkConfigType;

verus! {

/// The whole configuration file.
#[derive(Debug, Clone, PartialEq, Eq)]
pub struct Configuration {
    pub metadata: Metadata,
    pub network: Option<Network>,
    pub users: Vec<User>,
    pub runcmd: Vec<RunCommand>,
}

/// A command to run at first boot.
#[derive(Debug, Clone, PartialEq, Eq)]
pub enum RunCommand {
    /// A shell command line.
    Simple(String),
    /// A shell command line with environment variables, set in order (a
    /// name given twice takes its last value).
    Structured { cmd: String, env: Vec<(String, String)> },
}

/// The network section.
#[derive(Debug, Clone, PartialEq, Eq)]
pub struct Network {
    pub provider: NetworkConfigType,
    pub interfaces: Vec<Ethernet>,
}

/// Identification of this machine.
#[derive(Debug, Clone, PartialEq, Eq)]
pub struct Metadata {
    pub instance_id: String,
    pub hostname: String,
}

/// An account to create.
#[derive(Debug, Clone, PartialEq, Eq)]
pub struct User {
    pub name: String,
    pub ssh_authorized_keys: Vec<String>,
    pub groups: Vec<String>,
    pub sudo: bool,
}

/// A static route.
#[derive(Debug, Clone, PartialEq, Eq)]
pub struct Route {
    pub to: String,
    pub via: String,
    pub metric: Option<u32>,
}

/// Name resolution settings of an interface.
#[derive(Debug, Clone, PartialEq, Eq)]
pub struct NameServers {
    pub search: Vec<String>,
    pub addresses: Vec<String>,
}

/// One network interface.
#[derive(Debug, Clone, PartialEq, Eq)]
pub struct Ethernet {
    pub name: String,
    pub mac: String,
    pub dhcp4: bool,
    pub addresses: Option<Vec<String>>,
    pub gateway4: Option<String>,
    pub gateway6: Option<String>,
    pub routes: Option<Vec<Route>>,
    pub nameservers: Option<NameServers>,
}

/// A route with its strings taken by their characters.
pub struct RouteView {
    pub to: Seq<char>,
    pub via: Seq<char>,
    pub metric: Option<u32>,
}

impl View for Route {
    type V = RouteView;

    open spec fn view(&self) -> RouteView {
        RouteView { to: self.to@, via: self.via@, metric: self.metric }
    }
}

/// Name server settings with their strings taken by their characters.
pub struct NameServersView {
    pub search: Seq<Seq<char>>,
    pub addresses: Seq<Seq<char>>,
}

impl View for NameServers {
    type V = NameServersView;

    open spec fn view(&self) -> NameServersView {
        NameServersView {
            search: self.search@.map_values(|s: String| s@),
            addresses: self.addresses@.map_values(|s: String| s@),
        }
    }
}

/// The characters of an optional string.
pub open spec fn opt_str(o: Option<String>) -> Option<Seq<char>> {
    match o {
        Some(s) => Some(s@),
        None => None,
    }
}

/// The characters of an optional list of strings.
pub open spec fn opt_strs(o: Option<Vec<String>>) -> Option<Seq<Seq<char>>> {
    match o {
        Some(v) => Some(v@.map_values(|s: String| s@)),
        None => None,
    }
}

/// The views of an optional list of routes.
pub open spec fn opt_routes(o: Option<Vec<Route>>) -> Option<Seq<RouteView>> {
    match o {
        Some(v) => Some(v@.map_values(|r: Route| r@)),
        None => None,
    }
}

/// The view of optional name server settings.
pub open spec fn opt_nameservers(o: Option<NameServers>) -> Option<NameServersView> {
    match o {
        Some(n) => Some(n@),
        None => None,
    }
}

/// A copy of a list of strings.
pub fn copy_strings(v: &Vec<String>) -> (r: Vec<String>)
    ensures
        r@.map_values(|s: String| s@) == v@.map_values(|s: String| s@),
{
    let mut r: Vec<String> = Vec::new();
    let mut i: usize = 0;
    while i < v.len()
        invariant
            i <= v.len(),
            r@.map_values(|s: String| s@) == v@.take(i as int).map_values(|s: String| s@),
        decreases v.len() - i,
    {
        r.push(v[i].clone());
        assert(v@.take(i + 1).map_values(|s: String| s@) =~= v@.take(i as int).map_values(
            |s: String| s@,
        ).push(v@[i as int]@));
        i = i + 1;
    }
    assert(v@.take(v.len() as int) =~= v@);
    r
}

/// A copy of an optional string.
pub fn copy_opt_string(o: &Option<String>) -> (r: Option<String>)
    ensures
        opt_str(r) == opt_str(*o),
{
    match o {
        Some(s) => Some(s.clone()),
        None => None,
    }
}

/// A copy of an optional list of strings.
pub fn copy_opt_strings(o: &Option<Vec<String>>) -> (r: Option<Vec<String>>)
    ensures
        opt_strs(r) == opt_strs(*o),
{
    match o {
        Some(v) => Some(copy_strings(v)),
        None => None,
    }
}

/// A copy of a route.
pub fn copy_route(r: &Route) -> (c: Route)
    ensures
        c@ == r@,
{
    Route { to: r.to.clone(), via: r.via.clone(), metric: r.metric }
}

/// A copy of an optional list of routes.
pub fn copy_opt_routes(o: &Option<Vec<Route>>) -> (r: Option<Vec<Route>>)
    ensures
        opt_routes(r) == opt_routes(*o),
{
    match o {
        Some(v) => {
            let mut c: Vec<Route> = Vec::new();
            let mut i: usize = 0;
            while i < v.len()
                invariant
                    i <= v.len(),
                    c@.map_values(|x: Route| x@) == v@.take(i as int).map_values(|x: Route| x@),
                decreases v.len() - i,
            {
                c.push(copy_route(&v[i]));
                assert(v@.take(i + 1).map_values(|x: Route| x@) =~= v@.take(i as int).map_values(
                    |x: Route| x@,
                ).push(v@[i as int]@));
                i = i + 1;
            }
            assert(v@.take(v.len() as int) =~= v@);
            Some(c)
        },
        None => None,
    }
}

/// A copy of optional name server settings.
pub fn copy_opt_nameservers(o: &Option<NameServers>) -> (r: Option<NameServers>)
    ensures
        opt_nameservers(r) == opt_nameservers(*o),
{
    match o {
        Some(n) => Some(
            NameServers { search: copy_strings(&n.search), addresses: copy_strings(&n.addresses) },
        ),
        None => None,
    }
}

} // verus!
