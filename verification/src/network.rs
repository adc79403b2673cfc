//! Network configuration: the Netplan document and the ifupdown interfaces
//! file built from the configured interfaces, and the steps that install
//! and activate them.
use vstd::prelude::*;
use vstd::string::*;

use crate::config::{
    copy_opt_nameservers, copy_opt_routes, copy_opt_string, copy_opt_strings, opt_nameservers,
    opt_routes, opt_str, opt_strs, Ethernet, NameServers, NameServersView, Network, Route,
    RouteView,
};
use crate::ops::{next_op, next_step, op_step_view, ops_view, HeroError, Step, SystemOp, SystemOpView};
use crate::paths;
use crate::text::{views, chars_of, concat, decimal, join, push_char, push_decimal, push_joined, split,
    split_chars, string_of,
};

verus! {

/// Which network configuration system the machine uses.
#[derive(Debug, Clone, Copy, PartialEq, Eq)]
pub enum NetworkConfigType {
    Netplan,
    Ifupdown,
}

impl Default for NetworkConfigType {
    fn default() -> (r: Self)
        ensures
            r == NetworkConfigType::Netplan,
    {
        NetworkConfigType::Netplan
    }
}

/// Netplan's way of naming an interface by its hardware address.
#[derive(Debug, Clone, PartialEq, Eq)]
pub struct NetplanMatch {
    pub macaddress: String,
}

/// The Netplan settings of one interface; absent options are left out of
/// the document.
#[derive(Debug, Clone, PartialEq, Eq)]
pub struct NetplanEthernet {
    pub match_: Option<NetplanMatch>,
    pub dhcp4: bool,
    pub addresses: Option<Vec<String>>,
    pub gateway4: Option<String>,
    pub gateway6: Option<String>,
    pub routes: Option<Vec<Route>>,
    pub nameservers: Option<NameServers>,
}

/// An entry of the `ethernets` table: the interface name and its settings.
#[derive(Debug, Clone, PartialEq, Eq)]
pub struct NetplanInterface {
    pub name: String,
    pub settings: NetplanEthernet,
}

/// The Netplan document (`network:` with `version`, `renderer` and the
/// `ethernets` table, each name once).
#[derive(Debug, Clone, PartialEq, Eq)]
pub struct NetplanConfig {
    pub version: u8,
    pub renderer: String,
    pub ethernets: Vec<NetplanInterface>,
}

// ---------------------------------------------------------------------------
// Netplan
// ---------------------------------------------------------------------------

/// The interfaces by name; a later interface with the same name replaces an
/// earlier one.
pub open spec fn interface_table(ifaces: Seq<Ethernet>) -> Map<Seq<char>, Ethernet>
    decreases ifaces.len(),
{
    if ifaces.len() == 0 {
        Map::empty()
    } else {
        interface_table(ifaces.drop_last()).insert(ifaces.last().name@, ifaces.last())
    }
}

/// `n` carries exactly the settings of interface `e`, matched by its MAC
/// address.
pub open spec fn netplan_settings_of(n: NetplanEthernet, e: Ethernet) -> bool {
    &&& n.match_ matches Some(m) && m.macaddress@ == e.mac@
    &&& n.dhcp4 == e.dhcp4
    &&& opt_strs(n.addresses) == opt_strs(e.addresses)
    &&& opt_str(n.gateway4) == opt_str(e.gateway4)
    &&& opt_str(n.gateway6) == opt_str(e.gateway6)
    &&& opt_routes(n.routes) == opt_routes(e.routes)
    &&& opt_nameservers(n.nameservers) == opt_nameservers(e.nameservers)
}

/// The `ethernets` table of a document holds one entry per name of `table`,
/// with the settings of that name's interface, and nothing else.
pub open spec fn netplan_table_of(
    entries: Seq<NetplanInterface>,
    table: Map<Seq<char>, Ethernet>,
) -> bool {
    &&& forall|i: int, j: int|
        0 <= i < entries.len() && 0 <= j < entries.len() && i != j ==> (#[trigger] entries[i]).name@
            != (#[trigger] entries[j]).name@
    &&& forall|i: int|
        0 <= i < entries.len() ==> table.contains_key((#[trigger] entries[i]).name@)
            && netplan_settings_of(entries[i].settings, table[entries[i].name@])
    &&& forall|k: Seq<char>|
        #[trigger] table.contains_key(k) ==> exists|i: int|
            0 <= i < entries.len() && (#[trigger] entries[i]).name@ == k
}

/// The interface table holds exactly the configured names; each configured
/// interface is found under its name, and it is the one found there when no
/// later interface has the same name.
pub proof fn law_interface_table(ifaces: Seq<Ethernet>, i: int, k: Seq<char>)
    requires
        0 <= i < ifaces.len(),
    ensures
        interface_table(ifaces).contains_key(ifaces[i].name@),
        (forall|j: int| i < j < ifaces.len() ==> (#[trigger] ifaces[j]).name@ != ifaces[i].name@)
            ==> interface_table(ifaces)[ifaces[i].name@] == ifaces[i],
        interface_table(ifaces).contains_key(k) ==> exists|j: int|
            0 <= j < ifaces.len() && (#[trigger] ifaces[j]).name@ == k,
    decreases ifaces.len(),
{
    let prev = ifaces.drop_last();
    if i < ifaces.len() - 1 {
        law_interface_table(prev, i, k);
        assert(prev[i] == ifaces[i]);
        if interface_table(prev).contains_key(k) {
            let j = choose|j: int| 0 <= j < prev.len() && (#[trigger] prev[j]).name@ == k;
            assert(ifaces[j] == prev[j]);
        }
        if forall|j: int| i < j < ifaces.len() ==> (#[trigger] ifaces[j]).name@ != ifaces[i].name@ {
            assert(ifaces[ifaces.len() - 1].name@ != ifaces[i].name@);
            assert forall|j: int| i < j < prev.len() implies (#[trigger] prev[j]).name@ != prev[i].name@ by {
                assert(prev[j] == ifaces[j]);
            }
        }
    } else {
        if prev.len() > 0 {
            law_interface_table(prev, 0, k);
            if interface_table(prev).contains_key(k) {
                let j = choose|j: int| 0 <= j < prev.len() && (#[trigger] prev[j]).name@ == k;
                assert(ifaces[j] == prev[j]);
            }
        }
    }
    if k == ifaces.last().name@ {
        assert(ifaces[ifaces.len() - 1].name@ == k);
    }
}

/// In a Netplan document built for the interfaces, the entry for the name of
/// an interface that no later interface shares matches that interface's MAC
/// address and carries its settings unchanged: DHCP, addresses, gateways,
/// routes, and its name servers and search domains (present exactly when
/// configured).
pub proof fn law_netplan_entry(ifaces: Seq<Ethernet>, entries: Seq<NetplanInterface>, i: int, m: int)
    requires
        netplan_table_of(entries, interface_table(ifaces)),
        0 <= i < ifaces.len(),
        forall|j: int| i < j < ifaces.len() ==> (#[trigger] ifaces[j]).name@ != ifaces[i].name@,
        0 <= m < entries.len(),
        entries[m].name@ == ifaces[i].name@,
    ensures
        entries[m].settings.match_ matches Some(mm) && mm.macaddress@ == ifaces[i].mac@,
        entries[m].settings.dhcp4 == ifaces[i].dhcp4,
        match (entries[m].settings.nameservers, ifaces[i].nameservers) {
            (Some(a), Some(b)) => views(a.addresses@) == views(b.addresses@) && views(a.search@)
                == views(b.search@),
            (None, None) => true,
            _ => false,
        },
        match (entries[m].settings.addresses, ifaces[i].addresses) {
            (Some(a), Some(b)) => views(a@) == views(b@),
            (None, None) => true,
            _ => false,
        },
        match (entries[m].settings.gateway4, ifaces[i].gateway4) {
            (Some(a), Some(b)) => a@ == b@,
            (None, None) => true,
            _ => false,
        },
        match (entries[m].settings.gateway6, ifaces[i].gateway6) {
            (Some(a), Some(b)) => a@ == b@,
            (None, None) => true,
            _ => false,
        },
        match (entries[m].settings.routes, ifaces[i].routes) {
            (Some(a), Some(b)) => a@.len() == b@.len() && forall|r: int|
                0 <= r < a@.len() ==> #[trigger] a@[r]@ == b@[r]@,
            (None, None) => true,
            _ => false,
        },
{
    law_interface_table(ifaces, i, ifaces[i].name@);
    let n = entries[m].settings;
    let e = ifaces[i];
    assert(netplan_settings_of(n, e));
    match (n.routes, e.routes) {
        (Some(a), Some(b)) => {
            assert(opt_routes(n.routes) == Some(a@.map_values(|r: Route| r@)));
            assert(opt_routes(e.routes) == Some(b@.map_values(|r: Route| r@)));
            let av = a@.map_values(|r: Route| r@);
            let bv = b@.map_values(|r: Route| r@);
            assert(av == bv);
            assert(av.len() == a@.len() && bv.len() == b@.len());
            assert forall|j: int| 0 <= j < a@.len() implies #[trigger] a@[j]@ == b@[j]@ by {
                assert(av[j] == a@[j]@);
                assert(bv[j] == b@[j]@);
            }
        },
        _ => {},
    }
}

fn netplan_settings(iface: &Ethernet) -> (n: NetplanEthernet)
    ensures
        netplan_settings_of(n, *iface),
{
    NetplanEthernet {
        match_: Some(NetplanMatch { macaddress: iface.mac.clone() }),
        dhcp4: iface.dhcp4,
        addresses: copy_opt_strings(&iface.addresses),
        gateway4: copy_opt_string(&iface.gateway4),
        gateway6: copy_opt_string(&iface.gateway6),
        routes: copy_opt_routes(&iface.routes),
        nameservers: copy_opt_nameservers(&iface.nameservers),
    }
}

fn position_of(entries: &Vec<NetplanInterface>, name: &String) -> (r: Option<usize>)
    ensures
        r matches Some(j) ==> j < entries@.len() && entries@[j as int].name@ == name@,
        r is None ==> forall|k: int| 0 <= k < entries@.len() ==> (#[trigger] entries@[k]).name@ != name@,
{
    let mut j: usize = 0;
    while j < entries.len()
        invariant
            j <= entries.len(),
            forall|k: int| 0 <= k < j ==> (#[trigger] entries@[k]).name@ != name@,
        decreases entries.len() - j,
    {
        if entries[j].name == *name {
            return Some(j);
        }
        j = j + 1;
    }
    None
}

/// The Netplan document for the interfaces: version 2, the `networkd`
/// renderer, and one `ethernets` entry per interface name holding the
/// settings of the last interface with that name.
pub fn wrap_network(interfaces: &Vec<Ethernet>) -> (c: NetplanConfig)
    ensures
        c.version == 2,
        c.renderer@ == "networkd"@,
        netplan_table_of(c.ethernets@, interface_table(interfaces@)),
{
    let mut ethernets: Vec<NetplanInterface> = Vec::new();
    let mut i: usize = 0;
    while i < interfaces.len()
        invariant
            i <= interfaces.len(),
            netplan_table_of(ethernets@, interface_table(interfaces@.take(i as int))),
        decreases interfaces.len() - i,
    {
        let iface = &interfaces[i];
        let ghost old_table = interface_table(interfaces@.take(i as int));
        let ghost new_table = interface_table(interfaces@.take(i + 1));
        assert(interfaces@.take(i + 1).drop_last() =~= interfaces@.take(i as int));
        assert(new_table == old_table.insert(iface.name@, *iface));
        let entry = NetplanInterface { name: iface.name.clone(), settings: netplan_settings(iface) };
        let pos = position_of(&ethernets, &iface.name);
        let ghost before = ethernets@;
        if let Some(j) = pos {
            ethernets.set(j, entry);
            assert forall|k: Seq<char>| #[trigger] new_table.contains_key(k) implies exists|m: int|
                0 <= m < ethernets@.len() && (#[trigger] ethernets@[m]).name@ == k by {
                if k != iface.name@ {
                    assert(old_table.contains_key(k));
                    let m = choose|m: int| 0 <= m < before.len() && (#[trigger] before[m]).name@ == k;
                    assert(ethernets@[m] == before[m]);
                } else {
                    assert(ethernets@[j as int].name@ == k);
                }
            }
        } else {
            ethernets.push(entry);
            assert forall|k: Seq<char>| #[trigger] new_table.contains_key(k) implies exists|m: int|
                0 <= m < ethernets@.len() && (#[trigger] ethernets@[m]).name@ == k by {
                if k != iface.name@ {
                    assert(old_table.contains_key(k));
                    let m = choose|m: int| 0 <= m < before.len() && (#[trigger] before[m]).name@ == k;
                    assert(ethernets@[m] == before[m]);
                } else {
                    assert(ethernets@[before.len() as int].name@ == k);
                }
            }
        }
        i = i + 1;
    }
    assert(interfaces@.take(interfaces.len() as int) =~= interfaces@);
    NetplanConfig { version: 2, renderer: String::from_str("networkd"), ethernets }
}

// ---------------------------------------------------------------------------
// ifupdown
// ---------------------------------------------------------------------------

/// The line that assigns an address.
pub open spec fn address_line(a: Seq<char>) -> Seq<char> {
    "    address "@ + a + "\n"@
}

/// The address lines of a static interface.
pub open spec fn address_block(addrs: Option<Seq<Seq<char>>>) -> Seq<char> {
    match addrs {
        Some(a) => concat(a.map_values(|x: Seq<char>| address_line(x))),
        None => Seq::empty(),
    }
}

/// The gateway line of a static interface, if it has an IPv4 gateway.
pub open spec fn gateway_block(gw: Option<Seq<char>>) -> Seq<char> {
    match gw {
        Some(g) => "    gateway "@ + g + "\n"@,
        None => Seq::empty(),
    }
}

/// The name server and search domain lines; an empty list gives no line.
pub open spec fn nameserver_block(ns: Option<NameServersView>) -> Seq<char> {
    match ns {
        Some(n) => (if n.addresses.len() > 0 {
            "    dns-nameservers "@ + join(n.addresses, " "@) + "\n"@
        } else {
            Seq::empty()
        }) + (if n.search.len() > 0 {
            "    dns-search "@ + join(n.search, " "@) + "\n"@
        } else {
            Seq::empty()
        }),
        None => Seq::empty(),
    }
}

/// The command that adds a route when the interface comes up.
pub open spec fn route_line(r: RouteView) -> Seq<char> {
    "    post-up ip route add "@ + r.to + " via "@ + r.via + (match r.metric {
        Some(m) => " metric "@ + decimal(m as nat),
        None => Seq::empty(),
    }) + "\n"@
}

/// The route lines of an interface.
pub open spec fn routes_block(routes: Option<Seq<RouteView>>) -> Seq<char> {
    match routes {
        Some(r) => concat(r.map_values(|x: RouteView| route_line(x))),
        None => Seq::empty(),
    }
}

/// The stanza of one interface: brought up at boot, by DHCP or with its
/// static addresses and gateway, then its name servers, its routes and an
/// empty line.
pub open spec fn iface_stanza(e: Ethernet) -> Seq<char> {
    "auto "@ + e.name@ + "\n"@ + "iface "@ + e.name@ + " inet "@ + (if e.dhcp4 {
        "dhcp\n"@
    } else {
        "static\n"@ + address_block(opt_strs(e.addresses)) + gateway_block(opt_str(e.gateway4))
    }) + nameserver_block(opt_nameservers(e.nameservers)) + routes_block(opt_routes(e.routes))
        + "\n"@
}

/// The interfaces file: the loopback interface, then one stanza per
/// configured interface in order.
pub open spec fn ifupdown_text(ifaces: Seq<Ethernet>) -> Seq<char> {
    "auto lo\n"@ + "iface lo inet loopback\n\n"@ + concat(
        ifaces.map_values(|e: Ethernet| iface_stanza(e)),
    )
}

/// Joining the pieces of a split with the separator gives the text back; in
/// particular an address split at `/` into address and prefix is written
/// back unchanged.
pub proof fn law_split_join(s: Seq<char>, c: char)
    ensures
        join(split(s, c), seq![c]) == s,
    decreases s.len(),
{
    if s.len() > 0 {
        let prev = split(s.drop_last(), c);
        law_split_join(s.drop_last(), c);
        lemma_split_nonempty_len(s.drop_last(), c);
        if s.last() == c {
            let p = prev.push(Seq::<char>::empty());
            assert(p.drop_last() =~= prev);
            assert(join(p, seq![c]) =~= s);
        } else {
            let p = prev.update(prev.len() - 1, prev.last().push(s.last()));
            if prev.len() == 1 {
                assert(join(p, seq![c]) =~= s);
            } else {
                assert(p.drop_last() =~= prev.drop_last());
                assert(join(p, seq![c]) == join(prev.drop_last(), seq![c]) + seq![c] + p.last());
                assert(join(prev, seq![c]) == join(prev.drop_last(), seq![c]) + seq![c]
                    + prev.last());
                assert(p.last() == prev.last().push(s.last()));
                assert(s =~= s.drop_last().push(s.last()));
                assert(join(p, seq![c]) =~= join(prev, seq![c]).push(s.last()));
            }
        }
    } else {
        assert(join(split(s, c), seq![c]) =~= s);
    }
}

/// `needle` occurs in `text` as a run of consecutive characters.
pub open spec fn contains_text(text: Seq<char>, needle: Seq<char>) -> bool {
    exists|k: int|
        0 <= k && k + needle.len() <= text.len() && #[trigger] text.subrange(k, k + needle.len()) == needle
}

proof fn lemma_concat_append(a: Seq<Seq<char>>, b: Seq<Seq<char>>)
    ensures
        concat(a + b) == concat(a) + concat(b),
    decreases b.len(),
{
    if b.len() == 0 {
        assert(a + b =~= a);
        assert(concat(a) + concat(b) =~= concat(a));
    } else {
        lemma_concat_append(a, b.drop_last());
        assert((a + b).drop_last() =~= a + b.drop_last());
        assert((a + b).last() == b.last());
        assert(concat(a + b) =~= concat(a) + concat(b));
    }
}

proof fn lemma_contains_in_concat(pieces: Seq<Seq<char>>, i: int, needle: Seq<char>)
    requires
        0 <= i < pieces.len(),
        contains_text(pieces[i], needle),
    ensures
        contains_text(concat(pieces), needle),
{
    let a = pieces.take(i);
    let b = pieces.skip(i + 1);
    assert(pieces =~= a + seq![pieces[i]] + b);
    lemma_concat_append(a + seq![pieces[i]], b);
    lemma_concat_append(a, seq![pieces[i]]);
    let one = seq![pieces[i]];
    assert(one.drop_last() =~= Seq::<Seq<char>>::empty());
    assert(concat(one.drop_last()) =~= Seq::<char>::empty());
    assert(one.last() == pieces[i]);
    assert(concat(one) == concat(one.drop_last()) + one.last());
    assert(concat(one) =~= pieces[i]);
    let k = choose|k: int|
        0 <= k && k + needle.len() <= pieces[i].len() && #[trigger] pieces[i].subrange(k, k + needle.len())
            == needle;
    let whole = concat(pieces);
    assert(whole == concat(a) + pieces[i] + concat(b));
    let off: int = concat(a).len() + k;
    assert(whole.subrange(off, off + needle.len()) =~= needle);
}

/// In the interfaces file, every interface whose name server settings list
/// search domains has the line `    dns-search` followed by those domains in
/// order, separated by single spaces, as it has for its name servers on the
/// `    dns-nameservers` line.
pub proof fn law_dns_lines(ifaces: Seq<Ethernet>, i: int)
    requires
        0 <= i < ifaces.len(),
    ensures
        match ifaces[i].nameservers {
            Some(ns) => (ns.search@.len() > 0 ==> contains_text(
                ifupdown_text(ifaces),
                "    dns-search "@ + join(views(ns.search@), " "@) + "\n"@,
            )) && (ns.addresses@.len() > 0 ==> contains_text(
                ifupdown_text(ifaces),
                "    dns-nameservers "@ + join(views(ns.addresses@), " "@) + "\n"@,
            )),
            None => true,
        },
{
    let e = ifaces[i];
    let stanzas = ifaces.map_values(|x: Ethernet| iface_stanza(x));
    let head = "auto lo\n"@ + "iface lo inet loopback\n\n"@;
    if let Some(ns) = e.nameservers {
        let nv = ns@;
        assert(nv.search == views(ns.search@));
        assert(nv.addresses == views(ns.addresses@));
        let before = "auto "@ + e.name@ + "\n"@ + "iface "@ + e.name@ + " inet "@ + (if e.dhcp4 {
            "dhcp\n"@
        } else {
            "static\n"@ + address_block(opt_strs(e.addresses)) + gateway_block(opt_str(e.gateway4))
        });
        let after = routes_block(opt_routes(e.routes)) + "\n"@;
        let ns_line = if nv.addresses.len() > 0 {
            "    dns-nameservers "@ + join(nv.addresses, " "@) + "\n"@
        } else {
            Seq::empty()
        };
        let search_line = if nv.search.len() > 0 {
            "    dns-search "@ + join(nv.search, " "@) + "\n"@
        } else {
            Seq::empty()
        };
        assert(iface_stanza(e) =~= before + ns_line + search_line + after);
        assert(stanzas[i] == iface_stanza(e));
        let st = iface_stanza(e);
        if nv.search.len() > 0 {
            let off: int = before.len() as int + ns_line.len() as int;
            assert(st.subrange(off, off + search_line.len()) =~= search_line);
            lemma_contains_in_concat(stanzas, i, search_line);
            let k = choose|k: int|
                0 <= k && k + search_line.len() <= concat(stanzas).len() && #[trigger] concat(stanzas).subrange(
                    k,
                    k + search_line.len(),
                ) == search_line;
            assert(ifupdown_text(ifaces) == head + concat(stanzas));
            let o: int = head.len() + k;
            assert(ifupdown_text(ifaces).subrange(o, o + search_line.len()) =~= search_line);
        }
        if nv.addresses.len() > 0 {
            let off: int = before.len() as int;
            assert(st.subrange(off, off + ns_line.len()) =~= ns_line);
            lemma_contains_in_concat(stanzas, i, ns_line);
            let k = choose|k: int|
                0 <= k && k + ns_line.len() <= concat(stanzas).len() && #[trigger] concat(stanzas).subrange(
                    k,
                    k + ns_line.len(),
                ) == ns_line;
            assert(ifupdown_text(ifaces) == head + concat(stanzas));
            let o: int = head.len() + k;
            assert(ifupdown_text(ifaces).subrange(o, o + ns_line.len()) =~= ns_line);
        }
    }
}

proof fn lemma_split_nonempty_len(s: Seq<char>, c: char)
    ensures
        split(s, c).len() >= 1,
    decreases s.len(),
{
    if s.len() > 0 {
        lemma_split_nonempty_len(s.drop_last(), c);
    }
}

fn push_address_line(out: &mut String, addr: &String)
    ensures
        final(out)@ == old(out)@ + address_line(addr@),
{
    out.append("    address ");
    let chars = chars_of(addr.as_str());
    let parts = split_chars(&chars, '/');
    if parts.len() == 2 {
        proof {
            law_split_join(addr@, '/');
            let pv = parts@.map_values(|p: Vec<char>| p@);
            assert(pv.len() == 2);
            assert(pv.drop_last() =~= seq![pv[0]]);
            assert(join(seq![pv[0]], seq!['/']) == pv[0]);
            assert(join(pv, seq!['/']) == join(pv.drop_last(), seq!['/']) + seq!['/'] + pv.last());
            assert(join(pv, seq!['/']) == pv[0] + seq!['/'] + pv[1]);
        }
        let ip = string_of(&parts[0]);
        let prefix = string_of(&parts[1]);
        out.append(ip.as_str());
        push_char(out, '/');
        out.append(prefix.as_str());
    } else {
        out.append(addr.as_str());
    }
    out.append("\n");
    assert(final(out)@ =~= old(out)@ + address_line(addr@));
}

fn push_route_line(out: &mut String, route: &Route)
    ensures
        final(out)@ == old(out)@ + route_line(route@),
{
    out.append("    post-up ip route add ");
    out.append(route.to.as_str());
    out.append(" via ");
    out.append(route.via.as_str());
    match route.metric {
        Some(m) => {
            out.append(" metric ");
            push_decimal(out, m);
        },
        None => {},
    }
    out.append("\n");
    assert(final(out)@ =~= old(out)@ + route_line(route@));
}

fn push_address_block(out: &mut String, addresses: &Option<Vec<String>>)
    ensures
        final(out)@ == old(out)@ + address_block(opt_strs(*addresses)),
{
    let ghost start = out@;
    match addresses {
        Some(addrs) => {
            let ghost lines = addrs@.map_values(|s: String| s@).map_values(
                |x: Seq<char>| address_line(x),
            );
            let mut i: usize = 0;
            while i < addrs.len()
                invariant
                    i <= addrs.len(),
                    lines == addrs@.map_values(|s: String| s@).map_values(
                        |x: Seq<char>| address_line(x),
                    ),
                    out@ == start + concat(lines.take(i as int)),
                decreases addrs.len() - i,
            {
                push_address_line(out, &addrs[i]);
                assert(lines.take(i + 1).drop_last() =~= lines.take(i as int));
                i = i + 1;
            }
            assert(lines.take(addrs.len() as int) =~= lines);
        },
        None => {
            assert(out@ =~= start + address_block(opt_strs(*addresses)));
        },
    }
}

fn push_gateway_block(out: &mut String, gateway: &Option<String>)
    ensures
        final(out)@ == old(out)@ + gateway_block(opt_str(*gateway)),
{
    match gateway {
        Some(gw) => {
            out.append("    gateway ");
            out.append(gw.as_str());
            out.append("\n");
            assert(final(out)@ =~= old(out)@ + gateway_block(opt_str(*gateway)));
        },
        None => {
            assert(out@ =~= old(out)@ + gateway_block(opt_str(*gateway)));
        },
    }
}

fn push_nameserver_block(out: &mut String, nameservers: &Option<NameServers>)
    ensures
        final(out)@ == old(out)@ + nameserver_block(opt_nameservers(*nameservers)),
{
    let ghost start = out@;
    match nameservers {
        Some(ns) => {
            if ns.addresses.len() > 0 {
                out.append("    dns-nameservers ");
                push_joined(out, &ns.addresses, " ");
                out.append("\n");
            }
            if ns.search.len() > 0 {
                out.append("    dns-search ");
                push_joined(out, &ns.search, " ");
                out.append("\n");
            }
            assert(out@ =~= start + nameserver_block(opt_nameservers(*nameservers)));
        },
        None => {
            assert(out@ =~= start + nameserver_block(opt_nameservers(*nameservers)));
        },
    }
}

fn push_routes_block(out: &mut String, routes: &Option<Vec<Route>>)
    ensures
        final(out)@ == old(out)@ + routes_block(opt_routes(*routes)),
{
    let ghost start = out@;
    match routes {
        Some(routes) => {
            let ghost lines = routes@.map_values(|r: Route| r@).map_values(
                |x: RouteView| route_line(x),
            );
            let mut i: usize = 0;
            while i < routes.len()
                invariant
                    i <= routes.len(),
                    lines == routes@.map_values(|r: Route| r@).map_values(
                        |x: RouteView| route_line(x),
                    ),
                    out@ == start + concat(lines.take(i as int)),
                decreases routes.len() - i,
            {
                push_route_line(out, &routes[i]);
                assert(lines.take(i + 1).drop_last() =~= lines.take(i as int));
                i = i + 1;
            }
            assert(lines.take(routes.len() as int) =~= lines);
        },
        None => {
            assert(out@ =~= start + routes_block(opt_routes(*routes)));
        },
    }
}

fn push_stanza(out: &mut String, iface: &Ethernet)
    ensures
        final(out)@ == old(out)@ + iface_stanza(*iface),
{
    let ghost start = out@;
    out.append("auto ");
    out.append(iface.name.as_str());
    out.append("\n");
    out.append("iface ");
    out.append(iface.name.as_str());
    out.append(" inet ");
    if iface.dhcp4 {
        out.append("dhcp\n");
    } else {
        out.append("static\n");
        push_address_block(out, &iface.addresses);
        push_gateway_block(out, &iface.gateway4);
    }
    push_nameserver_block(out, &iface.nameservers);
    push_routes_block(out, &iface.routes);
    out.append("\n");
    assert(final(out)@ =~= start + iface_stanza(*iface));
}

/// The ifupdown interfaces file for the network: the loopback interface
/// first, then each configured interface in order.
pub fn ifupdown_to_text(network: &Network) -> (text: String)
    ensures
        text@ == ifupdown_text(network.interfaces@),
{
    let mut config = String::new();
    config.append("auto lo\n");
    config.append("iface lo inet loopback\n\n");
    let ghost head = config@;
    let ghost stanzas = network.interfaces@.map_values(|e: Ethernet| iface_stanza(e));
    let mut i: usize = 0;
    while i < network.interfaces.len()
        invariant
            i <= network.interfaces.len(),
            stanzas == network.interfaces@.map_values(|e: Ethernet| iface_stanza(e)),
            config@ == head + concat(stanzas.take(i as int)),
        decreases network.interfaces.len() - i,
    {
        push_stanza(&mut config, &network.interfaces[i]);
        assert(stanzas.take(i + 1).drop_last() =~= stanzas.take(i as int));
        i = i + 1;
    }
    assert(stanzas.take(network.interfaces.len() as int) =~= stanzas);
    assert(config@ =~= ifupdown_text(network.interfaces@));
    config
}

// ---------------------------------------------------------------------------
// Installing and activating
// ---------------------------------------------------------------------------

/// Where each configuration system reads its configuration.
pub open spec fn config_path(provider: NetworkConfigType) -> Seq<char> {
    match provider {
        NetworkConfigType::Netplan => paths::NET_PLAN_CONFIG_PATH@,
        NetworkConfigType::Ifupdown => paths::IF_UP_DOWN_CONFIG_PATH@,
    }
}

/// Installing a configuration file: its directory is created, the file is
/// written, and only its owner may read or write it.
pub open spec fn install_ops(content: Seq<char>, path: Seq<char>) -> Seq<SystemOpView> {
    seq![
        SystemOpView::CreateParentDir { path },
        SystemOpView::WriteFile { path, content },
        SystemOpView::SetMode { path, mode: 0o600 },
    ]
}

/// The program that activates each configuration system.
pub open spec fn activation_op(provider: NetworkConfigType) -> SystemOpView {
    match provider {
        NetworkConfigType::Netplan => SystemOpView::Run {
            program: "netplan"@,
            args: seq!["apply"@],
            failure: "failed to apply network configuration."@,
        },
        NetworkConfigType::Ifupdown => SystemOpView::Run {
            program: "ifup"@,
            args: seq!["-a"@],
            failure: "failed to apply network configuration."@,
        },
    }
}

fn install_plan(config_yaml: &str, path: &str) -> (ops: Vec<SystemOp>)
    ensures
        ops_view(ops@) == install_ops(config_yaml@, path@),
{
    let mut ops: Vec<SystemOp> = Vec::new();
    ops.push(SystemOp::CreateParentDir { path: String::from_str(path) });
    ops.push(SystemOp::WriteFile { path: String::from_str(path), content: String::from_str(config_yaml) });
    ops.push(SystemOp::SetMode { path: String::from_str(path), mode: 0o600 });
    assert(ops_view(ops@) =~= install_ops(config_yaml@, path@));
    ops
}

fn write_network_config_with_path(
    config_yaml: &str,
    path: &str,
    completed: usize,
    last: Option<Result<(), HeroError>>,
) -> (s: Step<SystemOp>)
    ensures
        op_step_view(s) == next_step(install_ops(config_yaml@, path@), completed as nat, last),
{
    next_op(install_plan(config_yaml, path), completed, last)
}

/// Installing a configuration text where the given configuration system
/// reads it, step by step: once `completed` steps have succeeded and the
/// last report was `last`, the next step of [`install_ops`] or the end of
/// the run; the steps run in order and the first failure ends the run with
/// that failure.
pub fn write_network_config(
    config_yaml: &str,
    provider: NetworkConfigType,
    completed: usize,
    last: Option<Result<(), HeroError>>,
) -> (s: Step<SystemOp>)
    ensures
        op_step_view(s) == next_step(
            install_ops(config_yaml@, config_path(provider)),
            completed as nat,
            last,
        ),
{
    let path = match provider {
        NetworkConfigType::Netplan => paths::NET_PLAN_CONFIG_PATH,
        NetworkConfigType::Ifupdown => paths::IF_UP_DOWN_CONFIG_PATH,
    };
    write_network_config_with_path(config_yaml, path, completed, last)
}

/// The step that makes the configuration system apply its configuration.
pub fn apply_network_config(provider: NetworkConfigType) -> (op: SystemOp)
    ensures
        op@ == activation_op(provider),
{
    let mut args: Vec<String> = Vec::new();
    let op = match provider {
        NetworkConfigType::Netplan => {
            args.push(String::from_str("apply"));
            assert(args@.map_values(|x: String| x@) =~= seq!["apply"@]);
            SystemOp::Run {
                program: String::from_str("netplan"),
                args,
                failure: String::from_str("failed to apply network configuration."),
            }
        },
        NetworkConfigType::Ifupdown => {
            args.push(String::from_str("-a"));
            assert(args@.map_values(|x: String| x@) =~= seq!["-a"@]);
            SystemOp::Run {
                program: String::from_str("ifup"),
                args,
                failure: String::from_str("failed to apply network configuration."),
            }
        },
    };
    op
}

/// The configuration document for a network, before it is written out.
#[derive(Debug)]
pub enum NetworkDocument {
    /// A Netplan document, to be written as YAML.
    Netplan(NetplanConfig),
    /// The text of an ifupdown interfaces file.
    Ifupdown(String),
}

/// The document for the network's configuration system: a Netplan document
/// or the ifupdown interfaces file.
pub fn render_config(network: &Network) -> (d: NetworkDocument)
    ensures
        network.provider == NetworkConfigType::Netplan ==> (d matches NetworkDocument::Netplan(c)
            && c.version == 2 && c.renderer@ == "networkd"@ && netplan_table_of(
            c.ethernets@,
            interface_table(network.interfaces@),
        )),
        network.provider == NetworkConfigType::Ifupdown ==> (d matches NetworkDocument::Ifupdown(t)
            && t@ == ifupdown_text(network.interfaces@)),
{
    match network.provider {
        NetworkConfigType::Netplan => NetworkDocument::Netplan(wrap_network(&network.interfaces)),
        NetworkConfigType::Ifupdown => NetworkDocument::Ifupdown(ifupdown_to_text(network)),
    }
}

/// The configuration text of a network: the Netplan document as serialized
/// (`netplan_yaml`) for Netplan, the interfaces file for ifupdown.
pub open spec fn config_text(network: Network, netplan_yaml: Seq<char>) -> Seq<char> {
    match network.provider {
        NetworkConfigType::Netplan => netplan_yaml,
        NetworkConfigType::Ifupdown => ifupdown_text(network.interfaces@),
    }
}

/// Configuring the network: install its configuration text where its
/// configuration system reads it, then have that system apply it.
pub open spec fn network_ops(network: Network, netplan_yaml: Seq<char>) -> Seq<SystemOpView> {
    install_ops(config_text(network, netplan_yaml), config_path(network.provider)).push(
        activation_op(network.provider),
    )
}

/// Configuring the network, step by step: once `completed` steps have
/// succeeded and the last report was `last`, the next step of
/// [`network_ops`] or the end of the run. The steps run in order and the
/// first failure ends the run with that failure, so a failed write means the
/// configuration is not applied. `netplan_yaml` is the serialized Netplan
/// document of [`render_config`]; for ifupdown the interfaces file is
/// computed here and `netplan_yaml` is not used.
pub fn apply(
    network: &Network,
    netplan_yaml: &str,
    completed: usize,
    last: Option<Result<(), HeroError>>,
) -> (s: Step<SystemOp>)
    ensures
        op_step_view(s) == next_step(network_ops(*network, netplan_yaml@), completed as nat, last),
{
    let mut plan = match network.provider {
        NetworkConfigType::Netplan => install_plan(netplan_yaml, paths::NET_PLAN_CONFIG_PATH),
        NetworkConfigType::Ifupdown => {
            let text = ifupdown_to_text(network);
            install_plan(text.as_str(), paths::IF_UP_DOWN_CONFIG_PATH)
        },
    };
    plan.push(apply_network_config(network.provider));
    assert(ops_view(plan@) =~= network_ops(*network, netplan_yaml@));
    next_op(plan, completed, last)
}

} // verus!
