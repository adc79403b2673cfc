use hero_init::config::{Ethernet, NameServers, Network, Route};
use hero_init::network::{
    apply, apply_network_config, ifupdown_to_text, render_config, wrap_network,
    write_network_config, NetworkConfigType, NetworkDocument,
};
use hero_init::ops::{HeroError, Step, SystemOp};


fn run_all<F>(mut next: F) -> Vec<SystemOp>
where
    F: FnMut(usize, Option<Result<(), HeroError>>) -> Step<SystemOp>,
{
    let mut ops = Vec::new();
    loop {
        let last = if ops.is_empty() { None } else { Some(Ok(())) };
        match next(ops.len(), last) {
            Step::Perform(op) => ops.push(op),
            Step::Finished(r) => {
                assert!(r.is_ok());
                return ops;
            }
        }
    }
}

fn eth0() -> Ethernet {
    Ethernet {
        name: "eth0".to_string(),
        mac: "52:54:00:12:34:56".to_string(),
        dhcp4: true,
        addresses: None,
        gateway4: None,
        gateway6: None,
        routes: None,
        nameservers: None,
    }
}

fn ens3(routes: Option<Vec<Route>>) -> Ethernet {
    Ethernet {
        name: "ens3".to_string(),
        mac: "00:16:3e:aa:bb:cc".to_string(),
        dhcp4: false,
        addresses: Some(vec!["10.0.0.10/24".to_string()]),
        gateway4: Some("10.0.0.1".to_string()),
        gateway6: None,
        routes,
        nameservers: Some(NameServers {
            search: vec!["example.com".to_string()],
            addresses: vec!["8.8.8.8".to_string(), "1.1.1.1".to_string()],
        }),
    }
}

#[test]
fn test_apply_generates_valid_netplan_config() {
    let network = Network {
        provider: NetworkConfigType::Netplan,
        interfaces: vec![eth0(), ens3(None)],
    };

    let wrapper = wrap_network(&network.interfaces);

    assert_eq!(wrapper.version, 2);
    assert_eq!(wrapper.renderer, "networkd");
    let names: Vec<&str> = wrapper.ethernets.iter().map(|e| e.name.as_str()).collect();
    assert!(names.contains(&"eth0"));
    assert!(names.contains(&"ens3"));
    assert_eq!(names.len(), 2);
    let ens3_entry = wrapper.ethernets.iter().find(|e| e.name == "ens3").unwrap();
    assert_eq!(
        ens3_entry.settings.match_.as_ref().unwrap().macaddress,
        "00:16:3e:aa:bb:cc"
    );
    let eth0_entry = wrapper.ethernets.iter().find(|e| e.name == "eth0").unwrap();
    assert!(eth0_entry.settings.addresses.is_none());
    assert!(eth0_entry.settings.dhcp4);
}

#[test]
fn netplan_keeps_the_last_interface_of_a_name() {
    let mut second = eth0();
    second.mac = "aa:bb:cc:dd:ee:ff".to_string();
    second.dhcp4 = false;
    let wrapper = wrap_network(&vec![eth0(), ens3(None), second]);
    assert_eq!(wrapper.ethernets.len(), 2);
    let e = wrapper.ethernets.iter().find(|e| e.name == "eth0").unwrap();
    assert_eq!(e.settings.match_.as_ref().unwrap().macaddress, "aa:bb:cc:dd:ee:ff");
    assert!(!e.settings.dhcp4);
}

#[test]
fn test_ifupdown_generates_valid_config() {
    let network = Network {
        provider: NetworkConfigType::Ifupdown,
        interfaces: vec![
            eth0(),
            ens3(Some(vec![Route {
                to: "192.168.1.0/24".to_string(),
                via: "10.0.0.1".to_string(),
                metric: Some(100),
            }])),
        ],
    };

    let content = ifupdown_to_text(&network);

    assert!(content.trim_start().starts_with("auto lo"), "Missing loopback\n---\n{}\n---", content);
    assert!(content.contains("iface lo inet loopback"), "Missing loopback iface");
    assert!(content.contains("auto eth0"), "Missing eth0");
    assert!(content.contains("iface eth0 inet dhcp"), "Missing eth0 dhcp");
    assert!(content.contains("auto ens3"), "Missing ens3");
    assert!(content.contains("iface ens3 inet static"), "Missing ens3 static");
    assert!(content.contains("address 10.0.0.10/24"), "Missing address");
    assert!(content.contains("gateway 10.0.0.1"), "Missing gateway");
    assert!(content.contains("dns-nameservers 8.8.8.8 1.1.1.1"), "Missing dns");
    assert!(content.contains("dns-search example.com"), "Missing search");
    assert!(
        content.contains("post-up ip route add 192.168.1.0/24 via 10.0.0.1 metric 100"),
        "Missing route"
    );
}

#[test]
fn ifupdown_text_is_exact() {
    let mut odd = ens3(Some(vec![Route {
        to: "default".to_string(),
        via: "10.0.2.2".to_string(),
        metric: None,
    }]));
    odd.addresses = Some(vec!["10.0.2.100".to_string(), "a/b/c".to_string()]);
    odd.nameservers = Some(NameServers { search: vec![], addresses: vec!["10.0.2.3".to_string()] });
    let network = Network { provider: NetworkConfigType::Ifupdown, interfaces: vec![eth0(), odd] };
    assert_eq!(
        ifupdown_to_text(&network),
        "auto lo\niface lo inet loopback\n\n\
         auto eth0\niface eth0 inet dhcp\n\n\
         auto ens3\niface ens3 inet static\n    address 10.0.2.100\n    address a/b/c\n    gateway 10.0.0.1\n    dns-nameservers 10.0.2.3\n    post-up ip route add default via 10.0.2.2\n\n"
    );
}

#[test]
fn route_metric_is_written_in_decimal() {
    let mut e = eth0();
    e.routes = Some(vec![
        Route { to: "a".to_string(), via: "b".to_string(), metric: Some(0) },
        Route { to: "c".to_string(), via: "d".to_string(), metric: Some(4294967295) },
    ]);
    let text = ifupdown_to_text(&Network { provider: NetworkConfigType::Ifupdown, interfaces: vec![e] });
    assert!(text.contains("    post-up ip route add a via b metric 0\n"));
    assert!(text.contains("    post-up ip route add c via d metric 4294967295\n"));
}

#[test]
fn no_interfaces_gives_only_loopback() {
    let network = Network { provider: NetworkConfigType::Ifupdown, interfaces: vec![] };
    assert_eq!(ifupdown_to_text(&network), "auto lo\niface lo inet loopback\n\n");
}

#[test]
fn network_steps_install_then_activate() {
    let network = Network { provider: NetworkConfigType::Ifupdown, interfaces: vec![] };
    let ops = run_all(|d, l| apply(&network, "ignored", d, l));
    assert_eq!(
        ops,
        vec![
            SystemOp::CreateParentDir { path: "/etc/network/interfaces".to_string() },
            SystemOp::WriteFile {
                path: "/etc/network/interfaces".to_string(),
                content: "auto lo\niface lo inet loopback\n\n".to_string(),
            },
            SystemOp::SetMode { path: "/etc/network/interfaces".to_string(), mode: 0o600 },
            SystemOp::Run {
                program: "ifup".to_string(),
                args: vec!["-a".to_string()],
                failure: "failed to apply network configuration.".to_string(),
            },
        ]
    );
    let ops = run_all(|d, l| write_network_config("y", NetworkConfigType::Netplan, d, l));
    assert_eq!(ops[1], SystemOp::WriteFile {
        path: "/etc/netplan/01-hero-init.yaml".to_string(),
        content: "y".to_string(),
    });
    assert_eq!(
        apply_network_config(NetworkConfigType::Netplan),
        SystemOp::Run {
            program: "netplan".to_string(),
            args: vec!["apply".to_string()],
            failure: "failed to apply network configuration.".to_string(),
        }
    );
    assert_eq!(NetworkConfigType::default(), NetworkConfigType::Netplan);
}

#[test]
fn document_follows_the_provider() {
    let n = Network { provider: NetworkConfigType::Netplan, interfaces: vec![eth0()] };
    assert!(matches!(render_config(&n), NetworkDocument::Netplan(_)));
    let n = Network { provider: NetworkConfigType::Ifupdown, interfaces: vec![eth0()] };
    match render_config(&n) {
        NetworkDocument::Ifupdown(t) => assert_eq!(t, ifupdown_to_text(&n)),
        NetworkDocument::Netplan(_) => panic!("ifupdown expected"),
    }
}

#[test]
fn netplan_document_is_installed_then_applied() {
    let network = Network { provider: NetworkConfigType::Netplan, interfaces: vec![eth0()] };
    let ops = run_all(|d, l| apply(&network, "network: {}\n", d, l));
    assert_eq!(ops[1], SystemOp::WriteFile {
        path: "/etc/netplan/01-hero-init.yaml".to_string(),
        content: "network: {}\n".to_string(),
    });
    assert_eq!(ops.len(), 4);
    let failed = || HeroError::Io(std::io::ErrorKind::Other, "disk full".to_string());
    match apply(&network, "network: {}\n", 1, Some(Err(failed()))) {
        Step::Finished(r) => assert_eq!(r, Err(failed())),
        Step::Perform(_) => panic!("a failed write means netplan is not run"),
    }
}
