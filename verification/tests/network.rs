use crate_runtime::dialogue::Next;
use crate_runtime::network::{
    allocate_ip, reset_ip_counter, veth_container_name, veth_host_name, ContainerNetwork, Ipv4Addr,
    NetCall, NetReply, NetworkConfig, NetworkManager,
};

fn fresh_counter() -> u32 {
    let mut counter = 77;
    reset_ip_counter(&mut counter);
    counter
}

#[test]
fn default_config_values() {
    let cfg = NetworkConfig::default();
    assert_eq!(cfg.subnet, Ipv4Addr::new(172, 28, 0, 0));
    assert_eq!(cfg.prefix_len, 16);
    assert_eq!(cfg.bridge_name, "crate0");
    assert_eq!(cfg.gateway, Ipv4Addr::new(172, 28, 0, 1));
}

#[test]
fn ip_allocation_sequential() {
    let mut counter = fresh_counter();
    let cfg = NetworkConfig::default();

    let ip1 = allocate_ip(&cfg, &mut counter).unwrap();
    let ip2 = allocate_ip(&cfg, &mut counter).unwrap();
    let ip3 = allocate_ip(&cfg, &mut counter).unwrap();

    assert_eq!(ip1, Ipv4Addr::new(172, 28, 0, 2));
    assert_eq!(ip2, Ipv4Addr::new(172, 28, 0, 3));
    assert_eq!(ip3, Ipv4Addr::new(172, 28, 0, 4));
}

#[test]
fn ip_allocation_wraps_octets() {
    // Force the counter to 256 to cross into the second octet.
    let mut counter = 256;
    let cfg = NetworkConfig::default();
    let ip = allocate_ip(&cfg, &mut counter).unwrap();
    assert_eq!(ip, Ipv4Addr::new(172, 28, 1, 0));
}

#[test]
fn ip_allocation_exhaustion() {
    // Set the counter just past the valid range.
    let mut counter = 0xFFFF;
    let cfg = NetworkConfig::default();
    let result = allocate_ip(&cfg, &mut counter);
    assert!(result.is_err());
    let err = result.unwrap_err().to_string();
    assert!(err.contains("exhausted"), "unexpected error: {err}");
    assert_eq!(counter, 0x1_0000);
}

#[test]
fn ip_allocation_uses_the_whole_range() {
    let cfg = NetworkConfig::default();
    let mut counter = 0xFFFE;
    let last = allocate_ip(&cfg, &mut counter).unwrap();
    assert_eq!(last, Ipv4Addr::new(172, 28, 255, 254));
    assert!(allocate_ip(&cfg, &mut counter).is_err());
    let mut end = u32::MAX;
    assert!(allocate_ip(&cfg, &mut end).is_err());
    assert_eq!(end, 0);
}

#[test]
fn veth_host_name_truncates() {
    let name = veth_host_name("abcdefghijklmnop");
    assert_eq!(name, "vethabcdefgh");
    // Must fit in 15 chars (Linux IFNAMSIZ).
    assert!(name.len() <= 15);
}

#[test]
fn veth_host_name_short_id() {
    let name = veth_host_name("abc");
    assert_eq!(name, "vethabc");
}

#[test]
fn veth_host_name_counts_characters() {
    assert_eq!(veth_host_name("äöüäöüäöüäöü"), "vethäöüäöüäö");
    assert_eq!(veth_host_name(""), "veth");
}

#[test]
fn veth_container_name_is_eth0() {
    assert_eq!(veth_container_name(), "eth0");
}

#[test]
fn custom_config() {
    let cfg = NetworkConfig {
        subnet: Ipv4Addr::new(10, 0, 0, 0),
        prefix_len: 24,
        bridge_name: "mybridge".to_string(),
        gateway: Ipv4Addr::new(10, 0, 0, 1),
    };
    assert_eq!(cfg.subnet, Ipv4Addr::new(10, 0, 0, 0));
    assert_eq!(cfg.prefix_len, 24);
    assert_eq!(cfg.bridge_name, "mybridge");
}

#[test]
fn ip_allocation_custom_subnet() {
    let mut counter = fresh_counter();
    let cfg = NetworkConfig {
        subnet: Ipv4Addr::new(10, 99, 0, 0),
        prefix_len: 16,
        bridge_name: "br0".to_string(),
        gateway: Ipv4Addr::new(10, 99, 0, 1),
    };
    let ip = allocate_ip(&cfg, &mut counter).unwrap();
    assert_eq!(ip, Ipv4Addr::new(10, 99, 0, 2));
}

#[test]
fn network_manager_holds_config() {
    let cfg = NetworkConfig::default();
    let mgr = NetworkManager::new(cfg.clone());
    assert_eq!(mgr.config().bridge_name, cfg.bridge_name);
    assert_eq!(mgr.config().gateway, cfg.gateway);
}

#[test]
fn network_manager_defaults() {
    let mgr = NetworkManager::with_defaults();
    assert_eq!(mgr.config().bridge_name, "crate0");
}

#[test]
fn addresses_are_shown_in_dotted_notation() {
    assert_eq!(Ipv4Addr::new(172, 28, 0, 1).to_string(), "172.28.0.1");
    assert_eq!(Ipv4Addr::new(255, 0, 9, 10).to_string(), "255.0.9.10");
    assert_eq!(Ipv4Addr::new(1, 2, 3, 4).bits, 0x0102_0304);
}

/// A host that does everything it is asked for.
fn obey(call: &NetCall) -> NetReply {
    match call {
        NetCall::FindLink(name) if name == "crate0" => NetReply::Index(3),
        NetCall::FindLink(name) if name == "eth0" => NetReply::Index(9),
        NetCall::FindLink(_) => NetReply::Index(8),
        NetCall::NextHost => NetReply::Host(5),
        NetCall::Iptables(_) => NetReply::Ran { success: true, stderr: String::new() },
        _ => NetReply::Done,
    }
}

fn setup(replies: &mut Vec<NetReply>) -> (Vec<String>, Next<NetCall, ()>) {
    let mgr = NetworkManager::with_defaults();
    let mut calls = Vec::new();
    for _ in 0..20 {
        match mgr.setup_bridge("linux", replies) {
            Next::Ask(call) => {
                calls.push(format!("{call:?}"));
                replies.push(obey(&call));
            }
            end => return (calls, end),
        }
    }
    panic!("the dialogue does not end");
}

#[test]
fn bridge_is_set_up_step_by_step() {
    let (calls, end) = setup(&mut Vec::new());
    assert!(matches!(end, Next::Done(())));
    assert_eq!(
        calls,
        vec![
            "Connect",
            "AddBridge(\"crate0\")",
            "FindLink(\"crate0\")",
            "SetUp(3)",
            "AddAddress { link: 3, address: Ipv4Addr { bits: 2887516161 }, prefix_len: 16 }",
            "Iptables([\"-t\", \"nat\", \"-A\", \"POSTROUTING\", \"-s\", \"172.28.0.0/16\", \"-j\", \"MASQUERADE\"])",
            "WriteFile { path: \"/proc/sys/net/ipv4/ip_forward\", contents: \"1\" }",
        ]
    );
}

#[test]
fn existing_bridge_does_no_harm() {
    let mut replies =
        vec![NetReply::Done, NetReply::Failed("Received a netlink error message File exists".into())];
    let (calls, end) = setup(&mut replies);
    assert!(matches!(end, Next::Done(())));
    assert!(calls.is_empty());
}

fn bridge_error(replies: Vec<NetReply>) -> String {
    match NetworkManager::with_defaults().setup_bridge("linux", &replies) {
        Next::Fail(error) => error.to_string(),
        other => panic!("expected a failure: {other:?}"),
    }
}

#[test]
fn bridge_errors_name_the_step() {
    let failed = || NetReply::Failed("boom".to_string());
    assert_eq!(
        bridge_error(vec![failed()]),
        "Network error: Failed to open netlink connection: boom"
    );
    assert_eq!(
        bridge_error(vec![NetReply::Done, failed()]),
        "Network error: Failed to create bridge crate0: boom"
    );
    assert_eq!(
        bridge_error(vec![NetReply::Done, NetReply::Done, NetReply::Missing]),
        "Network error: Interface crate0 not found"
    );
    assert_eq!(
        bridge_error(vec![NetReply::Done, NetReply::Done, failed()]),
        "Network error: Interface crate0 not found"
    );
    let ready = || vec![NetReply::Done, NetReply::Done, NetReply::Index(3)];
    let with = |more: Vec<NetReply>| {
        let mut all = ready();
        all.extend(more);
        bridge_error(all)
    };
    assert_eq!(with(vec![failed()]), "Network error: Failed to bring up bridge crate0: boom");
    assert_eq!(
        with(vec![NetReply::Done, failed()]),
        "Network error: Failed to add address 172.28.0.1 to crate0: boom"
    );
    assert_eq!(
        with(vec![NetReply::Done, NetReply::Done, failed()]),
        "Network error: Failed to run iptables: boom"
    );
    let refused = NetReply::Ran { success: false, stderr: "no chain".to_string() };
    assert_eq!(
        with(vec![NetReply::Done, NetReply::Done, refused]),
        "Network error: iptables [\"-t\", \"nat\", \"-A\", \"POSTROUTING\", \"-s\", \"172.28.0.0/16\", \"-j\", \"MASQUERADE\"] failed: no chain"
    );
    let duplicate = NetReply::Ran { success: false, stderr: "rule already exists".to_string() };
    assert_eq!(
        with(vec![NetReply::Done, NetReply::Done, duplicate, failed()]),
        "Network error: Failed to enable IP forwarding: boom"
    );
}

#[test]
fn networking_needs_linux() {
    let mgr = NetworkManager::with_defaults();
    match mgr.setup_bridge("macos", &Vec::new()) {
        Next::Fail(error) => assert_eq!(
            error.to_string(),
            "Network error: Bridge networking is only supported on Linux"
        ),
        other => panic!("expected a failure: {other:?}"),
    }
    match mgr.create_container_network("c", "macos", &Vec::new()) {
        Next::Fail(error) => assert_eq!(
            error.to_string(),
            "Network error: Container networking is only supported on Linux"
        ),
        other => panic!("expected a failure: {other:?}"),
    }
}

fn attach() -> (Vec<String>, ContainerNetwork) {
    let mgr = NetworkManager::with_defaults();
    let mut replies = Vec::new();
    let mut calls = Vec::new();
    loop {
        match mgr.create_container_network("0123456789ab", "linux", &replies) {
            Next::Ask(call) => {
                calls.push(format!("{call:?}"));
                replies.push(obey(&call));
            }
            Next::Done(network) => return (calls, network),
            other => panic!("unexpected turn: {other:?}"),
        }
    }
}

#[test]
fn container_network_gets_an_address() {
    let (calls, network) = attach();
    assert_eq!(network.container_id, "0123456789ab");
    assert_eq!(network.veth_host, "veth01234567");
    assert_eq!(network.veth_container, "eth0");
    assert_eq!(network.ip_address, Ipv4Addr::new(172, 28, 0, 5));
    assert_eq!(network.bridge_name, "crate0");
    assert_eq!(network.subnet_cidr, "172.28.0.0/16");
    assert_eq!(
        calls,
        vec![
            "Connect",
            "AddVeth { host: \"veth01234567\", container: \"eth0\" }",
            "FindLink(\"crate0\")",
            "FindLink(\"veth01234567\")",
            "Attach { link: 8, bridge: 3 }",
            "SetUp(8)",
            "NextHost",
            "FindLink(\"eth0\")",
            "AddAddress { link: 9, address: Ipv4Addr { bits: 2887516165 }, prefix_len: 16 }",
        ]
    );
}

#[test]
fn container_network_errors_name_the_step() {
    let mgr = NetworkManager::with_defaults();
    let good = vec![
        NetReply::Done,
        NetReply::Done,
        NetReply::Index(3),
        NetReply::Index(8),
        NetReply::Done,
        NetReply::Done,
        NetReply::Host(5),
        NetReply::Index(9),
    ];
    let mut expected = vec![
        (0, "Failed to open netlink connection: boom"),
        (1, "Failed to create veth pair: boom"),
        (2, "Interface crate0 not found"),
        (3, "Interface vethc1 not found"),
        (4, "Failed to attach vethc1 to bridge: boom"),
        (5, "Failed to bring up vethc1: boom"),
        (7, "Interface eth0 not found"),
        (8, "Failed to assign 172.28.0.5 to eth0: boom"),
    ];
    let mut replies: Vec<NetReply> = Vec::new();
    for reply in good {
        if let Some(at) = expected.iter().position(|(n, _)| *n == replies.len()) {
            let (_, text) = expected.remove(at);
            replies.push(NetReply::Failed("boom".to_string()));
            match mgr.create_container_network("c1", "linux", &replies) {
                Next::Fail(error) => assert_eq!(error.to_string(), format!("Network error: {text}")),
                other => panic!("expected a failure: {other:?}"),
            }
            replies.pop();
        }
        replies.push(reply);
    }
    replies.push(NetReply::Failed("boom".to_string()));
    match mgr.create_container_network("c1", "linux", &replies) {
        Next::Fail(error) => {
            assert_eq!(error.to_string(), format!("Network error: {}", expected[0].1))
        }
        other => panic!("expected a failure: {other:?}"),
    }
    replies.truncate(6);
    replies.push(NetReply::Host(0xFFFF));
    match mgr.create_container_network("c1", "linux", &replies) {
        Next::Fail(error) => {
            assert_eq!(error.to_string(), "Network error: IP address pool exhausted")
        }
        other => panic!("expected a failure: {other:?}"),
    }
    replies.pop();
    replies.push(NetReply::Done);
    assert!(matches!(mgr.create_container_network("c1", "linux", &replies), Next::Stray));
}

#[test]
fn cleanup_deletes_the_interface_if_it_is_there() {
    let (_, network) = attach();
    let replies = vec![NetReply::Done, NetReply::Index(8)];
    assert!(matches!(
        network.cleanup("linux", &replies),
        Next::Ask(NetCall::DeleteLink(8))
    ));
    let replies = vec![NetReply::Done, NetReply::Index(8), NetReply::Failed("busy".to_string())];
    match network.cleanup("linux", &replies) {
        Next::Fail(error) => assert_eq!(
            error.to_string(),
            "Network error: Failed to delete veth veth01234567: busy"
        ),
        other => panic!("expected a failure: {other:?}"),
    }
    let replies = vec![NetReply::Done, NetReply::Missing];
    match network.cleanup("linux", &replies) {
        Next::Ask(NetCall::Iptables(args)) => assert_eq!(args[2], "-D"),
        other => panic!("unexpected turn: {other:?}"),
    }
    let replies = vec![NetReply::Done, NetReply::Missing, NetReply::Failed("none".to_string())];
    assert!(matches!(network.cleanup("linux", &replies), Next::Done(())));
    match network.cleanup("macos", &Vec::new()) {
        Next::Fail(error) => assert_eq!(
            error.to_string(),
            "Network error: Container networking is only supported on Linux"
        ),
        other => panic!("expected a failure: {other:?}"),
    }
}
