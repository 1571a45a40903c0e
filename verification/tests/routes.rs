use litevpn::routes::{
    cleanup_commands, default_gateway, install_commands, ipv4_text, parse_ipv4, route_add_outcome,
    route_delete_outcome, RouteAddOutcome, RouteDeleteOutcome, RouteError, RouteState,
};

#[test]
fn ipv4_forms() {
    assert_eq!(parse_ipv4("192.168.1.254"), Some([192, 168, 1, 254]));
    assert_eq!(parse_ipv4("0.0.0.0"), Some([0, 0, 0, 0]));
    assert_eq!(parse_ipv4("255.255.255.255"), Some([255, 255, 255, 255]));
    assert_eq!(parse_ipv4("256.1.1.1"), None);
    assert_eq!(parse_ipv4("01.1.1.1"), None);
    assert_eq!(parse_ipv4("1.1.1"), None);
    assert_eq!(parse_ipv4("1.1.1.1."), None);
    assert_eq!(parse_ipv4("1..1.1"), None);
    assert_eq!(parse_ipv4("1.1.1.0001"), None);
    assert_eq!(parse_ipv4(" 1.1.1.1"), None);
    assert_eq!(parse_ipv4("+1.1.1.1"), None);
    assert_eq!(parse_ipv4(""), None);
}

#[test]
fn ipv4_edge_cases() {
    assert_eq!(parse_ipv4("10.66.0.1"), Some([10, 66, 0, 1]));
    assert_eq!(parse_ipv4("100.200.250.255"), Some([100, 200, 250, 255]));
    assert_eq!(parse_ipv4("10.0.0.10"), Some([10, 0, 0, 10]));
    assert_eq!(parse_ipv4("0.0.0.00"), None);
    assert_eq!(parse_ipv4("1.2.3.4 "), None);
    assert_eq!(parse_ipv4("1.2.3.-4"), None);
    assert_eq!(parse_ipv4("a.b.c.d"), None);
    assert_eq!(parse_ipv4("1.2.3.4.5"), None);
}

#[test]
fn gateway_from_route_output() {
    let out = "   route to: default\ndestination: default\n       mask: default\n    gateway: 192.168.0.1\n  interface: en0\n";
    assert_eq!(default_gateway(out), Ok([192, 168, 0, 1]));
    assert_eq!(default_gateway("gateway:10.0.0.1\r\n"), Ok([10, 0, 0, 1]));
    assert_eq!(default_gateway("interface: en0\n"), Err(RouteError::GatewayNotFound));
    assert_eq!(default_gateway(""), Err(RouteError::GatewayNotFound));
    assert_eq!(
        default_gateway("gateway: fe80::1\ngateway: 10.0.0.1\n"),
        Err(RouteError::InvalidGateway)
    );
    assert_eq!(default_gateway("x gateway: 10.0.0.1"), Err(RouteError::GatewayNotFound));
}

#[test]
fn route_command_outcomes() {
    assert_eq!(route_add_outcome(true, "File exists"), RouteAddOutcome::Added);
    assert_eq!(
        route_add_outcome(false, "route: writing to routing socket: File exists\n"),
        RouteAddOutcome::AlreadyPresent
    );
    assert_eq!(route_add_outcome(false, "Network is unreachable"), RouteAddOutcome::Failed);
    assert_eq!(route_delete_outcome(true, ""), RouteDeleteOutcome::Deleted);
    assert_eq!(
        route_delete_outcome(false, "delete net 0.0.0.0: not in table"),
        RouteDeleteOutcome::NotPresent
    );
    assert_eq!(route_delete_outcome(false, "not in tabl"), RouteDeleteOutcome::Failed);
}

#[test]
fn address_text_reads_back() {
    assert_eq!(ipv4_text([10, 66, 0, 1]), "10.66.0.1");
    assert_eq!(ipv4_text([255, 0, 100, 9]), "255.0.100.9");
    for a in [[0, 0, 0, 0], [1, 22, 199, 255], [192, 168, 1, 254]] {
        assert_eq!(parse_ipv4(&ipv4_text(a)), Some(a));
    }
}

#[test]
fn split_route_commands() {
    let install = install_commands([203, 0, 113, 7], [192, 168, 1, 1], [10, 66, 0, 1]);
    assert_eq!(
        install,
        vec![
            vec!["-n", "add", "-host", "203.0.113.7", "192.168.1.1"],
            vec!["-n", "add", "-net", "0.0.0.0/1", "10.66.0.1"],
            vec!["-n", "add", "-net", "128.0.0.0/1", "10.66.0.1"],
        ]
    );
    let expected_cleanup = vec![
        vec!["-n", "delete", "-net", "0.0.0.0/1"],
        vec!["-n", "delete", "-net", "128.0.0.0/1"],
        vec!["-n", "delete", "-host", "203.0.113.7"],
    ];
    assert_eq!(cleanup_commands([203, 0, 113, 7]), expected_cleanup);
    let mut state = RouteState::installed_for([203, 0, 113, 7]);
    assert_eq!(state.take_cleanup(), Some(cleanup_commands([203, 0, 113, 7])));
    assert_eq!(state.take_cleanup(), None);
}
