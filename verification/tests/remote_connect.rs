use avm::remote::RemoteEndpoint;
use avm::remote_connect::{
    ensure_endpoint_requested, ensure_same_run, failure_layer, guest_tunnel_command, outer_tunnel_arguments,
    plan_endpoints, requested_guest_ports, ConnectError,
};

#[test]
fn a_connection_needs_an_endpoint() {
    assert_eq!(ensure_endpoint_requested(false, &[]), Err(ConnectError::NoEndpointRequested));
    assert_eq!(ensure_endpoint_requested(true, &[]), Ok(()));
    assert_eq!(ensure_endpoint_requested(false, &[3000]), Ok(()));
    assert_eq!(ConnectError::NoEndpointRequested.message(), "request at least one remote endpoint");
}

#[test]
fn the_remote_run_must_be_the_channel_run() {
    assert_eq!(ensure_same_run("run-1", "run-1"), Ok(()));
    assert_eq!(ensure_same_run("run-2", "run-1"), Err(ConnectError::RunIdentityChanged));
}

#[test]
fn guest_ports_are_sorted_by_purpose_and_deduplicated() {
    let ports = requested_guest_ports(true, &[5173, 3000, 5173, 10000]).unwrap();
    let expected: Vec<(String, u16)> = vec![
        ("browser".into(), 9222),
        ("web-ui-10000".into(), 10000),
        ("web-ui-3000".into(), 3000),
        ("web-ui-5173".into(), 5173),
    ];
    assert_eq!(ports, expected);
    assert_eq!(requested_guest_ports(false, &[80, 0]), Err(ConnectError::ZeroWebUiPort));
    assert_eq!(requested_guest_ports(false, &[]).unwrap(), Vec::<(String, u16)>::new());
}

#[test]
fn endpoints_take_consecutive_remote_ports_from_the_connection_identifier() {
    let ports = requested_guest_ports(true, &[3000]).unwrap();
    let endpoints = plan_endpoints(&ports, 2, &[41000, 41001]).unwrap();
    assert_eq!(endpoints.len(), 2);
    assert_eq!(endpoints[0].purpose, "browser");
    assert_eq!(endpoints[0].guest_port, 9222);
    assert_eq!(endpoints[0].remote_port, 30064);
    assert_eq!(endpoints[0].local_port, 41000);
    assert_eq!(endpoints[0].url, "http://127.0.0.1:41000");
    assert!(!endpoints[0].ready);
    assert_eq!(endpoints[1].purpose, "web-ui-3000");
    assert_eq!(endpoints[1].remote_port, 30065);
    assert_eq!(plan_endpoints(&ports, 2, &[41000]).err(), Some(ConnectError::LocalPortsMissing));
}

#[test]
fn remote_ports_may_not_pass_the_last_port_number() {
    let ports: Vec<(String, u16)> = (1..=27377u16).map(|p| (format!("web-ui-{p}"), p)).collect();
    let locals: Vec<u16> = vec![1; ports.len()];
    assert_eq!(plan_endpoints(&ports, 255, &locals).err(), Some(ConnectError::TooManyEndpoints));
    let fewer = ports[..27376].to_vec();
    let planned = plan_endpoints(&fewer, 255, &locals[..27376]).unwrap();
    assert_eq!(planned[27375].remote_port, 65535);
}

fn endpoint(purpose: &str, guest: u16, remote: u16, local: u16) -> RemoteEndpoint {
    RemoteEndpoint {
        purpose: purpose.into(),
        guest_port: guest,
        remote_port: remote,
        local_port: local,
        url: format!("http://127.0.0.1:{local}"),
        ready: false,
    }
}

#[test]
fn tunnel_commands_forward_each_endpoint() {
    let endpoints = vec![endpoint("browser", 9222, 30064, 41000)];
    let nested = guest_tunnel_command("conn-1", "/var/lib/avm/run", "/keys/id_ed25519", 2222, "dev", &endpoints);
    assert_eq!(
        nested,
        "'env' 'AVM_CONNECTION_ID=conn-1' 'ssh' '-N' '-T' '-o' 'BatchMode=yes' '-o' 'ExitOnForwardFailure=yes' '-o' 'StrictHostKeyChecking=yes' '-o' 'UserKnownHostsFile=/var/lib/avm/run/guest_known_hosts' '-i' '/keys/id_ed25519' '-p' '2222' '-L' '127.0.0.1:30064:127.0.0.1:9222' 'dev@127.0.0.1'"
    );
    let outer = outer_tunnel_arguments("proj", "zone-a", "vm-1", &endpoints, &nested);
    assert_eq!(
        outer,
        vec![
            "compute".to_string(),
            "ssh".into(),
            "--quiet".into(),
            "--project".into(),
            "proj".into(),
            "--zone".into(),
            "zone-a".into(),
            "--ssh-flag=-o=ExitOnForwardFailure=yes".into(),
            "--ssh-flag=-L=41000:127.0.0.1:30064".into(),
            "vm-1".into(),
            "--command".into(),
            nested.clone(),
        ]
    );
}

#[test]
fn failure_layers_are_checked_from_the_outside_in() {
    assert_eq!(failure_layer(false, false, false, false, "browser"), Some("outer-host"));
    assert_eq!(failure_layer(true, false, false, false, "browser"), Some("guest-ssh"));
    assert_eq!(failure_layer(true, true, false, false, "browser"), Some("forwarding-process"));
    assert_eq!(failure_layer(true, true, true, false, "browser"), Some("guest-cdp"));
    assert_eq!(failure_layer(true, true, true, false, "web-ui-3000"), Some("guest-web-ui"));
    assert_eq!(failure_layer(true, true, true, true, "browser"), None);
}
