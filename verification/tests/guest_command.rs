use avm::guest_command::{
    active_command_ids, check_reply, check_transport_files, known_hosts_entry, transport_arguments, GuestCommandError,
    ListedCommand, ReplyError,
};

#[test]
fn pins_the_guest_host_key_to_the_forwarded_port() {
    assert_eq!(
        known_hosts_entry("ssh-ed25519 AAAATEST comment\n", 2222),
        Ok("[127.0.0.1]:2222 ssh-ed25519 AAAATEST\n".to_string())
    );
    assert_eq!(known_hosts_entry("  \n", 2222), Err(GuestCommandError::NoKeyType));
    assert_eq!(known_hosts_entry("ssh-ed25519\n", 2222), Err(GuestCommandError::NoKeyBody));
    assert_eq!(known_hosts_entry("ssh-rsa AAAA", 2222), Err(GuestCommandError::NotEd25519));
    assert_eq!(GuestCommandError::NotEd25519.message(), "guest host key must be Ed25519");
}

#[test]
fn transport_needs_both_key_files() {
    assert_eq!(check_transport_files("/k/id", true, "/k/host.pub", true), Ok(()));
    let err = check_transport_files("/k/id", false, "/k/host.pub", true).err().unwrap();
    assert_eq!(err.message(), "guest SSH identity is missing at /k/id");
    let err = check_transport_files("/k/id", true, "/k/host.pub", false).err().unwrap();
    assert_eq!(err.message(), "trusted guest SSH host key is missing at /k/host.pub");
}

#[test]
fn transport_runs_the_agent_with_the_pinned_key() {
    let args = transport_arguments("/run/guest_known_hosts", "/k/id", 2222, "avm");
    assert_eq!(
        args,
        vec![
            "-T", "-o", "BatchMode=yes", "-o", "ConnectTimeout=5", "-o", "IdentitiesOnly=yes", "-o",
            "StrictHostKeyChecking=yes", "-o", "UserKnownHostsFile=/run/guest_known_hosts", "-i", "/k/id", "-p", "2222",
            "avm@127.0.0.1", "sudo -n /usr/local/bin/avm-command-agent"
        ]
    );
}

#[test]
fn agent_replies_with_errors_are_rejections() {
    assert_eq!(check_reply(true, &ReplyError::Absent), Ok(()));
    let present = ReplyError::Present { text: Some("busy".into()), json: "\"busy\"".into() };
    assert_eq!(check_reply(false, &present), Err(GuestCommandError::Rejected("busy".into())));
    assert_eq!(check_reply(true, &present).err().unwrap().message(), "guest command agent rejected request: \"busy\"");
    assert_eq!(
        check_reply(false, &ReplyError::Absent),
        Err(GuestCommandError::Rejected("unknown agent error".into()))
    );
    let object = ReplyError::Present { text: None, json: "{\"code\":3}".into() };
    assert_eq!(check_reply(false, &object), Err(GuestCommandError::Rejected("unknown agent error".into())));
    assert_eq!(check_reply(true, &object), Err(GuestCommandError::Rejected("{\"code\":3}".into())));
}

#[test]
fn only_accepted_starting_and_running_commands_are_active() {
    let listed = |state: Option<&str>, id: Option<&str>| ListedCommand {
        state: state.map(|s| s.to_string()),
        command_id: id.map(|s| s.to_string()),
    };
    let commands = vec![
        listed(Some("running"), Some("a")),
        listed(Some("finished"), Some("b")),
        listed(Some("accepted"), None),
        listed(None, Some("c")),
        listed(Some("starting"), Some("d")),
        listed(Some("accepted"), Some("e")),
    ];
    assert_eq!(active_command_ids(&commands), vec!["a", "d", "e"]);
}
