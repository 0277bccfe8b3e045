use avm::remote::{
    devtools_version_ready, publication_is_unchanged, remote_command, shell_quote, ssh_arguments,
    validate_endpoint, EndpointError, EndpointField, PublicationStatus,
};

#[test]
fn endpoint_validation_rejects_shell_metacharacters() {
    assert!(validate_endpoint("project", "zone-a", "instance_1").is_ok());
    assert!(validate_endpoint("project; touch nope", "zone-a", "instance").is_err());
}

#[test]
fn shell_quote_handles_spaces_and_apostrophes() {
    assert_eq!(shell_quote("/tmp/a b'c"), "'/tmp/a b'\\''c'");
}

#[test]
fn unchanged_publication_requires_the_same_active_run_and_source() {
    let run_id = "7d7c6a0e-7a53-4a3c-9c1e-9f1f8f2b8c11";
    let status = PublicationStatus {
        run_id: Some(run_id.into()),
        active: Some(true),
        source_repository_fingerprint: Some("sha256:source".into()),
    };
    assert!(publication_is_unchanged(&status, run_id, "sha256:source"));
    assert!(!publication_is_unchanged(&status, "0b4f3a52-8d9c-4f10-a1e2-3c4d5e6f7a8b", "sha256:source"));
    assert!(!publication_is_unchanged(&status, run_id, "sha256:changed"));
    let failed = PublicationStatus { active: Some(false), ..status };
    assert!(!publication_is_unchanged(&failed, run_id, "sha256:source"));
}

#[test]
fn endpoint_errors_name_the_first_bad_field() {
    assert_eq!(
        validate_endpoint("p", "", "i"),
        Err(EndpointError::Empty { field: EndpointField::Zone })
    );
    let error = validate_endpoint("p", "z", "in stance").unwrap_err();
    assert_eq!(error, EndpointError::UnsupportedCharacters { field: EndpointField::Instance });
    assert_eq!(error.message(), "instance contains unsupported characters");
    assert!(validate_endpoint("projé", "z", "i").is_err());
}

#[test]
fn remote_commands_quote_every_word() {
    assert_eq!(
        remote_command("/opt/avm bin", &["exec-list".into(), "--run".into(), "/r/it's".into()]),
        "'/opt/avm bin' 'exec-list' '--run' '/r/it'\\''s'"
    );
    assert_eq!(
        ssh_arguments("p", "z", "i", "true"),
        vec!["compute", "ssh", "i", "--quiet", "--project", "p", "--zone", "z", "--command", "true"]
    );
}

#[test]
fn devtools_reply_needs_success_and_debugger_url() {
    assert!(devtools_version_ready(
        "HTTP/1.1 200 OK\r\nContent-Length: 42\r\n\r\n{\"webSocketDebuggerUrl\":\"ws://example\"}"
    ));
    assert!(!devtools_version_ready("HTTP/1.1 404 Not Found\r\n\r\nwebSocketDebuggerUrl"));
    assert!(!devtools_version_ready("HTTP/1.1 200 OK\r\n\r\n{}"));
}
