use avm::browser::{
    check_sensor_artifact, check_sensor_event, color_error, is_blank_line, observer_outcome, BrowserObserverOptions,
    ObserverError,
};

#[test]
fn playwright_observer_runs_the_script_with_node() {
    let options = BrowserObserverOptions::playwright("/opt/observer.js", "http://127.0.0.1:9222".into(), "/t/trace.jsonl".into(), "/t/artifacts".into(), 5_000);
    assert_eq!(options.command, vec!["node", "/opt/observer.js"]);
    assert_eq!(options.duration_ms, 5_000);
}

#[test]
fn colour_error_sums_channel_differences() {
    assert_eq!(color_error([10, 20, 30], [13, 18, 30]), 5);
    assert_eq!(color_error([0, 255, 0], [255, 0, 255]), 765);
}

#[test]
fn observer_command_appends_the_session_arguments() {
    let options = BrowserObserverOptions::playwright(
        "/opt/observer.js",
        "http://127.0.0.1:9222".into(),
        "/t/trace.zip".into(),
        "/t/artifacts".into(),
        1,
    );
    let (program, args) = options.observer_command("/real/artifacts").unwrap();
    assert_eq!(program, "node");
    assert_eq!(
        args,
        vec![
            "/opt/observer.js", "--endpoint", "http://127.0.0.1:9222", "--trace", "/t/trace.zip", "--artifacts-dir",
            "/real/artifacts", "--duration-ms", "1"
        ]
    );
    let mut empty = options.clone();
    empty.command.clear();
    let err = empty.observer_command("/real/artifacts").err().unwrap();
    assert_eq!(err, ObserverError::EmptyCommand);
    assert_eq!(err.message(), "browser observer command is empty");
}

#[test]
fn observer_lines_and_artifacts_are_checked() {
    assert!(is_blank_line("  \t"));
    assert!(!is_blank_line(" {} "));
    assert_eq!(check_sensor_event("browser", "browser.navigation"), Ok(()));
    assert_eq!(check_sensor_event("", "browser.navigation"), Err(ObserverError::EmptySource));
    assert_eq!(check_sensor_event("browser", ""), Err(ObserverError::EmptyKind));
    assert_eq!(check_sensor_artifact("/t/artifacts/shot.png", "/t/artifacts", true), Ok(()));
    assert_eq!(check_sensor_artifact("/t/artifacts-2/shot.png", "/t/artifacts", true), Err(ObserverError::ArtifactEscaped));
    assert_eq!(check_sensor_artifact("/t/artifacts/dir", "/t/artifacts", false), Err(ObserverError::ArtifactEscaped));
}

#[test]
fn observer_failure_reports_status_and_stderr() {
    let lines = vec!["CDP transport reset".to_string(), "bye".to_string()];
    let err = observer_outcome(false, "exit status: 7", &lines, true).err().unwrap();
    assert_eq!(err.message(), "browser observer failed with exit status: 7: CDP transport reset\nbye");
    assert!(err.message().contains("CDP transport reset"));
    assert_eq!(observer_outcome(true, "exit status: 0", &[], false), Err(ObserverError::NoTrace));
    assert_eq!(observer_outcome(true, "exit status: 0", &[], true), Ok(()));
    assert_eq!(ObserverError::NoTrace.message(), "browser observer produced no trace");
}
