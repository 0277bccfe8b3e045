use avm::runtime::{
    check_runtime_batch, import_result, parse_timestamp, runtime_batch_lines, validate_hex_id,
    validate_record, IdField, ProcessState, RecordFault, RuntimeError, RuntimeRecord, TimestampField,
};

fn span(trace: &str, span: &str, parent: Option<&str>, start: &str, end: &str) -> RuntimeRecord {
    RuntimeRecord::Span {
        trace_id: trace.into(),
        span_id: span.into(),
        parent_span_id: parent.map(Into::into),
        name: "POST /cards".into(),
        start_time_unix_nano: start.into(),
        end_time_unix_nano: end.into(),
        status: serde_json::Value::Null,
        attributes: serde_json::Value::Null,
    }
}

fn log(timestamp: Option<&str>, trace: Option<&str>, span: Option<&str>) -> RuntimeRecord {
    RuntimeRecord::ApplicationLog {
        timestamp_unix_nano: timestamp.map(Into::into),
        severity_text: None,
        body: serde_json::Value::String("saved".into()),
        trace_id: trace.map(Into::into),
        span_id: span.map(Into::into),
        attributes: serde_json::Value::Null,
    }
}

#[test]
fn imports_bounded_runtime_records_with_explicit_causal_basis() {
    let input = "{\"kind\":\"span\",\"traceId\":\"0123456789abcdef0123456789abcdef\"}\n  \n{\"kind\":\"application_log\",\"timestampUnixNano\":\"150\"}\n";
    let lines = runtime_batch_lines(input.as_bytes()).unwrap();
    assert_eq!(lines.len(), 2);
    assert_eq!(lines[0].number, 1);
    assert_eq!(lines[1].number, 3);
    let decoded = vec![
        Ok(span("0123456789abcdef0123456789abcdef", "0123456789abcdef", Some("fedcba9876543210"), "100", "200")),
        Ok(log(Some("150"), Some("0123456789abcdef0123456789abcdef"), Some("0123456789abcdef"))),
    ];
    check_runtime_batch(&lines, &decoded).unwrap();
    let records: Vec<RuntimeRecord> = decoded.into_iter().map(|r| r.unwrap()).collect();
    let result = import_result(&records, "sha256:batch".into());
    assert_eq!(result.event_count, 2);
    assert_eq!(result.kinds, vec!["runtime.span", "runtime.application.log"]);
}

#[test]
fn validates_the_entire_batch_before_storing_it() {
    let input = "{\"kind\":\"process_status\",\"processId\":7,\"state\":\"running\"}\n{\"kind\":\"span\",\"traceId\":\"bad\",\"spanId\":\"bad\"}\n";
    let lines = runtime_batch_lines(input.as_bytes()).unwrap();
    let decoded = vec![
        Ok(RuntimeRecord::ProcessStatus {
            process_id: 7,
            state: ProcessState::Running,
            exit_code: None,
            signal: None,
            executable: None,
        }),
        Ok(span("bad", "bad", None, "2", "1")),
    ];
    let error = check_runtime_batch(&lines, &decoded).unwrap_err();
    assert_eq!(
        error,
        RuntimeError::Invalid { line: 2, fault: RecordFault::BadId { field: IdField::TraceId, length: 32 } }
    );
}

#[test]
fn empty_and_blank_batches_are_refused() {
    assert_eq!(runtime_batch_lines(b"").unwrap_err(), RuntimeError::Empty);
    let lines = runtime_batch_lines(b" \t\r\n\n").unwrap();
    assert!(lines.is_empty());
    assert_eq!(check_runtime_batch(&lines, &[]), Err(RuntimeError::NoRecords));
}

#[test]
fn decoding_failures_are_reported_with_their_line() {
    let lines = runtime_batch_lines(b"{}\nnot json\n").unwrap();
    let decoded = vec![
        Ok(log(None, None, None)),
        Err("expected value".to_string()),
    ];
    assert_eq!(
        check_runtime_batch(&lines, &decoded),
        Err(RuntimeError::Decode { line: 2, message: "expected value".into() })
    );
}

#[test]
fn records_are_checked_field_by_field() {
    let trace = "0123456789abcdef0123456789abcdef";
    let id = "0123456789abcdef";
    assert_eq!(validate_record(&span(trace, id, Some(id), "1", "2")), Err(RecordFault::OwnParent));
    assert_eq!(validate_record(&span(trace, id, None, "3", "2")), Err(RecordFault::EndsBeforeStart));
    assert_eq!(
        validate_record(&span(trace, id, None, "x", "2")),
        Err(RecordFault::InvalidTimestamp { field: TimestampField::Start })
    );
    assert_eq!(validate_record(&log(None, Some(trace), None)), Err(RecordFault::UnpairedTraceContext));
    assert_eq!(validate_record(&log(Some("+12"), None, None)), Ok(()));
    let exited = RuntimeRecord::ProcessStatus {
        process_id: 1,
        state: ProcessState::Exited,
        exit_code: None,
        signal: Some(9),
        executable: None,
    };
    assert_eq!(validate_record(&exited), Err(RecordFault::ExitedWithoutCode));
    let deep = RuntimeRecord::ProfileSample {
        timestamp_unix_nano: "5".into(),
        process_id: 1,
        thread_id: None,
        stack: vec!["f".to_string(); 1025],
        weight: None,
    };
    assert_eq!(validate_record(&deep), Err(RecordFault::StackTooDeep));
    assert_eq!(
        RecordFault::BadId { field: IdField::SpanId, length: 16 }.message(),
        "spanId must be exactly 16 hexadecimal characters"
    );
}

#[test]
fn timestamps_and_ids_follow_std_parsing() {
    assert_eq!(parse_timestamp("340282366920938463463374607431768211455"), Some(u128::MAX));
    assert_eq!(parse_timestamp("340282366920938463463374607431768211456"), None);
    assert_eq!(parse_timestamp("-1"), None);
    assert_eq!(parse_timestamp(""), None);
    assert!(validate_hex_id("ABCDEF0123456789", 16));
    assert!(!validate_hex_id("abcdef012345678g", 16));
    assert!(!validate_hex_id("abc", 16));
}
