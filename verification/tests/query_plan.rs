use avm::event::{EventRecord, PayloadFacts, Provenance};
use avm::query::QueryInterval;
use avm::query_plan::{
    around_interval, console_interval, evidence_since, frame_times_selection, hold_frame_times, network_plan,
    pointer_release, query_result, runtime_trace_plan, QueryError,
};

const TRACE: &str = "0123456789abcdef0123456789abcdef";

fn make(id: &str, at: u64, source: &str, kind: &str, facts: PayloadFacts) -> EventRecord {
    EventRecord {
        id: id.into(),
        host_monotonic_ns: at,
        wall_clock_time: format!("2026-01-01T00:00:{:02}Z", at % 60),
        source: source.into(),
        kind: kind.into(),
        repository_fingerprint: None,
        artifact_refs: Vec::new(),
        provenance: Provenance::Observed,
        facts,
    }
}

fn plain(id: &str, at: u64, source: &str, kind: &str) -> EventRecord {
    make(id, at, source, kind, PayloadFacts::empty())
}

fn traced(id: &str, at: u64, trace: &str) -> EventRecord {
    let mut facts = PayloadFacts::empty();
    facts.trace_id = Some(trace.into());
    make(id, at, "runtime", "runtime.span", facts)
}

fn network(id: &str, at: u64, kind: &str, url: &str) -> EventRecord {
    let mut facts = PayloadFacts::empty();
    facts.url = Some(url.into());
    make(id, at, "network", kind, facts)
}

#[test]
fn around_interval_widens_by_milliseconds_and_saturates() {
    let i = around_interval(1_000_000_000, 500, 2_000).unwrap();
    assert_eq!(i.start_ns, 500_000_000);
    assert_eq!(i.end_ns, 3_000_000_000);
    let low = around_interval(10, 1, 1).unwrap();
    assert_eq!(low.start_ns, 0);
    assert_eq!(low.end_ns, 1_000_010);
    let high = around_interval(u64::MAX - 5, 0, 1).unwrap();
    assert_eq!(high.start_ns, u64::MAX - 5);
    assert_eq!(high.end_ns, u64::MAX);
    assert_eq!(around_interval(0, u64::MAX, 0), Err(QueryError::DurationOverflow));
    assert_eq!(around_interval(0, 0, u64::MAX / 1_000_000 + 1), Err(QueryError::DurationOverflow));
}

#[test]
fn runtime_trace_plan_spans_the_members_of_the_trace() {
    let all = vec![
        plain("a", 10, "browser", "pointer.down"),
        traced("b", 48, TRACE),
        traced("c", 42, TRACE),
        traced("d", 44, "ffffffffffffffffffffffffffffffff"),
        make("e", 45, "browser", "runtime.span", {
            let mut f = PayloadFacts::empty();
            f.trace_id = Some(TRACE.into());
            f
        }),
    ];
    let plan = runtime_trace_plan(&all[1], &all, 0, 1).unwrap();
    assert_eq!(plan.members, vec![1, 2]);
    assert_eq!(plan.interval.start_ns, 42);
    assert_eq!(plan.interval.end_ns, 1_000_048);
}

#[test]
fn runtime_trace_plan_refuses_other_anchors() {
    let all = vec![traced("b", 48, TRACE)];
    assert_eq!(
        runtime_trace_plan(&plain("a", 1, "browser", "pointer.down"), &all, 0, 0).err(),
        Some(QueryError::NotRuntime)
    );
    assert_eq!(
        runtime_trace_plan(&plain("a", 1, "runtime", "runtime.span"), &all, 0, 0).err(),
        Some(QueryError::NoTraceId)
    );
    assert_eq!(
        runtime_trace_plan(&traced("x", 1, "0123"), &all, 0, 0).err(),
        Some(QueryError::InvalidTraceId)
    );
    assert_eq!(
        runtime_trace_plan(&traced("x", 1, "0123456789abcdef0123456789abcdeg"), &all, 0, 0).err(),
        Some(QueryError::InvalidTraceId)
    );
    let other = traced("y", 1, "ffffffffffffffffffffffffffffffff");
    assert_eq!(runtime_trace_plan(&other, &all, 0, 0).err(), Some(QueryError::NoTraceMembers));
    assert_eq!(
        runtime_trace_plan(&all[0], &all, u64::MAX, 0).err(),
        Some(QueryError::DurationOverflow)
    );
}

#[test]
fn network_plan_pairs_a_request_with_its_first_later_response() {
    let url = "https://fixture.invalid/api";
    let all = vec![
        network("r0", 30, "browser.network.response", url),
        network("q", 40, "browser.network.request", url),
        network("other", 45, "browser.network.response", "https://fixture.invalid/other"),
        network("r1", 50, "browser.network.response", url),
        network("r2", 60, "browser.network.response", url),
    ];
    let plan = network_plan(&all[1], &all).unwrap();
    assert_eq!(plan.peer, Some(3));
    assert_eq!(plan.pair_start, 40);
    assert_eq!(plan.pair_end, 50);
    assert_eq!(plan.interval.start_ns, 0);
    assert_eq!(plan.interval.end_ns, 500_000_050);

    let back = network_plan(&all[4], &all).unwrap();
    assert_eq!(back.peer, Some(1));
    assert_eq!(back.pair_start, 40);
    assert_eq!(back.pair_end, 60);
}

#[test]
fn network_plan_without_a_peer_stays_on_the_event() {
    let late = network("q", 1_000_000_000, "browser.network.request", "https://a.invalid/");
    let plan = network_plan(&late, &[late.clone()]).unwrap();
    assert_eq!(plan.peer, None);
    assert_eq!(plan.pair_start, 1_000_000_000);
    assert_eq!(plan.interval.start_ns, 750_000_000);
    assert_eq!(plan.interval.end_ns, 1_500_000_000);
    assert_eq!(
        network_plan(&plain("x", 1, "browser", "pointer.down"), &[]).err(),
        Some(QueryError::NotNetwork)
    );
    assert_eq!(
        network_plan(&plain("x", 1, "network", "browser.network.request"), &[]).err(),
        Some(QueryError::NoUrl)
    );
}

#[test]
fn pointer_release_is_the_first_up_before_the_next_down() {
    let later = vec![
        plain("d", 20, "input", "pointer.down"),
        plain("m", 25, "input", "pointer.move"),
        plain("u", 30, "input", "pointer.up"),
        plain("u2", 35, "input", "pointer.up"),
    ];
    assert_eq!(pointer_release(&later[0], &later), Ok(2));
    let interrupted = vec![
        plain("d", 20, "input", "pointer.down"),
        plain("d2", 25, "input", "pointer.down"),
        plain("u", 30, "input", "pointer.up"),
    ];
    assert_eq!(pointer_release(&interrupted[0], &interrupted), Err(QueryError::NoRelease));
    assert_eq!(pointer_release(&later[0], &later[..1]), Err(QueryError::NoRelease));
    assert_eq!(pointer_release(&later[1], &later), Err(QueryError::NotPointerDown));
}

#[test]
fn hold_frame_times_lists_the_press_then_display_events() {
    let events = vec![
        plain("s", 22, "display", "display.scanout"),
        plain("m", 25, "input", "pointer.move"),
        plain("u", 28, "display", "display.update"),
    ];
    assert_eq!(hold_frame_times(20, 30, &events), vec![20, 30, 22, 28]);
    assert_eq!(hold_frame_times(5, 6, &[]), vec![5, 6]);
}

#[test]
fn evidence_since_starts_at_the_first_event_of_the_fingerprint() {
    let mut early = plain("a", 10, "evidence", "evidence.command.completed");
    early.repository_fingerprint = Some("repo-0".into());
    let mut first = plain("b", 20, "browser", "pointer.down");
    first.repository_fingerprint = Some("repo-a".into());
    let mut evidence = plain("c", 30, "evidence", "evidence.command.completed");
    evidence.repository_fingerprint = Some("repo-a".into());
    let named = plain("d", 40, "runtime", "evidence.note");
    let last = plain("e", 50, "browser", "pointer.up");
    let all = vec![early, first, evidence, named, last];
    let plan = evidence_since(&all, "repo-a").unwrap();
    assert_eq!(plan.anchor, 1);
    assert_eq!(plan.interval.start_ns, 20);
    assert_eq!(plan.interval.end_ns, 50);
    assert_eq!(plan.evidence, vec![2, 3]);
    assert_eq!(evidence_since(&all, "  ").err(), Some(QueryError::EmptyFingerprint));
    let missing = evidence_since(&all, "repo-z").err().unwrap();
    assert_eq!(missing, QueryError::FingerprintNotFound("repo-z".into()));
    assert_eq!(missing.message(), "repository fingerprint repo-z is not in the timeline");
}

#[test]
fn console_interval_ends_at_the_message() {
    let exception = plain("x", 5_000_000, "console", "browser.javascript.exception");
    let i = console_interval(&exception, 1).unwrap();
    assert_eq!(i.start_ns, 4_000_000);
    assert_eq!(i.end_ns, 5_000_000);
    let message = plain("m", 5, "console", "browser.console.message");
    assert_eq!(console_interval(&message, 1).unwrap().start_ns, 0);
    assert_eq!(console_interval(&message, u64::MAX).err(), Some(QueryError::DurationOverflow));
    let other = plain("o", 5, "browser", "pointer.down");
    assert_eq!(console_interval(&other, 1).err(), Some(QueryError::NotConsole));
}

#[test]
fn frame_times_are_distinct_sorted_and_compacted() {
    let times = [5, 1, 5, 3, 9, 1];
    assert_eq!(frame_times_selection(&times, 3), Ok(vec![1, 3, 9]));
    assert_eq!(frame_times_selection(&times, 10), Ok(vec![1, 3, 5, 9]));
    assert_eq!(frame_times_selection(&times, 1), Ok(vec![9]));
    assert_eq!(frame_times_selection(&[], 2), Ok(vec![]));
    assert_eq!(frame_times_selection(&times, 0), Err(QueryError::FrameLimit));
    assert_eq!(QueryError::FrameLimit.message(), "frame limit must be positive");
}

#[test]
fn query_results_part_events_by_provenance_and_collect_artifacts() {
    let mut a = plain("a", 1, "display", "display.update");
    a.artifact_refs = vec!["sha256:b".into(), "sha256:a".into()];
    let mut b = plain("b", 2, "vlm", "perception.vlm.observation");
    b.provenance = Provenance::ModelInterpreted;
    b.artifact_refs = vec!["sha256:a".into()];
    let mut c = plain("c", 3, "analysis", "perception.temporal.analysis");
    c.provenance = Provenance::Derived;
    let mut d = plain("d", 4, "agent", "agent.claim");
    d.provenance = Provenance::AgentClaim;
    let e = plain("e", 5, "input", "pointer.down");
    let interval = QueryInterval { start_ns: 1, end_ns: 5 };
    let result = query_result(interval, vec![a, b, c, d, e], &vec!["sha256:frame".into()]).unwrap();
    assert_eq!(result.interval, interval);
    let ids = |v: &Vec<EventRecord>| v.iter().map(|e| e.id.clone()).collect::<Vec<_>>();
    assert_eq!(ids(&result.observed_events), vec!["a", "e"]);
    assert_eq!(ids(&result.derived_events), vec!["c"]);
    assert_eq!(ids(&result.model_interpretations), vec!["b"]);
    assert_eq!(ids(&result.agent_claims), vec!["d"]);
    assert_eq!(result.artifact_refs, vec!["sha256:a", "sha256:b", "sha256:frame"]);
}

#[test]
fn query_results_refuse_an_inverted_interval() {
    let interval = QueryInterval { start_ns: 9, end_ns: 3 };
    assert!(matches!(query_result(interval, Vec::new(), &Vec::new()), Err(QueryError::InvalidInterval)));
}
