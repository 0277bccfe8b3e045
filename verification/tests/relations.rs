use avm::event::{EventRecord, PayloadFacts, Provenance};
use avm::relations::{event_relations, RelationBasis};

const FIRST: &str = "0190f1a2-0000-7000-8000-000000000001";
const SECOND: &str = "0190f1a2-0000-7000-8000-000000000002";
const THIRD: &str = "0190f1a2-0000-7000-8000-000000000003";
const ARTIFACT: &str = "sha256:aaaaaaaaaaaaaaaaaaaaaaaaaaaaaaaaaaaaaaaaaaaaaaaaaaaaaaaaaaaaaaaa";

fn event(id: &str, at: u64, source: &str, kind: &str, artifacts: &[&str]) -> EventRecord {
    EventRecord {
        id: id.into(),
        host_monotonic_ns: at,
        wall_clock_time: "2026-01-01T00:00:00Z".into(),
        source: source.into(),
        kind: kind.into(),
        repository_fingerprint: None,
        artifact_refs: artifacts.iter().map(|a| a.to_string()).collect(),
        provenance: Provenance::Observed,
        facts: PayloadFacts::empty(),
    }
}

#[test]
fn relations_only_claim_recorded_bases() {
    let first = event(FIRST, 1, "input", "pointer.up", &[]);
    let second = event(SECOND, 2, "browser", "browser.page.snapshot", &[ARTIFACT]);
    let third = event(THIRD, 3, "display", "display.update", &[ARTIFACT]);
    let texts = vec![vec![], vec![FIRST.to_string()], vec![]];
    let relations = event_relations(&[first, second, third], &texts);
    assert!(relations.iter().any(|edge| {
        edge.from_event_id == FIRST && edge.to_event_id == SECOND && edge.basis.name() == "recorded_reference"
    }));
    assert!(relations.iter().any(|edge| {
        edge.from_event_id == SECOND && edge.to_event_id == THIRD && edge.basis.name() == "shared_artifact"
    }));
}

#[test]
fn relations_are_sorted_unique_and_ignore_unknown_or_self_references() {
    let first = event(FIRST, 1, "input", "pointer.up", &["a", "a"]);
    let second = event(SECOND, 2, "browser", "browser.page.snapshot", &["a"]);
    let third = event(THIRD, 3, "display", "display.update", &["a", "b"]);
    let texts = vec![
        vec![FIRST.to_string(), "0190f1a2-0000-7000-8000-00000000ffff".to_string()],
        vec![THIRD.to_uppercase(), THIRD.to_string(), "not an id".to_string()],
        vec![SECOND.replace('-', "")],
    ];
    let relations = event_relations(&[first, second, third], &texts);
    let listed: Vec<(String, String, &str, String)> = relations
        .iter()
        .map(|r| (r.from_event_id.clone(), r.to_event_id.clone(), r.basis.name(), r.label.clone()))
        .collect();
    assert_eq!(
        listed,
        vec![
            (FIRST.into(), SECOND.into(), "shared_artifact", "a".into()),
            (SECOND.into(), THIRD.into(), "recorded_reference", "recorded event reference".into()),
            (SECOND.into(), THIRD.into(), "shared_artifact", "a".into()),
            (THIRD.into(), SECOND.into(), "recorded_reference", "recorded event reference".into()),
        ]
    );
    assert_eq!(relations[0].basis, RelationBasis::SharedArtifact);
}
