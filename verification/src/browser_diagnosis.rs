//! Diagnosis of a failed Save: one physical click followed by two identical POST
//! requests, both rejected with 501, and a correlated visible failure. Only the complete
//! pattern is recognised; temporal proximity alone is never taken for causality.
use vstd::prelude::*;
use crate::browser_evidence::{dom_shows, is_display, of_kind};
use crate::event::{positions, recording_order, timeline, timeline_order, EventRecord};
use crate::strset::{is_set, set_of};
use crate::text::{contains_seq, contains_str, decimal, push_decimal, push_str, str_equal, views};
use crate::timeline_search::{all_where, cited_artifact_refs, cited_artifacts, first_in, first_where, last_in, last_where, lemma_first_in_member, lemma_last_in_member};

verus! {

broadcast use vstd::string::group_string_axioms;

/// Why the double-submit pattern was not recognised.
#[derive(Clone, Debug, PartialEq, Eq)]
pub enum DoubleSubmitError {
    /// The requested click is not among the events.
    ClickNotInTimeline(String),
    /// No click was requested and none was recorded.
    NoPointerDown,
    /// The requested event is not a click.
    NotPointerDown,
    NoPointerUp,
    NoDisplayWhileHeld,
    /// The number of POST requests observed after the click, when not two.
    PostCount(usize),
    PostsDiffer,
    PostWithoutUrl,
    ResponsesNotRejected,
    NoConsoleFailure,
    NoDomMutation,
    NoFailureSnapshot,
    NoCorrelation,
}

impl DoubleSubmitError {
    /// The human-readable description of the error.
    pub open spec fn text(&self) -> Seq<char> {
        match self {
            DoubleSubmitError::ClickNotInTimeline(id) => "click event "@ + id@ + " is not in the timeline"@,
            DoubleSubmitError::NoPointerDown => "timeline contains no pointer-down event"@,
            DoubleSubmitError::NotPointerDown => "selected event is not pointer-down"@,
            DoubleSubmitError::NoPointerUp => "click has no subsequent pointer-up"@,
            DoubleSubmitError::NoDisplayWhileHeld => "click has no observed display event while the pointer was held"@,
            DoubleSubmitError::PostCount(n) => "expected exactly two POST requests after one click, observed "@ + decimal(*n as nat),
            DoubleSubmitError::PostsDiffer => "the two POST requests are not identical"@,
            DoubleSubmitError::PostWithoutUrl => "POST request has no URL"@,
            DoubleSubmitError::ResponsesNotRejected => "the duplicate POSTs were not both observed returning 501"@,
            DoubleSubmitError::NoConsoleFailure => "no console observation ties the 501 responses to the Save failure"@,
            DoubleSubmitError::NoDomMutation => "no DOM mutation was observed after the click"@,
            DoubleSubmitError::NoFailureSnapshot => "no browser snapshot contains the visible Save failed state"@,
            DoubleSubmitError::NoCorrelation => "the failure snapshot has no display-coordinate correlation"@,
        }
    }

    /// Renders the description of the error.
    pub fn message(&self) -> (r: String)
        ensures
            r@ == self.text(),
    {
        let mut s = String::new();
        match self {
            DoubleSubmitError::ClickNotInTimeline(id) => {
                push_str(&mut s, "click event ");
                push_str(&mut s, id.as_str());
                push_str(&mut s, " is not in the timeline");
            },
            DoubleSubmitError::NoPointerDown => push_str(&mut s, "timeline contains no pointer-down event"),
            DoubleSubmitError::NotPointerDown => push_str(&mut s, "selected event is not pointer-down"),
            DoubleSubmitError::NoPointerUp => push_str(&mut s, "click has no subsequent pointer-up"),
            DoubleSubmitError::NoDisplayWhileHeld => push_str(
                &mut s,
                "click has no observed display event while the pointer was held",
            ),
            DoubleSubmitError::PostCount(n) => {
                push_str(&mut s, "expected exactly two POST requests after one click, observed ");
                push_decimal(&mut s, *n as u64);
            },
            DoubleSubmitError::PostsDiffer => push_str(&mut s, "the two POST requests are not identical"),
            DoubleSubmitError::PostWithoutUrl => push_str(&mut s, "POST request has no URL"),
            DoubleSubmitError::ResponsesNotRejected => push_str(
                &mut s,
                "the duplicate POSTs were not both observed returning 501",
            ),
            DoubleSubmitError::NoConsoleFailure => push_str(
                &mut s,
                "no console observation ties the 501 responses to the Save failure",
            ),
            DoubleSubmitError::NoDomMutation => push_str(&mut s, "no DOM mutation was observed after the click"),
            DoubleSubmitError::NoFailureSnapshot => push_str(
                &mut s,
                "no browser snapshot contains the visible Save failed state",
            ),
            DoubleSubmitError::NoCorrelation => push_str(
                &mut s,
                "the failure snapshot has no display-coordinate correlation",
            ),
        }
        s
    }
}

/// An event with identifier `id`.
pub open spec fn id_probe(ev: Seq<EventRecord>, id: Seq<char>) -> spec_fn(usize) -> bool {
    |i: usize| ev[i as int].id@ == id
}

/// A click.
pub open spec fn click_probe(ev: Seq<EventRecord>) -> spec_fn(usize) -> bool {
    |i: usize| of_kind(ev[i as int], "pointer.down"@)
}

/// The click examined: the requested event, else the last click, in timeline order.
pub open spec fn chosen_click(ev: Seq<EventRecord>, click_event_id: Option<String>) -> Option<usize> {
    match click_event_id {
        Some(id) => first_in(timeline(ev), id_probe(ev, id@)),
        None => last_in(timeline(ev), click_probe(ev)),
    }
}

/// A click after host time `ns`.
pub open spec fn later_click_probe(ev: Seq<EventRecord>, ns: u64) -> spec_fn(usize) -> bool {
    |i: usize| of_kind(ev[i as int], "pointer.down"@) && ev[i as int].host_monotonic_ns > ns
}

/// Where the click's window ends: the host time of the next click, else the end of time.
pub open spec fn window_end(ev: Seq<EventRecord>, ns: u64) -> u64 {
    match first_in(timeline(ev), later_click_probe(ev, ns)) {
        Some(j) => ev[j as int].host_monotonic_ns,
        None => u64::MAX,
    }
}

/// An event at a host time in `lo..hi`.
pub open spec fn in_window(e: EventRecord, lo: u64, hi: u64) -> bool {
    lo <= e.host_monotonic_ns < hi
}

/// An event of kind `k` in the window.
pub open spec fn window_kind_probe(ev: Seq<EventRecord>, lo: u64, hi: u64, k: Seq<char>) -> spec_fn(usize) -> bool {
    |i: usize| in_window(ev[i as int], lo, hi) && of_kind(ev[i as int], k)
}

/// A display event in the window, not after the release at `up_ns`.
pub open spec fn held_display_probe(ev: Seq<EventRecord>, lo: u64, hi: u64, up_ns: u64) -> spec_fn(usize) -> bool {
    |i: usize| in_window(ev[i as int], lo, hi) && is_display(ev[i as int]) && ev[i as int].host_monotonic_ns <= up_ns
}

/// A network request whose method is the string `POST`.
pub open spec fn is_post(e: EventRecord) -> bool {
    of_kind(e, "browser.network.request"@) && (e.facts.method matches Some(m) && m@ == "POST"@)
}

/// A POST request in the window.
pub open spec fn post_probe(ev: Seq<EventRecord>, lo: u64, hi: u64) -> spec_fn(usize) -> bool {
    |i: usize| in_window(ev[i as int], lo, hi) && is_post(ev[i as int])
}

/// The text of an optional string.
pub open spec fn opt_view(o: Option<String>) -> Option<Seq<char>> {
    match o {
        Some(s) => Some(s@),
        None => None,
    }
}

/// Two requests with the same method, URL and body.
pub open spec fn identical_requests(a: EventRecord, b: EventRecord) -> bool {
    &&& opt_view(a.facts.method_json) == opt_view(b.facts.method_json)
    &&& opt_view(a.facts.url_json) == opt_view(b.facts.url_json)
    &&& opt_view(a.facts.post_data_json) == opt_view(b.facts.post_data_json)
}

/// A network response in the window for the URL `url`.
pub open spec fn response_probe(ev: Seq<EventRecord>, lo: u64, hi: u64, url: Seq<char>) -> spec_fn(usize) -> bool {
    |i: usize| in_window(ev[i as int], lo, hi) && of_kind(ev[i as int], "browser.network.response"@)
        && (ev[i as int].facts.url matches Some(u) && u@ == url)
}

/// A response with status 501.
pub open spec fn rejected(e: EventRecord) -> bool {
    e.facts.status == Some(501u64)
}

/// A console message in the window that reports the Save failure with status 501.
pub open spec fn console_probe(ev: Seq<EventRecord>, lo: u64, hi: u64) -> spec_fn(usize) -> bool {
    |i: usize| in_window(ev[i as int], lo, hi) && of_kind(ev[i as int], "browser.console.message"@)
        && (ev[i as int].facts.text matches Some(t) && contains_seq(t@, "Save failed"@) && contains_seq(t@, "501"@))
}

/// The evidence of a rejected save: a request counts as a save attempt exactly when it
/// is a browser network request with the method `POST`; a response rejects it exactly
/// when its status is 501 (not implemented); a console message ties the failure to it
/// exactly when its text names both `Save failed` and `501`.
pub proof fn law_rejected_save_evidence(ev: Seq<EventRecord>, lo: u64, hi: u64, i: usize)
    requires
        i < ev.len(),
    ensures
        is_post(ev[i as int]) <==> (ev[i as int].kind@ == "browser.network.request"@ && (ev[i as int].facts.method
            matches Some(m) && m@ == "POST"@)),
        rejected(ev[i as int]) <==> ev[i as int].facts.status == Some(501u64),
        console_probe(ev, lo, hi)(i) <==> (lo <= ev[i as int].host_monotonic_ns < hi && ev[i as int].kind@
            == "browser.console.message"@ && (ev[i as int].facts.text matches Some(t) && contains_seq(t@, "Save failed"@)
            && contains_seq(t@, "501"@))),
{
}

/// A DOM mutation in the window that changed something.
pub open spec fn mutation_probe(ev: Seq<EventRecord>, lo: u64, hi: u64) -> spec_fn(usize) -> bool {
    |i: usize| in_window(ev[i as int], lo, hi) && of_kind(ev[i as int], "browser.dom.mutation"@)
        && (ev[i as int].facts.count matches Some(c) && c > 0)
}

/// A snapshot in the window whose DOM shows the Save failure.
pub open spec fn failure_snapshot_probe(ev: Seq<EventRecord>, lo: u64, hi: u64) -> spec_fn(usize) -> bool {
    |i: usize| in_window(ev[i as int], lo, hi) && of_kind(ev[i as int], "browser.page.snapshot"@)
        && dom_shows(ev[i as int], "Save failed"@)
}

/// A coordinate correlation for the snapshot `snapshot_id`.
pub open spec fn correlation_for(ev: Seq<EventRecord>, snapshot_id: Seq<char>) -> spec_fn(usize) -> bool {
    |i: usize| of_kind(ev[i as int], "browser.coordinate_correlation"@)
        && (ev[i as int].facts.browser_snapshot_event_id matches Some(x) && x@ == snapshot_id)
}

/// The rest of the pattern once the two identical POSTs to `url` were found at `posts`:
/// both rejected, the console report, a DOM mutation, the last failure snapshot and its
/// correlation (the first in recording order). On success, the eleven supporting events.
pub open spec fn failure_outcome(ev: Seq<EventRecord>, lo: u64, hi: u64, prefix: Seq<usize>, url: Seq<char>) -> Result<Seq<usize>, DoubleSubmitError> {
    let order = timeline(ev);
    let responses = order.filter(response_probe(ev, lo, hi, url));
    if !(responses.len() == 2 && rejected(ev[responses[0] as int]) && rejected(ev[responses[1] as int])) {
        Err(DoubleSubmitError::ResponsesNotRejected)
    } else {
        match first_in(order, console_probe(ev, lo, hi)) {
            None => Err(DoubleSubmitError::NoConsoleFailure),
            Some(k) => match first_in(order, mutation_probe(ev, lo, hi)) {
                None => Err(DoubleSubmitError::NoDomMutation),
                Some(m) => match last_in(order, failure_snapshot_probe(ev, lo, hi)) {
                    None => Err(DoubleSubmitError::NoFailureSnapshot),
                    Some(s) => match first_in(positions(ev.len()), correlation_for(ev, ev[s as int].id@)) {
                        None => Err(DoubleSubmitError::NoCorrelation),
                        Some(x) => Ok(prefix + seq![responses[0], responses[1], k, m, s, x]),
                    },
                },
            },
        }
    }
}

/// What the diagnosis finds: the error, or the positions of the eleven supporting events
/// (click, release, display while held, the two POSTs, their two responses, console
/// report, DOM mutation, failure snapshot, its correlation). Everything but the
/// correlation is looked for in timeline order within the click's window.
pub open spec fn diagnosis_outcome(ev: Seq<EventRecord>, click_event_id: Option<String>) -> Result<Seq<usize>, DoubleSubmitError> {
    let order = timeline(ev);
    match chosen_click(ev, click_event_id) {
        None => match click_event_id {
            Some(id) => Err(DoubleSubmitError::ClickNotInTimeline(id)),
            None => Err(DoubleSubmitError::NoPointerDown),
        },
        Some(c) => if !of_kind(ev[c as int], "pointer.down"@) {
            Err(DoubleSubmitError::NotPointerDown)
        } else {
            let lo = ev[c as int].host_monotonic_ns;
            let hi = window_end(ev, lo);
            match first_in(order, window_kind_probe(ev, lo, hi, "pointer.up"@)) {
                None => Err(DoubleSubmitError::NoPointerUp),
                Some(u) => match first_in(order, held_display_probe(ev, lo, hi, ev[u as int].host_monotonic_ns)) {
                    None => Err(DoubleSubmitError::NoDisplayWhileHeld),
                    Some(d) => {
                        let posts = order.filter(post_probe(ev, lo, hi));
                        if posts.len() != 2 {
                            Err(DoubleSubmitError::PostCount(posts.len() as usize))
                        } else if !identical_requests(ev[posts[0] as int], ev[posts[1] as int]) {
                            Err(DoubleSubmitError::PostsDiffer)
                        } else {
                            match ev[posts[0] as int].facts.url {
                                None => Err(DoubleSubmitError::PostWithoutUrl),
                                Some(url) => failure_outcome(ev, lo, hi, seq![c, u, d, posts[0], posts[1]], url@),
                            }
                        }
                    },
                },
            }
        },
    }
}

/// The summary of a recognised failure for requests to `url`.
pub open spec fn summary_text(url: Seq<char>) -> Seq<char> {
    "one physical click was followed by two identical POST requests to "@ + url
        + "; both returned 501 and the correlated UI state reported Save failed"@
}

/// How certain each part of the diagnosis is.
pub open spec fn certainty_spec() -> Seq<(Seq<char>, Seq<char>)> {
    seq![
        ("singlePhysicalClick"@, "directly_observed"@),
        ("duplicateClientDispatch"@, "strong_single_action_temporal_evidence"@),
        ("serverRejectedPost"@, "directly_observed"@),
        ("visibleFailure"@, "browser_snapshot_correlated_to_host_framebuffer"@),
        ("limitation"@, "the event sequence supports the diagnosis but does not by itself identify a source-code line"@),
    ]
}

/// The identifiers of the events at the positions `steps`.
pub open spec fn ids_at(ev: Seq<EventRecord>, steps: Seq<usize>) -> Seq<Seq<char>> {
    steps.map_values(|i: usize| ev[i as int].id@)
}

/// A recognised double-submit failure.
#[derive(Clone, Debug)]
pub struct BrowserFailureDiagnosis {
    pub code: String,
    pub summary: String,
    pub click_event_id: String,
    pub supporting_event_ids: Vec<String>,
    pub artifact_refs: Vec<String>,
    pub causal_certainty: Vec<(&'static str, &'static str)>,
}

fn opt_text_equal(a: &Option<String>, b: &Option<String>) -> (r: bool)
    ensures
        r == (opt_view(*a) == opt_view(*b)),
{
    match (a, b) {
        (Some(x), Some(y)) => str_equal(x.as_str(), y.as_str()),
        (None, None) => true,
        _ => false,
    }
}

fn is_rejected(e: &EventRecord) -> (r: bool)
    ensures
        r == rejected(*e),
{
    match e.facts.status {
        Some(s) => s == 501,
        None => false,
    }
}

fn kind_is(e: &EventRecord, k: &str) -> (r: bool)
    ensures
        r == of_kind(*e, k@),
{
    str_equal(e.kind.as_str(), k)
}

fn is_post_exec(e: &EventRecord) -> (r: bool)
    ensures
        r == is_post(*e),
{
    kind_is(e, "browser.network.request") && match &e.facts.method {
        Some(m) => str_equal(m.as_str(), "POST"),
        None => false,
    }
}

fn shows_failure(e: &EventRecord) -> (r: bool)
    ensures
        r == dom_shows(*e, "Save failed"@),
{
    match &e.facts.dom {
        Some(d) => contains_str(d.as_str(), "Save failed"),
        None => false,
    }
}

fn reports_failure(e: &EventRecord) -> (r: bool)
    ensures
        r == (e.facts.text matches Some(t) && contains_seq(t@, "Save failed"@) && contains_seq(t@, "501"@)),
{
    match &e.facts.text {
        Some(t) => contains_str(t.as_str(), "Save failed") && contains_str(t.as_str(), "501"),
        None => false,
    }
}

fn push_ids(out: &mut Vec<String>, events: &[EventRecord], steps: &Vec<usize>)
    requires
        forall|k: int| 0 <= k < steps@.len() ==> #[trigger] steps@[k] < events@.len(),
    ensures
        views(final(out)@) == views(old(out)@) + ids_at(events@, steps@),
{
    let ghost start = views(out@);
    let mut k: usize = 0;
    while k < steps.len()
        invariant
            k <= steps@.len(),
            forall|j: int| 0 <= j < steps@.len() ==> #[trigger] steps@[j] < events@.len(),
            views(out@) == start + ids_at(events@, steps@.take(k as int)),
        decreases steps@.len() - k,
    {
        let ghost before = views(out@);
        out.push(events[steps[k]].id.clone());
        proof {
            assert(steps@.take(k + 1) =~= steps@.take(k as int).push(steps@[k as int]));
            assert(ids_at(events@, steps@.take(k + 1)) =~= ids_at(events@, steps@.take(k as int)).push(events@[steps@[k as int] as int].id@));
            assert(views(out@) =~= before.push(events@[steps@[k as int] as int].id@));
        }
        k = k + 1;
    }
    assert(steps@.take(k as int) =~= steps@);
}

/// Recognises the double-submit failure around a click: the requested click, else the
/// last one. Each event must come from the click's window (from the click up to the next
/// click) except the correlation, which may have been recorded at any time.
pub fn diagnose_double_submit_failure(events: &[EventRecord], click_event_id: Option<String>) -> (r: Result<BrowserFailureDiagnosis, DoubleSubmitError>)
    ensures
        match diagnosis_outcome(events@, click_event_id) {
            Ok(steps) => r matches Ok(d) && {
                &&& d.code@ == "duplicate_submit_with_unsupported_post"@
                &&& d.click_event_id@ == events@[steps[0] as int].id@
                &&& views(d.supporting_event_ids@) == ids_at(events@, steps)
                &&& d.summary@ == summary_text(events@[steps[3] as int].facts.url->0@)
                &&& is_set(d.artifact_refs@)
                &&& set_of(d.artifact_refs@) == cited_artifacts(events@, ids_at(events@, steps))
                &&& d.causal_certainty@.map_values(|p: (&str, &str)| (p.0@, p.1@)) == certainty_spec()
            },
            Err(e) => r == Err::<BrowserFailureDiagnosis, DoubleSubmitError>(e),
        },
{
    let ghost ev = events@;
    let n = events.len();
    let order = timeline_order(events);
    let chosen = match &click_event_id {
        Some(id) => {
            let id_str = id.as_str();
            first_where(
                &order,
                |i: usize| -> (b: bool)
                    requires i < n, n == ev.len(), ev == events@,
                    ensures b == id_probe(ev, id_str@)(i)
                { str_equal(events[i].id.as_str(), id_str) },
                Ghost(id_probe(ev, id_str@)),
                Ghost(n as nat),
            )
        },
        None => last_where(
            &order,
            |i: usize| -> (b: bool)
                requires i < n, n == ev.len(), ev == events@,
                ensures b == click_probe(ev)(i)
            { kind_is(&events[i], "pointer.down") },
            Ghost(click_probe(ev)),
            Ghost(n as nat),
        ),
    };
    proof {
        if let Some(id) = &click_event_id {
            lemma_first_in_member(order@, id_probe(ev, id@));
        }
        lemma_last_in_member(order@, click_probe(ev));
    }
    let c = match chosen {
        Some(c) => c,
        None => {
            return match click_event_id {
                Some(id) => Err(DoubleSubmitError::ClickNotInTimeline(id)),
                None => Err(DoubleSubmitError::NoPointerDown),
            };
        },
    };
    assert(order@.contains(c));
    if !kind_is(&events[c], "pointer.down") {
        return Err(DoubleSubmitError::NotPointerDown);
    }
    let lo = events[c].host_monotonic_ns;
    let next = first_where(
        &order,
        |i: usize| -> (b: bool)
            requires i < n, n == ev.len(), ev == events@,
            ensures b == later_click_probe(ev, lo)(i)
        { kind_is(&events[i], "pointer.down") && events[i].host_monotonic_ns > lo },
        Ghost(later_click_probe(ev, lo)),
        Ghost(n as nat),
    );
    proof { lemma_first_in_member(order@, later_click_probe(ev, lo)); }
    let hi: u64 = match next {
        Some(j) => {
            assert(order@.contains(j));
            events[j].host_monotonic_ns
        },
        None => u64::MAX,
    };
    let up = first_where(
        &order,
        |i: usize| -> (b: bool)
            requires i < n, n == ev.len(), ev == events@,
            ensures b == window_kind_probe(ev, lo, hi, "pointer.up"@)(i)
        { lo <= events[i].host_monotonic_ns && events[i].host_monotonic_ns < hi && kind_is(&events[i], "pointer.up") },
        Ghost(window_kind_probe(ev, lo, hi, "pointer.up"@)),
        Ghost(n as nat),
    );
    proof { lemma_first_in_member(order@, window_kind_probe(ev, lo, hi, "pointer.up"@)); }
    let u = match up {
        Some(u) => u,
        None => return Err(DoubleSubmitError::NoPointerUp),
    };
    assert(order@.contains(u));
    let up_ns = events[u].host_monotonic_ns;
    let display = first_where(
        &order,
        |i: usize| -> (b: bool)
            requires i < n, n == ev.len(), ev == events@,
            ensures b == held_display_probe(ev, lo, hi, up_ns)(i)
        {
            lo <= events[i].host_monotonic_ns && events[i].host_monotonic_ns < hi
                && (kind_is(&events[i], "display.scanout") || kind_is(&events[i], "display.update"))
                && events[i].host_monotonic_ns <= up_ns
        },
        Ghost(held_display_probe(ev, lo, hi, up_ns)),
        Ghost(n as nat),
    );
    proof { lemma_first_in_member(order@, held_display_probe(ev, lo, hi, up_ns)); }
    let d = match display {
        Some(d) => d,
        None => return Err(DoubleSubmitError::NoDisplayWhileHeld),
    };
    let posts = all_where(
        &order,
        |i: usize| -> (b: bool)
            requires i < n, n == ev.len(), ev == events@,
            ensures b == post_probe(ev, lo, hi)(i)
        { lo <= events[i].host_monotonic_ns && events[i].host_monotonic_ns < hi && is_post_exec(&events[i]) },
        Ghost(post_probe(ev, lo, hi)),
        Ghost(n as nat),
    );
    if posts.len() != 2 {
        return Err(DoubleSubmitError::PostCount(posts.len()));
    }
    proof {
        broadcast use vstd::seq_lib::group_filter_ensures;
        assert(order@.filter(post_probe(ev, lo, hi)).contains(posts@[0]));
        assert(order@.filter(post_probe(ev, lo, hi)).contains(posts@[1]));
        order@.lemma_filter_contains_rev(post_probe(ev, lo, hi), posts@[0]);
        order@.lemma_filter_contains_rev(post_probe(ev, lo, hi), posts@[1]);
    }
    assert(order@.contains(posts@[0]));
    assert(order@.contains(posts@[1]));
    let first_post = &events[posts[0]];
    let second_post = &events[posts[1]];
    if !(opt_text_equal(&first_post.facts.method_json, &second_post.facts.method_json)
        && opt_text_equal(&first_post.facts.url_json, &second_post.facts.url_json)
        && opt_text_equal(&first_post.facts.post_data_json, &second_post.facts.post_data_json)) {
        return Err(DoubleSubmitError::PostsDiffer);
    }
    let url = match &first_post.facts.url {
        Some(url) => url.as_str(),
        None => return Err(DoubleSubmitError::PostWithoutUrl),
    };
    let responses = all_where(
        &order,
        |i: usize| -> (b: bool)
            requires i < n, n == ev.len(), ev == events@,
            ensures b == response_probe(ev, lo, hi, url@)(i)
        {
            lo <= events[i].host_monotonic_ns && events[i].host_monotonic_ns < hi
                && kind_is(&events[i], "browser.network.response")
                && match &events[i].facts.url {
                    Some(v) => str_equal(v.as_str(), url),
                    None => false,
                }
        },
        Ghost(response_probe(ev, lo, hi, url@)),
        Ghost(n as nat),
    );
    proof {
        broadcast use vstd::seq_lib::group_filter_ensures;
        if responses@.len() == 2 {
            assert(order@.filter(response_probe(ev, lo, hi, url@)).contains(responses@[0]));
            assert(order@.filter(response_probe(ev, lo, hi, url@)).contains(responses@[1]));
            order@.lemma_filter_contains_rev(response_probe(ev, lo, hi, url@), responses@[0]);
            order@.lemma_filter_contains_rev(response_probe(ev, lo, hi, url@), responses@[1]);
            assert(order@.contains(responses@[0]));
            assert(order@.contains(responses@[1]));
        }
    }
    if !(responses.len() == 2 && is_rejected(&events[responses[0]]) && is_rejected(&events[responses[1]])) {
        return Err(DoubleSubmitError::ResponsesNotRejected);
    }
    let console = first_where(
        &order,
        |i: usize| -> (b: bool)
            requires i < n, n == ev.len(), ev == events@,
            ensures b == console_probe(ev, lo, hi)(i)
        {
            lo <= events[i].host_monotonic_ns && events[i].host_monotonic_ns < hi
                && kind_is(&events[i], "browser.console.message") && reports_failure(&events[i])
        },
        Ghost(console_probe(ev, lo, hi)),
        Ghost(n as nat),
    );
    proof { lemma_first_in_member(order@, console_probe(ev, lo, hi)); }
    let k = match console {
        Some(k) => k,
        None => return Err(DoubleSubmitError::NoConsoleFailure),
    };
    let mutation = first_where(
        &order,
        |i: usize| -> (b: bool)
            requires i < n, n == ev.len(), ev == events@,
            ensures b == mutation_probe(ev, lo, hi)(i)
        {
            lo <= events[i].host_monotonic_ns && events[i].host_monotonic_ns < hi
                && kind_is(&events[i], "browser.dom.mutation")
                && match events[i].facts.count {
                    Some(c) => c > 0,
                    None => false,
                }
        },
        Ghost(mutation_probe(ev, lo, hi)),
        Ghost(n as nat),
    );
    proof { lemma_first_in_member(order@, mutation_probe(ev, lo, hi)); }
    let m = match mutation {
        Some(m) => m,
        None => return Err(DoubleSubmitError::NoDomMutation),
    };
    let snapshot = last_where(
        &order,
        |i: usize| -> (b: bool)
            requires i < n, n == ev.len(), ev == events@,
            ensures b == failure_snapshot_probe(ev, lo, hi)(i)
        {
            lo <= events[i].host_monotonic_ns && events[i].host_monotonic_ns < hi
                && kind_is(&events[i], "browser.page.snapshot") && shows_failure(&events[i])
        },
        Ghost(failure_snapshot_probe(ev, lo, hi)),
        Ghost(n as nat),
    );
    proof { lemma_last_in_member(order@, failure_snapshot_probe(ev, lo, hi)); }
    let s = match snapshot {
        Some(s) => s,
        None => return Err(DoubleSubmitError::NoFailureSnapshot),
    };
    assert(order@.contains(s));
    let snapshot_id = events[s].id.as_str();
    let recorded = recording_order(n);
    let correlation = first_where(
        &recorded,
        |i: usize| -> (b: bool)
            requires i < n, n == ev.len(), ev == events@,
            ensures b == correlation_for(ev, snapshot_id@)(i)
        {
            kind_is(&events[i], "browser.coordinate_correlation")
                && match &events[i].facts.browser_snapshot_event_id {
                    Some(x) => str_equal(x.as_str(), snapshot_id),
                    None => false,
                }
        },
        Ghost(correlation_for(ev, snapshot_id@)),
        Ghost(n as nat),
    );
    proof { lemma_first_in_member(recorded@, correlation_for(ev, snapshot_id@)); }
    let x = match correlation {
        Some(x) => x,
        None => return Err(DoubleSubmitError::NoCorrelation),
    };
    let steps: Vec<usize> = vec![c, u, d, posts[0], posts[1], responses[0], responses[1], k, m, s, x];
    let ghost expected = seq![c, u, d, posts@[0], posts@[1]] + seq![responses@[0], responses@[1], k, m, s, x];
    assert(steps@ =~= expected);
    let mut supporting: Vec<String> = Vec::new();
    assert(views(supporting@) =~= Seq::<Seq<char>>::empty());
    push_ids(&mut supporting, events, &steps);
    assert(views(supporting@) =~= ids_at(ev, steps@));
    let artifact_refs = cited_artifact_refs(events, &supporting);
    let mut summary = String::new();
    push_str(&mut summary, "one physical click was followed by two identical POST requests to ");
    push_str(&mut summary, url);
    push_str(&mut summary, "; both returned 501 and the correlated UI state reported Save failed");
    let causal_certainty: Vec<(&'static str, &'static str)> = vec![
        ("singlePhysicalClick", "directly_observed"),
        ("duplicateClientDispatch", "strong_single_action_temporal_evidence"),
        ("serverRejectedPost", "directly_observed"),
        ("visibleFailure", "browser_snapshot_correlated_to_host_framebuffer"),
        ("limitation", "the event sequence supports the diagnosis but does not by itself identify a source-code line"),
    ];
    assert(causal_certainty@.map_values(|p: (&str, &str)| (p.0@, p.1@)) =~= certainty_spec());
    Ok(BrowserFailureDiagnosis {
        code: String::from_str("duplicate_submit_with_unsupported_post"),
        summary,
        click_event_id: events[c].id.clone(),
        supporting_event_ids: supporting,
        artifact_refs,
        causal_certainty,
    })
}

} // verus!
