use avm::payload::{payload_token_sum, JsonTree};

fn member(name: &str, value: JsonTree) -> (String, JsonTree) {
    (name.to_string(), value)
}

#[test]
fn token_sums_reach_every_depth_but_not_inside_counted_members() {
    let usage = JsonTree::Object(vec![
        member("inputTokens", JsonTree::Unsigned(100)),
        member("outputTokens", JsonTree::Unsigned(20)),
    ]);
    let payload = JsonTree::Object(vec![
        member("model", JsonTree::Other),
        member("usage", usage),
        member(
            "steps",
            JsonTree::Array(vec![
                JsonTree::Object(vec![member("inputTokens", JsonTree::Unsigned(5))]),
                JsonTree::Object(vec![member("inputTokens", JsonTree::Other)]),
                JsonTree::Unsigned(999),
            ]),
        ),
        member("inputTokens", JsonTree::Object(vec![member("inputTokens", JsonTree::Unsigned(7))])),
    ]);
    assert_eq!(payload_token_sum(&payload, "inputTokens"), Some(105));
    assert_eq!(payload_token_sum(&payload, "outputTokens"), Some(20));
    assert_eq!(payload_token_sum(&JsonTree::Other, "inputTokens"), Some(0));
}

#[test]
fn token_sums_that_overflow_are_refused() {
    let payload = JsonTree::Array(vec![
        JsonTree::Object(vec![member("inputTokens", JsonTree::Unsigned(u64::MAX))]),
        JsonTree::Object(vec![member("inputTokens", JsonTree::Unsigned(1))]),
    ]);
    assert_eq!(payload_token_sum(&payload, "inputTokens"), None);
}
