use base64::Engine;
use scrape_relay::envelope::{encode_to_pubsub, OutboundPubSubPayload};
use scrape_relay::errors::CssError;
use scrape_relay::extract::{
    find_css_text, get_product_price_text, get_product_title, price_number_text, CssLookup,
};
use scrape_relay::orchestrate::{route_outcome, Routed, TaskOutcome};
use scrape_relay::publish::{publish_outcome, PublishDecision, PublishOutcome, PublishState};
use scrape_relay::retry::{
    attempt_outcome, default_backoff, effective_max_retries, AttemptOutcome, RetryDecision,
    RetryState, Verdict,
};

/// Drives one executor run against a scripted endpoint: requests issued,
/// backoff waits asked for, and what is returned.
fn run_retry(max: u32, outcomes: &[AttemptOutcome]) -> (usize, Vec<u32>, Verdict) {
    let mut state = RetryState::new(max);
    let mut issued = 0;
    let mut waits = Vec::new();
    loop {
        let outcome = outcomes[issued];
        issued += 1;
        let (next, decision) = state.next(outcome);
        state = next;
        match decision {
            RetryDecision::Finish(v) => return (issued, waits, v),
            RetryDecision::Backoff { attempt } => waits.push(default_backoff(attempt)),
        }
    }
}

#[test]
fn always_500_with_three_retries_makes_three_attempts() {
    let outcomes = [AttemptOutcome::StatusError; 10];
    let (issued, waits, verdict) = run_retry(3, &outcomes);
    assert_eq!(issued, 3);
    assert_eq!(waits, vec![0, 1]);
    assert_eq!(verdict, Verdict::StatusFailed);
}

#[test]
fn one_500_then_200_makes_two_attempts() {
    let outcomes = [AttemptOutcome::StatusError, AttemptOutcome::Success];
    let (issued, waits, verdict) = run_retry(effective_max_retries(None), &outcomes);
    assert_eq!(issued, 2);
    assert_eq!(waits, vec![0]);
    assert_eq!(verdict, Verdict::Response);
}

#[test]
fn refused_connection_makes_one_attempt() {
    let outcomes = [AttemptOutcome::TransportError, AttemptOutcome::Success];
    let (issued, waits, verdict) = run_retry(5, &outcomes);
    assert_eq!(issued, 1);
    assert!(waits.is_empty());
    assert_eq!(verdict, Verdict::TransportFailed);
}

#[test]
fn attempt_limit_defaults_and_caps() {
    assert_eq!(effective_max_retries(None), 5);
    assert_eq!(effective_max_retries(Some(3)), 3);
    assert_eq!(effective_max_retries(Some(10)), 10);
    assert_eq!(effective_max_retries(Some(11)), 10);
    assert_eq!(effective_max_retries(Some(u32::MAX)), 10);
    assert_eq!(effective_max_retries(Some(0)), 0);
}

#[test]
fn default_backoff_values() {
    assert_eq!(default_backoff(0), 0);
    assert_eq!(default_backoff(1), 0);
    assert_eq!(default_backoff(2), 1);
    assert_eq!(default_backoff(3), 3);
    assert_eq!(default_backoff(4), 7);
    assert_eq!(default_backoff(9), 255);
    assert_eq!(default_backoff(31), 1073741823);
}

#[test]
fn ten_failures_with_cap_make_ten_attempts() {
    let outcomes = [AttemptOutcome::StatusError; 12];
    let (issued, waits, verdict) = run_retry(effective_max_retries(Some(50)), &outcomes);
    assert_eq!(issued, 10);
    assert_eq!(waits.len(), 9);
    assert_eq!(verdict, Verdict::StatusFailed);
}

#[test]
fn always_503_publish_is_attempted_five_times() {
    let mut state = PublishState::new();
    let mut attempts = 0;
    let mut reported = 0;
    loop {
        attempts += 1;
        let (next, decision) = state.next(PublishOutcome::Failed);
        state = next;
        match decision {
            PublishDecision::Delivered => panic!("nothing was delivered"),
            PublishDecision::ReportAndRetry => reported += 1,
            PublishDecision::ReportAndDrop => {
                reported += 1;
                break;
            }
        }
    }
    assert_eq!(attempts, 5);
    assert_eq!(reported, 5);
}

#[test]
fn publish_stops_on_first_success() {
    let state = PublishState::new();
    let (state, decision) = state.next(PublishOutcome::Failed);
    assert_eq!(decision, PublishDecision::ReportAndRetry);
    let (state, decision) = state.next(PublishOutcome::Published);
    assert_eq!(decision, PublishDecision::Delivered);
    assert_eq!(state.attempts, 2);
}

#[test]
fn routing_counts_successes_and_failures() {
    let outcomes: Vec<TaskOutcome<u32, String>> = vec![
        TaskOutcome::Failed("e1".to_string()),
        TaskOutcome::Scraped(1),
        TaskOutcome::Scraped(2),
        TaskOutcome::Failed("e2".to_string()),
        TaskOutcome::Scraped(3),
    ];
    let mut results = Vec::new();
    let mut errors = Vec::new();
    for o in outcomes.into_iter().rev() {
        match route_outcome(o) {
            Routed::ToResults(r) => results.push(r),
            Routed::ToErrors(e) => errors.push(e),
            Routed::LogOnly(_) => panic!("no task crashed"),
        }
    }
    assert_eq!(results, vec![3, 2, 1]);
    assert_eq!(errors, vec!["e2".to_string(), "e1".to_string()]);
}

#[test]
fn crashed_task_is_only_logged() {
    match route_outcome::<u32, String>(TaskOutcome::Crashed("panicked".to_string())) {
        Routed::LogOnly(m) => assert_eq!(m, "panicked"),
        _ => panic!("a crash reaches no channel"),
    }
}

#[test]
fn price_text_parses() {
    let text = price_number_text("  $75.99 ");
    assert_eq!(text, "75.99");
    assert_eq!(text.parse::<f32>().unwrap(), 75.99f32);
}

#[test]
fn unavailable_price_fails_to_parse() {
    let text = get_product_price_text(CssLookup::Text("N/A".to_string())).unwrap();
    assert_eq!(text, "N/A");
    assert!(text.parse::<f32>().is_err());
}

#[test]
fn product_title_is_trimmed() {
    let title = get_product_title(CssLookup::Text("\n   Widget Pro  \n".to_string())).unwrap();
    assert_eq!(title, "Widget Pro");
}

#[test]
fn lookup_errors_are_distinct() {
    let msg = |l: CssLookup| find_css_text(l).unwrap_err().message();
    assert_eq!(msg(CssLookup::NoMatch), "Failed to find Css Node.");
    assert_eq!(msg(CssLookup::NoChild), "Failed to find Css element.");
    assert_eq!(msg(CssLookup::NotText), "Invalid Node found.");
    assert_eq!(msg(CssLookup::InvalidSelector("bad selector".to_string())), "bad selector");
    assert_eq!(find_css_text(CssLookup::Text("x".to_string())).unwrap(), "x");
    assert_eq!(CssError::new("boom").message(), "boom");
}

#[test]
fn outbound_message_is_base64_of_json() {
    let json = r#"{"source":"amzn","price":75.99}"#;
    let m = encode_to_pubsub(json);
    assert_eq!(m.data(), "eyJzb3VyY2UiOiJhbXpuIiwicHJpY2UiOjc1Ljk5fQ==");
}

#[test]
fn outbound_round_trip_keeps_every_field() {
    let mut obj = serde_json::Map::new();
    obj.insert("source".to_string(), serde_json::Value::from("amzn"));
    obj.insert("utc_timestamp".to_string(), serde_json::Value::from(1700000000u64));
    obj.insert("name".to_string(), serde_json::Value::from("Widget \"Pro\""));
    obj.insert("identifier".to_string(), serde_json::Value::from("B0ABC"));
    obj.insert("price".to_string(), serde_json::Value::from(75.99f64));
    obj.insert("attributes".to_string(), serde_json::Value::Object(serde_json::Map::new()));
    obj.insert("metadata".to_string(), serde_json::Value::Object(serde_json::Map::new()));
    let value = serde_json::Value::Object(obj);
    let json = serde_json::to_string(&value).unwrap();
    let payload = OutboundPubSubPayload::from_result_json(&json);
    let body: serde_json::Value = serde_json::from_str(&payload.serialize_payload()).unwrap();
    let data = body["messages"][0]["data"].as_str().unwrap();
    let bytes = base64::engine::general_purpose::STANDARD.decode(data).unwrap();
    let back: serde_json::Value = serde_json::from_slice(&bytes).unwrap();
    assert_eq!(back, value);
}

#[test]
fn serialized_payload_has_null_metadata() {
    let payload = OutboundPubSubPayload::from_messages(vec![
        encode_to_pubsub("{}"),
        encode_to_pubsub("[]"),
    ]);
    assert_eq!(
        payload.serialize_payload(),
        "{\"messages\":[{\"data\":\"e30=\",\"attributes\":null,\"messageId\":null,\"publishTime\":null},{\"data\":\"W10=\",\"attributes\":null,\"messageId\":null,\"publishTime\":null}]}"
    );
    assert_eq!(OutboundPubSubPayload::from_messages(vec![]).serialize_payload(), "{\"messages\":[]}");
}

#[test]
fn statuses_classify_attempts() {
    assert_eq!(attempt_outcome(None), AttemptOutcome::TransportError);
    assert_eq!(attempt_outcome(Some(200)), AttemptOutcome::Success);
    assert_eq!(attempt_outcome(Some(304)), AttemptOutcome::Success);
    assert_eq!(attempt_outcome(Some(404)), AttemptOutcome::StatusError);
    assert_eq!(attempt_outcome(Some(500)), AttemptOutcome::StatusError);
    assert_eq!(attempt_outcome(Some(503)), AttemptOutcome::StatusError);
}

#[test]
fn only_2xx_publishes() {
    assert_eq!(publish_outcome(Some(200)), PublishOutcome::Published);
    assert_eq!(publish_outcome(Some(204)), PublishOutcome::Published);
    assert_eq!(publish_outcome(Some(503)), PublishOutcome::Failed);
    assert_eq!(publish_outcome(Some(302)), PublishOutcome::Failed);
    assert_eq!(publish_outcome(None), PublishOutcome::Failed);
}
