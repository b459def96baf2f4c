use base64::Engine;
use prost::encoding::{encode_key, encode_varint, WireType};
use scrape_relay::envelope::{EnvelopeError, MessageMetadata, PubSubMessage, PubSubMessageMessage};
use scrape_relay::jobs::{Amzn, Job, Source, Test};
use scrape_relay::wire::{decode_jobs, WireError};

fn delimited(tag: u32, body: &[u8]) -> Vec<u8> {
    let mut out = Vec::new();
    encode_key(tag, WireType::LengthDelimited, &mut out);
    encode_varint(body.len() as u64, &mut out);
    out.extend_from_slice(body);
    out
}

fn test_entry() -> Vec<u8> {
    delimited(1, &delimited(1, &[]))
}

fn amzn_entry(code: &str) -> Vec<u8> {
    delimited(1, &delimited(2, &delimited(1, code.as_bytes())))
}

fn envelope(payload: &[u8]) -> PubSubMessage {
    PubSubMessage {
        message: PubSubMessageMessage {
            data: base64::engine::general_purpose::STANDARD.encode(payload),
            metadata: MessageMetadata { attributes: None, message_id: None, publish_time: None },
        },
        subscription: "projects/p/subscriptions/s".to_string(),
    }
}

fn amzn(code: &str) -> Job {
    Job::Amzn(Amzn { product_code: code.to_string() })
}

#[test]
fn decodes_recognized_entries_in_order() {
    let mut payload = Vec::new();
    payload.extend(amzn_entry("B0ABC"));
    payload.extend(test_entry());
    payload.extend(amzn_entry("B0XYZ"));
    let jobs = envelope(&payload).get_scraping_requests().unwrap();
    assert_eq!(jobs, vec![amzn("B0ABC"), Job::Test(Test {}), amzn("B0XYZ")]);
}

#[test]
fn unrecognized_entries_are_dropped_silently() {
    let mut payload = Vec::new();
    payload.extend(delimited(1, &[]));
    payload.extend(amzn_entry("B01"));
    payload.extend(delimited(1, &delimited(3, &[])));
    payload.extend(test_entry());
    let jobs = envelope(&payload).get_scraping_requests().unwrap();
    assert_eq!(jobs, vec![amzn("B01"), Job::Test(Test {})]);
}

#[test]
fn empty_payload_gives_no_jobs() {
    assert_eq!(envelope(&[]).get_scraping_requests().unwrap(), Vec::<Job>::new());
}

#[test]
fn unknown_fields_are_skipped() {
    let mut payload = Vec::new();
    encode_key(7, WireType::Varint, &mut payload);
    encode_varint(300, &mut payload);
    encode_key(8, WireType::ThirtyTwoBit, &mut payload);
    payload.extend_from_slice(&[1, 2, 3, 4]);
    encode_key(9, WireType::SixtyFourBit, &mut payload);
    payload.extend_from_slice(&[0; 8]);
    payload.extend(amzn_entry("B02"));
    assert_eq!(decode_jobs(&payload), Ok(vec![amzn("B02")]));
}

#[test]
fn later_source_of_an_entry_wins() {
    let mut request = delimited(2, &delimited(1, b"B03"));
    request.extend(delimited(1, &[]));
    let payload = delimited(1, &request);
    assert_eq!(decode_jobs(&payload), Ok(vec![Job::Test(Test {})]));
}

#[test]
fn repeated_product_code_keeps_the_last() {
    let mut amzn_body = delimited(1, b"OLD");
    amzn_body.extend(delimited(1, b"NEW"));
    let payload = delimited(1, &delimited(2, &amzn_body));
    assert_eq!(decode_jobs(&payload), Ok(vec![amzn("NEW")]));
}

#[test]
fn multi_byte_lengths_are_read() {
    let code = "C".repeat(200);
    let payload = amzn_entry(&code);
    assert_eq!(decode_jobs(&payload), Ok(vec![amzn(&code)]));
}

#[test]
fn malformed_base64_is_rejected() {
    let mut msg = envelope(&test_entry());
    msg.message.data = "not base64!!".to_string();
    match msg.get_scraping_requests() {
        Err(EnvelopeError::Base64(m)) => assert!(!m.is_empty()),
        other => panic!("unexpected: {:?}", other),
    }
}

#[test]
fn truncated_payload_is_rejected() {
    let mut payload = amzn_entry("B0ABC");
    payload.pop();
    assert_eq!(envelope(&payload).get_scraping_requests(), Err(EnvelopeError::Payload));
}

#[test]
fn wrong_wire_type_is_rejected() {
    let mut payload = Vec::new();
    encode_key(1, WireType::Varint, &mut payload);
    encode_varint(1, &mut payload);
    assert_eq!(decode_jobs(&payload), Err(WireError::Malformed));
}

#[test]
fn tag_zero_is_rejected() {
    assert_eq!(decode_jobs(&[0x02, 0x00]), Err(WireError::Malformed));
}

#[test]
fn overlong_varint_is_rejected() {
    let mut payload = vec![0xff; 9];
    payload.push(0x02);
    assert_eq!(decode_jobs(&payload), Err(WireError::Malformed));
}

#[test]
fn invalid_utf8_product_code_is_rejected() {
    let payload = delimited(1, &delimited(2, &delimited(1, &[0xff, 0xfe])));
    assert_eq!(decode_jobs(&payload), Err(WireError::Malformed));
}

#[test]
fn payload_error_message_is_text() {
    assert_eq!(EnvelopeError::Payload.message(), "malformed job list payload");
    assert_eq!(EnvelopeError::Base64("bad".to_string()).message(), "bad");
}

#[test]
fn job_names_and_ids() {
    let a = Amzn { product_code: "B0ABC".to_string() };
    assert_eq!(a.get_source_name(), "amzn");
    assert_eq!(a.get_unique_id(), "amzn - B0ABC");
    assert_eq!(a.get_product_asin_code(), "B0ABC");
    assert_eq!(a.target_url(), "https://www.amazon.sg/dp/B0ABC");
    assert_eq!(Test {}.get_source_name(), "test");
    assert_eq!(Test {}.get_unique_id(), "Test-payload");
    assert_eq!(Job::Test(Test {}).get_unique_id(), "Test-payload");
    assert_eq!(amzn("X1").get_source_name(), "amzn");
}

fn nested_groups(tag: u32, depth: usize) -> Vec<u8> {
    let mut out = Vec::new();
    for _ in 0..depth {
        encode_key(tag, WireType::StartGroup, &mut out);
    }
    for _ in 0..depth {
        encode_key(tag, WireType::EndGroup, &mut out);
    }
    out
}

#[test]
fn unknown_groups_are_skipped() {
    let mut payload = Vec::new();
    encode_key(5, WireType::StartGroup, &mut payload);
    encode_key(1, WireType::Varint, &mut payload);
    encode_varint(7, &mut payload);
    payload.extend(nested_groups(2, 3));
    payload.extend(delimited(4, b"text"));
    encode_key(5, WireType::EndGroup, &mut payload);
    payload.extend(amzn_entry("B04"));
    assert_eq!(decode_jobs(&payload), Ok(vec![amzn("B04")]));
}

#[test]
fn group_inside_a_source_is_skipped() {
    let mut amzn_body = nested_groups(3, 2);
    amzn_body.extend(delimited(1, b"B05"));
    let payload = delimited(1, &delimited(2, &amzn_body));
    assert_eq!(decode_jobs(&payload), Ok(vec![amzn("B05")]));
}

#[test]
fn mismatched_end_group_is_rejected() {
    let mut payload = Vec::new();
    encode_key(5, WireType::StartGroup, &mut payload);
    encode_key(6, WireType::EndGroup, &mut payload);
    assert_eq!(decode_jobs(&payload), Err(WireError::Malformed));
}

#[test]
fn stray_end_group_is_rejected() {
    let mut payload = Vec::new();
    encode_key(5, WireType::EndGroup, &mut payload);
    assert_eq!(decode_jobs(&payload), Err(WireError::Malformed));
}

#[test]
fn unterminated_group_is_rejected() {
    let mut payload = Vec::new();
    encode_key(5, WireType::StartGroup, &mut payload);
    assert_eq!(decode_jobs(&payload), Err(WireError::Malformed));
}

#[test]
fn known_field_as_group_is_rejected() {
    assert_eq!(decode_jobs(&nested_groups(1, 1)), Err(WireError::Malformed));
}

#[test]
fn group_nesting_has_a_budget() {
    assert_eq!(decode_jobs(&nested_groups(9, 100)), Ok(vec![]));
    assert_eq!(decode_jobs(&nested_groups(9, 101)), Err(WireError::Malformed));
}
