//! The push envelope that carries a job list in, and the publish envelope
//! that carries results out.
use base64::Engine;
use vstd::prelude::*;
use vstd::string::StringSliceAdditionalSpecFns;
use crate::jobs::Job;
use crate::jobs::JobView;
use crate::wire::{
    count_recognized, decode_jobs, encode_entries, job_entries, jobs_view, lemma_decode_encoded,
    recognized, WireError,
};

verus! {

/// What standard base64 (with padding) reads from a text: `None` where the
/// text is not valid standard base64.
pub uninterp spec fn base64_decoded(s: Seq<char>) -> Option<Seq<u8>>;

/// The standard base64 text (with padding) of some bytes.
pub uninterp spec fn base64_encoded(b: Seq<u8>) -> Seq<char>;

/// A character of the standard base64 alphabet, or the padding `=`.
pub open spec fn is_base64_char(c: char) -> bool {
    ('A' <= c && c <= 'Z') || ('a' <= c && c <= 'z') || ('0' <= c && c <= '9') || c == '+' || c
        == '/' || c == '='
}

/// Relies on `base64::engine::general_purpose::STANDARD.decode`: decodes
/// standard base64, failing on text that is not.
#[verifier::external_body]
fn base64_decode(s: &str) -> (r: Result<Vec<u8>, String>)
    ensures
        match r {
            Ok(v) => base64_decoded(s@) == Some(v@),
            Err(_) => base64_decoded(s@) is None,
        },
{
    base64::engine::general_purpose::STANDARD.decode(s).map_err(|e| e.to_string())
}

/// Relies on `base64::engine::general_purpose::STANDARD.encode`: the text uses
/// the standard alphabet and padding only, and decoding it gives the bytes back.
/// It panics on inputs whose encoded length overflows `usize`.
#[verifier::external_body]
fn base64_encode(b: &[u8]) -> (r: String)
    requires
        b@.len() <= usize::MAX / 2,
    ensures
        r@ == base64_encoded(b@),
        forall|i: int| 0 <= i < r@.len() ==> is_base64_char(#[trigger] r@[i]),
        base64_decoded(r@) == Some(b@),
{
    base64::engine::general_purpose::STANDARD.encode(b)
}

/// Transport metadata of an inbound message; none of it is read here.
#[derive(Debug, Clone, PartialEq, Eq)]
pub struct MessageMetadata {
    pub attributes: Option<Vec<(String, String)>>,
    pub message_id: Option<String>,
    pub publish_time: Option<String>,
}

/// The message of an inbound push: a base64 text holding a job list.
#[derive(Debug, Clone, PartialEq, Eq)]
pub struct PubSubMessageMessage {
    pub data: String,
    pub metadata: MessageMetadata,
}

/// An inbound push envelope.
#[derive(Debug, Clone, PartialEq, Eq)]
pub struct PubSubMessage {
    pub message: PubSubMessageMessage,
    pub subscription: String,
}

/// Why an inbound envelope yields no jobs.
#[derive(Debug, Clone, PartialEq, Eq)]
pub enum EnvelopeError {
    /// The payload is not valid base64; the decoder's own message.
    Base64(String),
    /// The decoded bytes are not a well-formed job list.
    Payload,
}

impl EnvelopeError {
    /// The text reported to the sender of a rejected envelope.
    pub fn message(&self) -> (r: String)
        ensures
            self matches EnvelopeError::Base64(m) ==> r@ == m@,
            self is Payload ==> r@ == "malformed job list payload"@,
    {
        match self {
            EnvelopeError::Base64(m) => m.clone(),
            EnvelopeError::Payload => String::from_str("malformed job list payload"),
        }
    }
}

/// The jobs an envelope payload `data` holds: `None` where `data` is not
/// base64 or its bytes are not a job list.
pub open spec fn payload_jobs(data: Seq<char>) -> Option<Seq<JobView>> {
    match base64_decoded(data) {
        Some(bytes) => match job_entries(bytes) {
            Some(entries) => Some(recognized(entries)),
            None => None,
        },
        None => None,
    }
}

impl PubSubMessage {
    /// Decodes the payload into jobs: base64 first, then the binary job list.
    /// Entries that select no known source are dropped.
    pub fn get_scraping_requests(self) -> (r: Result<Vec<Job>, EnvelopeError>)
        ensures
            r is Ok <==> payload_jobs(self.message.data@) is Some,
            r matches Ok(v) ==> payload_jobs(self.message.data@) == Some(jobs_view(v@)),
            match base64_decoded(self.message.data@) {
                None => r matches Err(EnvelopeError::Base64(_)),
                Some(bytes) => match job_entries(bytes) {
                    None => r == Err::<Vec<Job>, EnvelopeError>(EnvelopeError::Payload),
                    Some(entries) => r matches Ok(v) && jobs_view(v@) == recognized(entries),
                },
            },
    {
        let bytes = match base64_decode(self.message.data.as_str()) {
            Ok(b) => b,
            Err(e) => return Err(EnvelopeError::Base64(e)),
        };
        match decode_jobs(bytes.as_slice()) {
            Ok(jobs) => Ok(jobs),
            Err(WireError::Malformed) => Err(EnvelopeError::Payload),
        }
    }
}

/// An envelope whose payload is the base64 text of a job list of `k`
/// entries that select a known source, among others that select none,
/// yields exactly those `k` jobs, in order.
pub proof fn lemma_envelope_jobs(data: Seq<char>, es: Seq<Option<JobView>>)
    requires
        encode_entries(es).len() < 0x8000_0000_0000_0000,
        base64_decoded(data) == Some(encode_entries(es)),
    ensures
        payload_jobs(data) == Some(recognized(es)),
        recognized(es).len() == count_recognized(es),
{
    lemma_decode_encoded(es);
}

/// One outbound message: the base64 text of one result's JSON.
pub struct OutboundMessage {
    data: String,
    json: Ghost<Seq<u8>>,
}

impl OutboundMessage {
    /// The message's `data` text.
    pub closed spec fn data_view(&self) -> Seq<char> {
        self.data@
    }

    /// The JSON bytes the message carries.
    pub closed spec fn json_bytes(&self) -> Seq<u8> {
        self.json@
    }

    /// `data` is the base64 text of the JSON bytes.
    pub closed spec fn wf(&self) -> bool {
        &&& self.data@ == base64_encoded(self.json@)
        &&& base64_decoded(self.data@) == Some(self.json@)
        &&& forall|i: int| 0 <= i < self.data@.len() ==> is_base64_char(#[trigger] self.data@[i])
    }

    /// The message's `data` text.
    pub fn data(&self) -> (r: String)
        ensures
            r@ == self.data_view(),
    {
        self.data.clone()
    }
}

/// Frames the JSON text of a result as an outbound message.
pub fn encode_to_pubsub(json: &str) -> (r: OutboundMessage)
    requires
        json.spec_bytes().len() <= usize::MAX / 2,
    ensures
        r.wf(),
        r.json_bytes() == json.spec_bytes(),
        r.data_view() == base64_encoded(json.spec_bytes()),
{
    let bytes = json.as_bytes();
    let data = base64_encode(bytes);
    OutboundMessage { data, json: Ghost(json.spec_bytes()) }
}

/// Decoding the `data` of a framed message gives back the JSON bytes that
/// were framed.
pub proof fn lemma_outbound_round_trip(m: OutboundMessage)
    requires
        m.wf(),
    ensures
        base64_decoded(m.data_view()) == Some(m.json_bytes()),
{
}

pub open spec fn message_json(data: Seq<char>) -> Seq<char> {
    "{\"data\":\""@ + data + "\",\"attributes\":null,\"messageId\":null,\"publishTime\":null}"@
}

/// The messages' JSON objects, separated by commas.
pub open spec fn messages_json(ms: Seq<OutboundMessage>) -> Seq<char>
    decreases ms.len(),
{
    if ms.len() == 0 {
        Seq::empty()
    } else if ms.len() == 1 {
        message_json(ms[0].data_view())
    } else {
        messages_json(ms.drop_last()) + ","@ + message_json(ms.last().data_view())
    }
}

pub open spec fn payload_json(ms: Seq<OutboundMessage>) -> Seq<char> {
    "{\"messages\":["@ + messages_json(ms) + "]}"@
}

/// The body of a payload of one framed message is that one message, and
/// decoding its `data` gives back the JSON bytes that were framed.
pub proof fn lemma_single_payload_round_trip(p: OutboundPubSubPayload)
    requires
        p.messages_view().len() == 1,
        p.messages_view()[0].wf(),
    ensures
        payload_json(p.messages_view()) == "{\"messages\":["@ + message_json(
            p.messages_view()[0].data_view(),
        ) + "]}"@,
        base64_decoded(p.messages_view()[0].data_view()) == Some(p.messages_view()[0].json_bytes()),
{
}

/// The body of a publish request.
pub struct OutboundPubSubPayload {
    messages: Vec<OutboundMessage>,
}

impl OutboundPubSubPayload {
    pub closed spec fn messages_view(&self) -> Seq<OutboundMessage> {
        self.messages@
    }

    /// A payload of the given messages, in order.
    pub fn from_messages(messages: Vec<OutboundMessage>) -> (r: OutboundPubSubPayload)
        ensures
            r.messages_view() == messages@,
    {
        OutboundPubSubPayload { messages }
    }

    /// A payload of one message: the JSON text of one result.
    pub fn from_result_json(json: &str) -> (r: OutboundPubSubPayload)
        requires
            json.spec_bytes().len() <= usize::MAX / 2,
        ensures
            r.messages_view().len() == 1,
            r.messages_view()[0].wf(),
            r.messages_view()[0].json_bytes() == json.spec_bytes(),
            r.messages_view()[0].data_view() == base64_encoded(json.spec_bytes()),
    {
        let mut messages: Vec<OutboundMessage> = Vec::new();
        messages.push(encode_to_pubsub(json));
        OutboundPubSubPayload { messages }
    }

    /// The payload as JSON; `data` holds base64 characters only, so it
    /// stands in its string literal unescaped:
    /// `{"messages":[{"data":"..","attributes":null,"messageId":null,"publishTime":null},..]}`.
    pub fn serialize_payload(&self) -> (r: String)
        ensures
            r@ == payload_json(self.messages_view()),
    {
        let mut out = String::from_str("{\"messages\":[");
        let mut i: usize = 0;
        while i < self.messages.len()
            invariant
                i <= self.messages@.len(),
                out@ == "{\"messages\":["@ + messages_json(self.messages@.subrange(0, i as int)),
            decreases self.messages@.len() - i,
        {
            let ghost before = self.messages@.subrange(0, i as int);
            let ghost after = self.messages@.subrange(0, i + 1);
            assert(after.drop_last() == before);
            if i > 0 {
                out.append(",");
            }
            out.append("{\"data\":\"");
            out.append(self.messages[i].data.as_str());
            out.append("\",\"attributes\":null,\"messageId\":null,\"publishTime\":null}");
            i = i + 1;
            assert(out@ == "{\"messages\":["@ + messages_json(after));
        }
        assert(self.messages@.subrange(0, self.messages@.len() as int) == self.messages@);
        out.append("]}");
        out
    }
}

} // verus!
