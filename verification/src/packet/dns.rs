//! DNS messages of the `dns` probe. The wire format is hickory-proto's: the
//! library decides what goes into a message, hickory encodes and decodes it.

use vstd::prelude::*;

use crate::orchestrator::concat_text;
use crate::packet::wire::extend_bytes;
use hickory_proto::error::ProtoError;
use hickory_proto::op::{Message, MessageType, Query};
use hickory_proto::rr::rdata::A;
use hickory_proto::rr::{Name, RData, Record};
use hickory_proto::serialize::binary::{BinDecodable, BinEncodable};

verus! {

/// Record type A (an IPv4 address).
pub const RECORD_TYPE_A: u16 = 1;

/// Class IN (the Internet).
pub const DNS_CLASS_IN: u16 = 1;

/// Response code NOERROR.
pub const RESPONSE_NO_ERROR: u16 = 0;

/// Time to live of the answer that the responder gives, in seconds.
pub const ANSWER_TTL: u32 = 300;

/// The address that the responder gives for every name.
pub const ANSWER_ADDRESS: [u8; 4] = [10, 0, 0, 1];

/// Whether a message asks or answers.
#[derive(Debug, Clone, Copy, PartialEq, Eq, Structural)]
pub enum DnsMessageType {
    Query,
    Response,
}

/// The labels of a domain name, each as its bytes (the root name has none).
pub open spec fn labels_view(labels: Seq<Vec<u8>>) -> Seq<Seq<u8>> {
    labels.map_values(|l: Vec<u8>| l@)
}

/// One entry of the question section: the name's labels as hickory holds
/// them, the record type and the class.
#[derive(Debug, Clone)]
pub struct DnsQuestion {
    pub labels: Vec<Vec<u8>>,
    pub query_type: u16,
    pub query_class: u16,
}

impl View for DnsQuestion {
    type V = (Seq<Seq<u8>>, u16, u16);

    open spec fn view(&self) -> (Seq<Seq<u8>>, u16, u16) {
        (labels_view(self.labels@), self.query_type, self.query_class)
    }
}

/// What a decoded message says of one answer record: its owner name's
/// labels, its type and its time to live.
#[derive(Debug, Clone)]
pub struct DnsRecord {
    pub owner: Vec<Vec<u8>>,
    pub record_type: u16,
    pub ttl: u32,
}

impl View for DnsRecord {
    type V = (Seq<Seq<u8>>, u16, u32);

    open spec fn view(&self) -> (Seq<Seq<u8>>, u16, u32) {
        (labels_view(self.owner@), self.record_type, self.ttl)
    }
}

/// An A record to be written: owner name's labels, time to live and address.
#[derive(Debug, Clone)]
pub struct DnsARecord {
    pub owner: Vec<Vec<u8>>,
    pub ttl: u32,
    pub address: [u8; 4],
}

impl View for DnsARecord {
    type V = (Seq<Seq<u8>>, u32, [u8; 4]);

    open spec fn view(&self) -> (Seq<Seq<u8>>, u32, [u8; 4]) {
        (labels_view(self.owner@), self.ttl, self.address)
    }
}

/// The views of a list of questions.
pub open spec fn question_views(qs: Seq<DnsQuestion>) -> Seq<(Seq<Seq<u8>>, u16, u16)> {
    qs.map_values(|q: DnsQuestion| q@)
}

/// The views of a list of decoded answer records.
pub open spec fn record_views(rs: Seq<DnsRecord>) -> Seq<(Seq<Seq<u8>>, u16, u32)> {
    rs.map_values(|a: DnsRecord| a@)
}

/// The views of a list of A records.
pub open spec fn a_record_views(rs: Seq<DnsARecord>) -> Seq<(Seq<Seq<u8>>, u32, [u8; 4])> {
    rs.map_values(|a: DnsARecord| a@)
}

/// A decoded message: the header fields the probe reads, the questions and
/// the answer records.
#[derive(Debug, Clone)]
pub struct DnsMessage {
    pub id: u16,
    pub message_type: DnsMessageType,
    pub queries: Vec<DnsQuestion>,
    pub answers: Vec<DnsRecord>,
}

/// The abstract value of a decoded message.
pub struct DnsMessageView {
    pub id: u16,
    pub message_type: DnsMessageType,
    pub queries: Seq<(Seq<Seq<u8>>, u16, u16)>,
    pub answers: Seq<(Seq<Seq<u8>>, u16, u32)>,
}

impl View for DnsMessage {
    type V = DnsMessageView;

    open spec fn view(&self) -> DnsMessageView {
        DnsMessageView {
            id: self.id,
            message_type: self.message_type,
            queries: question_views(self.queries@),
            answers: record_views(self.answers@),
        }
    }
}

/// A message to be encoded: header fields, questions and A answers.
#[derive(Debug, Clone)]
pub struct OutgoingMessage {
    pub id: u16,
    pub message_type: DnsMessageType,
    pub recursion_desired: bool,
    pub response_code: u16,
    pub queries: Vec<DnsQuestion>,
    pub answers: Vec<DnsARecord>,
}

/// The abstract value of a message to be encoded.
pub struct OutgoingView {
    pub id: u16,
    pub message_type: DnsMessageType,
    pub recursion_desired: bool,
    pub response_code: u16,
    pub queries: Seq<(Seq<Seq<u8>>, u16, u16)>,
    pub answers: Seq<(Seq<Seq<u8>>, u32, [u8; 4])>,
}

impl View for OutgoingMessage {
    type V = OutgoingView;

    open spec fn view(&self) -> OutgoingView {
        OutgoingView {
            id: self.id,
            message_type: self.message_type,
            recursion_desired: self.recursion_desired,
            response_code: self.response_code,
            queries: question_views(self.queries@),
            answers: a_record_views(self.answers@),
        }
    }
}

#[verifier::external_type_specification]
#[verifier::external_body]
pub struct ExProtoError(ProtoError);

/// The labels of the name that hickory's `Name::from_utf8` makes of a text;
/// `None` where it refuses the text.
pub uninterp spec fn dns_name_labels(text: Seq<char>) -> Option<Seq<Seq<u8>>>;

/// The text that hickory prints (its `Display`) for the fully qualified
/// name that `Name::from_labels` makes of these labels; `None` where it
/// refuses them.
pub uninterp spec fn dns_labels_text(labels: Seq<Seq<u8>>) -> Option<Seq<char>>;

/// What hickory's `Message::from_bytes` makes of a byte string, read back
/// as a `DnsMessage`; `None` where it reports an error.
pub uninterp spec fn dns_decoding(data: Seq<u8>) -> Option<DnsMessageView>;

/// The bytes that hickory's `Message::to_bytes` writes for a message built
/// from these values; `None` where it reports an error.
pub uninterp spec fn dns_encoding(m: OutgoingView) -> Option<Seq<u8>>;

/// Calls hickory's `Name::from_utf8` and reads the name's labels. Trusted:
/// the outcome depends on the text alone.
#[verifier::external_body]
fn name_labels(text: &str) -> (r: Result<Vec<Vec<u8>>, ProtoError>)
    ensures
        dns_name_labels(text@) == (match r {
            Ok(labels) => Some(labels_view(labels@)),
            Err(_) => None::<Seq<Seq<u8>>>,
        }),
{
    Name::from_utf8(text).map(|n| n.iter().map(|l| l.to_vec()).collect())
}

/// Calls hickory's `Name::from_labels` and prints the name. Trusted: the
/// outcome depends on the labels alone.
#[verifier::external_body]
fn labels_text(labels: &Vec<Vec<u8>>) -> (r: Result<String, ProtoError>)
    ensures
        dns_labels_text(labels_view(labels@)) == (match r {
            Ok(t) => Some(t@),
            Err(_) => None::<Seq<char>>,
        }),
{
    Name::from_labels(labels.clone()).map(|n| n.to_string())
}

/// Calls hickory's `Message::from_bytes` and reads the result into a
/// `DnsMessage`: names as their labels, types and classes as numbers.
/// Trusted: the outcome depends on the bytes alone.
#[verifier::external_body]
fn decode_message(data: &[u8]) -> (r: Result<DnsMessage, ProtoError>)
    ensures
        dns_decoding(data@) == (match r {
            Ok(m) => Some(m@),
            Err(_) => None::<DnsMessageView>,
        }),
{
    let m = Message::from_bytes(data)?;
    let labels = |n: &Name| n.iter().map(|l| l.to_vec()).collect();
    Ok(DnsMessage {
        id: m.id(),
        message_type: match m.message_type() { MessageType::Query => DnsMessageType::Query, MessageType::Response => DnsMessageType::Response },
        queries: m.queries().iter().map(|q| DnsQuestion { labels: labels(q.name()), query_type: q.query_type().into(), query_class: q.query_class().into() }).collect(),
        answers: m.answers().iter().map(|a| DnsRecord { owner: labels(a.name()), record_type: a.record_type().into(), ttl: a.ttl() }).collect(),
    })
}

/// Builds a hickory `Message` from the values (names through
/// `Name::from_labels`, answers as A records of class IN) and calls its
/// `to_bytes`. Trusted: the outcome depends on the values alone.
#[verifier::external_body]
fn encode_message(m: &OutgoingMessage) -> (r: Result<Vec<u8>, ProtoError>)
    ensures
        dns_encoding(m@) == (match r {
            Ok(bytes) => Some(bytes@),
            Err(_) => None::<Seq<u8>>,
        }),
{
    let mut msg = Message::new();
    msg.set_id(m.id).set_recursion_desired(m.recursion_desired).set_response_code(m.response_code.into());
    msg.set_message_type(match m.message_type { DnsMessageType::Query => MessageType::Query, DnsMessageType::Response => MessageType::Response });
    for q in &m.queries {
        let mut query = Query::query(Name::from_labels(q.labels.clone())?, q.query_type.into());
        query.set_query_class(q.query_class.into());
        msg.add_query(query);
    }
    for a in &m.answers {
        msg.add_answer(Record::from_rdata(Name::from_labels(a.owner.clone())?, a.ttl, RData::A(A(a.address.into()))));
    }
    msg.to_bytes()
}

/// hickory's description of an error (its `Display`). Nothing is stated of the text.
#[verifier::external_body]
fn proto_error_text(e: &ProtoError) -> (r: String) {
    e.to_string()
}

/// `prefix` followed by hickory's description of `e`.
fn describe_error(prefix: &str, e: &ProtoError) -> (r: String)
    ensures
        exists|detail: Seq<char>| r@ == prefix@ + detail,
{
    let detail = proto_error_text(e);
    let r = concat_text(prefix, detail.as_str());
    assert(r@ == prefix@ + detail@);
    r
}

/// The query that the probe sends: a recursive A query for the name with
/// these labels.
pub open spec fn query_view(labels: Seq<Seq<u8>>, id: u16) -> OutgoingView {
    OutgoingView {
        id,
        message_type: DnsMessageType::Query,
        recursion_desired: true,
        response_code: RESPONSE_NO_ERROR,
        queries: seq![(labels, RECORD_TYPE_A, DNS_CLASS_IN)],
        answers: seq![],
    }
}

/// The owner of the responder's answer: the first question's name, or the
/// root name (no labels) where there is no question.
pub open spec fn answer_owner(queries: Seq<(Seq<Seq<u8>>, u16, u16)>) -> Seq<Seq<u8>> {
    if queries.len() > 0 {
        queries[0].0
    } else {
        Seq::empty()
    }
}

/// The responder's reply to `query`: same id, the questions copied, recursion
/// desired, no error, and one A answer for the first question's name.
pub open spec fn response_view(query: DnsMessageView) -> OutgoingView {
    OutgoingView {
        id: query.id,
        message_type: DnsMessageType::Response,
        recursion_desired: true,
        response_code: RESPONSE_NO_ERROR,
        queries: query.queries,
        answers: seq![(answer_owner(query.queries), ANSWER_TTL, ANSWER_ADDRESS)],
    }
}

/// The recursive A query for the name with these labels, with the given id.
pub fn query_message(labels: Vec<Vec<u8>>, id: u16) -> (r: OutgoingMessage)
    ensures
        r@ == query_view(labels_view(labels@), id),
{
    let ghost lv = labels_view(labels@);
    let question = DnsQuestion { labels, query_type: RECORD_TYPE_A, query_class: DNS_CLASS_IN };
    let queries = vec![question];
    let answers: Vec<DnsARecord> = Vec::new();
    let r = OutgoingMessage {
        id,
        message_type: DnsMessageType::Query,
        recursion_desired: true,
        response_code: RESPONSE_NO_ERROR,
        queries,
        answers,
    };
    assert(r@.queries =~= query_view(lv, id).queries);
    assert(r@.answers =~= query_view(lv, id).answers);
    r
}

/// A copy of a name's labels.
fn copy_labels(labels: &Vec<Vec<u8>>) -> (r: Vec<Vec<u8>>)
    ensures
        labels_view(r@) == labels_view(labels@),
{
    let mut out: Vec<Vec<u8>> = Vec::new();
    let mut i: usize = 0;
    while i < labels.len()
        invariant
            i <= labels@.len(),
            labels_view(out@) =~= labels_view(labels@).take(i as int),
        decreases labels.len() - i,
    {
        let mut label: Vec<u8> = Vec::new();
        extend_bytes(&mut label, labels[i].as_slice());
        assert(label@ =~= labels@[i as int]@);
        let ghost before = out@;
        out.push(label);
        assert(labels_view(out@) =~= labels_view(before).push(label@));
        i = i + 1;
        assert(labels_view(out@) =~= labels_view(labels@).take(i as int));
    }
    assert(labels_view(labels@).take(i as int) =~= labels_view(labels@));
    out
}

/// A copy of a question.
fn copy_question(q: &DnsQuestion) -> (r: DnsQuestion)
    ensures
        r@ == q@,
{
    DnsQuestion { labels: copy_labels(&q.labels), query_type: q.query_type, query_class: q.query_class }
}

/// The reply that the responder gives to `query`.
pub fn response_message(query: &DnsMessage) -> (r: OutgoingMessage)
    ensures
        r@ == response_view(query@),
{
    let mut queries: Vec<DnsQuestion> = Vec::new();
    let mut i: usize = 0;
    while i < query.queries.len()
        invariant
            i <= query.queries@.len(),
            queries@.len() == i,
            question_views(queries@) =~= question_views(query.queries@).take(i as int),
        decreases query.queries.len() - i,
    {
        let q = copy_question(&query.queries[i]);
        let ghost before = queries@;
        queries.push(q);
        proof {
            assert(queries@ == before.push(q));
            assert forall|j: int| 0 <= j <= i implies #[trigger] question_views(queries@)[j]
                == question_views(query.queries@)[j] by {
                if j < i {
                    assert(queries@[j] == before[j]);
                    assert(question_views(before)[j] == question_views(query.queries@)[j]);
                }
            }
        }
        i = i + 1;
        assert(question_views(queries@) =~= question_views(query.queries@).take(i as int));
    }
    assert(question_views(query.queries@).take(i as int) =~= question_views(query.queries@));
    let owner = if query.queries.len() > 0 {
        copy_labels(&query.queries[0].labels)
    } else {
        let root: Vec<Vec<u8>> = Vec::new();
        assert(labels_view(root@) =~= Seq::<Seq<u8>>::empty());
        root
    };
    let answer = DnsARecord { owner, ttl: ANSWER_TTL, address: ANSWER_ADDRESS };
    let answers = vec![answer];
    let r = OutgoingMessage {
        id: query.id,
        message_type: DnsMessageType::Response,
        recursion_desired: true,
        response_code: RESPONSE_NO_ERROR,
        queries,
        answers,
    };
    assert(r@.answers =~= response_view(query@).answers);
    r
}

/// The text hickory prints for the fully qualified name with these labels;
/// `None` where hickory refuses them as a name.
pub fn name_text(labels: &Vec<Vec<u8>>) -> (r: Option<String>)
    ensures
        match dns_labels_text(labels_view(labels@)) {
            Some(t) => (r matches Some(s) && s@ == t),
            None => r is None,
        },
{
    match labels_text(labels) {
        Ok(t) => Some(t),
        Err(_) => None,
    }
}

/// Encodes a recursive A query for `domain`. A name that hickory refuses is
/// reported as `invalid name: ...`, an encoding failure as `encode query: ...`.
pub fn build_dns_query(domain: &str, id: u16) -> (r: Result<Vec<u8>, String>)
    ensures
        match dns_name_labels(domain@) {
            None => (r matches Err(e) && exists|detail: Seq<char>| e@ == "invalid name: "@ + detail),
            Some(labels) => match dns_encoding(query_view(labels, id)) {
                Some(bytes) => (r matches Ok(b) && b@ == bytes),
                None => (r matches Err(e) && exists|detail: Seq<char>| e@ == "encode query: "@ + detail),
            },
        },
{
    let labels = match name_labels(domain) {
        Ok(l) => l,
        Err(e) => {
            return Err(describe_error("invalid name: ", &e));
        },
    };
    let msg = query_message(labels, id);
    match encode_message(&msg) {
        Ok(bytes) => Ok(bytes),
        Err(e) => Err(describe_error("encode query: ", &e)),
    }
}

/// Decodes a DNS message; a failure is reported as `decode: ...`.
pub fn parse_dns_message(data: &[u8]) -> (r: Result<DnsMessage, String>)
    ensures
        match dns_decoding(data@) {
            Some(v) => (r matches Ok(m) && m@ == v),
            None => (r matches Err(e) && exists|detail: Seq<char>| e@ == "decode: "@ + detail),
        },
{
    match decode_message(data) {
        Ok(m) => Ok(m),
        Err(e) => Err(describe_error("decode: ", &e)),
    }
}

/// Encodes the responder's reply to `query`; a failure is reported as
/// `encode response: ...`.
pub fn build_dns_response(query: &DnsMessage) -> (r: Result<Vec<u8>, String>)
    ensures
        match dns_encoding(response_view(query@)) {
            Some(bytes) => (r matches Ok(b) && b@ == bytes),
            None => (r matches Err(e) && exists|detail: Seq<char>| e@ == "encode response: "@ + detail),
        },
{
    let msg = response_message(query);
    match encode_message(&msg) {
        Ok(bytes) => Ok(bytes),
        Err(e) => Err(describe_error("encode response: ", &e)),
    }
}

impl DnsMessage {
    /// The message's id.
    pub fn id(&self) -> (r: u16)
        ensures
            r == self.id,
    {
        self.id
    }

    /// Whether the message is a response.
    pub fn is_response(&self) -> (r: bool)
        ensures
            r == (self.message_type == DnsMessageType::Response),
    {
        self.message_type == DnsMessageType::Response
    }
}

} // verus!
