//! DNS lookups of IPv4 addresses: the query that goes out and the answer picked
//! from the reply.
use trust_dns_client::op::{Message, MessageType, OpCode, Query};
use trust_dns_client::proto::error::ProtoError;
use trust_dns_client::rr::domain::Name;
use trust_dns_client::rr::record_type::RecordType;
use trust_dns_client::serialize::binary::{BinEncodable, BinEncoder};
use vstd::prelude::*;

mod domain_name;
pub use domain_name::DomainName;

verus! {

#[verifier::external_type_specification]
#[verifier::external_body]
pub struct ExProtoError(ProtoError);

#[verifier::external_type_specification]
#[verifier::external_body]
pub struct ExName(Name);

#[verifier::external_type_specification]
#[verifier::external_body]
pub struct ExAddrParseError(core::net::AddrParseError);

/// What can go wrong while resolving a name.
#[derive(Debug)]
pub enum DnsError {
    ParseDomainName(ProtoError),
    ParseDnsServerAddress(core::net::AddrParseError),
    Encoding(ProtoError),
    Decoding(ProtoError),
    Network(std::io::Error),
    Sending(std::io::Error),
    Receiving(std::io::Error),
}

/// The type code of an address (A) record.
pub const RECORD_TYPE_A: u16 = 1;

/// Whether `trust_dns_proto::rr::Name::from_ascii` accepts `text` as a domain name.
pub uninterp spec fn dns_name_valid(text: Seq<char>) -> bool;

/// The answer records of the DNS message `bytes` as `trust_dns_proto` decodes it,
/// each as its record type code and, for an A record, its address
/// (`None` when the bytes do not decode as a message).
pub uninterp spec fn dns_response_answers(bytes: Seq<u8>) -> Option<Seq<(u16, Option<[u8; 4]>)>>;

/// Calls `rand::random::<u16>()`. Nothing is claimed of the value.
#[verifier::external_body]
fn random_u16() -> (value: u16) {
    rand::random::<u16>()
}

/// The message id for a raw random value: 0 is not used, 1 stands in for it.
pub fn message_id_from(raw: u16) -> (id: u16)
    ensures
        id == (if raw == 0 {
            1
        } else {
            raw
        }),
{
    let mut id = raw;
    if id == 0 {
        id = 1;
    }
    id
}

/// A random, non-zero message id.
pub fn message_id() -> (id: u16)
    ensures
        id != 0,
{
    message_id_from(random_u16())
}

/// Calls `trust_dns_proto::rr::Name::from_ascii`. Claimed: it succeeds exactly
/// when `dns_name_valid(text)`.
#[verifier::external_body]
fn name_from_ascii(text: &str) -> (r: Result<Name, ProtoError>)
    ensures
        r is Ok <==> dns_name_valid(text@),
{
    Name::from_ascii(text)
}

/// Whether a message asks (a query) or answers (a response).
#[derive(Debug, Clone, Copy, PartialEq, Eq, Structural)]
pub enum DnsMessageType {
    Query,
    Response,
}

/// The header flag of a message type: set for a response.
pub open spec fn is_response(t: DnsMessageType) -> bool {
    t == DnsMessageType::Response
}

/// The operation code of a standard query.
pub const OP_CODE_QUERY: u8 = 0;

/// A request with one question: the name, the record type asked for, and the
/// header fields (`op_code` is the wire code of the operation).
pub struct DnsQuery {
    pub id: u16,
    pub name: DomainName,
    pub record_type: u16,
    pub message_type: DnsMessageType,
    pub op_code: u8,
    pub recursion_desired: bool,
}

impl DnsQuery {
    /// A standard query with id `id` for the address (A) records of `name`,
    /// asking the server to recurse.
    pub fn a_lookup(name: DomainName, id: u16) -> (q: DnsQuery)
        ensures
            q.id == id,
            q.name.text() == name.text(),
            q.record_type == RECORD_TYPE_A,
            q.message_type == DnsMessageType::Query,
            q.op_code == OP_CODE_QUERY,
            q.recursion_desired,
    {
        DnsQuery {
            id,
            name,
            record_type: RECORD_TYPE_A,
            message_type: DnsMessageType::Query,
            op_code: OP_CODE_QUERY,
            recursion_desired: true,
        }
    }
}

/// The wire form of a message with id `id`, the message type (response or not),
/// the operation code and the recursion-desired flag, and one question for the
/// records of type `record_type` (class IN) of the name `text`, as
/// `trust_dns_proto` encodes it (`None` when encoding fails).
pub uninterp spec fn dns_query_bytes(
    text: Seq<char>,
    id: u16,
    record_type: u16,
    response: bool,
    op_code: u8,
    recursion_desired: bool,
) -> Option<Seq<u8>>;

/// Converts `q` into a `trust_dns_proto::op::Message` (`Message::new`, one
/// `Query::query(name, RecordType::from(record_type))` by `add_query`, then
/// `set_id`, `set_message_type`, `set_op_code` with `OpCode::from_u8`, and
/// `set_recursion_desired`, each with the fields of `q`) and encodes it with `BinEncodable::emit`. Claimed: the outcome is
/// `dns_query_bytes` of the fields of `q`; this holds because the fields of a
/// `DomainName` are private to its module, where `DomainName::parse` is the only
/// constructor and pairs the name with the text it parsed.
#[verifier::external_body]
fn encode_query(q: &DnsQuery) -> (r: Result<Vec<u8>, ProtoError>)
    ensures
        r is Ok <==> dns_query_bytes(
            q.name.text(),
            q.id,
            q.record_type,
            is_response(q.message_type),
            q.op_code,
            q.recursion_desired,
        ) is Some,
        r matches Ok(bytes) ==> bytes@ == dns_query_bytes(
            q.name.text(),
            q.id,
            q.record_type,
            is_response(q.message_type),
            q.op_code,
            q.recursion_desired,
        )->0,
{
    let message_type = match q.message_type {
        DnsMessageType::Query => MessageType::Query,
        DnsMessageType::Response => MessageType::Response,
    };
    let op_code = OpCode::from_u8(q.op_code)?;
    let mut request = Message::new();
    request.add_query(Query::query(q.name.parsed().clone(), RecordType::from(q.record_type)));
    request.set_id(q.id).set_message_type(message_type).set_op_code(op_code);
    request.set_recursion_desired(q.recursion_desired);
    let mut buffer: Vec<u8> = Vec::new();
    request.emit(&mut BinEncoder::new(&mut buffer))?;
    Ok(buffer)
}

impl DnsQuery {
    /// The wire form of this query; `Encoding` when it cannot be encoded.
    pub fn encode(&self) -> (r: Result<Vec<u8>, DnsError>)
        ensures
            dns_query_bytes(
                self.name.text(),
                self.id,
                self.record_type,
                is_response(self.message_type),
                self.op_code,
                self.recursion_desired,
            ) is None ==> (r matches Err(DnsError::Encoding(_))),
            dns_query_bytes(
                self.name.text(),
                self.id,
                self.record_type,
                is_response(self.message_type),
                self.op_code,
                self.recursion_desired,
            ) matches Some(b) ==> (r matches Ok(bytes) && bytes@ == b),
    {
        match encode_query(self) {
            Ok(bytes) => Ok(bytes),
            Err(e) => Err(DnsError::Encoding(e)),
        }
    }
}

/// The bytes of the query that `build_query` sends for `domain_name`: a standard
/// query (not a response, operation code 0) with id `id` for the A records of the
/// name, recursion desired.
pub open spec fn a_query_bytes(domain_name: Seq<char>, id: u16) -> Option<Seq<u8>> {
    dns_query_bytes(domain_name, id, RECORD_TYPE_A, false, OP_CODE_QUERY, true)
}

/// The bytes of a DNS query for the IPv4 addresses of `domain_name`, with message id
/// `id`: one question for its A records, recursion desired.
pub fn build_query(domain_name: &str, id: u16) -> (r: Result<Vec<u8>, DnsError>)
    ensures
        !dns_name_valid(domain_name@) ==> (r matches Err(DnsError::ParseDomainName(_))),
        dns_name_valid(domain_name@) && a_query_bytes(domain_name@, id) is None ==> (r matches Err(
            DnsError::Encoding(_),
        )),
        dns_name_valid(domain_name@) && a_query_bytes(domain_name@, id) is Some ==> (r matches Ok(
            bytes,
        ) && bytes@ == a_query_bytes(domain_name@, id)->0),
{
    let name = match DomainName::parse(domain_name) {
        Ok(name) => name,
        Err(e) => {
            return Err(DnsError::ParseDomainName(e));
        },
    };
    let query = DnsQuery::a_lookup(name, id);
    query.encode()
}

/// One answer record of a reply: its type code and, for an A record, the address.
#[derive(Debug, Clone, Copy, PartialEq, Eq)]
pub struct DnsAnswer {
    pub record_type: u16,
    pub a_data: Option<[u8; 4]>,
}

/// An answer as a plain pair.
pub open spec fn answer_view(a: DnsAnswer) -> (u16, Option<[u8; 4]>) {
    (a.record_type, a.a_data)
}

/// Decodes a message with `trust_dns_proto::op::Message::from_vec` and lists its
/// answers (`Message::answers`), each with `Record::record_type` as a code and,
/// where `Record::data` is present and `RData::as_a` gives an address, its octets.
/// Claimed: the outcome is `dns_response_answers(bytes)`.
#[verifier::external_body]
fn decode_answers(bytes: &[u8]) -> (r: Result<Vec<DnsAnswer>, ProtoError>)
    ensures
        r is Ok <==> dns_response_answers(bytes@) is Some,
        r matches Ok(answers) ==> answers@.map_values(|a: DnsAnswer| answer_view(a))
            == dns_response_answers(bytes@)->0,
{
    let message = Message::from_vec(bytes)?;
    let mut answers: Vec<DnsAnswer> = Vec::new();
    for answer in message.answers() {
        let a_data = match answer.data() {
            Some(data) => match data.as_a() {
                Some(a) => Some(a.0.octets()),
                None => None,
            },
            None => None,
        };
        answers.push(DnsAnswer { record_type: u16::from(answer.record_type()), a_data });
    }
    Ok(answers)
}

/// The address of the first answer that is an A record carrying an address.
pub open spec fn first_a_address(answers: Seq<(u16, Option<[u8; 4]>)>) -> Option<[u8; 4]>
    decreases answers.len(),
{
    if answers.len() == 0 {
        None
    } else if answers[0].0 == RECORD_TYPE_A && answers[0].1 is Some {
        answers[0].1
    } else {
        first_a_address(answers.drop_first())
    }
}

/// The address of the first answer that is an A record carrying an address, if any.
pub fn first_a_record(answers: &Vec<DnsAnswer>) -> (ip: Option<[u8; 4]>)
    ensures
        ip == first_a_address(answers@.map_values(|a: DnsAnswer| answer_view(a))),
{
    let ghost all = answers@.map_values(|a: DnsAnswer| answer_view(a));
    assert(all.skip(0) =~= all);
    let mut i: usize = 0;
    while i < answers.len()
        invariant
            i <= answers@.len(),
            all == answers@.map_values(|a: DnsAnswer| answer_view(a)),
            first_a_address(all) == first_a_address(all.skip(i as int)),
        decreases answers@.len() - i,
    {
        let ghost rest = all.skip(i as int);
        assert(rest[0] == answer_view(answers@[i as int]));
        assert(rest.drop_first() =~= all.skip(i + 1));
        if answers[i].record_type == RECORD_TYPE_A {
            if let Some(ip) = answers[i].a_data {
                return Some(ip);
            }
        }
        i = i + 1;
    }
    assert(all.skip(i as int).len() == 0);
    None
}

/// The IPv4 address that the reply `response` gives: the first A record among its answers.
pub fn parse_response(response: &[u8]) -> (r: Result<Option<[u8; 4]>, DnsError>)
    ensures
        dns_response_answers(response@) is None ==> (r matches Err(DnsError::Decoding(_))),
        dns_response_answers(response@) matches Some(answers) ==> r == Ok::<
            Option<[u8; 4]>,
            DnsError,
        >(first_a_address(answers)),
{
    match decode_answers(response) {
        Ok(answers) => Ok(first_a_record(&answers)),
        Err(e) => Err(DnsError::Decoding(e)),
    }
}

} // verus!
