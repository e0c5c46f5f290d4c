//! Assembly of the final response for forward queries and reverse
//! lookups: one question entry for the query, one answer entry per
//! returned record, classification of failures, and the fixed error
//! shapes for inputs rejected before any query is attempted.
use crate::ip::{ip_of_text, server_endpoint_of_text, Endpoint, IpAddress};
use crate::rdata::{rdata_text, rdata_to_string, RecordData};
use crate::response::{
    json_of_response, lemma_json_deterministic, Answer, Question, Response, ResponseBuilder,
};
use crate::status::{
    forward_status, forward_status_of, reverse_status, reverse_status_of, FailureKind,
    LookupFailure, RCODE_FORMERR, RCODE_NOERROR, RCODE_SERVFAIL,
};
use vstd::prelude::*;
use vstd::string::*;

verus! {

/// The wire value of the PTR record type.
pub const RTYPE_PTR: u16 = 12;

/// One record as the resolver returned it: owner name, type, time to
/// live, and the typed payload.
#[derive(Clone, Debug)]
pub struct ResolvedRecord {
    pub name: String,
    pub rtype: u16,
    pub ttl: u32,
    pub data: RecordData,
}

impl ResolvedRecord {
    pub open spec fn wf(&self) -> bool {
        self.data.wf()
    }
}

/// What a forward query came back with: records, or a failure.
#[derive(Clone, Debug)]
pub enum LookupOutcome {
    Records(Vec<ResolvedRecord>),
    Failed(LookupFailure),
}

impl LookupOutcome {
    pub open spec fn wf(&self) -> bool {
        match self {
            LookupOutcome::Records(recs) => forall|i: int|
                0 <= i < recs@.len() ==> (#[trigger] recs@[i]).wf(),
            LookupOutcome::Failed(_) => true,
        }
    }
}

/// What a reverse lookup came back with: hostnames, or a failure.
#[derive(Clone, Debug)]
pub enum ReverseOutcome {
    Names(Vec<String>),
    Failed(LookupFailure),
}

pub open spec fn is_question_for(q: Question, name: Seq<char>, rtype: u16) -> bool {
    q.name@ == name && q.rtype == rtype
}

pub open spec fn answer_matches(a: Answer, rec: ResolvedRecord) -> bool {
    a.name@ == rec.name@ && a.rtype == rec.rtype && a.ttl == rec.ttl && a.data@ == rdata_text(
        rec.data,
    )
}

/// The response for a forward query that returned records: status
/// NoError, the DNSSEC flag as requested, the question as asked, and one
/// answer per record in the order returned.
pub open spec fn is_forward_success(
    r: Response,
    domain: Seq<char>,
    record_type: u16,
    dnssec: bool,
    recs: Seq<ResolvedRecord>,
) -> bool {
    &&& r.status == RCODE_NOERROR
    &&& r.tc == false
    &&& r.rd == true
    &&& r.ra == true
    &&& r.ad == dnssec
    &&& r.cd == false
    &&& r.questions@.len() == 1
    &&& is_question_for(r.questions@[0], domain, record_type)
    &&& r.answers@.len() == recs.len()
    &&& forall|i: int| 0 <= i < recs.len() ==> answer_matches(#[trigger] r.answers@[i], recs[i])
    &&& r.comment is None
}

/// The response for a failed forward query: the classified status, the
/// question preserved, no answers, and the failure's diagnostic text as
/// the comment.
pub open spec fn is_forward_failure(
    r: Response,
    domain: Seq<char>,
    record_type: u16,
    f: LookupFailure,
) -> bool {
    &&& r.status == forward_status_of(f.kind)
    &&& r.tc == false
    &&& r.rd == true
    &&& r.ra == true
    &&& r.ad == false
    &&& r.cd == false
    &&& r.questions@.len() == 1
    &&& is_question_for(r.questions@[0], domain, record_type)
    &&& r.answers@.len() == 0
    &&& r.comment matches Some(c) && c@ == f.message@
}

/// The response for a reverse lookup that returned hostnames: one PTR
/// question with the synthetic reverse name, and one answer per hostname
/// with TTL 0, since the reverse-lookup primitive exposes none.
pub open spec fn is_reverse_success(r: Response, ptr_name: Seq<char>, names: Seq<String>) -> bool {
    &&& r.status == RCODE_NOERROR
    &&& r.tc == false
    &&& r.rd == true
    &&& r.ra == true
    &&& r.ad == false
    &&& r.cd == false
    &&& r.questions@.len() == 1
    &&& is_question_for(r.questions@[0], ptr_name, RTYPE_PTR)
    &&& r.answers@.len() == names.len()
    &&& forall|i: int|
        0 <= i < names.len() ==> (#[trigger] r.answers@[i]).name@ == ptr_name
            && r.answers@[i].rtype == RTYPE_PTR && r.answers@[i].ttl == 0 && r.answers@[i].data@
            == names[i]@
    &&& r.comment is None
}

/// The response for a failed reverse lookup.
pub open spec fn is_reverse_failure(r: Response, ptr_name: Seq<char>, f: LookupFailure) -> bool {
    &&& r.status == reverse_status_of(f.kind)
    &&& r.tc == false
    &&& r.rd == true
    &&& r.ra == true
    &&& r.ad == false
    &&& r.cd == false
    &&& r.questions@.len() == 1
    &&& is_question_for(r.questions@[0], ptr_name, RTYPE_PTR)
    &&& r.answers@.len() == 0
    &&& r.comment matches Some(c) && c@ == f.message@
}

/// A minimal error response: the given status, the given comment, no
/// question or answer entries.
pub open spec fn is_error_response(r: Response, status: i32, comment: Seq<char>) -> bool {
    &&& r.status == status
    &&& r.tc == false
    &&& r.rd == true
    &&& r.ra == true
    &&& r.ad == false
    &&& r.cd == false
    &&& r.questions@.len() == 0
    &&& r.answers@.len() == 0
    &&& r.comment matches Some(c) && c@ == comment
}

/// The comment reported when an explicit server address does not parse.
pub open spec fn creation_failure_comment(server: Seq<char>) -> Seq<char> {
    "Failed to create resolver: Invalid DNS server address: "@ + server
}

/// The comment reported when a reverse-lookup target is not an IP
/// literal.
pub open spec fn invalid_ip_comment(ip: Seq<char>) -> Seq<char> {
    "Invalid IP address '"@ + ip + "': invalid IP address syntax"@
}

/// Assembles the response for a forward query from its outcome.
pub fn forward_response(
    domain: &str,
    record_type: u16,
    dnssec: bool,
    outcome: &LookupOutcome,
) -> (r: Response)
    requires
        outcome.wf(),
    ensures
        match *outcome {
            LookupOutcome::Records(recs) => is_forward_success(
                r,
                domain@,
                record_type,
                dnssec,
                recs@,
            ),
            LookupOutcome::Failed(f) => is_forward_failure(r, domain@, record_type, f),
        },
{
    match outcome {
        LookupOutcome::Records(recs) => {
            let mut b = ResponseBuilder::new().status(RCODE_NOERROR).rd(true).ra(true).ad(
                dnssec,
            ).add_question(domain, record_type);
            let mut i: usize = 0;
            while i < recs.len()
                invariant
                    i <= recs@.len(),
                    forall|j: int| 0 <= j < recs@.len() ==> (#[trigger] recs@[j]).wf(),
                    b.status == RCODE_NOERROR,
                    b.tc == false,
                    b.rd == true,
                    b.ra == true,
                    b.ad == dnssec,
                    b.cd == false,
                    b.questions@.len() == 1,
                    is_question_for(b.questions@[0], domain@, record_type),
                    b.comment is None,
                    b.answers@.len() == i,
                    forall|j: int|
                        0 <= j < i ==> answer_matches(#[trigger] b.answers@[j], recs@[j]),
                decreases recs@.len() - i,
            {
                let rec = &recs[i];
                let data = rdata_to_string(&rec.data);
                b = b.add_answer(rec.name.as_str(), rec.rtype, rec.ttl, data.as_str());
                i = i + 1;
            }
            b.build()
        },
        LookupOutcome::Failed(f) => {
            let st = forward_status(&f.kind);
            ResponseBuilder::new().status(st).rd(true).ra(true).comment(
                f.message.clone(),
            ).add_question(domain, record_type).build()
        },
    }
}

/// Assembles the response for a reverse lookup from its outcome. The
/// question name is the synthetic reverse name built for the address.
pub fn reverse_response(ptr_name: &str, outcome: &ReverseOutcome) -> (r: Response)
    ensures
        match *outcome {
            ReverseOutcome::Names(names) => is_reverse_success(r, ptr_name@, names@),
            ReverseOutcome::Failed(f) => is_reverse_failure(r, ptr_name@, f),
        },
{
    match outcome {
        ReverseOutcome::Names(names) => {
            let mut b = ResponseBuilder::new().status(RCODE_NOERROR).rd(true).ra(
                true,
            ).add_question(ptr_name, RTYPE_PTR);
            let mut i: usize = 0;
            while i < names.len()
                invariant
                    i <= names@.len(),
                    b.status == RCODE_NOERROR,
                    b.tc == false,
                    b.rd == true,
                    b.ra == true,
                    b.ad == false,
                    b.cd == false,
                    b.questions@.len() == 1,
                    is_question_for(b.questions@[0], ptr_name@, RTYPE_PTR),
                    b.comment is None,
                    b.answers@.len() == i,
                    forall|j: int|
                        0 <= j < i ==> (#[trigger] b.answers@[j]).name@ == ptr_name@
                            && b.answers@[j].rtype == RTYPE_PTR && b.answers@[j].ttl == 0
                            && b.answers@[j].data@ == names@[j]@,
                decreases names@.len() - i,
            {
                b = b.add_answer(ptr_name, RTYPE_PTR, 0, names[i].as_str());
                i = i + 1;
            }
            b.build()
        },
        ReverseOutcome::Failed(f) => {
            let st = reverse_status(&f.kind);
            ResponseBuilder::new().status(st).rd(true).ra(true).comment(
                f.message.clone(),
            ).add_question(ptr_name, RTYPE_PTR).build()
        },
    }
}

/// Decides where a query will be sent: no server string means the system
/// default; a server string must parse as an endpoint, else the fixed
/// ServFail error response is returned and no query is attempted.
pub fn prepare_resolver(server: Option<&str>) -> (r: Result<Option<Endpoint>, Response>)
    ensures
        match server {
            Option::None => r matches Ok(Option::None),
            Option::Some(s) => match server_endpoint_of_text(s@) {
                Some((m, p)) => r matches Ok(Some(ep)) && ep.wf() && ep.ip.model() == m && ep.port
                    == p,
                None => r matches Err(e) && is_error_response(
                    e,
                    RCODE_SERVFAIL,
                    creation_failure_comment(s@),
                ),
            },
        },
{
    match server {
        Option::None => Ok(Option::None),
        Option::Some(s) => {
            match crate::ip::parse_server_address(s) {
                Option::Some(ep) => Ok(Option::Some(ep)),
                Option::None => {
                    let mut msg = String::from_str(
                        "Failed to create resolver: Invalid DNS server address: ",
                    );
                    msg.append(s);
                    let resp = ResponseBuilder::error(RCODE_SERVFAIL, msg.as_str());
                    Err(resp)
                },
            }
        },
    }
}

/// Parses the reverse-lookup target: a non-IP string yields the fixed
/// FormErr error response and no query is attempted.
pub fn prepare_reverse_target(ip: &str) -> (r: Result<IpAddress, Response>)
    ensures
        match ip_of_text(ip@) {
            Some(m) => r matches Ok(a) && a.wf() && a.model() == m,
            None => r matches Err(e) && is_error_response(
                e,
                RCODE_FORMERR,
                invalid_ip_comment(ip@),
            ),
        },
{
    match crate::ip::parse_ip(ip) {
        Option::Some(a) => Ok(a),
        Option::None => {
            let mut msg = String::from_str("Invalid IP address '");
            msg.append(ip);
            msg.append("': invalid IP address syntax");
            let resp = ResponseBuilder::error(RCODE_FORMERR, msg.as_str());
            Err(resp)
        },
    }
}

/// Resolving the same query against the same outcome twice yields
/// byte-identical JSON documents: the response is a function of the query
/// and the resolver's outcome alone.
pub proof fn lemma_forward_deterministic(
    r1: Response,
    r2: Response,
    domain: Seq<char>,
    record_type: u16,
    dnssec: bool,
    recs: Seq<ResolvedRecord>,
)
    requires
        is_forward_success(r1, domain, record_type, dnssec, recs),
        is_forward_success(r2, domain, record_type, dnssec, recs),
    ensures
        json_of_response(r1) == json_of_response(r2),
{
    assert forall|i: int| 0 <= i < r1.answers@.len() implies (#[trigger] r1.answers@[i]).name@
        == r2.answers@[i].name@ && r1.answers@[i].rtype == r2.answers@[i].rtype
        && r1.answers@[i].ttl == r2.answers@[i].ttl && r1.answers@[i].data@
        == r2.answers@[i].data@ by {
        assert(answer_matches(r1.answers@[i], recs[i]));
        assert(answer_matches(r2.answers@[i], recs[i]));
    }
    lemma_json_deterministic(r1, r2);
}

/// The same determinism for reverse lookups.
pub proof fn lemma_reverse_deterministic(
    r1: Response,
    r2: Response,
    ptr_name: Seq<char>,
    names: Seq<String>,
)
    requires
        is_reverse_success(r1, ptr_name, names),
        is_reverse_success(r2, ptr_name, names),
    ensures
        json_of_response(r1) == json_of_response(r2),
{
    lemma_json_deterministic(r1, r2);
}

} // verus!
