use dns_json::executor::{
    forward_response, prepare_resolver, prepare_reverse_target, reverse_response, LookupOutcome,
    ResolvedRecord, ReverseOutcome,
};
use dns_json::ip::Ipv4;
use dns_json::rdata::RecordData;
use dns_json::response::{to_json, ResponseBuilder};
use dns_json::status::{forward_status, reverse_status, FailureKind, LookupFailure};

fn one_a_record() -> LookupOutcome {
    LookupOutcome::Records(vec![ResolvedRecord {
        name: String::from("example.com."),
        rtype: 1,
        ttl: 300,
        data: RecordData::A(Ipv4 { a: 93, b: 184, c: 216, d: 34 }),
    }])
}

#[test]
fn forward_success_shape() {
    let resp = forward_response("example.com", 1, false, &one_a_record());
    let json = to_json(&resp);
    assert_eq!(
        json,
        "{\"AD\":false,\
         \"Answer\":[{\"TTL\":300,\"data\":\"93.184.216.34\",\"name\":\"example.com.\",\"type\":1}],\
         \"CD\":false,\
         \"Question\":[{\"name\":\"example.com\",\"type\":1}],\
         \"RA\":true,\"RD\":true,\"Status\":0,\"TC\":false}"
    );
    assert!(!json.contains("comment"));
}

#[test]
fn forward_success_sets_ad_when_dnssec_requested() {
    let resp = forward_response("example.com", 1, true, &one_a_record());
    let json = to_json(&resp);
    assert!(json.starts_with("{\"AD\":true,"));
}

#[test]
fn forward_failure_keeps_question_and_comment() {
    let outcome = LookupOutcome::Failed(LookupFailure {
        kind: FailureKind::NoRecordsFound { response_code: 3 },
        message: String::from("no record found for query"),
    });
    let resp = forward_response("missing.example.com", 28, false, &outcome);
    assert_eq!(resp.status, 3);
    let json = to_json(&resp);
    assert!(json.contains("\"Status\":3"));
    assert!(json.contains("\"Question\":[{\"name\":\"missing.example.com\",\"type\":28}]"));
    assert!(!json.contains("\"Answer\""));
    assert!(json.contains("\"comment\":\"no record found for query\""));
}

#[test]
fn forward_unrecognized_embedded_code_reads_as_success() {
    let outcome = LookupOutcome::Failed(LookupFailure {
        kind: FailureKind::NoRecordsFound { response_code: 9 },
        message: String::from("no records"),
    });
    let resp = forward_response("example.com", 1, false, &outcome);
    assert_eq!(resp.status, 0);
}

#[test]
fn forward_status_classification_table() {
    assert_eq!(forward_status(&FailureKind::NoRecordsFound { response_code: 3 }), 3);
    assert_eq!(forward_status(&FailureKind::NoRecordsFound { response_code: 5 }), 5);
    assert_eq!(forward_status(&FailureKind::NoRecordsFound { response_code: 1 }), 1);
    assert_eq!(forward_status(&FailureKind::NoRecordsFound { response_code: 2 }), 2);
    assert_eq!(forward_status(&FailureKind::NoRecordsFound { response_code: 4 }), 4);
    assert_eq!(forward_status(&FailureKind::NoRecordsFound { response_code: 0 }), 0);
    assert_eq!(forward_status(&FailureKind::Other), 2);
}

#[test]
fn reverse_status_classification_table() {
    assert_eq!(reverse_status(&FailureKind::NoRecordsFound { response_code: 3 }), 3);
    assert_eq!(reverse_status(&FailureKind::NoRecordsFound { response_code: 5 }), 2);
    assert_eq!(reverse_status(&FailureKind::Other), 2);
}

#[test]
fn reverse_success_shape() {
    let outcome = ReverseOutcome::Names(vec![String::from("host.example.com.")]);
    let resp = reverse_response("5.2.0.192.in-addr.arpa.", &outcome);
    let json = to_json(&resp);
    assert_eq!(
        json,
        "{\"AD\":false,\
         \"Answer\":[{\"TTL\":0,\"data\":\"host.example.com.\",\"name\":\"5.2.0.192.in-addr.arpa.\",\"type\":12}],\
         \"CD\":false,\
         \"Question\":[{\"name\":\"5.2.0.192.in-addr.arpa.\",\"type\":12}],\
         \"RA\":true,\"RD\":true,\"Status\":0,\"TC\":false}"
    );
}

#[test]
fn reverse_nxdomain_keeps_question_omits_answers() {
    let outcome = ReverseOutcome::Failed(LookupFailure {
        kind: FailureKind::NoRecordsFound { response_code: 3 },
        message: String::from("no records found"),
    });
    let resp = reverse_response("5.2.0.192.in-addr.arpa.", &outcome);
    assert_eq!(resp.status, 3);
    let json = to_json(&resp);
    assert!(json.contains("\"Status\":3"));
    assert!(json.contains("\"Question\""));
    assert!(json.contains("5.2.0.192.in-addr.arpa."));
    assert!(!json.contains("\"Answer\""));
}

#[test]
fn resolve_is_deterministic_byte_for_byte() {
    let a = to_json(&forward_response("example.com", 1, true, &one_a_record()));
    let b = to_json(&forward_response("example.com", 1, true, &one_a_record()));
    assert_eq!(a, b);
}

#[test]
fn empty_lists_omit_keys_entirely() {
    let resp = ResponseBuilder::new().build();
    let json = to_json(&resp);
    assert_eq!(
        json,
        "{\"AD\":false,\"CD\":false,\"RA\":true,\"RD\":true,\"Status\":0,\"TC\":false}"
    );
    assert!(!json.contains("Question"));
    assert!(!json.contains("Answer"));
    assert!(!json.contains("[]"));
}

#[test]
fn builder_accumulates_in_order() {
    let resp = ResponseBuilder::new()
        .status(0)
        .rd(true)
        .ra(true)
        .ad(false)
        .add_question("example.com", 1)
        .add_answer("example.com.", 1, 60, "192.0.2.1")
        .add_answer("example.com.", 1, 60, "192.0.2.2")
        .build();
    let json = to_json(&resp);
    let first = json.find("192.0.2.1").expect("first answer present");
    let second = json.find("192.0.2.2").expect("second answer present");
    assert!(first < second);
}

#[test]
fn error_response_for_invalid_text_encoding() {
    let resp = ResponseBuilder::error(1, "Invalid UTF-8 in domain name");
    assert_ne!(resp.status, 0);
    let json = to_json(&resp);
    assert_eq!(
        json,
        "{\"AD\":false,\"CD\":false,\"RA\":true,\"RD\":true,\"Status\":1,\"TC\":false,\
         \"comment\":\"Invalid UTF-8 in domain name\"}"
    );
}

#[test]
fn comment_text_is_json_escaped() {
    let resp = ResponseBuilder::error(2, "a\"b\\c\nd\u{1f}e");
    let json = to_json(&resp);
    assert!(json.contains("\"comment\":\"a\\\"b\\\\c\\nd\\u001fe\""));
}

#[test]
fn prepare_resolver_accepts_absent_server() {
    let target = prepare_resolver(None).expect("no server is fine");
    assert!(target.is_none());
}

#[test]
fn prepare_resolver_parses_explicit_server() {
    let target = prepare_resolver(Some("9.9.9.9:5300")).expect("server should parse");
    let ep = target.expect("an endpoint was given");
    assert_eq!(ep.port, 5300);
}

#[test]
fn prepare_resolver_rejects_bad_server_as_servfail() {
    let resp = match prepare_resolver(Some("bad-server")) {
        Ok(_) => panic!("should not parse"),
        Err(resp) => resp,
    };
    assert_eq!(resp.status, 2);
    let json = to_json(&resp);
    assert!(json.contains(
        "\"comment\":\"Failed to create resolver: Invalid DNS server address: bad-server\""
    ));
}

#[test]
fn prepare_reverse_target_rejects_non_ip_as_formerr() {
    let resp = match prepare_reverse_target("nope") {
        Ok(_) => panic!("should not parse"),
        Err(resp) => resp,
    };
    assert_eq!(resp.status, 1);
    let json = to_json(&resp);
    assert!(json.contains("\"comment\":\"Invalid IP address 'nope': invalid IP address syntax\""));
}

#[test]
fn soa_negative_intervals_render_signed() {
    let outcome = LookupOutcome::Records(vec![ResolvedRecord {
        name: String::from("example.com."),
        rtype: 6,
        ttl: 3600,
        data: RecordData::Soa {
            mname: String::from("ns1.example.com."),
            rname: String::from("admin.example.com."),
            serial: 1,
            refresh: -1,
            retry: 2,
            expire: 3,
            minimum: 4,
        },
    }]);
    let resp = forward_response("example.com", 6, false, &outcome);
    let json = to_json(&resp);
    assert!(json.contains("ns1.example.com. admin.example.com. 1 -1 2 3 4"));
}
