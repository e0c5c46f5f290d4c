use dns_json::ip::{Ipv4, Ipv6};
use dns_json::rdata::{rdata_to_string, RecordData};
use dns_json::text::to_hex;

fn v4(a: u8, b: u8, c: u8, d: u8) -> Ipv4 {
    Ipv4 { a, b, c, d }
}

fn v6(groups: Vec<u16>) -> Ipv6 {
    Ipv6 { groups }
}

#[test]
fn a_record_data() {
    let d = RecordData::A(v4(93, 184, 216, 34));
    assert_eq!(rdata_to_string(&d), "93.184.216.34");
}

#[test]
fn aaaa_record_data() {
    let d = RecordData::Aaaa(v6(vec![0x2001, 0x0db8, 0, 0, 0, 0, 0, 1]));
    assert_eq!(rdata_to_string(&d), "2001:db8::1");
}

#[test]
fn aaaa_record_data_loopback() {
    let d = RecordData::Aaaa(v6(vec![0, 0, 0, 0, 0, 0, 0, 1]));
    assert_eq!(rdata_to_string(&d), "::1");
}

#[test]
fn aaaa_record_data_ipv4_mapped() {
    let d = RecordData::Aaaa(v6(vec![0, 0, 0, 0, 0, 0xffff, 0xc000, 0x0201]));
    assert_eq!(rdata_to_string(&d), "::ffff:192.0.2.1");
}

#[test]
fn aaaa_record_data_longest_run_compressed() {
    let d = RecordData::Aaaa(v6(vec![1, 0, 0, 1, 0, 0, 0, 1]));
    assert_eq!(rdata_to_string(&d), "1:0:0:1::1");
}

#[test]
fn aaaa_record_data_single_zero_not_compressed() {
    let d = RecordData::Aaaa(v6(vec![1, 2, 3, 0, 5, 6, 7, 8]));
    assert_eq!(rdata_to_string(&d), "1:2:3:0:5:6:7:8");
}

#[test]
fn cname_record_data() {
    let d = RecordData::Cname(String::from("alias.example.com."));
    assert_eq!(rdata_to_string(&d), "alias.example.com.");
}

#[test]
fn ns_record_data() {
    let d = RecordData::Ns(String::from("ns1.example.com."));
    assert_eq!(rdata_to_string(&d), "ns1.example.com.");
}

#[test]
fn ptr_record_data() {
    let d = RecordData::Ptr(String::from("host.example.com."));
    assert_eq!(rdata_to_string(&d), "host.example.com.");
}

#[test]
fn mx_record_data() {
    let d = RecordData::Mx {
        preference: 10,
        exchange: String::from("mail.example.com."),
    };
    assert_eq!(rdata_to_string(&d), "10 mail.example.com.");
}

#[test]
fn soa_record_data() {
    let d = RecordData::Soa {
        mname: String::from("ns1.example.com."),
        rname: String::from("admin.example.com."),
        serial: 2023120101,
        refresh: 7200,
        retry: 3600,
        expire: 1209600,
        minimum: 86400,
    };
    assert_eq!(
        rdata_to_string(&d),
        "ns1.example.com. admin.example.com. 2023120101 7200 3600 1209600 86400"
    );
}

#[test]
fn srv_record_data() {
    let d = RecordData::Srv {
        priority: 1,
        weight: 5,
        port: 443,
        target: String::from("svc.example.com."),
    };
    assert_eq!(rdata_to_string(&d), "1 5 443 svc.example.com.");
}

#[test]
fn txt_record_data_single_string() {
    let d = RecordData::Txt(vec![String::from("hello")]);
    assert_eq!(rdata_to_string(&d), "\"hello\"");
}

#[test]
fn txt_record_data_multiple_strings_concatenated() {
    let d = RecordData::Txt(vec![String::from("hello"), String::from("world")]);
    assert_eq!(rdata_to_string(&d), "\"helloworld\"");
}

#[test]
fn txt_record_data_empty() {
    let d = RecordData::Txt(vec![]);
    assert_eq!(rdata_to_string(&d), "\"\"");
}

#[test]
fn caa_record_data_critical() {
    let d = RecordData::Caa {
        issuer_critical: true,
        tag: String::from("issue"),
        value: String::from("ca.example.net"),
    };
    assert_eq!(rdata_to_string(&d), "128 issue \"ca.example.net\"");
}

#[test]
fn caa_record_data_not_critical() {
    let d = RecordData::Caa {
        issuer_critical: false,
        tag: String::from("issue"),
        value: String::from("ca.example.net"),
    };
    assert_eq!(rdata_to_string(&d), "0 issue \"ca.example.net\"");
}

#[test]
fn tlsa_record_data_hex_lowercase() {
    let d = RecordData::Tlsa {
        cert_usage: 3,
        selector: 1,
        matching: 1,
        cert_data: vec![0xab, 0xcd, 0x0f],
    };
    assert_eq!(rdata_to_string(&d), "3 1 1 abcd0f");
}

#[test]
fn sshfp_record_data_hex_lowercase() {
    let d = RecordData::Sshfp {
        algorithm: 2,
        fingerprint_type: 1,
        fingerprint: vec![0xde, 0xad, 0xbe, 0xef],
    };
    assert_eq!(rdata_to_string(&d), "2 1 deadbeef");
}

#[test]
fn hinfo_record_data() {
    let d = RecordData::Hinfo {
        cpu: String::from("AMD64"),
        os: String::from("LINUX"),
    };
    assert_eq!(rdata_to_string(&d), "AMD64 LINUX");
}

#[test]
fn other_record_data_passthrough() {
    let d = RecordData::Other(String::from("10 20 some.opaque.form."));
    assert_eq!(rdata_to_string(&d), "10 20 some.opaque.form.");
}

#[test]
fn to_hex_pads_each_byte() {
    assert_eq!(to_hex(&[0x00, 0xff, 0x07]), "00ff07");
    assert_eq!(to_hex(&[]), "");
}
