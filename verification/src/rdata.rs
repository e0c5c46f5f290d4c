//! Typed record payloads and their exact textual form in the response's
//! `data` field, one fixed template per record type.
use crate::ip::{ipv4_chars, ipv6_chars, Ipv4, Ipv6};
use crate::text::{dec_of, dec_of_int, hex_bytes, push_dec_i64, push_dec_u64, to_hex};
use vstd::prelude::*;
use vstd::string::*;

verus! {

/// One decoded resource record's payload: a tagged case per supported
/// record type, and an opaque fallback carrying pre-rendered text.
#[derive(Clone, Debug)]
pub enum RecordData {
    A(Ipv4),
    Aaaa(Ipv6),
    Cname(String),
    Ns(String),
    Ptr(String),
    Mx { preference: u16, exchange: String },
    Soa {
        mname: String,
        rname: String,
        serial: u32,
        refresh: i32,
        retry: i32,
        expire: i32,
        minimum: u32,
    },
    Srv { priority: u16, weight: u16, port: u16, target: String },
    Txt(Vec<String>),
    Caa { issuer_critical: bool, tag: String, value: String },
    Tlsa { cert_usage: u8, selector: u8, matching: u8, cert_data: Vec<u8> },
    Sshfp { algorithm: u8, fingerprint_type: u8, fingerprint: Vec<u8> },
    Hinfo { cpu: String, os: String },
    Other(String),
}

impl RecordData {
    pub open spec fn wf(&self) -> bool {
        match self {
            RecordData::Aaaa(v6) => v6.wf(),
            _ => true,
        }
    }
}

/// All character-strings of a TXT record concatenated in order, no
/// separator.
pub open spec fn txt_join(parts: Seq<Seq<char>>) -> Seq<char>
    decreases parts.len(),
{
    if parts.len() == 0 {
        Seq::empty()
    } else {
        txt_join(parts.drop_last()) + parts.last()
    }
}

/// The `data` string for a payload, per the fixed per-type template.
pub open spec fn rdata_text(d: RecordData) -> Seq<char> {
    match d {
        RecordData::A(ip) => ipv4_chars(ip.a, ip.b, ip.c, ip.d),
        RecordData::Aaaa(v6) => ipv6_chars(v6.groups@),
        RecordData::Cname(n) => n@,
        RecordData::Ns(n) => n@,
        RecordData::Ptr(n) => n@,
        RecordData::Mx { preference, exchange } => dec_of(preference as nat) + " "@ + exchange@,
        RecordData::Soa { mname, rname, serial, refresh, retry, expire, minimum } => mname@ + " "@
            + rname@ + " "@ + dec_of(serial as nat) + " "@ + dec_of_int(refresh as int) + " "@
            + dec_of_int(retry as int) + " "@ + dec_of_int(expire as int) + " "@ + dec_of(
            minimum as nat,
        ),
        RecordData::Srv { priority, weight, port, target } => dec_of(priority as nat) + " "@
            + dec_of(weight as nat) + " "@ + dec_of(port as nat) + " "@ + target@,
        RecordData::Txt(parts) => "\""@ + txt_join(parts@.map_values(|s: String| s@)) + "\""@,
        RecordData::Caa { issuer_critical, tag, value } => (if issuer_critical {
            dec_of(128)
        } else {
            dec_of(0)
        }) + " "@ + tag@ + " \""@ + value@ + "\""@,
        RecordData::Tlsa { cert_usage, selector, matching, cert_data } => dec_of(cert_usage as nat)
            + " "@ + dec_of(selector as nat) + " "@ + dec_of(matching as nat) + " "@ + hex_bytes(
            cert_data@,
        ),
        RecordData::Sshfp { algorithm, fingerprint_type, fingerprint } => dec_of(algorithm as nat)
            + " "@ + dec_of(fingerprint_type as nat) + " "@ + hex_bytes(fingerprint@),
        RecordData::Hinfo { cpu, os } => cpu@ + " "@ + os@,
        RecordData::Other(t) => t@,
    }
}

/// Serializes one record payload into the exact `data` string.
pub fn rdata_to_string(d: &RecordData) -> (r: String)
    requires
        d.wf(),
    ensures
        r@ == rdata_text(*d),
{
    let mut out = String::new();
    match d {
        RecordData::A(ip) => {
            crate::ip::push_ipv4(&mut out, ip);
        },
        RecordData::Aaaa(v6) => {
            crate::ip::push_ipv6(&mut out, v6);
        },
        RecordData::Cname(n) => {
            out.append(n.as_str());
        },
        RecordData::Ns(n) => {
            out.append(n.as_str());
        },
        RecordData::Ptr(n) => {
            out.append(n.as_str());
        },
        RecordData::Mx { preference, exchange } => {
            push_dec_u64(&mut out, *preference as u64);
            out.append(" ");
            out.append(exchange.as_str());
            proof {
                assert(out@ =~= rdata_text(*d));
            }
        },
        RecordData::Soa { mname, rname, serial, refresh, retry, expire, minimum } => {
            out.append(mname.as_str());
            out.append(" ");
            out.append(rname.as_str());
            out.append(" ");
            push_dec_u64(&mut out, *serial as u64);
            out.append(" ");
            push_dec_i64(&mut out, *refresh as i64);
            out.append(" ");
            push_dec_i64(&mut out, *retry as i64);
            out.append(" ");
            push_dec_i64(&mut out, *expire as i64);
            out.append(" ");
            push_dec_u64(&mut out, *minimum as u64);
            proof {
                assert(out@ =~= rdata_text(*d));
            }
        },
        RecordData::Srv { priority, weight, port, target } => {
            push_dec_u64(&mut out, *priority as u64);
            out.append(" ");
            push_dec_u64(&mut out, *weight as u64);
            out.append(" ");
            push_dec_u64(&mut out, *port as u64);
            out.append(" ");
            out.append(target.as_str());
            proof {
                assert(out@ =~= rdata_text(*d));
            }
        },
        RecordData::Txt(parts) => {
            out.append("\"");
            let ghost views = parts@.map_values(|s: String| s@);
            let mut i: usize = 0;
            while i < parts.len()
                invariant
                    i <= parts@.len(),
                    views == parts@.map_values(|s: String| s@),
                    out@ == "\""@ + txt_join(views.take(i as int)),
                decreases parts@.len() - i,
            {
                out.append(parts[i].as_str());
                proof {
                    assert(views.take(i + 1 as int).drop_last() =~= views.take(i as int));
                    assert(views.take(i + 1 as int).last() == parts@[i as int]@);
                    assert(out@ =~= "\""@ + txt_join(views.take(i + 1 as int)));
                }
                i = i + 1;
            }
            out.append("\"");
            proof {
                assert(views.take(views.len() as int) =~= views);
                assert(out@ =~= rdata_text(*d));
            }
        },
        RecordData::Caa { issuer_critical, tag, value } => {
            if *issuer_critical {
                push_dec_u64(&mut out, 128);
            } else {
                push_dec_u64(&mut out, 0);
            }
            out.append(" ");
            out.append(tag.as_str());
            out.append(" \"");
            out.append(value.as_str());
            out.append("\"");
            proof {
                assert(out@ =~= rdata_text(*d));
            }
        },
        RecordData::Tlsa { cert_usage, selector, matching, cert_data } => {
            push_dec_u64(&mut out, *cert_usage as u64);
            out.append(" ");
            push_dec_u64(&mut out, *selector as u64);
            out.append(" ");
            push_dec_u64(&mut out, *matching as u64);
            out.append(" ");
            let hex = to_hex(cert_data.as_slice());
            out.append(hex.as_str());
            proof {
                assert(out@ =~= rdata_text(*d));
            }
        },
        RecordData::Sshfp { algorithm, fingerprint_type, fingerprint } => {
            push_dec_u64(&mut out, *algorithm as u64);
            out.append(" ");
            push_dec_u64(&mut out, *fingerprint_type as u64);
            out.append(" ");
            let hex = to_hex(fingerprint.as_slice());
            out.append(hex.as_str());
            proof {
                assert(out@ =~= rdata_text(*d));
            }
        },
        RecordData::Hinfo { cpu, os } => {
            out.append(cpu.as_str());
            out.append(" ");
            out.append(os.as_str());
            proof {
                assert(out@ =~= rdata_text(*d));
            }
        },
        RecordData::Other(t) => {
            out.append(t.as_str());
        },
    }
    out
}

} // verus!
