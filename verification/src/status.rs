//! DNS response-status codes and the classification of resolver failures
//! into them.
use vstd::prelude::*;

verus! {

pub const RCODE_NOERROR: i32 = 0;

pub const RCODE_FORMERR: i32 = 1;

pub const RCODE_SERVFAIL: i32 = 2;

pub const RCODE_NXDOMAIN: i32 = 3;

pub const RCODE_NOTIMP: i32 = 4;

pub const RCODE_REFUSED: i32 = 5;

/// How a failed lookup presented itself at the resolver's interface.
#[derive(Clone, Debug)]
pub enum FailureKind {
    /// The resolver reported that no records exist, with the embedded
    /// protocol response code (its 16-bit wire value).
    NoRecordsFound { response_code: u16 },
    /// Any other failure: timeout, transport error, bad configuration.
    Other,
}

/// A failed lookup: how it presented itself, and its diagnostic text.
#[derive(Clone, Debug)]
pub struct LookupFailure {
    pub kind: FailureKind,
    pub message: String,
}

/// The status a forward query reports for a failure. A no-records report
/// maps its embedded code through the five recognized error codes; any
/// unrecognized embedded code deliberately maps to NoError, so that the
/// result reads as success with zero answers. Every other failure is
/// ServFail.
pub open spec fn forward_status_of(k: FailureKind) -> i32 {
    match k {
        FailureKind::NoRecordsFound { response_code } => {
            if response_code == 3 {
                RCODE_NXDOMAIN
            } else if response_code == 5 {
                RCODE_REFUSED
            } else if response_code == 1 {
                RCODE_FORMERR
            } else if response_code == 2 {
                RCODE_SERVFAIL
            } else if response_code == 4 {
                RCODE_NOTIMP
            } else {
                RCODE_NOERROR
            }
        },
        FailureKind::Other => RCODE_SERVFAIL,
    }
}

/// The status a reverse lookup reports for a failure: only a no-records
/// report with an embedded NXDomain keeps that meaning; everything else is
/// ServFail.
pub open spec fn reverse_status_of(k: FailureKind) -> i32 {
    match k {
        FailureKind::NoRecordsFound { response_code } => {
            if response_code == 3 {
                RCODE_NXDOMAIN
            } else {
                RCODE_SERVFAIL
            }
        },
        FailureKind::Other => RCODE_SERVFAIL,
    }
}

/// Every classification lands on one of the six enumerated statuses,
/// never a raw resolver error code.
pub proof fn lemma_status_in_range(k: FailureKind)
    ensures
        RCODE_NOERROR <= forward_status_of(k) <= RCODE_REFUSED,
        RCODE_NOERROR <= reverse_status_of(k) <= RCODE_REFUSED,
{
}

/// Classifies a forward-query failure into a response status.
pub fn forward_status(k: &FailureKind) -> (r: i32)
    ensures
        r == forward_status_of(*k),
{
    match k {
        FailureKind::NoRecordsFound { response_code } => {
            let rc = *response_code;
            if rc == 3 {
                RCODE_NXDOMAIN
            } else if rc == 5 {
                RCODE_REFUSED
            } else if rc == 1 {
                RCODE_FORMERR
            } else if rc == 2 {
                RCODE_SERVFAIL
            } else if rc == 4 {
                RCODE_NOTIMP
            } else {
                RCODE_NOERROR
            }
        },
        FailureKind::Other => RCODE_SERVFAIL,
    }
}

/// Classifies a reverse-lookup failure into a response status.
pub fn reverse_status(k: &FailureKind) -> (r: i32)
    ensures
        r == reverse_status_of(*k),
{
    match k {
        FailureKind::NoRecordsFound { response_code } => {
            if *response_code == 3 {
                RCODE_NXDOMAIN
            } else {
                RCODE_SERVFAIL
            }
        },
        FailureKind::Other => RCODE_SERVFAIL,
    }
}

} // verus!
