//! The network transport's hard gate: which origins are served, and what
//! the listener is started with.

use vstd::prelude::*;
use crate::text::{
    chars_of, concat2, decimal, join_strings, join_with, push_decimal, push_str, same_text,
    string_of, strings,
};
use crate::tools::{opt_text, AuditRecord};

verus! {

/// What is done with a request to the network transport.
pub enum PairingDecision {
    /// The request is handed on.
    Forward,
    /// The request is refused, and this goes into the audit journal.
    Forbid(AuditRecord),
}

/// The `Origin` header of a request, as it arrived.
pub enum OriginHeader {
    /// The request has no such header.
    Absent,
    /// The request has one, and it cannot be read as text.
    Unreadable,
    /// The request has one with this text.
    Text(String),
}

/// Whether the network transport runs, and where.
#[derive(Debug, Clone)]
pub struct SseStatus {
    pub running: bool,
    pub port: u16,
    pub url: Option<String>,
}

/// Whether `origin` is one of `approved`.
pub open spec fn approved_origin(origin: Seq<char>, approved: Seq<String>) -> bool {
    exists|i: int| 0 <= i < approved.len() && (#[trigger] approved[i])@ == origin
}

/// Whether `origin` is one of the origins that were paired.
pub fn is_origin_approved(origin: &str, approved: &Vec<String>) -> (r: bool)
    ensures
        r == approved_origin(origin@, approved@),
{
    let wanted = chars_of(origin);
    let mut i: usize = 0;
    while i < approved.len()
        invariant
            i <= approved.len(),
            wanted@ == origin@,
            forall|j: int| 0 <= j < i ==> (#[trigger] approved@[j])@ != origin@,
        decreases approved.len() - i,
    {
        if same_text(&chars_of(approved[i].as_str()), &wanted) {
            return true;
        }
        i += 1;
    }
    false
}

/// What is recorded of a request whose origin cannot be read.
pub open spec fn unreadable_summary() -> Seq<char> {
    "Blocked connection attempt from an origin that cannot be read"@
}

/// `record` is the security event for a request that was refused.
pub open spec fn is_refusal(record: AuditRecord, summary: Seq<char>) -> bool {
    record.tool@ == "system"@ && record.category@ == "security"@ && record.path is None
        && record.summary@ == summary
}

/// Decides on a request to the network transport by the origin that it
/// declares. A request without an origin is handed on, and so is one whose
/// origin was paired; every other is refused, one whose origin cannot be
/// read among them, and the refusal is recorded as a security event.
pub fn pairing_middleware(origin: &OriginHeader, approved: &Vec<String>) -> (decision:
    PairingDecision)
    ensures
        match *origin {
            OriginHeader::Absent => decision is Forward,
            OriginHeader::Unreadable => decision matches PairingDecision::Forbid(record)
                && is_refusal(record, unreadable_summary()),
            OriginHeader::Text(o) => if approved_origin(o@, approved@) {
                decision is Forward
            } else {
                decision matches PairingDecision::Forbid(record) && is_refusal(
                    record,
                    "Blocked connection attempt from unapproved origin: "@ + o@,
                )
            },
        },
{
    match origin {
        OriginHeader::Absent => PairingDecision::Forward,
        OriginHeader::Unreadable => PairingDecision::Forbid(
            AuditRecord {
                tool: "system".to_owned(),
                category: "security".to_owned(),
                path: None,
                summary: "Blocked connection attempt from an origin that cannot be read".to_owned(),
            },
        ),
        OriginHeader::Text(o) => {
            if is_origin_approved(o.as_str(), approved) {
                PairingDecision::Forward
            } else {
                PairingDecision::Forbid(
                    AuditRecord {
                        tool: "system".to_owned(),
                        category: "security".to_owned(),
                        path: None,
                        summary: concat2(
                            "Blocked connection attempt from unapproved origin: ",
                            o.as_str(),
                        ),
                    },
                )
            }
        },
    }
}

/// Pairs `origin`: it is added behind the origins paired so far unless it
/// is one of them. Returns whether it was added.
pub fn approve_origin(approved: &mut Vec<String>, origin: String) -> (added: bool)
    ensures
        added == !approved_origin(origin@, old(approved)@),
        added ==> final(approved)@ == old(approved)@.push(origin),
        !added ==> final(approved)@ == old(approved)@,
{
    if is_origin_approved(origin.as_str(), approved) {
        false
    } else {
        approved.push(origin);
        true
    }
}

/// Those of the first `n` origins that are not `origin`, in their order.
pub open spec fn without_origin(approved: Seq<String>, origin: Seq<char>, n: int) -> Seq<String>
    decreases n,
{
    if n <= 0 {
        Seq::empty()
    } else if approved[n - 1]@ == origin {
        without_origin(approved, origin, n - 1)
    } else {
        without_origin(approved, origin, n - 1).push(approved[n - 1])
    }
}

/// The origins that stay paired once the pairing of `origin` is revoked.
pub fn revoke_origin(approved: &Vec<String>, origin: &str) -> (left: Vec<String>)
    ensures
        left@ == without_origin(approved@, origin@, approved.len() as int),
        !approved_origin(origin@, left@),
{
    let gone = chars_of(origin);
    let mut left: Vec<String> = Vec::new();
    let mut i: usize = 0;
    while i < approved.len()
        invariant
            i <= approved.len(),
            gone@ == origin@,
            left@ == without_origin(approved@, origin@, i as int),
            forall|j: int| 0 <= j < left.len() ==> (#[trigger] left@[j])@ != origin@,
        decreases approved.len() - i,
    {
        if !same_text(&chars_of(approved[i].as_str()), &gone) {
            left.push(approved[i].clone());
        }
        i += 1;
    }
    left
}

/// The address under which the network transport is reached at `port`.
pub open spec fn sse_url(port: u16) -> Seq<char> {
    "http://127.0.0.1:"@ + decimal(port as nat) + "/sse"@
}

/// The status of the network transport: where it runs, its port and its
/// address; else port 0 and no address.
pub fn sse_status(running: bool, port: u16) -> (status: SseStatus)
    ensures
        status.running == running,
        running ==> status.port == port && opt_text(status.url) == Some(sse_url(port)),
        !running ==> status.port == 0 && status.url is None,
{
    if running {
        let mut v = chars_of("http://127.0.0.1:");
        push_decimal(&mut v, port as u64);
        push_str(&mut v, "/sse");
        SseStatus { running: true, port, url: Some(string_of(&v)) }
    } else {
        SseStatus { running: false, port: 0, url: None }
    }
}

/// The arguments that the server is started with for the network
/// transport at `port`.
pub open spec fn sse_arguments_of(port: u16, allowed_origins: Seq<Seq<char>>) -> Seq<Seq<char>> {
    let base = seq!["--transport"@, "sse"@, "--port"@, decimal(port as nat)];
    if allowed_origins.len() == 0 {
        base
    } else {
        base.push("--allowed-origins"@).push(join_with(allowed_origins, ","@))
    }
}

/// The arguments that the server is started with for the network
/// transport at `port`: the origins whose responses browsers may read go
/// in a single argument, with commas between them; where there are none,
/// the server keeps its own.
pub fn sse_arguments(port: u16, allowed_origins: &Vec<String>) -> (args: Vec<String>)
    ensures
        strings(args@) == sse_arguments_of(port, strings(allowed_origins@)),
{
    let mut args: Vec<String> = Vec::new();
    args.push("--transport".to_owned());
    args.push("sse".to_owned());
    args.push("--port".to_owned());
    let mut v: Vec<char> = Vec::new();
    push_decimal(&mut v, port as u64);
    assert(v@ =~= decimal(port as nat));
    args.push(string_of(&v));
    if allowed_origins.len() > 0 {
        args.push("--allowed-origins".to_owned());
        args.push(join_strings(allowed_origins, ","));
    }
    assert(strings(args@) =~= sse_arguments_of(port, strings(allowed_origins@)));
    args
}

} // verus!
