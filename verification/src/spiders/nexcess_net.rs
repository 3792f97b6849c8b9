//! The nexcess.net DNS-check reply: the shape of its JSON answer and the
//! address it designates.
use vstd::prelude::*;

use crate::resolver::{parse_ipv4, spec_parse_ipv4};

verus! {

/// Query parameters for the nexcess.net DNS check.
#[derive(Debug)]
pub struct NexcessNetQuery;

impl Default for NexcessNetQuery {
    fn default() -> (r: NexcessNetQuery) {
        NexcessNetQuery
    }
}

/// The request body before the hostname.
pub open spec fn nexcess_body_prefix() -> Seq<char> {
    "id=google-dns&type=A&hostname="@
}

impl NexcessNetQuery {
    /// The request body asking nexcess.net for the A records of `hostname`.
    pub fn hostname(&self, hostname: &str) -> (r: String)
        ensures
            r@ == nexcess_body_prefix() + hostname@,
    {
        let mut out = String::from_str("id=google-dns&type=A&hostname=");
        out.append(hostname);
        proof {
            assert(out@ =~= nexcess_body_prefix() + hostname@);
        }
        out
    }
}

/// The result list of the reply.
#[derive(Debug)]
pub struct Data {
    pub sid: String,
    pub result: Vec<String>,
}

/// The whole reply body.
#[derive(Debug)]
pub struct NexcessNetReply {
    pub error: bool,
    pub data: Data,
    pub status: i64,
}

/// The address a reply designates: its first result, when it is a
/// well-formed IPv4 address.
pub open spec fn spec_nexcess_ip(r: NexcessNetReply) -> Option<Seq<char>> {
    if r.data.result@.len() > 0 && spec_parse_ipv4(r.data.result@[0]@) is Some {
        Some(r.data.result@[0]@)
    } else {
        None
    }
}

impl NexcessNetReply {
    /// The address text this reply designates, if any.
    pub fn ip(self) -> (r: Option<String>)
        ensures
            match r {
                Some(s) => spec_nexcess_ip(self) == Some(s@),
                None => spec_nexcess_ip(self) is None,
            },
    {
        let mut me = self;
        if me.data.result.len() > 0 {
            let first = me.data.result.remove(0);
            match parse_ipv4(first.as_str()) {
                Some(_) => Some(first),
                None => None,
            }
        } else {
            None
        }
    }
}

} // verus!
