//! The myssl.com DNS-check reply: the shape of its JSON answer and the
//! address it designates.
use vstd::prelude::*;

use crate::resolver::{parse_ipv4, spec_parse_ipv4};

verus! {

/// Query parameters for the myssl.com DNS check.
#[derive(Debug)]
pub struct MysslComQuery;

impl Default for MysslComQuery {
    fn default() -> (r: MysslComQuery) {
        MysslComQuery
    }
}

/// The query URL before the hostname.
pub open spec fn myssl_url_prefix() -> Seq<char> {
    "https://myssl.com/api/v1/tools/dns_query?qtype=1&host="@
}

/// The query URL after the hostname.
pub open spec fn myssl_url_suffix() -> Seq<char> {
    "&qmode=-1"@
}

impl MysslComQuery {
    /// The lookup URL asking myssl.com for the A records of `hostname`.
    pub fn hostname(&self, hostname: &str) -> (r: String)
        ensures
            r@ == myssl_url_prefix() + hostname@ + myssl_url_suffix(),
    {
        let mut out = String::from_str("https://myssl.com/api/v1/tools/dns_query?qtype=1&host=");
        out.append(hostname);
        out.append("&qmode=-1");
        proof {
            assert(out@ =~= myssl_url_prefix() + hostname@ + myssl_url_suffix());
        }
        out
    }
}

/// One address record of an answer.
#[derive(Debug)]
pub struct Record {
    pub ttl: i64,
    pub value: String,
    pub ip_location: String,
}

/// One answer of the reply.
#[derive(Debug)]
pub struct Answer {
    pub time_consume: String,
    pub records: Option<Vec<Record>>,
    pub error: String,
}

/// One DNS result of the reply.
#[derive(Debug)]
pub struct Dns {
    pub answer: Answer,
}

/// The per-resolver results of the reply.
#[derive(Debug)]
pub struct Data {
    pub n01: Vec<Dns>,
    pub n852: Vec<Dns>,
    pub n86: Vec<Dns>,
}

/// The whole reply body.
#[derive(Debug)]
pub struct MysslComReply {
    pub code: i64,
    pub data: Data,
}

/// The address a reply designates: the first record of the last result's
/// answer, when it is a well-formed IPv4 address.
pub open spec fn spec_myssl_ip(r: MysslComReply) -> Option<Seq<char>> {
    let n01 = r.data.n01@;
    if n01.len() > 0 {
        match n01.last().answer.records {
            Some(rs) => if rs@.len() > 0 && spec_parse_ipv4(rs@[0].value@) is Some {
                Some(rs@[0].value@)
            } else {
                None
            },
            None => None,
        }
    } else {
        None
    }
}

impl MysslComReply {
    /// The address text this reply designates, if any.
    pub fn ip(self) -> (r: Option<String>)
        ensures
            match r {
                Some(s) => spec_myssl_ip(self) == Some(s@),
                None => spec_myssl_ip(self) is None,
            },
    {
        let mut me = self;
        match me.data.n01.pop() {
            Some(d) => match d.answer.records {
                Some(mut rs) => {
                    if rs.len() > 0 {
                        let rec = rs.remove(0);
                        match parse_ipv4(rec.value.as_str()) {
                            Some(_) => Some(rec.value),
                            None => None,
                        }
                    } else {
                        None
                    }
                },
                None => None,
            },
            None => None,
        }
    }
}

} // verus!
