use snimap::spiders::myssl_com::{Answer, Data, Dns, MysslComQuery, MysslComReply, Record};
use snimap::spiders::nexcess_net::{
    Data as NexcessData, NexcessNetQuery, NexcessNetReply,
};

fn record(value: &str) -> Record {
    Record {
        ttl: 0,
        value: value.to_string(),
        ip_location: String::new(),
    }
}

fn myssl_reply(records: Option<Vec<Record>>) -> MysslComReply {
    MysslComReply {
        code: 0,
        data: Data {
            n01: vec![Dns {
                answer: Answer {
                    time_consume: String::new(),
                    records,
                    error: String::new(),
                },
            }],
            n852: vec![],
            n86: vec![],
        },
    }
}

#[test]
fn myssl_reply_yields_first_record() {
    let reply = myssl_reply(Some(vec![record("220.181.38.251"), record("1.1.1.1")]));
    assert_eq!(reply.ip(), Some("220.181.38.251".to_string()));
}

#[test]
fn myssl_reply_without_records_yields_nothing() {
    assert_eq!(myssl_reply(None).ip(), None);
    assert_eq!(myssl_reply(Some(vec![])).ip(), None);
    let empty = MysslComReply {
        code: 0,
        data: Data {
            n01: vec![],
            n852: vec![],
            n86: vec![],
        },
    };
    assert_eq!(empty.ip(), None);
}

#[test]
fn myssl_reply_rejects_non_ipv4_record() {
    let reply = myssl_reply(Some(vec![record("not-an-address")]));
    assert_eq!(reply.ip(), None);
}

#[test]
fn myssl_query_builds_the_lookup_url() {
    let q = MysslComQuery;
    assert_eq!(
        q.hostname("wikipedia.org"),
        "https://myssl.com/api/v1/tools/dns_query?qtype=1&host=wikipedia.org&qmode=-1"
    );
}

#[test]
fn nexcess_reply_yields_first_result() {
    let reply = NexcessNetReply {
        error: false,
        data: NexcessData {
            sid: String::new(),
            result: vec!["220.181.38.251".to_string(), "1.1.1.1".to_string()],
        },
        status: 0,
    };
    assert_eq!(reply.ip(), Some("220.181.38.251".to_string()));
}

#[test]
fn nexcess_reply_without_results_yields_nothing() {
    let reply = NexcessNetReply {
        error: false,
        data: NexcessData {
            sid: String::new(),
            result: vec![],
        },
        status: 0,
    };
    assert_eq!(reply.ip(), None);
    let bad = NexcessNetReply {
        error: false,
        data: NexcessData {
            sid: String::new(),
            result: vec!["::1".to_string()],
        },
        status: 0,
    };
    assert_eq!(bad.ip(), None);
}

#[test]
fn nexcess_query_builds_the_lookup_body() {
    let q = NexcessNetQuery;
    assert_eq!(
        q.hostname("wikipedia.org"),
        "id=google-dns&type=A&hostname=wikipedia.org"
    );
}
