//! A small HTTP/1.x wire model: parsing a request head from raw bytes,
//! filtering its headers, and canned responses.
use vstd::prelude::*;

use crate::text::push_char;

verus! {

/// Splitting what remains of a byte string at `sep`, with `cur` the piece
/// read so far.
pub open spec fn split_bytes_rec(s: Seq<u8>, sep: u8, cur: Seq<u8>) -> Seq<Seq<u8>>
    decreases s.len(),
{
    if s.len() == 0 {
        seq![cur]
    } else if s[0] == sep {
        seq![cur] + split_bytes_rec(s.drop_first(), sep, Seq::empty())
    } else {
        split_bytes_rec(s.drop_first(), sep, cur.push(s[0]))
    }
}

/// The pieces of `s` between occurrences of `sep`; never empty, and empty
/// pieces are kept, as `slice::split` keeps them.
pub open spec fn split_bytes(s: Seq<u8>, sep: u8) -> Seq<Seq<u8>> {
    split_bytes_rec(s, sep, Seq::empty())
}

/// Splits a byte string at every occurrence of `sep`.
pub fn split_bytes_vec(s: &[u8], sep: u8) -> (r: Vec<Vec<u8>>)
    ensures
        r@.map_values(|x: Vec<u8>| x@) == split_bytes(s@, sep),
{
    let n = s.len();
    let mut r: Vec<Vec<u8>> = Vec::new();
    let mut cur: Vec<u8> = Vec::new();
    let mut i: usize = 0;
    proof {
        assert(s@.subrange(0, n as int) =~= s@);
    }
    while i < n
        invariant
            i <= n,
            n == s@.len(),
            split_bytes(s@, sep) == r@.map_values(|x: Vec<u8>| x@) + split_bytes_rec(
                s@.subrange(i as int, n as int),
                sep,
                cur@,
            ),
        decreases n - i,
    {
        let ghost r_old = r@;
        let ghost cur_old = cur@;
        let ghost rest_old = s@.subrange(i as int, n as int);
        let c = s[i];
        if c == sep {
            r.push(cur);
            cur = Vec::new();
        } else {
            cur.push(c);
        }
        i += 1;
        proof {
            assert(rest_old[0] == s@[i - 1]);
            assert(rest_old.drop_first() =~= s@.subrange(i as int, n as int));
            if c == sep {
                assert(r@.map_values(|x: Vec<u8>| x@) =~= r_old.map_values(|x: Vec<u8>| x@)
                    + seq![cur_old]);
                assert(r_old.map_values(|x: Vec<u8>| x@) + (seq![cur_old] + split_bytes_rec(
                    s@.subrange(i as int, n as int),
                    sep,
                    Seq::empty(),
                )) =~= r@.map_values(|x: Vec<u8>| x@) + split_bytes_rec(
                    s@.subrange(i as int, n as int),
                    sep,
                    Seq::empty(),
                ));
            }
        }
    }
    proof {
        assert(s@.subrange(n as int, n as int) =~= Seq::<u8>::empty());
    }
    let ghost r_old = r@;
    let ghost cur_old = cur@;
    r.push(cur);
    proof {
        assert(r@.map_values(|x: Vec<u8>| x@) =~= r_old.map_values(|x: Vec<u8>| x@) + seq![
            cur_old,
        ]);
    }
    r
}

/// A byte string without its first byte.
fn vec_drop_first(v: &Vec<u8>) -> (r: Vec<u8>)
    requires
        v@.len() >= 1,
    ensures
        r@ == v@.drop_first(),
{
    let s = vstd::slice::slice_subrange(v.as_slice(), 1, v.len());
    let r = vstd::slice::slice_to_vec(s);
    proof {
        assert(r@ =~= v@.drop_first());
    }
    r
}

/// The index of the first segment after `i` that is exactly one line feed.
pub open spec fn first_lf(segs: Seq<Seq<u8>>, i: int) -> Option<int>
    decreases segs.len() - i,
{
    if i < 0 || i >= segs.len() {
        None
    } else if segs[i] == seq![10u8] {
        Some(i)
    } else {
        first_lf(segs, i + 1)
    }
}

/// Ghost mirror of a parsed request head.
#[verifier::ext_equal]
pub struct RequestView {
    pub method: Seq<u8>,
    pub uri: Seq<u8>,
    pub version: Seq<u8>,
    pub headers: Seq<Seq<u8>>,
    pub body: Seq<u8>,
}

/// A parsed HTTP request head: request line, headers, and what of the body
/// followed the head in the parsed bytes.
#[derive(Debug)]
pub struct Request {
    pub method: Vec<u8>,
    pub uri: Vec<u8>,
    pub version: Vec<u8>,
    pub headers: Vec<Vec<u8>>,
    pub body: Vec<u8>,
}

impl View for Request {
    type V = RequestView;

    open spec fn view(&self) -> RequestView {
        RequestView {
            method: self.method@,
            uri: self.uri@,
            version: self.version@,
            headers: self.headers@.map_values(|h: Vec<u8>| h@),
            body: self.body@,
        }
    }
}

/// What `Request::from_bytes` reads out of a byte string: the request line
/// split at spaces, a version that opens with `HTTP`, the headers up to the
/// blank line, each with its leading line feed dropped, and the body piece
/// after the blank line. Anything else is rejected.
pub open spec fn spec_from_bytes(data: Seq<u8>) -> Option<RequestView> {
    let segs = split_bytes(data, 13);
    let parts = split_bytes(segs[0], 32);
    if parts.len() < 3 {
        None
    } else if !(seq![72u8, 84u8, 84u8, 80u8].is_prefix_of(parts[2])) {
        None
    } else {
        match first_lf(segs, 1) {
            Some(k) => if k + 1 < segs.len() && (forall|j: int|
                1 <= j < k ==> (#[trigger] segs[j]).len() >= 1) && segs[k + 1].len() >= 1 {
                Some(
                    RequestView {
                        method: parts[0],
                        uri: parts[1],
                        version: parts[2],
                        headers: segs.subrange(1, k).map_values(|h: Seq<u8>| h.drop_first()),
                        body: segs[k + 1].drop_first(),
                    },
                )
            } else {
                None
            },
            None => None,
        }
    }
}

impl Request {
    /// Parses a request head from raw bytes, as `spec_from_bytes` reads it.
    #[verifier::loop_isolation(false)]
    pub fn from_bytes(data: &[u8]) -> (r: Option<Request>)
        ensures
            match r {
                Some(req) => spec_from_bytes(data@) == Some(req@),
                None => spec_from_bytes(data@) is None,
            },
    {
        let segs = split_bytes_vec(data, 13);
        let ghost segsv = split_bytes(data@, 13);
        proof {
            assert(segsv.len() >= 1) by {
                assert(segsv == split_bytes_rec(data@, 13, Seq::<u8>::empty()));
                lemma_split_bytes_rec_len(data@, 13, Seq::<u8>::empty());
            }
        }
        let parts = split_bytes_vec(segs[0].as_slice(), 32);
        let ghost partsv = split_bytes(segsv[0], 32);
        if parts.len() < 3 {
            return None;
        }
        let version = &parts[2];
        if version.len() < 4 || version[0] != 72 || version[1] != 84 || version[2] != 84
            || version[3] != 80 {
            proof {
                if seq![72u8, 84u8, 84u8, 80u8].is_prefix_of(partsv[2]) {
                    assert(partsv[2][0] == 72 && partsv[2][1] == 84 && partsv[2][2] == 84
                        && partsv[2][3] == 80);
                }
            }
            return None;
        }
        proof {
            assert(seq![72u8, 84u8, 84u8, 80u8].is_prefix_of(partsv[2])) by {
                assert(seq![72u8, 84u8, 84u8, 80u8] =~= partsv[2].subrange(0, 4));
            }
        }
        let mut k: usize = 1;
        let mut found = false;
        while k < segs.len() && !found
            invariant
                1 <= k <= segs@.len(),
                segsv == segs@.map_values(|x: Vec<u8>| x@),
                found ==> k < segs@.len() && segsv[k as int] == seq![10u8],
                found ==> first_lf(segsv, 1) == Some(k as int),
                !found ==> first_lf(segsv, 1) == first_lf(segsv, k as int),
            decreases segs@.len() - k + (if found { 0int } else { 1int }),
        {
            if segs[k].len() == 1 && segs[k][0] == 10 {
                proof {
                    assert(segsv[k as int] =~= seq![10u8]);
                }
                found = true;
            } else {
                proof {
                    assert(segsv[k as int] != seq![10u8]) by {
                        if segsv[k as int] == seq![10u8] {
                            assert(segs@[k as int]@.len() == 1 && segs@[k as int]@[0] == 10);
                        }
                    }
                }
                k += 1;
            }
        }
        if !found {
            proof {
                assert(first_lf(segsv, k as int) is None);
            }
            return None;
        }
        if k + 1 >= segs.len() {
            return None;
        }
        let mut headers: Vec<Vec<u8>> = Vec::new();
        let mut j: usize = 1;
        while j < k
            invariant
                1 <= j <= k,
                k < segs@.len(),
                segsv == segs@.map_values(|x: Vec<u8>| x@),
                forall|a: int| 1 <= a < j ==> (#[trigger] segsv[a]).len() >= 1,
                headers@.map_values(|h: Vec<u8>| h@) =~= segsv.subrange(1, j as int).map_values(
                    |h: Seq<u8>| h.drop_first(),
                ),
            decreases k - j,
        {
            if segs[j].len() == 0 {
                proof {
                    assert(segsv[j as int].len() == 0);
                    assert(spec_from_bytes(data@) is None);
                }
                return None;
            }
            let ghost hdr_old = headers@;
            headers.push(vec_drop_first(&segs[j]));
            proof {
                assert(headers@.map_values(|h: Vec<u8>| h@) =~= hdr_old.map_values(
                    |h: Vec<u8>| h@,
                ).push(segsv[j as int].drop_first()));
                assert(segsv.subrange(1, j as int + 1).map_values(
                    |h: Seq<u8>| h.drop_first(),
                ) =~= segsv.subrange(1, j as int).map_values(|h: Seq<u8>| h.drop_first()).push(
                    segsv[j as int].drop_first(),
                ));
            }
            j += 1;
        }
        if segs[k + 1].len() == 0 {
            proof {
                assert(segsv[k as int + 1].len() == 0);
                assert(spec_from_bytes(data@) is None);
            }
            return None;
        }
        let body = vec_drop_first(&segs[k + 1]);
        let method = vstd::slice::slice_to_vec(parts[0].as_slice());
        let uri = vstd::slice::slice_to_vec(parts[1].as_slice());
        let version_out = vstd::slice::slice_to_vec(parts[2].as_slice());
        let req = Request { method, uri, version: version_out, headers, body };
        proof {
            assert(req@.method =~= partsv[0]);
            assert(req@.uri =~= partsv[1]);
            assert(req@.version =~= partsv[2]);
            assert(req@.headers =~= segsv.subrange(1, k as int).map_values(
                |h: Seq<u8>| h.drop_first(),
            ));
            assert(req@.body =~= segsv[k as int + 1].drop_first());
            assert(spec_from_bytes(data@) is Some);
            assert(spec_from_bytes(data@)->0 =~= req@);
        }
        Some(req)
    }
}

proof fn lemma_split_bytes_rec_len(s: Seq<u8>, sep: u8, cur: Seq<u8>)
    ensures
        split_bytes_rec(s, sep, cur).len() >= 1,
    decreases s.len(),
{
    if s.len() > 0 {
        if s[0] == sep {
            lemma_split_bytes_rec_len(s.drop_first(), sep, Seq::empty());
        } else {
            lemma_split_bytes_rec_len(s.drop_first(), sep, cur.push(s[0]));
        }
    }
}

/// Whether the bytes hold a complete HTTP head: a blank line, as carriage
/// return, line feed twice, occurs somewhere.
pub fn http_head_end(data: &[u8]) -> (r: bool)
    ensures
        r == exists|i: int|
            0 <= i && i + 4 <= data@.len() && (#[trigger] data@.subrange(i, i + 4)) == seq![
                13u8,
                10u8,
                13u8,
                10u8,
            ],
{
    let n = data.len();
    if n < 4 {
        return false;
    }
    let mut i: usize = 0;
    while i <= n - 4
        invariant
            n == data@.len(),
            4 <= n,
            0 <= i,
            i <= n - 3,
            forall|a: int|
                0 <= a < i ==> (#[trigger] data@.subrange(a, a + 4)) != seq![
                    13u8,
                    10u8,
                    13u8,
                    10u8,
                ],
        decreases n - i,
    {
        if data[i] == 13 && data[i + 1] == 10 && data[i + 2] == 13 && data[i + 3] == 10 {
            proof {
                assert(data@.subrange(i as int, i as int + 4) =~= seq![13u8, 10u8, 13u8, 10u8]);
            }
            return true;
        }
        proof {
            assert(data@.subrange(i as int, i as int + 4) != seq![13u8, 10u8, 13u8, 10u8]) by {
                if data@.subrange(i as int, i as int + 4) == seq![13u8, 10u8, 13u8, 10u8] {
                    assert(data@[i as int] == 13 && data@[i as int + 1] == 10 && data@[i as int
                        + 2] == 13 && data@[i as int + 3] == 10);
                }
            }
        }
        i += 1;
    }
    false
}

/// The socket text `Request` routing uses: for an absolute URI the authority
/// after any userinfo, else the URI's own first piece; the hostname before
/// any colon; and the given port or 80.
pub open spec fn spec_extract_host(uri: Seq<u8>) -> Seq<char> {
    let segs = split_bytes(uri, 47);
    let socket = if segs.len() >= 3 {
        let auth = split_bytes(segs[2], 64);
        auth[auth.len() - 1]
    } else {
        segs[0]
    };
    let sp = split_bytes(socket, 58);
    let hostname = sp[0];
    let port = if sp.len() >= 2 {
        sp[1]
    } else {
        seq![56u8, 48u8]
    };
    (hostname + seq![58u8] + port).map_values(|b: u8| b as char)
}

/// Reads `hostname:port` out of a request URI, defaulting the port to 80.
pub fn extract_host(uri: &[u8]) -> (r: Option<String>)
    ensures
        r is Some,
        r->0@ == spec_extract_host(uri@),
{
    let segs = split_bytes_vec(uri, 47);
    let ghost segsv = split_bytes(uri@, 47);
    proof {
        lemma_split_bytes_rec_len(uri@, 47, Seq::<u8>::empty());
    }
    let socket: Vec<u8> = if segs.len() >= 3 {
        let auth = split_bytes_vec(segs[2].as_slice(), 64);
        proof {
            lemma_split_bytes_rec_len(segsv[2], 64, Seq::<u8>::empty());
        }
        let last = auth.len() - 1;
        vstd::slice::slice_to_vec(auth[last].as_slice())
    } else {
        vstd::slice::slice_to_vec(segs[0].as_slice())
    };
    let sp = split_bytes_vec(socket.as_slice(), 58);
    let ghost spv = split_bytes(socket@, 58);
    proof {
        lemma_split_bytes_rec_len(socket@, 58, Seq::<u8>::empty());
    }
    let hostname = &sp[0];
    let mut out = String::new();
    let mut i: usize = 0;
    while i < hostname.len()
        invariant
            i <= hostname@.len(),
            out@ == hostname@.subrange(0, i as int).map_values(|b: u8| b as char),
        decreases hostname@.len() - i,
    {
        push_char(&mut out, hostname[i] as char);
        proof {
            assert(hostname@.subrange(0, i as int + 1).map_values(|b: u8| b as char)
                =~= hostname@.subrange(0, i as int).map_values(|b: u8| b as char).push(
                hostname@[i as int] as char,
            ));
        }
        i += 1;
    }
    proof {
        assert(hostname@.subrange(0, hostname@.len() as int) =~= hostname@);
    }
    push_char(&mut out, 58u8 as char);
    if sp.len() >= 2 {
        let port = &sp[1];
        let ghost port_start = out@;
        let mut i2: usize = 0;
        while i2 < port.len()
            invariant
                i2 <= port@.len(),
                out@ == port_start + port@.subrange(0, i2 as int).map_values(|b: u8| b as char),
            decreases port@.len() - i2,
        {
            push_char(&mut out, port[i2] as char);
            proof {
                assert(port@.subrange(0, i2 as int + 1).map_values(|b: u8| b as char) =~= port@
                    .subrange(0, i2 as int).map_values(|b: u8| b as char).push(
                    port@[i2 as int] as char,
                ));
                assert(port_start + port@.subrange(0, i2 as int).map_values(
                    |b: u8| b as char,
                ).push(port@[i2 as int] as char) =~= (port_start + port@.subrange(
                    0,
                    i2 as int,
                ).map_values(|b: u8| b as char)).push(port@[i2 as int] as char));
            }
            i2 += 1;
        }
        proof {
            assert(port@.subrange(0, port@.len() as int) =~= port@);
            assert(out@ =~= spec_extract_host(uri@));
        }
    } else {
        push_char(&mut out, 56u8 as char);
        push_char(&mut out, 48u8 as char);
        proof {
            assert(out@ =~= spec_extract_host(uri@));
        }
    }
    Some(out)
}


proof fn lemma_filter_push<A>(s: Seq<A>, x: A, p: spec_fn(A) -> bool)
    ensures
        (s.push(x)).filter(p) == if p(x) {
            s.filter(p).push(x)
        } else {
            s.filter(p)
        },
{
    reveal(Seq::filter);
    assert(s.push(x).drop_last() =~= s);
    assert(s.push(x).last() == x);
}

impl Request {
    /// The same request with only the headers the predicate keeps, in their
    /// original order. The ghost `p` names what the predicate decides.
    pub fn headers_filter<F: Fn(&Vec<u8>) -> bool>(
        self,
        pred: F,
        Ghost(p): Ghost<spec_fn(Seq<u8>) -> bool>,
    ) -> (r: Request)
        requires
            forall|h: &Vec<u8>| #[trigger] pred.requires((h,)),
            forall|h: &Vec<u8>, b: bool| #[trigger] pred.ensures((h,), b) ==> b == p(h@),
        ensures
            r.method == self.method,
            r.uri == self.uri,
            r.version == self.version,
            r.body == self.body,
            r@.headers == self@.headers.filter(p),
    {
        let ghost hv = self.headers@.map_values(|h: Vec<u8>| h@);
        let mut kept: Vec<Vec<u8>> = Vec::new();
        let mut i: usize = 0;
        proof {
            reveal(Seq::filter);
            assert(hv.subrange(0, 0) =~= Seq::<Seq<u8>>::empty());
            assert(kept@.map_values(|h: Vec<u8>| h@) =~= hv.subrange(0, 0).filter(p));
        }
        while i < self.headers.len()
            invariant
                i <= self.headers@.len(),
                hv == self.headers@.map_values(|h: Vec<u8>| h@),
                forall|h: &Vec<u8>| #[trigger] pred.requires((h,)),
                forall|h: &Vec<u8>, b: bool| #[trigger] pred.ensures((h,), b) ==> b == p(h@),
                kept@.map_values(|h: Vec<u8>| h@) == hv.subrange(0, i as int).filter(p),
            decreases self.headers@.len() - i,
        {
            let ghost kept_old = kept@.map_values(|h: Vec<u8>| h@);
            let keep = pred(&self.headers[i]);
            if keep {
                kept.push(vstd::slice::slice_to_vec(self.headers[i].as_slice()));
                proof {
                    assert(kept@.map_values(|h: Vec<u8>| h@) =~= kept_old.push(hv[i as int]));
                }
            }
            proof {
                assert(hv.subrange(0, i as int + 1) =~= hv.subrange(0, i as int).push(
                    hv[i as int],
                ));
                lemma_filter_push(hv.subrange(0, i as int), hv[i as int], p);
            }
            i += 1;
        }
        proof {
            assert(hv.subrange(0, hv.len() as int) =~= hv);
        }
        Request {
            method: self.method,
            uri: self.uri,
            version: self.version,
            headers: kept,
            body: self.body,
        }
    }
}


/// An ASCII byte lowered, as `to_ascii_lowercase` lowers it.
pub open spec fn byte_lower(b: u8) -> u8 {
    if 65 <= b <= 90 {
        (b + 32) as u8
    } else {
        b
    }
}

/// Whether a header line opens with `proxy`, matched without regard to case.
pub open spec fn is_proxy_header(h: Seq<u8>) -> bool {
    h.len() >= 5 && h.subrange(0, 5).map_values(|b: u8| byte_lower(b)) == seq![
        112u8,
        114u8,
        111u8,
        120u8,
        121u8,
    ]
}

/// An ASCII byte lowered.
fn lower_byte(b: u8) -> (r: u8)
    ensures
        r == byte_lower(b),
{
    if 65 <= b && b <= 90 {
        b + 32
    } else {
        b
    }
}

/// Whether a header line is kept by the proxy-header filter.
fn not_proxy_header(h: &Vec<u8>) -> (b: bool)
    ensures
        b == !is_proxy_header(h@),
{
    if h.len() < 5 {
        true
    } else {
        let b0 = lower_byte(h[0]);
        let b1 = lower_byte(h[1]);
        let b2 = lower_byte(h[2]);
        let b3 = lower_byte(h[3]);
        let b4 = lower_byte(h[4]);
        let hit = b0 == 112 && b1 == 114 && b2 == 111 && b3 == 120 && b4 == 121;
        proof {
            assert(h@.subrange(0, 5).map_values(|b: u8| byte_lower(b)) =~= seq![
                byte_lower(h@[0]),
                byte_lower(h@[1]),
                byte_lower(h@[2]),
                byte_lower(h@[3]),
                byte_lower(h@[4]),
            ]);
        }
        !hit
    }
}

impl Request {
    /// The request without its proxy-specific headers: every header whose
    /// name opens with `proxy`, in any case, is dropped.
    pub fn drop_proxy_headers(self) -> (r: Request)
        ensures
            r.method == self.method,
            r.uri == self.uri,
            r.version == self.version,
            r.body == self.body,
            r@.headers == self@.headers.filter((|h: Seq<u8>| !is_proxy_header(h))),
    {
        let ghost p = (|h: Seq<u8>| !is_proxy_header(h));
        self.headers_filter(not_proxy_header, Ghost(p))
    }
}

/// The one protocol version these responses are written in.
#[derive(Debug, Clone, Copy, PartialEq, Eq, Structural)]
pub enum Version {
    Http11,
}

/// The status line variants a canned response can carry.
#[derive(Debug, Clone, Copy, PartialEq, Eq, Structural)]
pub enum Status {
    Okay,
    BadRequest,
    RequestTimeout,
    BadGateway,
    GatewayTimeout,
}

/// The protocol bytes of a version: `HTTP/1.1`.
pub open spec fn version_bytes(v: Version) -> Seq<u8> {
    match v {
        Version::Http11 => seq![72u8, 84u8, 84u8, 80u8, 47u8, 49u8, 46u8, 49u8],
    }
}

/// The status line bytes of a status, code and reason phrase.
pub open spec fn status_bytes(s: Status) -> Seq<u8> {
    match s {
        Status::Okay => seq![50u8, 48u8, 48u8, 32u8, 79u8, 75u8],
        Status::BadRequest => seq![
            52u8, 48u8, 48u8, 32u8, 66u8, 97u8, 100u8, 32u8, 82u8, 101u8, 113u8, 117u8,
            101u8, 115u8, 116u8,
        ],
        Status::RequestTimeout => seq![
            52u8, 48u8, 56u8, 32u8, 82u8, 101u8, 113u8, 117u8, 101u8, 115u8, 116u8, 32u8,
            84u8, 105u8, 109u8, 101u8, 111u8, 117u8, 116u8,
        ],
        Status::BadGateway => seq![
            53u8, 48u8, 50u8, 32u8, 66u8, 97u8, 100u8, 32u8, 71u8, 97u8, 116u8, 101u8,
            119u8, 97u8, 121u8,
        ],
        Status::GatewayTimeout => seq![
            53u8, 48u8, 52u8, 32u8, 71u8, 97u8, 116u8, 101u8, 119u8, 97u8, 121u8, 32u8,
            84u8, 105u8, 109u8, 101u8, 111u8, 117u8, 116u8,
        ],
    }
}

impl Version {
    /// The wire bytes of this version.
    pub fn value(&self) -> (r: Vec<u8>)
        ensures
            r@ == version_bytes(*self),
    {
        let r: Vec<u8> = vec![72u8, 84u8, 84u8, 80u8, 47u8, 49u8, 46u8, 49u8];
        proof {
            assert(r@ =~= version_bytes(*self));
        }
        r
    }
}

impl Status {
    /// The wire bytes of this status line.
    pub fn value(&self) -> (r: Vec<u8>)
        ensures
            r@ == status_bytes(*self),
    {
        match self {
            Status::Okay => {
                let r: Vec<u8> = vec![50u8, 48u8, 48u8, 32u8, 79u8, 75u8];
                proof {
                    assert(r@ =~= status_bytes(*self));
                }
                r
            },
            Status::BadRequest => {
                let r: Vec<u8> = vec![
                    52u8, 48u8, 48u8, 32u8, 66u8, 97u8, 100u8, 32u8, 82u8, 101u8, 113u8,
                    117u8, 101u8, 115u8, 116u8,
                ];
                proof {
                    assert(r@ =~= status_bytes(*self));
                }
                r
            },
            Status::RequestTimeout => {
                let r: Vec<u8> = vec![
                    52u8, 48u8, 56u8, 32u8, 82u8, 101u8, 113u8, 117u8, 101u8, 115u8, 116u8,
                    32u8, 84u8, 105u8, 109u8, 101u8, 111u8, 117u8, 116u8,
                ];
                proof {
                    assert(r@ =~= status_bytes(*self));
                }
                r
            },
            Status::BadGateway => {
                let r: Vec<u8> = vec![
                    53u8, 48u8, 50u8, 32u8, 66u8, 97u8, 100u8, 32u8, 71u8, 97u8, 116u8,
                    101u8, 119u8, 97u8, 121u8,
                ];
                proof {
                    assert(r@ =~= status_bytes(*self));
                }
                r
            },
            Status::GatewayTimeout => {
                let r: Vec<u8> = vec![
                    53u8, 48u8, 52u8, 32u8, 71u8, 97u8, 116u8, 101u8, 119u8, 97u8, 121u8,
                    32u8, 84u8, 105u8, 109u8, 101u8, 111u8, 117u8, 116u8,
                ];
                proof {
                    assert(r@ =~= status_bytes(*self));
                }
                r
            },
        }
    }
}

/// Builds a canned response from a version and a status.
#[derive(Debug)]
pub struct RespondBuilder {
    pub version: Version,
    pub status: Status,
}

impl Default for RespondBuilder {
    /// `HTTP/1.1` and the success status.
    fn default() -> (r: RespondBuilder)
        ensures
            r.version == Version::Http11,
            r.status == Status::Okay,
    {
        RespondBuilder { version: Version::Http11, status: Status::Okay }
    }
}

impl RespondBuilder {
    /// The builder with its version replaced.
    pub fn version(self, version: Version) -> (r: RespondBuilder)
        ensures
            r.version == version,
            r.status == self.status,
    {
        RespondBuilder { version, status: self.status }
    }

    /// The builder with its status replaced.
    pub fn status(self, status: Status) -> (r: RespondBuilder)
        ensures
            r.version == self.version,
            r.status == status,
    {
        RespondBuilder { version: self.version, status }
    }

    /// A response with the chosen status line and neither headers nor body.
    pub fn nobody(self) -> (r: Respond)
        ensures
            r.version@ == version_bytes(self.version),
            r.status_reason@ == status_bytes(self.status),
            r.headers@.len() == 0,
            r.body@.len() == 0,
    {
        Respond {
            version: self.version.value(),
            status_reason: self.status.value(),
            headers: Vec::new(),
            body: Vec::new(),
        }
    }
}

/// An HTTP response head and body as wire bytes.
#[derive(Debug)]
pub struct Respond {
    pub version: Vec<u8>,
    pub status_reason: Vec<u8>,
    pub headers: Vec<Vec<u8>>,
    pub body: Vec<u8>,
}


/// The URI the forwarder dials: the request's scheme or `https`, the connect
/// target, and the request's path and query or `/`.
pub open spec fn spec_upstream_uri(
    scheme: Option<Seq<char>>,
    target: Seq<char>,
    path_and_query: Option<Seq<char>>,
) -> Seq<char> {
    (match scheme {
        Some(s) => s,
        None => "https"@,
    }) + "://"@ + target + (match path_and_query {
        Some(p) => p,
        None => "/"@,
    })
}

/// Builds the upstream URI text for a connect target.
pub fn upstream_uri(scheme: Option<&str>, target: &str, path_and_query: Option<&str>) -> (r:
    String)
    ensures
        r@ == spec_upstream_uri(
            match scheme {
                Some(s) => Some(s@),
                None => None,
            },
            target@,
            match path_and_query {
                Some(p) => Some(p@),
                None => None,
            },
        ),
{
    let mut out = String::new();
    match scheme {
        Some(s) => out.append(s),
        None => out.append("https"),
    }
    out.append("://");
    out.append(target);
    match path_and_query {
        Some(p) => out.append(p),
        None => out.append("/"),
    }
    proof {
        assert(out@ =~= spec_upstream_uri(
            match scheme {
                Some(s) => Some(s@),
                None => None,
            },
            target@,
            match path_and_query {
                Some(p) => Some(p@),
                None => None,
            },
        ));
    }
    out
}

/// Joins two values of one request header, separated by a semicolon, as the
/// forwarder merges duplicates.
pub fn merge_header_values(existing: &str, incoming: &str) -> (r: String)
    ensures
        r@ == existing@ + ";"@ + incoming@,
{
    let mut out = String::new();
    out.append(existing);
    out.append(";");
    out.append(incoming);
    proof {
        assert(out@ =~= existing@ + ";"@ + incoming@);
    }
    out
}

} // verus!
