//! The proxy's error value: a kind that decides the reply status, and
//! optional peer and context notes for the log line.
use vstd::prelude::*;

use crate::http::Status;
use crate::text::push_char;

verus! {

/// What went wrong while serving one connection.
#[derive(Debug, Clone, Copy, PartialEq, Eq, Structural)]
pub enum ProxyErrorKind {
    NotHttpRequest,
    InvalidHost,
    HostNotFound,
    ConnectIo,
    ConnectTimeout,
    ReadIo,
    ReadTimeout,
    Other,
}

impl Default for ProxyErrorKind {
    /// The unclassified kind.
    fn default() -> (r: ProxyErrorKind)
        ensures
            r == ProxyErrorKind::Other,
    {
        ProxyErrorKind::Other
    }
}

/// An error with its kind and optional notes: the upstream and downstream
/// peers, the underlying cause, and what was being done.
#[derive(Debug)]
pub struct ProxyError {
    pub kind: ProxyErrorKind,
    pub upstream: Option<String>,
    pub downstream: Option<String>,
    pub from: Option<String>,
    pub context: Option<String>,
}

impl Default for ProxyError {
    /// An unclassified error with no notes.
    fn default() -> (r: ProxyError)
        ensures
            r.kind == ProxyErrorKind::Other,
            r.upstream == None::<String>,
            r.downstream == None::<String>,
            r.from == None::<String>,
            r.context == None::<String>,
    {
        ProxyError { kind: ProxyErrorKind::Other, upstream: None, downstream: None, from: None, context: None }
    }
}

impl ProxyError {
    /// An error of the given kind with no notes.
    pub fn new(kind: ProxyErrorKind) -> (r: ProxyError)
        ensures
            r.kind == kind,
            r.upstream == None::<String>,
            r.downstream == None::<String>,
            r.from == None::<String>,
            r.context == None::<String>,
    {
        ProxyError { kind, upstream: None, downstream: None, from: None, context: None }
    }

    /// The error's kind.
    pub fn kind(&self) -> (r: &ProxyErrorKind)
        ensures
            *r == self.kind,
    {
        &self.kind
    }

    /// The error with its upstream peer noted.
    pub fn upstream(self, upstream: &str) -> (r: ProxyError)
        ensures
            r.kind == self.kind,
            r.upstream is Some && r.upstream->0@ == upstream@,
            r.downstream == self.downstream,
            r.from == self.from,
            r.context == self.context,
    {
        ProxyError {
            kind: self.kind,
            upstream: Some(upstream.to_owned()),
            downstream: self.downstream,
            from: self.from,
            context: self.context,
        }
    }

    /// The error with its downstream peer noted.
    pub fn downstream(self, downstream: &str) -> (r: ProxyError)
        ensures
            r.kind == self.kind,
            r.upstream == self.upstream,
            r.downstream is Some && r.downstream->0@ == downstream@,
            r.from == self.from,
            r.context == self.context,
    {
        ProxyError {
            kind: self.kind,
            upstream: self.upstream,
            downstream: Some(downstream.to_owned()),
            from: self.from,
            context: self.context,
        }
    }

    /// The error with its underlying cause noted.
    pub fn from(self, from: &str) -> (r: ProxyError)
        ensures
            r.kind == self.kind,
            r.upstream == self.upstream,
            r.downstream == self.downstream,
            r.from is Some && r.from->0@ == from@,
            r.context == self.context,
    {
        ProxyError {
            kind: self.kind,
            upstream: self.upstream,
            downstream: self.downstream,
            from: Some(from.to_owned()),
            context: self.context,
        }
    }

    /// The error with a note on what was being done.
    pub fn context(self, context: &str) -> (r: ProxyError)
        ensures
            r.kind == self.kind,
            r.upstream == self.upstream,
            r.downstream == self.downstream,
            r.from == self.from,
            r.context is Some && r.context->0@ == context@,
    {
        ProxyError {
            kind: self.kind,
            upstream: self.upstream,
            downstream: self.downstream,
            from: self.from,
            context: Some(context.to_owned()),
        }
    }
}

/// An optional note, or the placeholder when it was never set.
pub open spec fn note_or(o: Option<String>, placeholder: Seq<char>) -> Seq<char> {
    match o {
        Some(s) => s@,
        None => placeholder,
    }
}

/// The log line of an error: downstream, upstream, context, cause.
pub open spec fn message_of(e: ProxyError) -> Seq<char> {
    note_or(e.downstream, "x"@) + " -> "@ + note_or(e.upstream, "x"@) + ": "@ + note_or(
        e.context,
        "?"@,
    ) + ": "@ + note_or(e.from, "?"@)
}

impl ProxyError {
    /// Renders the error for the log: `downstream -> upstream: context:
    /// cause`, with placeholders for notes never set.
    pub fn message(&self) -> (r: String)
        ensures
            r@ == message_of(*self),
    {
        let mut out = String::new();
        match &self.downstream {
            Some(s) => out.append(s.as_str()),
            None => out.append("x"),
        }
        out.append(" -> ");
        match &self.upstream {
            Some(s) => out.append(s.as_str()),
            None => out.append("x"),
        }
        out.append(": ");
        match &self.context {
            Some(s) => out.append(s.as_str()),
            None => out.append("?"),
        }
        out.append(": ");
        match &self.from {
            Some(s) => out.append(s.as_str()),
            None => out.append("?"),
        }
        proof {
            assert(out@ =~= message_of(*self));
        }
        out
    }
}

/// The status a handshake failure is answered with: bad request for a
/// request that could not be read or routed, bad gateway or gateway timeout
/// for upstream connect failures, request timeout for a slow client, and no
/// reply at all for an unclassified error.
pub fn respond_status(kind: &ProxyErrorKind) -> (r: Option<Status>)
    ensures
        r == match kind {
            ProxyErrorKind::NotHttpRequest => Some(Status::BadRequest),
            ProxyErrorKind::InvalidHost => Some(Status::BadRequest),
            ProxyErrorKind::HostNotFound => Some(Status::BadRequest),
            ProxyErrorKind::ReadIo => Some(Status::BadRequest),
            ProxyErrorKind::ConnectIo => Some(Status::BadGateway),
            ProxyErrorKind::ConnectTimeout => Some(Status::GatewayTimeout),
            ProxyErrorKind::ReadTimeout => Some(Status::RequestTimeout),
            ProxyErrorKind::Other => None::<Status>,
        },
{
    match kind {
        ProxyErrorKind::NotHttpRequest | ProxyErrorKind::InvalidHost
            | ProxyErrorKind::HostNotFound | ProxyErrorKind::ReadIo => Some(Status::BadRequest),
        ProxyErrorKind::ConnectIo => Some(Status::BadGateway),
        ProxyErrorKind::ConnectTimeout => Some(Status::GatewayTimeout),
        ProxyErrorKind::ReadTimeout => Some(Status::RequestTimeout),
        ProxyErrorKind::Other => None,
    }
}

} // verus!
