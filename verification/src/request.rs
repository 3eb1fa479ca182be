use vstd::prelude::*;
use vstd::string::*;
use crate::config::ClientConfig;
use crate::headers::{accept_key, assoc_map, content_type_key, pairs_view, user_agent_key};
use crate::response::{RawReply, ResponseSnapshot, collapsed_map, raw_pairs_view};
use crate::text::{find_from, find_from_exec, lower_seq};

verus! {

/// How many redirects a request may follow when the configuration allows
/// following them at all.
pub const MAX_REDIRECTS: u64 = 10;

/// The `application/json` media type, the default for `accept` and
/// `content-type`.
pub open spec fn json_mime() -> Seq<char> {
    seq!['a', 'p', 'p', 'l', 'i', 'c', 'a', 't', 'i', 'o', 'n', '/', 'j', 's', 'o', 'n']
}

/// An HTTP verb.
#[derive(Clone, Copy, PartialEq, Eq, Structural, Debug)]
pub enum Method {
    Get,
    Head,
    Delete,
    Post,
    Put,
    Patch,
}

/// Whether the verb carries a request body.
pub open spec fn spec_has_body(m: Method) -> bool {
    m == Method::Post || m == Method::Put || m == Method::Patch
}

impl Method {
    /// Executable counterpart of `spec_has_body`.
    pub fn has_body(&self) -> (r: bool)
        ensures
            r == spec_has_body(*self),
    {
        match self {
            Method::Post => true,
            Method::Put => true,
            Method::Patch => true,
            Method::Get => false,
            Method::Head => false,
            Method::Delete => false,
        }
    }
}

/// Why a request failed.
#[derive(Debug)]
pub enum HttpError {
    /// The URL was malformed; it holds the offending URL.  Detected before
    /// any network activity.
    InvalidRequest(String),
    /// The transport engine could not complete the exchange; its message,
    /// verbatim.
    TransportFailure(String),
    /// The configured timeout elapsed before the exchange completed.
    Timeout,
    /// The structured body argument could not be encoded.
    SerializationFailure,
}

/// A request body as the host binding hands it over.
pub enum BodyValue {
    /// A plain string body.
    Text(String),
    /// A structured table: its `body` entry if that held usable text,
    /// nothing otherwise.
    Table(Option<String>),
    /// A value of a shape that cannot be encoded as a body.
    Unencodable,
}

/// The view of an optional string.
pub open spec fn opt_str_view(o: Option<String>) -> Option<Seq<char>> {
    match o {
        Some(s) => Some(s@),
        None => None,
    }
}

/// The body text a body argument denotes, or rejection of one that cannot
/// be encoded.
pub open spec fn spec_body_text(b: Option<BodyValue>) -> Result<Option<Seq<char>>, ()> {
    match b {
        None => Ok(None),
        Some(BodyValue::Text(s)) => Ok(Some(s@)),
        Some(BodyValue::Table(o)) => Ok(opt_str_view(o)),
        Some(BodyValue::Unencodable) => Err(()),
    }
}

/// Executable counterpart of `spec_body_text`.
pub fn resolve_body(body: Option<BodyValue>) -> (r: Result<Option<String>, HttpError>)
    ensures
        match r {
            Ok(o) => spec_body_text(body) == Ok::<Option<Seq<char>>, ()>(opt_str_view(o)),
            Err(e) => e is SerializationFailure && spec_body_text(body) is Err,
        },
{
    match body {
        None => Ok(None),
        Some(BodyValue::Text(s)) => Ok(Some(s)),
        Some(BodyValue::Table(o)) => Ok(o),
        Some(BodyValue::Unencodable) => Err(HttpError::SerializationFailure),
    }
}

/// A plain string body and a structured argument carrying the same string
/// under its `body` entry denote the same outgoing payload, so a request
/// prepared with either attaches identical body text.
pub proof fn lemma_body_forms_agree(s: String)
    ensures
        spec_body_text(Some(BodyValue::Text(s))) == spec_body_text(
            Some(BodyValue::Table(Some(s))),
        ),
{
}

/// True when `c` may start a URL scheme.
pub open spec fn is_scheme_start(c: char) -> bool {
    ('a' <= c && c <= 'z') || ('A' <= c && c <= 'Z')
}

/// True when `c` may stand in a URL scheme.
pub open spec fn is_scheme_char(c: char) -> bool {
    is_scheme_start(c) || ('0' <= c && c <= '9') || c == '+' || c == '-' || c == '.'
}

/// The shape of an absolute URL: a scheme, then `://`, then a non-empty
/// remainder.
pub open spec fn is_absolute_url(s: Seq<char>) -> bool {
    let i = find_from(s, 0, ':');
    &&& 1 <= i < s.len()
    &&& is_scheme_start(s[0])
    &&& forall|j: int| 0 <= j < i ==> is_scheme_char(#[trigger] s[j])
    &&& i + 3 < s.len()
    &&& s[i + 1] == '/'
    &&& s[i + 2] == '/'
}

/// Executable counterpart of `is_absolute_url`.
pub fn is_valid_url(url: &str) -> (r: bool)
    ensures
        r == is_absolute_url(url@),
{
    let n = url.unicode_len();
    let i = find_from_exec(url, 0, ':');
    if i == n || i == 0 {
        return false;
    }
    let c0 = url.get_char(0);
    let u0 = c0 as u32;
    if !((97 <= u0 && u0 <= 122) || (65 <= u0 && u0 <= 90)) {
        return false;
    }
    let mut j: usize = 1;
    while j < i
        invariant
            1 <= j <= i,
            i < n,
            n == url@.len(),
            i == find_from(url@, 0, ':'),
            forall|k: int| 0 <= k < j ==> is_scheme_char(#[trigger] url@[k]),
        decreases i - j,
    {
        let c = url.get_char(j);
        let u = c as u32;
        let ok = (97 <= u && u <= 122) || (65 <= u && u <= 90) || (48 <= u && u <= 57) || c == '+'
            || c == '-' || c == '.';
        if !ok {
            return false;
        }
        j = j + 1;
    }
    if n - i < 4 {
        return false;
    }
    if url.get_char(i + 1) != '/' {
        return false;
    }
    if url.get_char(i + 2) != '/' {
        return false;
    }
    true
}

/// The headers a request carries: the configuration's map with `accept`
/// defaulted to `application/json`, and, for a body-bearing verb,
/// `content-type` defaulted the same way.
pub open spec fn assembled_headers(base: Map<Seq<char>, Seq<char>>, method: Method) -> Map<
    Seq<char>,
    Seq<char>,
> {
    let with_accept = if base.contains_key(accept_key()) {
        base
    } else {
        base.insert(accept_key(), json_mime())
    };
    if spec_has_body(method) && !base.contains_key(content_type_key()) {
        with_accept.insert(content_type_key(), json_mime())
    } else {
        with_accept
    }
}

/// Everything the transport engine needs for one exchange, assembled from
/// a configuration and checked; building a plan performs no I/O.
pub struct RequestPlan {
    /// The verb.
    pub method: Method,
    /// The target URL, known to be absolute.
    pub url: String,
    /// The assembled headers, names lower-cased, each name once.
    pub headers: Vec<(String, String)>,
    /// An explicit user-agent override: applied after everything else, so
    /// it beats the emulated identity's default.
    pub user_agent: Option<String>,
    /// How many redirects to follow; zero forbids following any.
    pub max_redirects: u64,
    /// The whole-exchange timeout, if one is configured.
    pub timeout_ms: Option<u64>,
    /// The body to attach, for body-bearing verbs.
    pub body: Option<String>,
}

impl RequestPlan {
    /// The assembled headers as a map.
    pub open spec fn spec_header_map(&self) -> Map<Seq<char>, Seq<char>> {
        assoc_map(pairs_view(self.headers@))
    }

    /// The user-agent override, if any.
    pub open spec fn spec_user_agent(&self) -> Option<Seq<char>> {
        opt_str_view(self.user_agent)
    }

    /// The body to attach, if any.
    pub open spec fn spec_body(&self) -> Option<Seq<char>> {
        opt_str_view(self.body)
    }
}

/// Builds the plan for one request: rejects a malformed URL before any
/// network activity, rejects an unusable body argument, assembles headers
/// with their defaults, and applies the redirect and timeout policy.
pub fn prepare_request(
    cfg: &ClientConfig,
    method: Method,
    url: String,
    body: Option<BodyValue>,
) -> (r: Result<RequestPlan, HttpError>)
    requires
        cfg.wf(),
    ensures
        match r {
            Ok(plan) => {
                &&& is_absolute_url(url@)
                &&& plan.method == method
                &&& plan.url@ == url@
                &&& plan.spec_header_map() == assembled_headers(cfg.spec_header_map(), method)
                &&& plan.spec_user_agent() == (if cfg.spec_header_map().contains_key(
                    user_agent_key(),
                ) {
                    Some(cfg.spec_header_map()[user_agent_key()])
                } else {
                    None::<Seq<char>>
                })
                &&& plan.max_redirects == (if cfg.spec_follow() {
                    MAX_REDIRECTS
                } else {
                    0u64
                })
                &&& plan.timeout_ms == cfg.spec_timeout_ms()
                &&& (if spec_has_body(method) {
                    spec_body_text(body) == Ok::<Option<Seq<char>>, ()>(plan.spec_body())
                } else {
                    plan.spec_body() is None
                })
            },
            Err(e) => match e {
                HttpError::InvalidRequest(m) => !is_absolute_url(url@) && m@ == url@,
                HttpError::SerializationFailure => is_absolute_url(url@) && spec_has_body(method)
                    && spec_body_text(body) is Err,
                _ => false,
            },
        },
{
    if !is_valid_url(url.as_str()) {
        return Err(HttpError::InvalidRequest(url));
    }
    let body_text: Option<String> = if method.has_body() {
        match resolve_body(body) {
            Ok(o) => o,
            Err(e) => {
                return Err(e);
            },
        }
    } else {
        None
    };
    let mut headers = cfg.header_map();
    proof {
        reveal_strlit("accept");
        assert("accept"@ =~= accept_key());
        assert(lower_seq("accept"@) =~= accept_key());
        reveal_strlit("content-type");
        assert("content-type"@ =~= content_type_key());
        assert(lower_seq("content-type"@) =~= content_type_key());
        reveal_strlit("user-agent");
        assert("user-agent"@ =~= user_agent_key());
        assert(lower_seq("user-agent"@) =~= user_agent_key());
        reveal_strlit("application/json");
        assert("application/json"@ =~= json_mime());
    }
    if !headers.contains("accept") {
        headers.insert("accept", String::from_str("application/json"));
    }
    if method.has_body() && !cfg.get_header("content-type").is_some() {
        headers.insert("content-type", String::from_str("application/json"));
    }
    let user_agent = match cfg.get_header("user-agent") {
        Some(u) => Some(u.clone()),
        None => None,
    };
    let max_redirects: u64 = if cfg.follows_redirects() {
        MAX_REDIRECTS
    } else {
        0
    };
    let pairs = headers.pairs();
    proof {
        assert(pairs_view(pairs@) =~= headers.entries_view());
    }
    Ok(
        RequestPlan {
            method,
            url,
            headers: pairs,
            user_agent,
            max_redirects,
            timeout_ms: cfg.timeout_ms(),
            body: body_text,
        },
    )
}

/// What one dispatched exchange came to, as the transport engine and the
/// runtime bridge report it.
pub enum TransportOutcome {
    /// The engine produced a response.
    Completed(RawReply),
    /// The configured timeout elapsed before the exchange completed.
    TimedOut,
    /// The engine could not complete the exchange; its message.
    Failed(String),
}

/// Turns the outcome of a dispatched plan into the caller's result: a
/// materialized snapshot on completion, a `Timeout` when the deadline
/// elapsed, and a `TransportFailure` carrying the engine's message
/// verbatim otherwise.  Every outcome maps to exactly one of these.
pub fn finish_request(outcome: TransportOutcome) -> (r: Result<ResponseSnapshot, HttpError>)
    requires
        outcome matches TransportOutcome::Completed(raw) ==> raw.wf(),
    ensures
        match outcome {
            TransportOutcome::Completed(raw) => r matches Ok(snap) && snap.wf()
                && snap.spec_status() == raw.status && snap.spec_url() == raw.url@
                && snap.spec_header_map() == collapsed_map(raw_pairs_view(raw.headers@))
                && snap.spec_body() == (match raw.body {
                Some(b) => b@,
                None => Seq::<char>::empty(),
            }),
            TransportOutcome::TimedOut => r matches Err(e) && e is Timeout,
            TransportOutcome::Failed(m) => r matches Err(e) && (e matches
                HttpError::TransportFailure(t) && t@ == m@),
        },
{
    match outcome {
        TransportOutcome::Completed(raw) => Ok(ResponseSnapshot::from_raw(raw)),
        TransportOutcome::TimedOut => Err(HttpError::Timeout),
        TransportOutcome::Failed(m) => Err(HttpError::TransportFailure(m)),
    }
}

} // verus!
