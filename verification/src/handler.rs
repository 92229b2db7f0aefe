//! The decisions taken for each request that reaches a proxy listener: which
//! service it belongs to, whether it is authorized, on whose behalf it is
//! counted, and where it is sent.

use vstd::prelude::*;
use vstd::utf8::encode_utf8;
use crate::codec::{codec_limit, decode_base64, decoded_text};
use crate::rewrite::{merge_path_and_query, rewritten};
use crate::state::ProxyState;
use crate::stats::{bumped, counters_of, ProxyStats};
use crate::text::{
    before_first,
    eq_ignore_ascii_case,
    find_char,
    str_eq_ignore_ascii_case,
    take_before,
    trim,
    trimmed,
    lemma_before_first,
};
use crate::uri::{opt_view, path_of, Uri, UriView};

verus! {

/// Status of the answer to a request that matches no service.
pub const NOT_FOUND: u16 = 404;

/// Status of the answer to a request without valid credentials.
pub const UNAUTHORIZED: u16 = 401;

/// Status of the answer to a request whose credentials cannot be read.
pub const FORBIDDEN: u16 = 403;

/// Status of the answer to a request whose rewritten URI is not valid.
pub const INTERNAL_SERVER_ERROR: u16 = 500;

/// What the proxy reads of an incoming request.
pub struct ForwardRequest {
    /// The request URI.
    pub uri: Uri,
    /// The value of the `Authorization` header, when there is one that is text.
    pub authorization: Option<String>,
    /// The value of the `Host` header.
    pub host: Option<String>,
}

/// An answer given by the proxy itself, without a body.
#[derive(Debug, PartialEq, Eq)]
pub struct Rejection {
    pub status: u16,
    /// The value of the `WWW-Authenticate` header to send.
    pub www_authenticate: Option<String>,
}

/// A request as it is sent to the backend.
#[derive(Debug, PartialEq, Eq)]
pub struct Forward {
    /// The rewritten URI.
    pub uri: Uri,
    /// The value that replaces the `X-Forwarded-For` header.
    pub x_forwarded_for: String,
    /// The value of the `X-Forwarded-Host` header to set, when the request
    /// had a `Host` header.
    pub x_forwarded_host: Option<String>,
    /// The user on whose behalf the request was counted.
    pub username: String,
}

/// What becomes of a request.
#[derive(Debug, PartialEq, Eq)]
pub enum ForwardDecision {
    Reject(Rejection),
    Forward(Forward),
}

/// What the proxy has learned of an authorized request while it looked at
/// the services: the rewrite rule of its service and its credentials.
pub struct Authorized {
    pub from: String,
    pub to: Uri,
    pub token: String,
}

/// The value of `WWW-Authenticate` sent with status 401.
pub open spec fn challenge() -> Seq<char> {
    "Basic realm=\"Service access\""@
}

/// The answer with status `code`: it carries the challenge when, and only
/// when, the status is 401.
pub open spec fn is_response(r: Rejection, code: u16) -> bool {
    &&& r.status == code
    &&& code == UNAUTHORIZED ==> (r.www_authenticate matches Some(h) && h@ == challenge())
    &&& code != UNAUTHORIZED ==> r.www_authenticate is None
}

/// Builds the answer with status `code`.
pub fn response(code: u16) -> (r: Rejection)
    ensures
        is_response(r, code),
{
    if code == UNAUTHORIZED {
        Rejection {
            status: code,
            www_authenticate: Some("Basic realm=\"Service access\"".to_owned()),
        }
    } else {
        Rejection { status: code, www_authenticate: None }
    }
}

/// The credentials in an `Authorization` header: the header is a scheme, a
/// space and the credentials, and the scheme is `basic` in any case of
/// letters. The credentials are read without surrounding whitespace.
pub open spec fn basic_token(header: Option<Seq<char>>) -> Option<Seq<char>> {
    match header {
        Some(h) => {
            let scheme = before_first(h, ' ');
            if scheme.len() < h.len() && eq_ignore_ascii_case(scheme, "basic"@) {
                Some(trimmed(h.skip(scheme.len() as int + 1)))
            } else {
                None
            }
        },
        None => None,
    }
}

/// Lemma: what `before_first` returns is a prefix that ends at the first
/// occurrence, if there is one.
pub proof fn lemma_before_first_len(s: Seq<char>, c: char)
    ensures
        before_first(s, c).len() <= s.len(),
        before_first(s, c).len() < s.len() ==> s[before_first(s, c).len() as int] == c,
        before_first(s, c) == s.take(before_first(s, c).len() as int),
    decreases s.len(),
{
    if s.len() == 0 || s[0] == c {
        assert(s.take(0) =~= Seq::<char>::empty());
    } else {
        let t = s.drop_first();
        lemma_before_first_len(t, c);
        let n = before_first(t, c).len() as int;
        assert(s.take(n + 1) =~= seq![s[0]] + t.take(n));
    }
}

/// Reads the credentials of an `Authorization` header.
pub fn extract_basic_auth<'a>(header: Option<&'a str>) -> (r: Result<&'a str, ()>)
    ensures
        match r {
            Ok(t) => basic_token(crate::uri::opt_str_view(header)) == Some(t@),
            Err(_) => basic_token(crate::uri::opt_str_view(header)) is None,
        },
{
    match header {
        Some(auth) => {
            match find_char(auth, ' ') {
                Some(idx) => {
                    proof {
                        lemma_before_first(auth@, ' ', idx as int);
                        assert(auth@.take(idx as int).len() == idx);
                    }
                    let scheme = auth.substring_char(0, idx);
                    assert(scheme@ =~= auth@.take(idx as int));
                    if str_eq_ignore_ascii_case(scheme, "basic") {
                        let n = auth.unicode_len();
                        let rest = auth.substring_char(idx + 1, n);
                        assert(rest@ =~= auth@.skip(idx + 1));
                        Ok(trim(rest))
                    } else {
                        Err(())
                    }
                },
                None => {
                    proof {
                        lemma_before_first(auth@, ' ', auth@.len() as int);
                        assert(auth@.take(auth@.len() as int) =~= auth@);
                    }
                    Err(())
                },
            }
        },
        None => Err(()),
    }
}

/// The user name in decoded credentials: what stands before the first colon.
pub fn extract_username<'a>(decoded_auth: &'a str) -> (r: Result<&'a str, ()>)
    ensures
        r matches Ok(name) && name@ == before_first(decoded_auth@, ':'),
{
    Ok(take_before(decoded_auth, ':'))
}

/// The value of the request's `Host` header.
pub fn extract_host(req: &ForwardRequest) -> (r: Option<String>)
    ensures
        r == req.host,
{
    match &req.host {
        Some(h) => Some(h.clone()),
        None => None,
    }
}

/// What the services say of a request.
pub enum Verdict {
    /// No endpoint is a prefix of the request's path.
    NoService,
    /// The request has no credentials, or credentials that do not open the
    /// service.
    NoAccess,
    /// The credentials open the service at `endpoint`.
    Pass { endpoint: Seq<char>, token: Seq<char> },
}

/// Whether an endpoint of `state` is a prefix of `path`.
pub open spec fn matches_service(state: ProxyState, path: Seq<char>) -> bool {
    exists|e: Seq<char>| #[trigger] state.services().contains_key(e) && e.is_prefix_of(path)
}

/// The endpoint of `state` that is a prefix of `path`.
pub open spec fn matched_endpoint(state: ProxyState, path: Seq<char>) -> Seq<char> {
    choose|e: Seq<char>| #[trigger] state.services().contains_key(e) && e.is_prefix_of(path)
}

/// The verdict of `state` on a request with the given path and
/// `Authorization` header.
pub open spec fn verdict(state: ProxyState, path: Seq<char>, authorization: Option<Seq<char>>) -> Verdict {
    if !matches_service(state, path) {
        Verdict::NoService
    } else {
        let endpoint = matched_endpoint(state, path);
        match basic_token(authorization) {
            Some(token) if state.services()[endpoint].access().contains(token) => Verdict::Pass {
                endpoint,
                token,
            },
            _ => Verdict::NoAccess,
        }
    }
}

/// Whether the services let a request pass: it matches a service and
/// carries credentials that open it. Only such a request is counted.
pub open spec fn passes(state: ProxyState, req: ForwardRequest) -> bool {
    verdict(state, path_of(req.uri@), opt_view(req.authorization)) is Pass
}

/// Looks the request up among the services and checks its credentials.
pub fn authorize(req: &ForwardRequest, state: &ProxyState) -> (r: Result<Authorized, Rejection>)
    requires
        state.wf(),
    ensures
        match verdict(*state, path_of(req.uri@), opt_view(req.authorization)) {
            Verdict::NoService => r matches Err(rej) && is_response(rej, NOT_FOUND),
            Verdict::NoAccess => r matches Err(rej) && is_response(rej, UNAUTHORIZED),
            Verdict::Pass { endpoint, token } => r matches Ok(a) && a.token@ == token && a.from@
                == endpoint && a.to == state.services()[endpoint].descriptor().to,
        },
{
    let path = req.uri.path();
    let service = match state.find_by_path(path.as_str()) {
        Some(service) => service,
        None => {
            return Err(response(NOT_FOUND));
        },
    };
    let ghost p = path@;
    let ghost found = choose|e: Seq<char>| #[trigger]
        state.services().contains_key(e) && e.is_prefix_of(p) && *service == state.services()[e];
    proof {
        assert(state.services().contains_key(found) && found.is_prefix_of(p));
        let chosen = matched_endpoint(*state, p);
        state.lemma_match_unique(p, found, chosen);
        state.lemma_valid();
    }
    let header = crate::uri::opt_as_str(&req.authorization);
    let auth = match extract_basic_auth(header) {
        Ok(auth) => auth,
        Err(_) => {
            return Err(response(UNAUTHORIZED));
        },
    };
    if !service.authorizes(auth) {
        return Err(response(UNAUTHORIZED));
    }
    let descriptor = service.created_with();
    Ok(Authorized { from: descriptor.from.clone(), to: descriptor.to.duplicate(), token: auth.to_owned() })
}

/// What becomes of a request, given the verdict of the services.
pub enum Outcome {
    /// The request is answered with this status.
    Rejected { status: u16 },
    /// The request is counted for `username`, and answered with status 500
    /// because its rewritten URI is not valid.
    Failed { username: Seq<char> },
    /// The request is counted for `username` and sent to `uri`.
    Sent { username: Seq<char>, uri: UriView },
}

/// What becomes of the request `uri` with the given `Authorization` header.
pub open spec fn outcome(state: ProxyState, uri: UriView, authorization: Option<Seq<char>>) -> Outcome {
    match verdict(state, path_of(uri), authorization) {
        Verdict::NoService => Outcome::Rejected { status: NOT_FOUND },
        Verdict::NoAccess => Outcome::Rejected { status: UNAUTHORIZED },
        Verdict::Pass { endpoint, token } => match decoded_text(token) {
            None => Outcome::Rejected { status: FORBIDDEN },
            Some(decoded) => {
                let username = before_first(decoded, ':');
                match rewritten(uri, endpoint, state.services()[endpoint].descriptor().to@) {
                    Ok(u) => Outcome::Sent { username, uri: u },
                    Err(_) => Outcome::Failed { username },
                }
            },
        },
    }
}

/// Whether `after` is `before` with one request of `username` to `path`
/// counted.
pub open spec fn counted(before: ProxyStats, after: ProxyStats, path: Seq<char>, username: Seq<char>) -> bool {
    &&& after.total_requests() == before.total_requests() + 1
    &&& after.endpoint_requests() == before.endpoint_requests().insert(
        path,
        bumped(before.endpoint_requests(), path),
    )
    &&& after.user_requests() == before.user_requests().insert(
        username,
        bumped(before.user_requests(), username),
    )
    &&& after.user_endpoint_requests() == before.user_endpoint_requests().insert(
        username,
        counters_of(before.user_endpoint_requests(), username).insert(
            path,
            bumped(counters_of(before.user_endpoint_requests(), username), path),
        ),
    )
}

/// What becomes of an authorized request: it is counted for the user name
/// in its credentials and sent on, unless the credentials cannot be read or
/// the rewritten URI is not valid.
pub open spec fn authorized_outcome(uri: UriView, authorized: Authorized) -> Outcome {
    match decoded_text(authorized.token@) {
        None => Outcome::Rejected { status: FORBIDDEN },
        Some(decoded) => {
            let username = before_first(decoded, ':');
            match rewritten(uri, authorized.from@, authorized.to@) {
                Ok(u) => Outcome::Sent { username, uri: u },
                Err(_) => Outcome::Failed { username },
            }
        },
    }
}

/// Whether `r` and `after` are what the outcome `outcome` of a request from
/// `peer_ip` makes of the counters `before`.
pub open spec fn decided(
    outcome: Outcome,
    req: ForwardRequest,
    peer_ip: Seq<char>,
    before: ProxyStats,
    after: ProxyStats,
    r: ForwardDecision,
) -> bool {
    match outcome {
        Outcome::Rejected { status } => r matches ForwardDecision::Reject(rej) && is_response(
            rej,
            status,
        ) && after == before,
        Outcome::Failed { username } => r matches ForwardDecision::Reject(rej) && is_response(
            rej,
            INTERNAL_SERVER_ERROR,
        ) && counted(before, after, path_of(req.uri@), username),
        Outcome::Sent { username, uri } => r matches ForwardDecision::Forward(f) && f.uri@ == uri
            && f.username@ == username && f.x_forwarded_for@ == peer_ip && f.x_forwarded_host
            == req.host && counted(before, after, path_of(req.uri@), username),
    }
}

/// Decides what becomes of a request that the services have authorized: the
/// part of [`forward_req`] that needs the counters, and no longer the
/// services.
pub fn forward_authorized(authorized: &Authorized, req: &ForwardRequest, stats: &mut ProxyStats, peer_ip: &str) -> (r:
    ForwardDecision)
    requires
        old(stats).wf(),
        old(stats).total_requests() < usize::MAX,
        encode_utf8(authorized.token@).len() <= codec_limit(),
    ensures
        final(stats).wf(),
        decided(authorized_outcome(req.uri@, *authorized), *req, peer_ip@, *old(stats), *final(stats), r),
{
    let decoded_auth = match decode_base64(authorized.token.as_str()) {
        Ok(decoded) => decoded,
        Err(_) => {
            return ForwardDecision::Reject(response(FORBIDDEN));
        },
    };
    let username = match extract_username(decoded_auth.as_str()) {
        Ok(username) => username,
        Err(_) => {
            return ForwardDecision::Reject(response(FORBIDDEN));
        },
    };
    let host = extract_host(req);
    let path = req.uri.path();
    stats.inc(path.as_str(), username);
    let mut uri = req.uri.duplicate();
    match merge_path_and_query(&mut uri, authorized.from.as_str(), &authorized.to) {
        Ok(()) => ForwardDecision::Forward(
            Forward {
                uri,
                x_forwarded_for: peer_ip.to_owned(),
                x_forwarded_host: host,
                username: username.to_owned(),
            },
        ),
        Err(_) => ForwardDecision::Reject(response(INTERNAL_SERVER_ERROR)),
    }
}

/// Decides what becomes of a request that arrived from `peer_ip`.
///
/// A request that matches no service is answered with 404; one without
/// credentials that open its service with 401 and a challenge; one whose
/// credentials are not the base64 text of a string with 403. Any other
/// request is counted, under its path and the user name in its credentials,
/// and sent on with a rewritten URI, or answered with 500 where that URI is
/// not valid.
pub fn forward_req(req: &ForwardRequest, state: &ProxyState, stats: &mut ProxyStats, peer_ip: &str) -> (r:
    ForwardDecision)
    requires
        state.wf(),
        old(stats).wf(),
        passes(*state, *req) ==> old(stats).total_requests() < usize::MAX,
        req.authorization matches Some(a) ==> encode_utf8(a@).len() <= codec_limit(),
    ensures
        final(stats).wf(),
        decided(
            outcome(*state, req.uri@, opt_view(req.authorization)),
            *req,
            peer_ip@,
            *old(stats),
            *final(stats),
            r,
        ),
{
    let authorized = match authorize(req, state) {
        Ok(a) => a,
        Err(rejection) => {
            return ForwardDecision::Reject(rejection);
        },
    };
    proof {
        lemma_token_is_short(opt_view(req.authorization));
    }
    forward_authorized(&authorized, req, stats, peer_ip)
}

/// Lemma: the credentials read from a header are no longer than the header.
pub proof fn lemma_token_is_short(header: Option<Seq<char>>)
    ensures
        match (header, basic_token(header)) {
            (Some(h), Some(t)) => encode_utf8(t).len() <= encode_utf8(h).len(),
            _ => true,
        },
{
    match (header, basic_token(header)) {
        (Some(h), Some(t)) => {
            let scheme = before_first(h, ' ');
            lemma_before_first_len(h, ' ');
            let rest = h.skip(scheme.len() as int + 1);
            lemma_trimmed_is_part(rest);
            let (i, j) = choose|i: int, j: int| 0 <= i <= j <= rest.len() && trimmed(rest) == rest.subrange(i, j);
            assert(t == h.subrange(scheme.len() + 1 + i, scheme.len() + 1 + j)) by {
                assert(rest.subrange(i, j) =~= h.subrange(scheme.len() + 1 + i, scheme.len() + 1 + j));
            }
            lemma_encode_part(h, scheme.len() + 1 + i, scheme.len() + 1 + j);
        },
        _ => {},
    }
}

/// Lemma: trimming keeps a contiguous part of the string.
pub proof fn lemma_trimmed_is_part(s: Seq<char>)
    ensures
        exists|i: int, j: int| 0 <= i <= j <= s.len() && trimmed(s) == s.subrange(i, j),
{
    lemma_trim_start_is_suffix(s);
    let i = choose|i: int| 0 <= i <= s.len() && crate::text::trim_start(s) == s.skip(i);
    let t = s.skip(i);
    lemma_trim_end_is_prefix(t);
    let k = choose|k: int| 0 <= k <= t.len() && crate::text::trim_end(t) == t.take(k);
    assert(t.take(k) =~= s.subrange(i, i + k));
    assert(0 <= i <= i + k <= s.len() && trimmed(s) == s.subrange(i, i + k));
}

/// Lemma: trimming the start keeps a suffix.
pub proof fn lemma_trim_start_is_suffix(s: Seq<char>)
    ensures
        exists|i: int| 0 <= i <= s.len() && crate::text::trim_start(s) == s.skip(i),
    decreases s.len(),
{
    if s.len() > 0 && crate::text::is_whitespace(s[0]) {
        let t = s.drop_first();
        lemma_trim_start_is_suffix(t);
        let i = choose|i: int| 0 <= i <= t.len() && crate::text::trim_start(t) == t.skip(i);
        assert(t.skip(i) =~= s.skip(i + 1));
        assert(0 <= i + 1 <= s.len() && crate::text::trim_start(s) == s.skip(i + 1));
    } else {
        assert(s.skip(0) =~= s);
        assert(0 <= 0 <= s.len() && crate::text::trim_start(s) == s.skip(0));
    }
}

/// Lemma: trimming the end keeps a prefix.
pub proof fn lemma_trim_end_is_prefix(s: Seq<char>)
    ensures
        exists|k: int| 0 <= k <= s.len() && crate::text::trim_end(s) == s.take(k),
    decreases s.len(),
{
    if s.len() > 0 && crate::text::is_whitespace(s.last()) {
        let t = s.drop_last();
        lemma_trim_end_is_prefix(t);
        let k = choose|k: int| 0 <= k <= t.len() && crate::text::trim_end(t) == t.take(k);
        assert(t.take(k) =~= s.take(k));
        assert(0 <= k <= s.len() && crate::text::trim_end(s) == s.take(k));
    } else {
        assert(s.take(s.len() as int) =~= s);
        assert(0 <= s.len() <= s.len() && crate::text::trim_end(s) == s.take(s.len() as int));
    }
}

/// Lemma: the UTF-8 encoding of a concatenation is the concatenation of the
/// encodings.
pub proof fn lemma_encode_concat(a: Seq<char>, b: Seq<char>)
    ensures
        encode_utf8(a + b) == encode_utf8(a) + encode_utf8(b),
    decreases a.len(),
{
    if a.len() == 0 {
        assert(a + b =~= b);
        assert(encode_utf8(a) =~= Seq::<u8>::empty());
        assert(encode_utf8(a) + encode_utf8(b) =~= encode_utf8(b));
    } else {
        assert((a + b).drop_first() =~= a.drop_first() + b);
        lemma_encode_concat(a.drop_first(), b);
        assert((a + b)[0] == a[0]);
        assert(encode_utf8(a + b) =~= encode_utf8(a) + encode_utf8(b));
    }
}

/// Lemma: a part of a string has an encoding no longer than the whole.
pub proof fn lemma_encode_part(s: Seq<char>, i: int, j: int)
    requires
        0 <= i <= j <= s.len(),
    ensures
        encode_utf8(s.subrange(i, j)).len() <= encode_utf8(s).len(),
{
    let a = s.subrange(0, i);
    let m = s.subrange(i, j);
    let c = s.subrange(j, s.len() as int);
    assert(s =~= a + m + c);
    lemma_encode_concat(a + m, c);
    lemma_encode_concat(a, m);
}

} // verus!
