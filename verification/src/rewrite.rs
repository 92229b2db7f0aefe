//! The path rewrite applied to every forwarded request: the service's source
//! prefix is taken off the request path and the rest is joined to the
//! destination path.

use vstd::prelude::*;
use crate::text::{
    concat2,
    concat3,
    ends_with,
    ends_with_char,
    str_eq,
    strip_or_stay,
    strip_prefix_or_stay,
};
use crate::uri::{opt_as_str, opt_str_view, opt_view, uri_assembled, Uri, UriView};

verus! {

/// The request's path-and-query as the rewrite reads it: `/` when it is
/// missing or empty.
pub open spec fn request_text(paq: Option<Seq<char>>) -> Seq<char> {
    match paq {
        Some(s) if s.len() > 0 => s,
        _ => seq!['/'],
    }
}

/// The source prefix as the rewrite reads it: `/` when it is missing, empty
/// or `/`; otherwise the text without one trailing `/`.
pub open spec fn source_prefix(paq: Option<Seq<char>>) -> Seq<char> {
    match paq {
        Some(s) if s.len() > 0 && s != seq!['/'] => if s.last() == '/' {
            s.drop_last()
        } else {
            s
        },
        _ => seq!['/'],
    }
}

/// What is left of the request once the source prefix is taken off.
pub open spec fn remainder(req: Option<Seq<char>>, from: Option<Seq<char>>) -> Seq<char> {
    strip_or_stay(request_text(req), source_prefix(from))
}

/// The rewritten path-and-query for a request, a source prefix and a
/// destination path-and-query.
pub open spec fn merged_path(
    req: Option<Seq<char>>,
    from: Option<Seq<char>>,
    to: Option<Seq<char>>,
) -> Seq<char> {
    let r = remainder(req, from);
    let is_root = r == seq!['/'];
    let rem = strip_or_stay(r, seq!['/']);
    match to {
        None => if rem.len() == 0 {
            seq!['/']
        } else {
            rem
        },
        Some(t) => if rem.len() == 0 {
            if is_root && !ends_with(t, '/') {
                t + seq!['/']
            } else {
                t
            }
        } else if ends_with(t, '/') {
            t + rem
        } else if is_root {
            t + seq!['/']
        } else {
            t + seq!['/'] + rem
        },
    }
}

/// Reads the request's path-and-query.
pub fn extract_req<'a>(paq: Option<&'a str>) -> (r: &'a str)
    ensures
        r@ == request_text(opt_str_view(paq)),
{
    proof {
        reveal_strlit("/");
        assert("/"@ =~= seq!['/']);
    }
    match paq {
        Some(s) => if s.unicode_len() == 0 {
            "/"
        } else {
            s
        },
        None => "/",
    }
}

/// Reads the source prefix.
pub fn extract_from<'a>(paq: Option<&'a str>) -> (r: &'a str)
    ensures
        r@ == source_prefix(opt_str_view(paq)),
{
    proof {
        reveal_strlit("/");
        assert("/"@ =~= seq!['/']);
    }
    match paq {
        Some(s) => {
            let n = s.unicode_len();
            if n == 0 || str_eq(s, "/") {
                "/"
            } else if ends_with_char(s, '/') {
                let r = s.substring_char(0, n - 1);
                assert(r@ =~= s@.drop_last());
                r
            } else {
                s
            }
        },
        None => "/",
    }
}

/// Computes the rewritten path-and-query.
pub fn merge_paths(req: Option<&str>, from: Option<&str>, to: Option<&str>) -> (merged: String)
    ensures
        merged@ == merged_path(opt_str_view(req), opt_str_view(from), opt_str_view(to)),
{
    proof {
        reveal_strlit("/");
        assert("/"@ =~= seq!['/']);
    }
    let req_str = extract_req(req);
    let from_str = extract_from(from);
    let r = strip_prefix_or_stay(req_str, from_str);
    let is_root = str_eq(r, "/");
    let rem = strip_prefix_or_stay(r, "/");
    let rem_empty = rem.unicode_len() == 0;
    match to {
        None => if rem_empty {
            "/".to_owned()
        } else {
            rem.to_owned()
        },
        Some(t) => if rem_empty {
            if is_root && !ends_with_char(t, '/') {
                concat2(t, "/")
            } else {
                t.to_owned()
            }
        } else if ends_with_char(t, '/') {
            concat2(t, rem)
        } else if is_root {
            concat2(t, "/")
        } else {
            concat3(t, "/", rem)
        },
    }
}

/// The outcome of rewriting `req` for a service that forwards `from` to `to`:
/// the destination's scheme and authority around the merged path-and-query,
/// as the URI builder validates them.
pub open spec fn rewritten(req: UriView, from: Seq<char>, to: UriView) -> Result<UriView, Seq<char>> {
    uri_assembled(
        to.scheme,
        to.authority,
        merged_path(req.path_and_query, Some(from), to.path_and_query),
    )
}

/// Whether `after` and `r` are what the rewrite makes of the request URI
/// `before`: the rewritten URI, or the URI as it was and the builder's
/// message.
pub open spec fn is_rewrite(before: Uri, from: Seq<char>, to: UriView, after: Uri, r: Result<(), String>) -> bool {
    match rewritten(before@, from, to) {
        Ok(u) => r is Ok && after@ == u,
        Err(e) => r is Err && r->Err_0@ == e && after == before,
    }
}

/// The rewrite is deterministic: for the same request, source prefix and
/// destination it gives the same URI, or the same error.
pub proof fn lemma_rewrite_deterministic(
    before: Uri,
    from: Seq<char>,
    to: UriView,
    first: Uri,
    first_result: Result<(), String>,
    second: Uri,
    second_result: Result<(), String>,
)
    requires
        is_rewrite(before, from, to, first, first_result),
        is_rewrite(before, from, to, second, second_result),
    ensures
        first@ == second@,
        first_result is Ok <==> second_result is Ok,
        first_result is Err ==> first_result->Err_0@ == second_result->Err_0@,
{
}

/// Rewrites the request URI in place. On an error the request URI is left
/// as it was and the builder's message is returned.
pub fn merge_path_and_query(req_uri: &mut Uri, proxy_from: &str, proxy_to: &Uri) -> (r: Result<
    (),
    String,
>)
    ensures
        is_rewrite(*old(req_uri), proxy_from@, proxy_to@, *final(req_uri), r),
{
    let merged = merge_paths(
        opt_as_str(&req_uri.path_and_query),
        Some(proxy_from),
        opt_as_str(&proxy_to.path_and_query),
    );
    match Uri::assemble(&proxy_to.scheme, &proxy_to.authority, merged.as_str()) {
        Ok(uri) => {
            *req_uri = uri;
            Ok(())
        },
        Err(e) => Err(e),
    }
}

} // verus!
