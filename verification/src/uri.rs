//! URIs as the proxy reads them: scheme, authority and path-and-query, each a
//! plain string. Parsing and validation are done by the `http` crate.

use vstd::prelude::*;
use crate::text::{before_first, take_before};

verus! {

/// The components of a URI.
///
/// `path_and_query` holds the text that `http::uri::PathAndQuery::as_str`
/// gives, so a present but empty path reads `/`.
#[derive(Clone, Debug, PartialEq, Eq)]
pub struct Uri {
    pub scheme: Option<String>,
    pub authority: Option<String>,
    pub path_and_query: Option<String>,
}

/// The mathematical value of a [`Uri`].
pub struct UriView {
    pub scheme: Option<Seq<char>>,
    pub authority: Option<Seq<char>>,
    pub path_and_query: Option<Seq<char>>,
}

/// The view of an optional string.
pub open spec fn opt_view(s: Option<String>) -> Option<Seq<char>> {
    match s {
        Some(s) => Some(s@),
        None => None,
    }
}

/// The view of an optional string slice.
pub open spec fn opt_str_view(s: Option<&str>) -> Option<Seq<char>> {
    match s {
        Some(s) => Some(s@),
        None => None,
    }
}

/// The string slice inside an optional string.
pub fn opt_as_str(s: &Option<String>) -> (r: Option<&str>)
    ensures
        opt_str_view(r) == opt_view(*s),
{
    match s {
        Some(s) => Some(s.as_str()),
        None => None,
    }
}

impl View for Uri {
    type V = UriView;

    open spec fn view(&self) -> UriView {
        UriView {
            scheme: opt_view(self.scheme),
            authority: opt_view(self.authority),
            path_and_query: opt_view(self.path_and_query),
        }
    }
}

/// What `http::Uri::from_str` makes of `text`: the components of the parsed
/// URI, or the message of the error.
pub uninterp spec fn uri_parsed(text: Seq<char>) -> Result<UriView, Seq<char>>;

/// What `http::uri::Builder` makes of the three components: the URI that
/// `build` returns, or the message of the error.
pub uninterp spec fn uri_assembled(
    scheme: Option<Seq<char>>,
    authority: Option<Seq<char>>,
    path_and_query: Seq<char>,
) -> Result<UriView, Seq<char>>;

/// The view of a parse or assembly result.
pub open spec fn result_view(r: Result<Uri, String>) -> Result<UriView, Seq<char>> {
    match r {
        Ok(u) => Ok(u@),
        Err(e) => Err(e@),
    }
}

/// The path of a URI, without the query: empty when the URI has no
/// path-and-query component, `/` when that component has an empty path.
pub open spec fn path_of(u: UriView) -> Seq<char> {
    match u.path_and_query {
        None => Seq::empty(),
        Some(paq) => {
            let p = before_first(paq, '?');
            if p.len() == 0 {
                seq!['/']
            } else {
                p
            }
        },
    }
}

/// The text of a URI: the scheme and `://` where it has a scheme, the
/// authority where it has one, and the path-and-query.
pub open spec fn text_of(u: UriView) -> Seq<char> {
    (match u.scheme {
        Some(s) => s + "://"@,
        None => Seq::empty(),
    }) + (match u.authority {
        Some(a) => a,
        None => Seq::empty(),
    }) + (match u.path_and_query {
        Some(p) => p,
        None => Seq::empty(),
    })
}

/// Calls `http::Uri::from_str` and takes the result apart with
/// `Uri::into_parts`, each part read by its `as_str`. The result is the named
/// value [`uri_parsed`] of the text; an error is carried by its message.
#[verifier::external_body]
fn http_parse(text: &str) -> (r: Result<Uri, String>)
    ensures
        result_view(r) == uri_parsed(text@),
{
    let parts = match text.parse::<http::Uri>() {
        Ok(uri) => uri.into_parts(),
        Err(e) => return Err(e.to_string()),
    };
    let scheme = match parts.scheme { Some(s) => Some(s.as_str().to_string()), None => None };
    let authority = match parts.authority { Some(a) => Some(a.as_str().to_string()), None => None };
    let path_and_query = match parts.path_and_query { Some(p) => Some(p.as_str().to_string()), None => None };
    Ok(Uri { scheme, authority, path_and_query })
}

/// Hands the components to `http::uri::Builder` (`scheme`, `authority`,
/// `path_and_query`, `build`) and takes the built URI apart with
/// `Uri::into_parts`, each part read by its `as_str`. The result is the
/// named value [`uri_assembled`] of the components.
#[verifier::external_body]
fn http_assemble(scheme: Option<&str>, authority: Option<&str>, path_and_query: &str) -> (r: Result<
    Uri,
    String,
>)
    ensures
        result_view(r) == uri_assembled(
            opt_str_view(scheme),
            opt_str_view(authority),
            path_and_query@,
        ),
{
    let mut builder = http::Uri::builder();
    if let Some(s) = scheme { builder = builder.scheme(s); }
    if let Some(a) = authority { builder = builder.authority(a); }
    let parts = match builder.path_and_query(path_and_query).build() {
        Ok(uri) => uri.into_parts(),
        Err(e) => return Err(e.to_string()),
    };
    let scheme = match parts.scheme { Some(s) => Some(s.as_str().to_string()), None => None };
    let authority = match parts.authority { Some(a) => Some(a.as_str().to_string()), None => None };
    let path_and_query = match parts.path_and_query { Some(p) => Some(p.as_str().to_string()), None => None };
    Ok(Uri { scheme, authority, path_and_query })
}

impl Uri {
    /// A copy of this URI.
    pub fn duplicate(&self) -> (r: Uri)
        ensures
            r == *self,
    {
        Uri {
            scheme: match &self.scheme {
                Some(s) => Some(s.clone()),
                None => None,
            },
            authority: match &self.authority {
                Some(s) => Some(s.clone()),
                None => None,
            },
            path_and_query: match &self.path_and_query {
                Some(s) => Some(s.clone()),
                None => None,
            },
        }
    }

    /// Parses a URI.
    pub fn parse(text: &str) -> (r: Result<Uri, String>)
        ensures
            result_view(r) == uri_parsed(text@),
    {
        http_parse(text)
    }

    /// Builds a URI from its components, validating each of them.
    pub fn assemble(scheme: &Option<String>, authority: &Option<String>, path_and_query: &str) -> (r:
        Result<Uri, String>)
        ensures
            result_view(r) == uri_assembled(
                opt_view(*scheme),
                opt_view(*authority),
                path_and_query@,
            ),
    {
        http_assemble(opt_as_str(scheme), opt_as_str(authority), path_and_query)
    }

    /// Writes the URI as text.
    pub fn to_text(&self) -> (r: String)
        ensures
            r@ == text_of(self@),
    {
        let mut r = String::new();
        match &self.scheme {
            Some(s) => {
                r.append(s.as_str());
                r.append("://");
            },
            None => {},
        }
        match &self.authority {
            Some(a) => {
                r.append(a.as_str());
            },
            None => {},
        }
        match &self.path_and_query {
            Some(p) => {
                r.append(p.as_str());
            },
            None => {},
        }
        assert(r@ =~= text_of(self@));
        r
    }

    /// The path of this URI, without the query.
    pub fn path(&self) -> (p: String)
        ensures
            p@ == path_of(self@),
    {
        match &self.path_and_query {
            None => String::new(),
            Some(paq) => {
                let p = take_before(paq.as_str(), '?');
                if p.unicode_len() == 0 {
                    proof {
                        reveal_strlit("/");
                        assert("/"@ =~= seq!['/']);
                    }
                    "/".to_owned()
                } else {
                    p.to_owned()
                }
            },
        }
    }
}

} // verus!
