//! Web addresses, as the `url` crate parses them.
use vstd::prelude::*;

verus! {

/// The parts of a URL as the `url` crate parses it: its normalized text,
/// its path, its query (if any), its domain (if any) and the name-value
/// pairs of its query, decoded.
pub struct UrlModel {
    pub text: Seq<char>,
    pub path: Seq<char>,
    pub query: Option<Seq<char>>,
    pub domain: Option<Seq<char>>,
    pub pairs: Seq<(Seq<char>, Seq<char>)>,
}

/// The parts of a URL, as strings.
pub struct UrlFields {
    pub text: String,
    pub path: String,
    pub query: Option<String>,
    pub domain: Option<String>,
    pub pairs: Vec<(String, String)>,
}

/// The parts of the URL that `input` parses to; `None` where the text is no
/// valid URL.
pub uninterp spec fn url_parts(input: Seq<char>) -> Option<UrlModel>;

/// The view of an optional string.
pub open spec fn opt_view(q: Option<String>) -> Option<Seq<char>> {
    match q {
        Some(v) => Some(v@),
        None => None,
    }
}

/// The texts of name-value pairs.
pub open spec fn pairs_view(s: Seq<(String, String)>) -> Seq<(Seq<char>, Seq<char>)> {
    s.map_values(|p: (String, String)| (p.0@, p.1@))
}

/// The model of the parts of a URL.
pub open spec fn url_view(u: UrlFields) -> UrlModel {
    UrlModel {
        text: u.text@,
        path: u.path@,
        query: opt_view(u.query),
        domain: opt_view(u.domain),
        pairs: pairs_view(u.pairs@),
    }
}

/// `url::Url::parse`, then `Url::as_str`, `Url::path`, `Url::query`,
/// `Url::domain` and `Url::query_pairs`: the parts of the URL that `input`
/// parses to, or `None` when `url` refuses the text. The parts are named by
/// `url_parts`; nothing else is claimed of them.
#[verifier::external_body]
pub(crate) fn parse_url(input: &str) -> (r: Option<UrlFields>)
    ensures
        match r {
            Some(u) => url_parts(input@) == Some(url_view(u)),
            None => url_parts(input@) is None,
        },
{
    match url::Url::parse(input) {
        Ok(u) => Some(UrlFields {
            text: u.as_str().to_string(), path: u.path().to_string(),
            query: u.query().map(str::to_string), domain: u.domain().map(str::to_string),
            pairs: u.query_pairs().map(|(k, v)| (k.into_owned(), v.into_owned())).collect(),
        }),
        Err(_) => None,
    }
}

} // verus!
