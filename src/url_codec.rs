//! The calls into the `url` crate: splitting a URL string into the components
//! that the model reads, and rendering a URL from a base and query pairs.

use vstd::prelude::*;

verus! {

#[verifier::external_type_specification]
#[verifier::external_body]
pub struct ExParseError(url::ParseError);

/// The characters of a sequence of owned key/value pairs.
pub open spec fn pairs_view(v: Seq<(String, String)>) -> Seq<(Seq<char>, Seq<char>)> {
    v.map_values(|p: (String, String)| (p.0@, p.1@))
}

/// What the model reads of a parsed URL.
pub struct UrlPartsView {
    pub scheme: Seq<char>,
    pub host: Option<Seq<char>>,
    pub path: Seq<char>,
    pub query: Seq<(Seq<char>, Seq<char>)>,
}

/// The components of a parsed URL: its scheme, its host if it has one, its
/// path, and its query decoded into key/value pairs in order.
pub struct UrlParts {
    pub scheme: String,
    pub host: Option<String>,
    pub path: String,
    pub query: Vec<(String, String)>,
}

impl View for UrlParts {
    type V = UrlPartsView;

    open spec fn view(&self) -> UrlPartsView {
        UrlPartsView {
            scheme: self.scheme@,
            host: match self.host {
                Some(h) => Some(h@),
                None => None,
            },
            path: self.path@,
            query: pairs_view(self.query@),
        }
    }
}

/// The components that the `url` crate finds in a string, or `None` where it
/// rejects the string.
pub uninterp spec fn parsed_url(input: Seq<char>) -> Option<UrlPartsView>;

/// The string that the `url` crate renders for a base URL with no query.
pub uninterp spec fn rendered_url(base: Seq<char>) -> Option<Seq<char>>;

/// The string that the `url` crate renders for a base URL followed by a query
/// of the given pairs, form-encoded in order.
pub uninterp spec fn rendered_url_with_query(
    base: Seq<char>,
    query: Seq<(Seq<char>, Seq<char>)>,
) -> Option<Seq<char>>;

/// Relies on `url::Url::parse` and the accessors `scheme`, `host_str`, `path`
/// and `query_pairs` of the parsed value: the result depends on the input
/// string alone.
#[verifier::external_body]
pub(crate) fn parse_url_parts(input: &str) -> (r: Result<UrlParts, url::ParseError>)
    ensures
        r is Ok <==> parsed_url(input@) is Some,
        r matches Ok(p) ==> parsed_url(input@) == Some(p@),
{
    let url = url::Url::parse(input)?;
    Ok(UrlParts {
        scheme: url.scheme().to_string(),
        host: url.host_str().map(|h| h.to_string()),
        path: url.path().to_string(),
        query: url.query_pairs().map(|(k, v)| (k.into_owned(), v.into_owned())).collect(),
    })
}

/// Relies on `url::Url::parse` and `Url`'s `Display`: the rendering depends on
/// the base string alone.
#[verifier::external_body]
pub(crate) fn render_url(base: &str) -> (r: Result<String, url::ParseError>)
    ensures
        r is Ok <==> rendered_url(base@) is Some,
        r matches Ok(s) ==> rendered_url(base@) == Some(s@),
{
    let url = url::Url::parse(base)?;
    Ok(url.to_string())
}

/// Relies on `url::Url::parse`, `Url::query_pairs_mut` with `extend_pairs`,
/// and `Url`'s `Display`: the rendering depends on the base string and the
/// pairs alone.
#[verifier::external_body]
pub(crate) fn render_url_with_query(base: &str, query: &Vec<(String, String)>) -> (r: Result<
    String,
    url::ParseError,
>)
    ensures
        r is Ok <==> rendered_url_with_query(base@, pairs_view(query@)) is Some,
        r matches Ok(s) ==> rendered_url_with_query(base@, pairs_view(query@)) == Some(s@),
{
    let mut url = url::Url::parse(base)?;
    url.query_pairs_mut().extend_pairs(query.iter());
    Ok(url.to_string())
}

} // verus!
