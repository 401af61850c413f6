//! Web addresses, parsed by the `url` crate into the parts the analysis reads.

use vstd::prelude::*;

verus! {

/// A parsed absolute URL, reduced to what the analysis needs: its
/// serialization, its (lower-case) scheme, its host if it has one, and its path.
#[derive(Clone, Debug)]
pub struct WebUrl {
    pub serialization: String,
    pub scheme: String,
    pub host: Option<String>,
    pub path: String,
}

/// The view of a URL: serialization, scheme, host, path.
pub type UrlView = (Seq<char>, Seq<char>, Option<Seq<char>>, Seq<char>);

impl WebUrl {
    pub open spec fn view(&self) -> UrlView {
        (
            self.serialization@,
            self.scheme@,
            match self.host {
                Some(h) => Some(h@),
                None => None,
            },
            self.path@,
        )
    }
}

/// What `url::Url::parse` makes of `input`: `None` when it is not an absolute
/// URL, otherwise its serialization, scheme, host and path.
pub uninterp spec fn url_parse(input: Seq<char>) -> Option<UrlView>;

/// Parses an absolute URL (`url::Url::parse`), keeping its serialization
/// (`as_str`), scheme, host (`host_str`) and path.
/// Trusted: the result is `url_parse` of the input.
#[verifier::external_body]
pub(crate) fn parse_url(input: &str) -> (r: Option<WebUrl>)
    ensures
        match r {
            None => url_parse(input@) is None,
            Some(u) => url_parse(input@) == Some(u.view()),
        },
{
    let u = url::Url::parse(input).ok()?;
    Some(WebUrl {
        serialization: u.as_str().to_string(),
        scheme: u.scheme().to_string(),
        host: u.host_str().map(|h| h.to_string()),
        path: u.path().to_string(),
    })
}

} // verus!
