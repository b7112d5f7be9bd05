//! URL parsing.
use vstd::prelude::*;

verus! {

/// A parsed absolute URL: its serialization and its scheme.
#[derive(Debug)]
pub struct ParsedUrl {
    pub text: String,
    pub scheme: String,
}

/// The serialization and the scheme of a URL, or the message of the error
/// that parsing it ends in.
pub uninterp spec fn parsed_url(text: Seq<char>) -> Result<(Seq<char>, Seq<char>), Seq<char>>;

/// Whether `url` is what parsing a text yields, given the name of the result.
pub open spec fn names_url(
    url: Result<ParsedUrl, String>,
    named: Result<(Seq<char>, Seq<char>), Seq<char>>,
) -> bool {
    match url {
        Ok(parsed) => named == Ok::<(Seq<char>, Seq<char>), Seq<char>>(
            (parsed.text@, parsed.scheme@),
        ),
        Err(error) => named == Err::<(Seq<char>, Seq<char>), Seq<char>>(error@),
    }
}

/// Calls `Url::parse`, and `Url::as_str` and `Url::scheme` on the URL or
/// `to_string` on the error. The result depends on the text alone and is
/// named `parsed_url`.
#[verifier::external_body]
pub(crate) fn parse_url(text: &str) -> (url: Result<ParsedUrl, String>)
    ensures
        names_url(url, parsed_url(text@)),
{
    match url::Url::parse(text) {
        Ok(url) => Ok(
            ParsedUrl { text: url.as_str().to_owned(), scheme: url.scheme().to_owned() },
        ),
        Err(error) => Err(error.to_string()),
    }
}

/// The serialization of the URL that `reference` stands for in a document with
/// the base URL `base`, where it stands for one.
pub uninterp spec fn joined_url(base: Seq<char>, reference: Seq<char>) -> Option<Seq<char>>;

/// Calls `Url::join` on the base URL, which `Url::parse` makes of its text,
/// and serializes the result. It depends on the two texts alone and is named
/// `joined_url`; where either text does not parse there is no result.
#[verifier::external_body]
pub(crate) fn join_url(base: &str, reference: &str) -> (url: Option<String>)
    ensures
        match url {
            Some(url) => joined_url(base@, reference@) == Some(url@),
            None => joined_url(base@, reference@) is None,
        },
{
    match url::Url::parse(base) {
        Ok(base) => match base.join(reference) {
            Ok(url) => Some(url.to_string()),
            Err(_) => None,
        },
        Err(_) => None,
    }
}

} // verus!
