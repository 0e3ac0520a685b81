use vstd::prelude::*;

verus! {

/// Whether the text is a well-formed absolute URL; what `url::Url::parse`
/// accepts depends on the text alone.
pub uninterp spec fn is_url_string(s: Seq<char>) -> bool;

/// Relies on `url::Url::parse`: a purely syntactic check that the text is
/// a well-formed absolute URL.
#[verifier::external_body]
fn url_parse_ok(s: &str) -> (r: bool)
    ensures
        r == is_url_string(s@),
{
    url::Url::parse(s).is_ok()
}

/// A classified source reference: a remote URL or a local file path.
#[derive(Debug)]
pub enum DataSource {
    File(String),
    URL(String),
}

impl DataSource {
    /// Classify a path-or-URL string: a string that parses as a URL is
    /// remote, every other string is a local path.  Purely syntactic, no
    /// I/O, and no error case: every string resolves to one variant.
    pub fn new(path: &str) -> (r: Self)
        ensures
            is_url_string(path@) ==> (r matches DataSource::URL(u) && u@ == path@),
            !is_url_string(path@) ==> (r matches DataSource::File(f) && f@ == path@),
    {
        if url_parse_ok(path) {
            return DataSource::URL(path.to_owned());
        }
        DataSource::File(path.to_owned())
    }
}

} // verus!
