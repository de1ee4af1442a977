use vstd::prelude::*;

use crate::client::ClientError;

verus! {

/// What `url::Url::parse` makes of a text: `None` where it rejects the text,
/// otherwise the canonical serialization of the parsed URL.
pub uninterp spec fn parsed_url(s: Seq<char>) -> Option<Seq<char>>;

/// Relies on `url::Url::parse`, which accepts exactly the valid absolute
/// URLs, and on `String::from(url)`, which returns the parsed URL's
/// serialization; both depend on the input text alone.
#[verifier::external_body]
pub(crate) fn parse_url_text(s: &str) -> (r: Option<String>)
    ensures
        match r {
            Some(n) => parsed_url(s@) == Some(n@),
            None => parsed_url(s@) is None,
        },
{
    match url::Url::parse(s) {
        Ok(u) => Some(String::from(u)),
        Err(_) => None,
    }
}

/// The base address of a remote archive service, held as the canonical
/// serialization of a valid absolute URL.
#[derive(Debug)]
pub struct BaseUrl {
    /// The serialized address.
    pub text: String,
}

impl BaseUrl {
    /// The address is the serialization of some text that parses as an
    /// absolute URL.
    pub open spec fn wf(self) -> bool {
        exists|s: Seq<char>| parsed_url(s) == Some(self.text@)
    }

    /// Parses and canonicalizes `s`, rejecting exactly the texts that are
    /// not valid absolute URLs.
    pub fn parse(s: &str) -> (r: Result<BaseUrl, ClientError>)
        ensures
            match r {
                Ok(u) => parsed_url(s@) == Some(u.text@) && u.wf(),
                Err(e) => parsed_url(s@) is None && e == ClientError::UrlDecoding,
            },
    {
        match parse_url_text(s) {
            Some(n) => Ok(BaseUrl { text: n }),
            None => Err(ClientError::UrlDecoding),
        }
    }

    /// The serialized address.
    pub fn as_str(&self) -> (r: &str)
        ensures
            r@ == self.text@,
    {
        self.text.as_str()
    }
}

impl Clone for BaseUrl {
    fn clone(&self) -> (r: Self)
        ensures
            r == *self,
    {
        BaseUrl { text: self.text.clone() }
    }
}

impl PartialEq for BaseUrl {
    fn eq(&self, other: &Self) -> (r: bool) {
        self.text == other.text
    }
}

impl vstd::std_specs::cmp::PartialEqSpecImpl for BaseUrl {
    open spec fn obeys_eq_spec() -> bool {
        true
    }

    open spec fn eq_spec(&self, other: &Self) -> bool {
        self.text@ == other.text@
    }
}

} // verus!
