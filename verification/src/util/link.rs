//! Web addresses.

use crate::util::parse::Argument;
use vstd::prelude::*;

verus! {

/// What `url::Url::parse` makes of a piece of text: the serialization and the host of the address,
/// or what its error says.
pub uninterp spec fn url_parse(s: Seq<char>) -> Result<
    (Seq<char>, Option<Seq<char>>),
    Seq<char>,
>;

/// Calls `url::Url::parse` and hands out the address by its serialization (`as_str`) and its host
/// (`host_str`), or the error by its text. The outcome is a function of the text that is parsed,
/// and is named `url_parse`; nothing more is claimed of it.
#[verifier::external_body]
fn parse_address(s: &str) -> (r: Result<(String, Option<String>), String>)
    ensures
        match r {
            Ok((text, host)) => url_parse(s@) == Ok::<_, Seq<char>>(
                (
                    text@,
                    match host {
                        Some(h) => Some(h@),
                        None => None,
                    },
                ),
            ),
            Err(e) => url_parse(s@) == Err::<(Seq<char>, Option<Seq<char>>), _>(e@),
        },
{
    match url::Url::parse(s) {
        Ok(u) => Ok((u.as_str().to_owned(), u.host_str().map(str::to_owned))),
        Err(e) => Err(e.to_string()),
    }
}

/// A web address. It comes from text that was parsed, or is one of the library's own.
#[derive(Debug)]
pub struct Url {
    /// The whole address.
    text: String,
    /// The host part, where there is one.
    host: Option<String>,
}

/// What an address is made of, as far as it matters here.
pub struct UrlView {
    /// The whole address.
    pub text: Seq<char>,
    /// The host part, where there is one.
    pub host: Option<Seq<char>>,
}

impl View for Url {
    type V = UrlView;

    closed spec fn view(&self) -> UrlView {
        UrlView {
            text: self.text@,
            host: match self.host {
                Some(h) => Some(h@),
                None => None,
            },
        }
    }
}

/// Why a piece of text is no web address.
#[derive(Debug)]
pub struct UrlError {
    /// What the error says.
    pub message: String,
}

impl View for UrlError {
    type V = Seq<char>;

    open spec fn view(&self) -> Seq<char> {
        self.message@
    }
}

/// The address that a piece of text stands for.
pub open spec fn url_of_text(s: Seq<char>) -> Result<UrlView, Seq<char>> {
    match url_parse(s) {
        Ok((text, host)) => Ok(UrlView { text, host }),
        Err(e) => Err(e),
    }
}

impl Url {
    /// Parses an address.
    pub fn parse(s: &str) -> (r: Result<Url, UrlError>)
        ensures
            match r {
                Ok(u) => url_of_text(s@) == Ok::<UrlView, Seq<char>>(u@),
                Err(e) => url_of_text(s@) == Err::<UrlView, Seq<char>>(e@),
            },
    {
        match parse_address(s) {
            Ok((text, host)) => Ok(Url { text, host }),
            Err(message) => Err(UrlError { message }),
        }
    }

    /// An address of the library's own, of which the host is known.
    pub(crate) fn known(text: String, host: &str) -> (r: Url)
        ensures
            r@ == (UrlView { text: text@, host: Some(host@) }),
    {
        Url { text, host: Some(host.to_owned()) }
    }

    /// The whole address.
    pub fn as_str(&self) -> (r: &str)
        ensures
            r@ == self@.text,
    {
        self.text.as_str()
    }

    /// The host part, where there is one.
    pub fn host_str(&self) -> (r: Option<&str>)
        ensures
            match r {
                Some(h) => self@.host == Some(h@),
                None => self@.host is None,
            },
    {
        match &self.host {
            Some(h) => Some(h.as_str()),
            None => None,
        }
    }
}

impl Clone for Url {
    fn clone(&self) -> (r: Self)
        ensures
            r@ == self@,
    {
        let host = match &self.host {
            Some(h) => Some(h.clone()),
            None => None,
        };
        Url { text: self.text.clone(), host }
    }
}

impl Argument for Url {
    type Err = UrlError;

    open spec fn argument_of_text(s: Seq<char>) -> Result<UrlView, Seq<char>> {
        url_of_text(s)
    }

    fn parse_argument(s: &str) -> (r: Result<Url, UrlError>) {
        Url::parse(s)
    }
}

/// Text is an address exactly if the parser says so, and the address has the parts that the parser
/// finds. Otherwise the error is the parser's.
pub proof fn addresses_are_what_is_parsed(s: Seq<char>)
    ensures
        match url_parse(s) {
            Ok(parts) => url_of_text(s) matches Ok(url) && url.text == parts.0 && url.host
                == parts.1,
            Err(e) => url_of_text(s) matches Err(f) && f == e,
        },
        <Url as Argument>::argument_of_text(s) == url_of_text(s),
{
}

} // verus!
