//! Page addresses: the base address of the site joined with the path
//! `page/{index}/`.
//!
//! Reading and joining addresses is left to the `url` crate. Its calls are
//! believed, not proved, to return values that depend on their arguments
//! alone; the spec functions without a body give those values a name. The
//! path of a page is this library's own and is proved.

use url::{ParseError, Url};
use vstd::prelude::*;

verus! {

/// A parsed absolute address. Opaque to the verifier.
#[verifier::external_type_specification]
#[verifier::external_body]
pub struct ExUrl(Url);

/// The reason why a text is no address. Opaque to the verifier.
#[verifier::external_type_specification]
#[verifier::external_body]
pub struct ExParseError(ParseError);

/// The address that `Url::parse` reads from a text, or nothing where the
/// text is no absolute address.
pub uninterp spec fn parsed_url(input: Seq<char>) -> Option<Url>;

/// The address that `Url::join` resolves a reference to against a base, or
/// nothing where it cannot.
pub uninterp spec fn joined_url(base: Url, reference: Seq<char>) -> Option<Url>;

/// The serialization of an address, as `Url::as_str` returns it.
pub uninterp spec fn url_text(url: Url) -> Seq<char>;

/// Calls `Url::parse`. Believed, not proved: whether the text is accepted,
/// and the address that is read from it, depend on the text alone.
#[verifier::external_body]
pub(crate) fn parse_url(input: &str) -> (result: Result<Url, ParseError>)
    ensures
        result is Ok <==> parsed_url(input@) is Some,
        result matches Ok(url) ==> parsed_url(input@) == Some(url),
{
    Url::parse(input)
}

/// Calls `Url::join`. Believed, not proved: whether the reference can be
/// resolved, and the address that it resolves to, depend on the base and
/// the reference alone.
#[verifier::external_body]
pub(crate) fn join_url(base: &Url, reference: &str) -> (result: Result<Url, ParseError>)
    ensures
        result is Ok <==> joined_url(*base, reference@) is Some,
        result matches Ok(url) ==> joined_url(*base, reference@) == Some(url),
{
    base.join(reference)
}

/// Calls `Url::as_str`. Believed, not proved: the text depends on the
/// address alone.
#[verifier::external_body]
pub(crate) fn url_as_str(url: &Url) -> (text: &str)
    ensures
        text@ == url_text(*url),
{
    url.as_str()
}

/// The character of a decimal digit.
pub open spec fn digit(d: nat) -> char {
    if d == 0 {
        '0'
    } else if d == 1 {
        '1'
    } else if d == 2 {
        '2'
    } else if d == 3 {
        '3'
    } else if d == 4 {
        '4'
    } else if d == 5 {
        '5'
    } else if d == 6 {
        '6'
    } else if d == 7 {
        '7'
    } else if d == 8 {
        '8'
    } else {
        '9'
    }
}

/// The decimal notation of a number, without leading zeros.
pub open spec fn decimal(n: nat) -> Seq<char>
    decreases n,
{
    if n < 10 {
        seq![digit(n)]
    } else {
        decimal(n / 10).push(digit(n % 10))
    }
}

/// The path of a page below the base address: `page/{index}/`.
pub open spec fn page_path(page: nat) -> Seq<char> {
    seq!['p', 'a', 'g', 'e', '/'] + decimal(page) + seq!['/']
}

/// The address of a page, or nothing where the path cannot be joined to the base.
pub open spec fn page_address(base: Url, page: nat) -> Option<Seq<char>> {
    match joined_url(base, page_path(page)) {
        Some(url) => Some(url_text(url)),
        None => None,
    }
}

/// The text of one decimal digit.
fn digit_text(d: usize) -> (text: &'static str)
    requires
        d < 10,
    ensures
        text@ == seq![digit(d as nat)],
{
    proof {
        reveal_strlit("0");
        reveal_strlit("1");
        reveal_strlit("2");
        reveal_strlit("3");
        reveal_strlit("4");
        reveal_strlit("5");
        reveal_strlit("6");
        reveal_strlit("7");
        reveal_strlit("8");
        reveal_strlit("9");
    }
    let text = if d == 0 {
        "0"
    } else if d == 1 {
        "1"
    } else if d == 2 {
        "2"
    } else if d == 3 {
        "3"
    } else if d == 4 {
        "4"
    } else if d == 5 {
        "5"
    } else if d == 6 {
        "6"
    } else if d == 7 {
        "7"
    } else if d == 8 {
        "8"
    } else {
        "9"
    };
    assert(text@ =~= seq![digit(d as nat)]);
    text
}

/// Writes a number in decimal notation.
pub fn decimal_string(n: usize) -> (text: String)
    ensures
        text@ == decimal(n as nat),
{
    let mut rest: usize = n / 10;
    let mut text = String::from_str(digit_text(n % 10));
    while rest > 0
        invariant
            decimal(n as nat) == if rest > 0 {
                decimal(rest as nat) + text@
            } else {
                text@
            },
        decreases rest,
    {
        let ghost before = text@;
        text = String::from_str(digit_text(rest % 10)).concat(text.as_str());
        assert(text@ == seq![digit((rest % 10) as nat)] + before);
        assert(decimal(rest as nat) + before == if rest / 10 > 0 {
            decimal((rest / 10) as nat) + text@
        } else {
            text@
        });
        rest = rest / 10;
    }
    text
}

/// Writes the path of a page below the base address.
pub fn page_path_string(page: usize) -> (path: String)
    ensures
        path@ == page_path(page as nat),
{
    proof {
        reveal_strlit("page/");
        reveal_strlit("/");
    }
    let path = String::from_str("page/").concat(decimal_string(page).as_str()).concat("/");
    assert(path@ =~= page_path(page as nat));
    path
}

/// Why a site could not be set up.
#[derive(Debug, Clone, Copy, PartialEq, Eq, Structural)]
pub enum SiteError {
    /// The base is not an absolute address.
    InvalidBase,
}

/// The site whose pages are fetched, identified by its base address.
pub struct Site {
    pub base: Url,
}

impl Site {
    /// Reads the base address of a site.
    pub fn new(base: &str) -> (site: Result<Site, SiteError>)
        ensures
            match parsed_url(base@) {
                Some(url) => site matches Ok(s) && s.base == url,
                None => site == Err::<Site, SiteError>(SiteError::InvalidBase),
            },
    {
        match parse_url(base) {
            Ok(url) => Ok(Site { base: url }),
            Err(_) => Err(SiteError::InvalidBase),
        }
    }

    /// The address of a page of this site, or nothing where the page's path
    /// cannot be joined to the base address.
    pub fn page_url(&self, page: usize) -> (address: Option<String>)
        ensures
            match page_address(self.base, page as nat) {
                Some(text) => address matches Some(a) && a@ == text,
                None => address is None,
            },
    {
        let path = page_path_string(page);
        match join_url(&self.base, path.as_str()) {
            Ok(url) => Some(String::from_str(url_as_str(&url))),
            Err(_) => None,
        }
    }
}

} // verus!
