use quote_harvest::address::{decimal_string, page_path_string, Site, SiteError};
use quote_harvest::fetch::{fetch_outcome, request_address, FetchError, Reply};

fn site(base: &str) -> Site {
    match Site::new(base) {
        Ok(site) => site,
        Err(e) => panic!("{:?}", e),
    }
}

#[test]
fn decimal_string_writes_digits_without_leading_zeros() {
    assert_eq!(decimal_string(0), "0");
    assert_eq!(decimal_string(7), "7");
    assert_eq!(decimal_string(10), "10");
    assert_eq!(decimal_string(11), "11");
    assert_eq!(decimal_string(109), "109");
    assert_eq!(decimal_string(1234567890), "1234567890");
    assert_eq!(decimal_string(usize::MAX), format!("{}", usize::MAX));
}

#[test]
fn page_path_is_page_slash_index_slash() {
    assert_eq!(page_path_string(1), "page/1/");
    assert_eq!(page_path_string(11), "page/11/");
    assert_eq!(page_path_string(0), "page/0/");
}

#[test]
fn page_url_joins_the_path_to_the_base() {
    let listing = site("https://quotes.toscrape.com/");
    assert_eq!(listing.page_url(1), Some("https://quotes.toscrape.com/page/1/".to_string()));
    assert_eq!(listing.page_url(11), Some("https://quotes.toscrape.com/page/11/".to_string()));
}

#[test]
fn page_url_replaces_the_last_segment_of_a_base_without_trailing_slash() {
    let listing = site("https://example.net/a/b.html");
    assert_eq!(listing.page_url(3), Some("https://example.net/a/page/3/".to_string()));
    let nested = site("https://example.net/a/b/");
    assert_eq!(nested.page_url(3), Some("https://example.net/a/b/page/3/".to_string()));
}

#[test]
fn base_is_normalised_when_read() {
    let listing = site("HTTPS://Example.NET");
    assert_eq!(listing.page_url(2), Some("https://example.net/page/2/".to_string()));
}

#[test]
fn relative_base_is_invalid() {
    assert!(matches!(Site::new("quotes/"), Err(SiteError::InvalidBase)));
    assert!(matches!(Site::new(""), Err(SiteError::InvalidBase)));
    assert!(matches!(Site::new("https://"), Err(SiteError::InvalidBase)));
}

#[test]
fn base_that_cannot_be_a_base_has_no_page_url() {
    let mail = site("mailto:someone@example.net");
    assert_eq!(mail.page_url(1), None);
    assert!(matches!(request_address(&mail, 1), Err(FetchError::Address)));
}

#[test]
fn request_address_is_the_page_url() {
    let listing = site("https://quotes.toscrape.com/");
    assert_eq!(
        request_address(&listing, 5),
        Ok("https://quotes.toscrape.com/page/5/".to_string())
    );
}

#[test]
fn success_status_gives_the_body() {
    let reply = Reply::Response { status: 200, body: "<html></html>".to_string() };
    assert_eq!(fetch_outcome(reply), Ok("<html></html>".to_string()));
    let reply = Reply::Response { status: 299, body: "x".to_string() };
    assert_eq!(fetch_outcome(reply), Ok("x".to_string()));
    let reply = Reply::Response { status: 204, body: String::new() };
    assert_eq!(fetch_outcome(reply), Ok(String::new()));
}

#[test]
fn other_status_is_an_http_status_error() {
    for status in [0u16, 100, 199, 300, 301, 404, 500, 65535] {
        let reply = Reply::Response { status, body: "ignored".to_string() };
        assert_eq!(fetch_outcome(reply), Err(FetchError::HttpStatus(status)));
    }
}

#[test]
fn no_response_is_a_transport_error() {
    assert_eq!(fetch_outcome(Reply::NoResponse), Err(FetchError::Transport));
}
