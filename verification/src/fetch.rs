//! The outcome of fetching one page.
//!
//! The request itself is made outside this library. What comes back is
//! handed in as a [`Reply`], and [`fetch_outcome`] decides whether it is the
//! page's markup or a failure.

use crate::address::{page_address, Site};
use vstd::prelude::*;

verus! {

/// Why a page could not be fetched.
#[derive(Debug, Clone, Copy, PartialEq, Eq, Structural)]
pub enum FetchError {
    /// The page's address could not be built from the base address.
    Address,
    /// No response was received: a DNS, connect or timeout failure, or a
    /// response whose body could not be read.
    Transport,
    /// A response arrived with a status outside 200 to 299.
    HttpStatus(u16),
}

/// What came back from one request.
pub enum Reply {
    /// Nothing that can be read as a response.
    NoResponse,
    /// A response with its status code and its body as text.
    Response { status: u16, body: String },
}

/// A status from 200 to 299 is a success.
pub open spec fn is_success(status: u16) -> bool {
    200 <= status <= 299
}

/// Decides what a reply means: the markup of the page on a success status,
/// and otherwise the failure.
pub fn fetch_outcome(reply: Reply) -> (outcome: Result<String, FetchError>)
    ensures
        outcome == match reply {
            Reply::NoResponse => Err::<String, FetchError>(FetchError::Transport),
            Reply::Response { status, body } => if is_success(status) {
                Ok::<String, FetchError>(body)
            } else {
                Err::<String, FetchError>(FetchError::HttpStatus(status))
            },
        },
{
    match reply {
        Reply::NoResponse => Err(FetchError::Transport),
        Reply::Response { status, body } => {
            if 200 <= status && status <= 299 {
                Ok(body)
            } else {
                Err(FetchError::HttpStatus(status))
            }
        },
    }
}

/// The address to request for a page of a site.
pub fn request_address(site: &Site, page: usize) -> (address: Result<String, FetchError>)
    ensures
        match page_address(site.base, page as nat) {
            Some(text) => address matches Ok(a) && a@ == text,
            None => address == Err::<String, FetchError>(FetchError::Address),
        },
{
    match site.page_url(page) {
        Some(address) => Ok(address),
        None => Err(FetchError::Address),
    }
}

} // verus!
