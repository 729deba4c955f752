/*!
A library for parsing esports match data from HLTV pages.

The crate turns an already-parsed HTML document into strongly typed
records: upcoming matches, match results, detailed match pages and team
pages.  The document tree itself is modelled by [`dom::Document`]; the
conversion logic is specified and verified down to the shape of every
record it produces.

Fetching pages over the network is left to the caller; the request
builders under [`request`] only assemble the query URLs.
*/
use vstd::prelude::*;

use core::marker::PhantomData;

pub mod converter;
pub mod data;
pub mod dom;
pub mod parse;
pub mod request;
pub mod rich;
pub mod strutil;

pub use request::match_page::get_match;
pub use request::results::results;
pub use request::upcoming::upcoming;
pub use request::EventTypeFilter;

verus! {

/// A reusable request description: the URL of an HLTV page whose
/// response converts to `T`.
#[derive(Debug)]
pub struct Request<T> {
    /// The full request URL.
    pub url: String,
    pub _m: PhantomData<T>,
}

impl<T> Request<T> {
    /// Creates a new request object with the given url and conversion
    /// type.
    pub fn new(url: String) -> (r: Request<T>)
        ensures
            r.url == url,
    {
        Request { url, _m: PhantomData }
    }

    /// The URL this request would fetch.
    pub fn url(&self) -> (r: &String)
        ensures
            r@ == self.url@,
    {
        &self.url
    }
}

/// Errors that happen during request, parse or conversion of data.
#[derive(Debug, Clone, Copy, PartialEq, Eq)]
pub enum Error {
    /// Any non-200 status code.
    HTTPError,
    /// The HTML document is invalid and could not be parsed or coerced.
    ParseError,
    /// The parsed document can't be converted into the target type.
    ConversionError(&'static str),
}

impl Error {
    /// A short human-readable description of the error.
    pub fn message(&self) -> (r: &'static str)
        ensures
            self is HTTPError ==> r@ == "error with http client or remote server"@,
            self is ParseError ==> r@ == "error parsing received data"@,
            self is ConversionError ==> r@ == "error converting data into correct type"@,
    {
        match self {
            Error::HTTPError => "error with http client or remote server",
            Error::ParseError => "error parsing received data",
            Error::ConversionError(_) => "error converting data into correct type",
        }
    }
}

} // verus!
