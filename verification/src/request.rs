/*!
Builders for the request URLs of the supported HLTV pages.

A builder only assembles the query URL; fetching the page and parsing
the response stay with the caller.
*/
use vstd::prelude::*;

use core::marker::PhantomData;

pub mod match_page;
pub mod results;
pub mod upcoming;

verus! {

/// An event/match filter for building requests.
#[derive(Debug, Clone, Copy, PartialEq, Eq, Structural)]
pub enum EventTypeFilter {
    All,
    Lan,
    Online,
}

/// The query-string rendering of a filter.
pub open spec fn filter_code_spec(f: EventTypeFilter) -> Seq<char> {
    match f {
        EventTypeFilter::All => "All"@,
        EventTypeFilter::Lan => "LAN"@,
        EventTypeFilter::Online => "Online"@,
    }
}

impl EventTypeFilter {
    /// The filter as it appears in a query string.
    pub fn code(&self) -> (r: &'static str)
        ensures
            r@ == filter_code_spec(*self),
    {
        match self {
            EventTypeFilter::All => "All",
            EventTypeFilter::Lan => "LAN",
            EventTypeFilter::Online => "Online",
        }
    }
}

impl Default for EventTypeFilter {
    /// The default filter selects every event type.
    fn default() -> (r: Self)
        ensures
            r == EventTypeFilter::All,
    {
        EventTypeFilter::All
    }
}

/// Generic request builder: filter data `D` for a request producing
/// `T`. After using the builder methods, call `.build()` to generate a
/// `Request<T>` object.
pub struct RequestBuilder<T, D> {
    pub data: D,
    pub _p: PhantomData<T>,
}

} // verus!
