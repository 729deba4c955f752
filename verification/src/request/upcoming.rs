/*!
The request builder for upcoming matches.
*/
use vstd::prelude::*;

use core::marker::PhantomData;
use vstd::string::*;

use crate::data::UpcomingMatch;
use crate::request::{filter_code_spec, EventTypeFilter, RequestBuilder};
use crate::strutil::{dec_str, u32_to_dec};
use crate::Request;

verus! {

/// Filter data for an upcoming-match request.
#[derive(Debug)]
pub struct UpcomingRB {
    pub top_tier: bool,
    pub events: Vec<u32>,
    pub event_filter: EventTypeFilter,
}

impl Default for UpcomingRB {
    /// An empty filter set.
    fn default() -> (r: Self)
        ensures
            r.top_tier == false,
            r.events@ == Seq::<u32>::empty(),
            r.event_filter == EventTypeFilter::All,
    {
        UpcomingRB { top_tier: false, events: Vec::new(), event_filter: EventTypeFilter::All }
    }
}

/// One `&event=id` query fragment per event, in order.
pub open spec fn amp_event_list(xs: Seq<u32>) -> Seq<char>
    decreases xs.len(),
{
    if xs.len() == 0 {
        Seq::empty()
    } else {
        amp_event_list(xs.drop_last()) + "&event="@ + dec_str(xs.last() as nat)
    }
}

/// The query string of an upcoming-match request.  The top-tier filter
/// is predefined on HLTV's side and overrides everything else.
pub open spec fn upcoming_query(b: UpcomingRB) -> Seq<char> {
    if b.top_tier {
        "matches?predefinedFilter=top_tier"@
    } else {
        "matches?eventType="@ + filter_code_spec(b.event_filter) + amp_event_list(b.events@)
    }
}

/// Use this to build requests for upcoming matches.
pub fn upcoming() -> (r: RequestBuilder<Vec<UpcomingMatch>, UpcomingRB>)
    ensures
        r.data.top_tier == false,
        r.data.events@ == Seq::<u32>::empty(),
        r.data.event_filter == EventTypeFilter::All,
{
    RequestBuilder { data: UpcomingRB::default(), _p: PhantomData }
}

/// Here you can find all builder methods to specify which upcoming
/// matches you want to fetch.
impl RequestBuilder<Vec<UpcomingMatch>, UpcomingRB> {
    #[must_use]
    pub fn top_tier(self) -> (r: Self)
        ensures
            r.data.top_tier == true,
            r.data.events == self.data.events,
            r.data.event_filter == self.data.event_filter,
    {
        RequestBuilder {
            data: UpcomingRB { top_tier: true, ..self.data },
            _p: PhantomData,
        }
    }

    #[must_use]
    pub fn events(self, event_ids: Vec<u32>) -> (r: Self)
        ensures
            r.data.top_tier == self.data.top_tier,
            r.data.events == event_ids,
            r.data.event_filter == self.data.event_filter,
    {
        RequestBuilder {
            data: UpcomingRB { events: event_ids, ..self.data },
            _p: PhantomData,
        }
    }

    #[must_use]
    pub fn event_type(self, event_filter: EventTypeFilter) -> (r: Self)
        ensures
            r.data.top_tier == self.data.top_tier,
            r.data.events == self.data.events,
            r.data.event_filter == event_filter,
    {
        RequestBuilder {
            data: UpcomingRB { event_filter, ..self.data },
            _p: PhantomData,
        }
    }

    /// Renders the collected filters into a request URL.
    #[must_use]
    #[verifier::loop_isolation(false)]
    pub fn build(self) -> (r: Request<Vec<UpcomingMatch>>)
        ensures
            r.url@ == "https://www.hltv.org/"@ + upcoming_query(self.data),
    {
        let mut url = String::from_str("https://www.hltv.org/");
        if self.data.top_tier {
            url.append("matches?predefinedFilter=top_tier");
            return Request::new(url);
        }
        url.append("matches?eventType=");
        url.append(self.data.event_filter.code());
        let n = self.data.events.len();
        let mut i: usize = 0;
        let ghost base = url@;
        proof {
            assert(self.data.events@.subrange(0, 0) =~= Seq::<u32>::empty());
            assert(base + Seq::<char>::empty() =~= base);
        }
        while i < n
            invariant
                0 <= i <= n,
                url@ == base + amp_event_list(self.data.events@.subrange(0, i as int)),
            decreases n - i,
        {
            proof {
                assert(self.data.events@.subrange(0, (i + 1) as int).drop_last()
                    =~= self.data.events@.subrange(0, i as int));
                assert(self.data.events@.subrange(0, (i + 1) as int).last()
                    == self.data.events@[i as int]);
            }
            url.append("&event=");
            let digits = u32_to_dec(self.data.events[i]);
            url.append(digits.as_str());
            i += 1;
        }
        proof {
            assert(self.data.events@.subrange(0, n as int) =~= self.data.events@);
        }
        Request::new(url)
    }
}

} // verus!
