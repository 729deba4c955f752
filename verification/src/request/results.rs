/*!
The request builder for match results.

All builder methods are optional; `build` renders the collected filters
into the query string exactly as HLTV expects them.
*/
use vstd::prelude::*;

use vstd::string::*;

use crate::data::{game_map_code, GameMap, MatchResult};
use crate::request::{filter_code_spec, EventTypeFilter};
use crate::strutil::{dec_str, u32_to_dec};
use crate::Request;

verus! {

/// Request builder for match results.
#[derive(Debug)]
pub struct ResultRB {
    pub stars: u32,
    pub from: String,
    pub to: String,
    pub events: Vec<u32>,
    pub players: Vec<u32>,
    pub teams: Vec<u32>,
    pub maps: Vec<GameMap>,
    pub match_filter: EventTypeFilter,
}

impl Default for ResultRB {
    /// An empty filter set: no stars, no date range, nothing selected.
    fn default() -> (r: Self)
        ensures
            r.stars == 0,
            r.from@ == Seq::<char>::empty(),
            r.to@ == Seq::<char>::empty(),
            r.events@ == Seq::<u32>::empty(),
            r.players@ == Seq::<u32>::empty(),
            r.teams@ == Seq::<u32>::empty(),
            r.maps@ == Seq::<GameMap>::empty(),
            r.match_filter == EventTypeFilter::All,
    {
        ResultRB {
            stars: 0,
            from: String::new(),
            to: String::new(),
            events: Vec::new(),
            players: Vec::new(),
            teams: Vec::new(),
            maps: Vec::new(),
            match_filter: EventTypeFilter::All,
        }
    }
}

/// Use this to build requests for match results.
pub fn results() -> (r: ResultRB)
    ensures
        r.stars == 0,
        r.from@ == Seq::<char>::empty(),
        r.to@ == Seq::<char>::empty(),
        r.events@ == Seq::<u32>::empty(),
        r.players@ == Seq::<u32>::empty(),
        r.teams@ == Seq::<u32>::empty(),
        r.maps@ == Seq::<GameMap>::empty(),
        r.match_filter == EventTypeFilter::All,
{
    ResultRB::default()
}

/// The rendering of `2016-01-01`-style dates from numeric parts.
pub open spec fn date_text(y: nat, m: nat, d: nat) -> Seq<char> {
    dec_str(y) + "-"@ + dec_str(m) + "-"@ + dec_str(d)
}

/// One `&name=value` query fragment per number, in order.
pub open spec fn amp_u32_list(prefix: Seq<char>, xs: Seq<u32>) -> Seq<char>
    decreases xs.len(),
{
    if xs.len() == 0 {
        Seq::empty()
    } else {
        amp_u32_list(prefix, xs.drop_last()) + prefix + dec_str(xs.last() as nat)
    }
}

/// One `&map=code` query fragment per map, in order.
pub open spec fn amp_map_list(xs: Seq<GameMap>) -> Seq<char>
    decreases xs.len(),
{
    if xs.len() == 0 {
        Seq::empty()
    } else {
        amp_map_list(xs.drop_last()) + "&map="@ + game_map_code(xs.last())
    }
}

/// The full query string of a result request.
pub open spec fn results_query(b: ResultRB) -> Seq<char> {
    "results?stars="@ + dec_str(b.stars as nat) + "&matchType="@ + filter_code_spec(b.match_filter)
        + (if b.from@.len() > 0 && b.to@.len() > 0 {
        "&startDate="@ + b.from@ + "&endDate="@ + b.to@
    } else {
        Seq::empty()
    }) + amp_u32_list("&event="@, b.events@) + amp_u32_list("&player="@, b.players@) + amp_u32_list(
        "&team="@,
        b.teams@,
    ) + amp_map_list(b.maps@)
}

/// Appends `&prefix` + the decimal rendering of every number to `out`.
#[verifier::loop_isolation(false)]
fn append_u32_list(out: &mut String, prefix: &str, xs: &Vec<u32>)
    ensures
        final(out)@ == old(out)@ + amp_u32_list(prefix@, xs@),
{
    let n = xs.len();
    let mut i: usize = 0;
    proof {
        assert(xs@.subrange(0, 0) =~= Seq::<u32>::empty());
        assert(old(out)@ + Seq::<char>::empty() =~= old(out)@);
    }
    while i < n
        invariant
            0 <= i <= n,
            out@ == old(out)@ + amp_u32_list(prefix@, xs@.subrange(0, i as int)),
        decreases n - i,
    {
        proof {
            assert(xs@.subrange(0, (i + 1) as int).drop_last() =~= xs@.subrange(0, i as int));
            assert(xs@.subrange(0, (i + 1) as int).last() == xs@[i as int]);
        }
        out.append(prefix);
        let digits = u32_to_dec(xs[i]);
        out.append(digits.as_str());
        i += 1;
    }
    proof {
        assert(xs@.subrange(0, n as int) =~= xs@);
    }
}

/// Here you can find all builder methods to specify which match
/// results you want to fetch.
impl ResultRB {
    #[must_use]
    pub fn stars(self, stars: u32) -> (r: Self)
        ensures
            r == (ResultRB { stars, ..self }),
    {
        ResultRB { stars, ..self }
    }

    /// Get results from a particular year.
    #[must_use]
    pub fn year(self, year: u32) -> (r: Self)
        ensures
            r.from@ == dec_str(year as nat) + "-01-01"@,
            r.to@ == dec_str(year as nat) + "-12-31"@,
            r == (ResultRB { from: r.from, to: r.to, ..self }),
    {
        let mut from = u32_to_dec(year);
        from.append("-01-01");
        let mut to = u32_to_dec(year);
        to.append("-12-31");
        ResultRB { from, to, ..self }
    }

    /// Specify the start date of results. Should be used with `.to()`.
    #[must_use]
    pub fn from(self, year: u32, month: u32, day: u32) -> (r: Self)
        ensures
            r.from@ == date_text(year as nat, month as nat, day as nat),
            r == (ResultRB { from: r.from, ..self }),
    {
        let mut from = u32_to_dec(year);
        from.append("-");
        let m = u32_to_dec(month);
        from.append(m.as_str());
        from.append("-");
        let d = u32_to_dec(day);
        from.append(d.as_str());
        ResultRB { from, ..self }
    }

    /// Specify the end date of results. Needs to be used with `.from()`.
    #[must_use]
    pub fn to(self, year: u32, month: u32, day: u32) -> (r: Self)
        ensures
            r.to@ == date_text(year as nat, month as nat, day as nat),
            r == (ResultRB { to: r.to, ..self }),
    {
        let mut to = u32_to_dec(year);
        to.append("-");
        let m = u32_to_dec(month);
        to.append(m.as_str());
        to.append("-");
        let d = u32_to_dec(day);
        to.append(d.as_str());
        ResultRB { to, ..self }
    }

    /// Only select results with the given event ID.
    #[must_use]
    pub fn event(self, event_id: u32) -> (r: Self)
        ensures
            r.events@ == seq![event_id],
            r == (ResultRB { events: r.events, ..self }),
    {
        let mut events: Vec<u32> = Vec::new();
        events.push(event_id);
        proof {
            assert(events@ =~= seq![event_id]);
        }
        ResultRB { events, ..self }
    }

    /// Only select results with the given event IDs.
    #[must_use]
    pub fn events(self, event_ids: Vec<u32>) -> (r: Self)
        ensures
            r == (ResultRB { events: event_ids, ..self }),
    {
        ResultRB { events: event_ids, ..self }
    }

    /// Only select results where the given player ID participated.
    #[must_use]
    pub fn player(self, player_id: u32) -> (r: Self)
        ensures
            r.players@ == seq![player_id],
            r == (ResultRB { players: r.players, ..self }),
    {
        let mut players: Vec<u32> = Vec::new();
        players.push(player_id);
        proof {
            assert(players@ =~= seq![player_id]);
        }
        ResultRB { players, ..self }
    }

    /// Only select results where the given player IDs participated.
    #[must_use]
    pub fn players(self, player_ids: Vec<u32>) -> (r: Self)
        ensures
            r == (ResultRB { players: player_ids, ..self }),
    {
        ResultRB { players: player_ids, ..self }
    }

    /// Only select results where the given team ID participated.
    #[must_use]
    pub fn team(self, team_id: u32) -> (r: Self)
        ensures
            r.teams@ == seq![team_id],
            r == (ResultRB { teams: r.teams, ..self }),
    {
        let mut teams: Vec<u32> = Vec::new();
        teams.push(team_id);
        proof {
            assert(teams@ =~= seq![team_id]);
        }
        ResultRB { teams, ..self }
    }

    /// Only select results where the given team IDs participated.
    #[must_use]
    pub fn teams(self, team_ids: Vec<u32>) -> (r: Self)
        ensures
            r == (ResultRB { teams: team_ids, ..self }),
    {
        ResultRB { teams: team_ids, ..self }
    }

    /// Only select results where the given map was played.
    #[must_use]
    pub fn map(self, map: GameMap) -> (r: Self)
        ensures
            r.maps@ == seq![map],
            r == (ResultRB { maps: r.maps, ..self }),
    {
        let mut maps: Vec<GameMap> = Vec::new();
        maps.push(map);
        proof {
            assert(maps@ =~= seq![map]);
        }
        ResultRB { maps, ..self }
    }

    /// Only select results where the given maps were played.
    #[must_use]
    pub fn maps(self, maps: Vec<GameMap>) -> (r: Self)
        ensures
            r == (ResultRB { maps, ..self }),
    {
        ResultRB { maps, ..self }
    }

    #[must_use]
    pub fn event_type(self, event_filter: EventTypeFilter) -> (r: Self)
        ensures
            r == (ResultRB { match_filter: event_filter, ..self }),
    {
        ResultRB { match_filter: event_filter, ..self }
    }

    /// Renders the collected filters into a request URL.
    #[must_use]
    #[verifier::loop_isolation(false)]
    pub fn build(self) -> (r: Request<Vec<MatchResult>>)
        ensures
            r.url@ == "https://www.hltv.org/"@ + results_query(self),
    {
        let mut q = String::from_str("results?stars=");
        let stars = u32_to_dec(self.stars);
        q.append(stars.as_str());
        q.append("&matchType=");
        q.append(self.match_filter.code());
        if self.from.as_str().unicode_len() > 0 && self.to.as_str().unicode_len() > 0 {
            q.append("&startDate=");
            q.append(self.from.as_str());
            q.append("&endDate=");
            q.append(self.to.as_str());
        } else {
            proof {
                assert(q@ + Seq::<char>::empty() =~= q@);
            }
        }
        append_u32_list(&mut q, "&event=", &self.events);
        append_u32_list(&mut q, "&player=", &self.players);
        append_u32_list(&mut q, "&team=", &self.teams);
        let n = self.maps.len();
        let mut i: usize = 0;
        let ghost base = q@;
        proof {
            assert(self.maps@.subrange(0, 0) =~= Seq::<GameMap>::empty());
            assert(base + Seq::<char>::empty() =~= base);
        }
        while i < n
            invariant
                0 <= i <= n,
                q@ == base + amp_map_list(self.maps@.subrange(0, i as int)),
            decreases n - i,
        {
            proof {
                assert(self.maps@.subrange(0, (i + 1) as int).drop_last() =~= self.maps@.subrange(
                    0,
                    i as int,
                ));
                assert(self.maps@.subrange(0, (i + 1) as int).last() == self.maps@[i as int]);
            }
            q.append("&map=");
            q.append(self.maps[i].code());
            i += 1;
        }
        proof {
            assert(self.maps@.subrange(0, n as int) =~= self.maps@);
        }
        let mut url = String::from_str("https://www.hltv.org/");
        url.append(q.as_str());
        Request::new(url)
    }
}

} // verus!
