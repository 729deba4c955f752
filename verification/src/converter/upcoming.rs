/*!
The converter for the upcoming-match list page.

Every `upcomingMatch` container becomes one record.  Identity, stars,
the event description and the start time are required; the two teams
are optional, since fixtures may not have both participants decided.
*/
use vstd::prelude::*;

use crate::data::{MatchFormat, Team, TeamView, UpcomingMatch, UpcomingMatchView};
use crate::dom::{all_with_class, Document, Elem};
use crate::rich::{
    rich_attr, rich_attr_i64, rich_attr_u32, rich_find, rich_text, RichNode,
};
use crate::strutil::{parse_u32, parse_u32_spec, split_nth, split_seq};
use crate::Error;

verus! {

/// The match ID of one container: the numeric third path segment of
/// its `match` link.
pub open spec fn upcoming_id_spec(c: Option<Elem>) -> Result<u32, Error> {
    match rich_attr(rich_find(c, "match"@), "href"@) {
        None => Err(Error::ParseError),
        Some(href) => if split_seq(href, '/').len() <= 2 {
            Err(Error::ParseError)
        } else {
            match parse_u32_spec(split_seq(href, '/')[2]) {
                Some(id) => Ok(id),
                None => Err(Error::ConversionError("match ID isn't a valid number")),
            }
        },
    }
}

/// The star rating of one container, from its `stars` attribute.
pub open spec fn upcoming_stars_spec(c: Option<Elem>) -> Result<u32, Error> {
    match rich_attr_u32(c, "stars"@) {
        Err(e) => Err(e),
        Ok(None) => Err(Error::ConversionError("no stars attribute in div.upcomingMatch")),
        Ok(Some(s)) => Ok(s),
    }
}

/// The team in the given slot: its ID from the container attribute of
/// the slot's name, its display name from the nested name element.
/// `None` whenever either is missing or malformed.
pub open spec fn upcoming_team_spec(c: Option<Elem>, slot: Seq<char>) -> Option<TeamView> {
    match rich_attr_u32(c, slot) {
        Ok(Some(id)) => match rich_text(rich_find(rich_find(c, slot), "matchTeamName"@)) {
            Some(name) => Some(
                TeamView { id, name, logo: Seq::empty(), alt_logo: None },
            ),
            None => None,
        },
        _ => None,
    }
}

/// The event description: the event name element when teams are known,
/// the empty-info element otherwise.
pub open spec fn upcoming_event_spec(c: Option<Elem>) -> Result<Seq<char>, Error> {
    let named = rich_find(rich_find(rich_find(c, "match"@), "matchEvent"@), "matchEventName"@);
    match named {
        Some(_) => match rich_text(named) {
            Some(t) => Ok(t),
            None => Err(Error::ParseError),
        },
        None => {
            let empty = rich_find(
                rich_find(rich_find(c, "match"@), "matchInfoEmpty"@),
                "line-clamp-3"@,
            );
            match empty {
                Some(_) => match rich_text(empty) {
                    Some(t) => Ok(t),
                    None => Err(Error::ParseError),
                },
                None => Err(Error::ConversionError("no event description found")),
            }
        },
    }
}

/// The start time in Unix seconds, from the zoned-grouping attribute
/// in milliseconds, truncating toward zero.  A pre-epoch timestamp is
/// a valid date, not an error.
pub open spec fn upcoming_date_spec(c: Option<Elem>) -> Result<i64, Error> {
    match rich_attr_i64(c, "data-zonedgrouping-entry-unix"@) {
        Err(e) => Err(e),
        Ok(None) => Err(Error::ConversionError("time is not set in div")),
        Ok(Some(ts)) => Ok(crate::strutil::ms_to_secs_spec(ts)),
    }
}

/// One upcoming-match container as a record, fields resolved in
/// declaration order with the first error aborting.  The list layout
/// does not show the format, so it defaults to Bo1.
pub open spec fn upcoming_item_spec(c: Elem) -> Result<UpcomingMatchView, Error> {
    let r = Some(c);
    match upcoming_id_spec(r) {
        Err(e) => Err(e),
        Ok(id) => match upcoming_stars_spec(r) {
            Err(e) => Err(e),
            Ok(stars) => match upcoming_event_spec(r) {
                Err(e) => Err(e),
                Ok(event) => match upcoming_date_spec(r) {
                    Err(e) => Err(e),
                    Ok(date) => Ok(
                        UpcomingMatchView {
                            id,
                            team1: upcoming_team_spec(r, "team1"@),
                            team2: upcoming_team_spec(r, "team2"@),
                            event,
                            format: MatchFormat::Bo1,
                            date,
                            stars,
                        },
                    ),
                },
            },
        },
    }
}

/// Returns a Team contained in the container. Use slot `"team1"` or
/// `"team2"` to search for either.
pub fn parse_team(c: RichNode, slot: &str) -> (r: Option<Team>)
    ensures
        match r {
            Some(t) => upcoming_team_spec(c.opt(), slot@) == Some(t@),
            None => upcoming_team_spec(c.opt(), slot@) is None,
        },
{
    let id = match c.get_attr_u32(slot) {
        Ok(Some(i)) => i,
        _ => {
            return None;
        },
    };
    let name = match c.find(slot).find("matchTeamName").inner_text() {
        Some(n) => n,
        None => {
            return None;
        },
    };
    Some(Team { id, name, logo: String::new(), alt_logo: None })
}

/// Converts one upcoming-match container.
fn upcoming_item(c: &Elem) -> (r: Result<UpcomingMatch, Error>)
    ensures
        match (r, upcoming_item_spec(*c)) {
            (Ok(m), Ok(v)) => m@ == v,
            (Err(a), Err(b)) => a == b,
            _ => false,
        },
{
    let h = RichNode::from_elem(c);
    let href = match h.find("match").get_attr_str("href") {
        Some(x) => x,
        None => {
            return Err(Error::ParseError);
        },
    };
    let seg = match split_nth(href.as_str(), '/', 2) {
        Some(s) => s,
        None => {
            return Err(Error::ParseError);
        },
    };
    let id = match parse_u32(seg.as_str()) {
        Some(i) => i,
        None => {
            return Err(Error::ConversionError("match ID isn't a valid number"));
        },
    };
    let stars = match h.get_attr_u32("stars") {
        Err(e) => {
            return Err(e);
        },
        Ok(None) => {
            return Err(Error::ConversionError("no stars attribute in div.upcomingMatch"));
        },
        Ok(Some(s)) => s,
    };
    let named = h.find("match").find("matchEvent").find("matchEventName");
    let event = match named.n {
        Some(_) => match named.inner_text() {
            Some(t) => t,
            None => {
                return Err(Error::ParseError);
            },
        },
        None => {
            let empty = h.find("match").find("matchInfoEmpty").find("line-clamp-3");
            match empty.n {
                Some(_) => match empty.inner_text() {
                    Some(t) => t,
                    None => {
                        return Err(Error::ParseError);
                    },
                },
                None => {
                    return Err(Error::ConversionError("no event description found"));
                },
            }
        },
    };
    let ts = match h.get_attr_i64("data-zonedgrouping-entry-unix") {
        Err(e) => {
            return Err(e);
        },
        Ok(None) => {
            return Err(Error::ConversionError("time is not set in div"));
        },
        Ok(Some(t)) => t,
    };
    let date = crate::strutil::ms_to_secs(ts);
    let team1 = parse_team(h, "team1");
    let team2 = parse_team(h, "team2");
    Ok(
        UpcomingMatch { id, team1, team2, event, format: MatchFormat::Bo1, date, stars },
    )
}

/// The records of a list of containers, first error aborting.
pub open spec fn upcoming_list_spec(cs: Seq<Elem>) -> Result<Seq<UpcomingMatchView>, Error>
    decreases cs.len(),
{
    if cs.len() == 0 {
        Ok(Seq::empty())
    } else {
        match upcoming_item_spec(cs[0]) {
            Err(e) => Err(e),
            Ok(m) => match upcoming_list_spec(cs.drop_first()) {
                Err(e) => Err(e),
                Ok(rest) => Ok(seq![m] + rest),
            },
        }
    }
}

/// What converting an upcoming-match list page yields: one record per
/// `upcomingMatch` container, in document order.
pub open spec fn upcoming_spec(d: Document) -> Result<Seq<UpcomingMatchView>, Error> {
    upcoming_list_spec(all_with_class(d.elems(), "upcomingMatch"@))
}

/// The views of a sequence of upcoming matches.
pub open spec fn upcoming_views(s: Seq<UpcomingMatch>) -> Seq<UpcomingMatchView> {
    Seq::new(s.len(), |i: int| s[i]@)
}

/// Converts a parsed document holding an upcoming-match list page.
#[verifier::loop_isolation(false)]
pub fn convert(d: &Document) -> (r: Result<Vec<UpcomingMatch>, Error>)
    ensures
        match (r, upcoming_spec(*d)) {
            (Ok(v), Ok(s)) => upcoming_views(v@) == s,
            (Err(a), Err(b)) => a == b,
            _ => false,
        },
{
    let containers = d.find_all_class("upcomingMatch");
    let ghost cs = all_with_class(d.elems(), "upcomingMatch"@);
    let mut out: Vec<UpcomingMatch> = Vec::new();
    let n = containers.len();
    let mut i: usize = 0;
    proof {
        assert(cs.subrange(0, n as int) =~= cs);
        let m = upcoming_list_spec(cs);
        if m is Ok {
            assert(upcoming_views(out@) + m->Ok_0 =~= m->Ok_0);
        }
    }
    while i < n
        invariant
            0 <= i <= n,
            upcoming_list_spec(cs) == (match upcoming_list_spec(cs.subrange(i as int, n as int)) {
                Ok(rest) => Ok::<Seq<UpcomingMatchView>, Error>(upcoming_views(out@) + rest),
                Err(e) => Err(e),
            }),
        decreases n - i,
    {
        proof {
            assert(cs.subrange(i as int, n as int)[0] == cs[i as int]);
            assert(cs.subrange(i as int, n as int).drop_first() =~= cs.subrange(
                (i + 1) as int,
                n as int,
            ));
        }
        match upcoming_item(containers[i]) {
            Err(e) => {
                return Err(e);
            },
            Ok(m) => {
                let ghost mv = m@;
                let ghost prev = out@;
                out.push(m);
                proof {
                    let rest = upcoming_list_spec(cs.subrange((i + 1) as int, n as int));
                    if rest is Ok {
                        assert(upcoming_views(prev) + (seq![mv] + rest->Ok_0) =~= upcoming_views(
                            out@,
                        ) + rest->Ok_0);
                    }
                }
            },
        }
        i += 1;
    }
    proof {
        assert(cs.subrange(n as int, n as int) =~= Seq::<Elem>::empty());
        let m = upcoming_list_spec(cs);
        if m is Ok {
            assert(upcoming_views(out@) + Seq::<UpcomingMatchView>::empty() =~= upcoming_views(
                out@,
            ));
        }
    }
    Ok(out)
}

/// Identity comes from hyperlinks: whenever an upcoming-match record
/// is built, its ID is the numeric value embedded in the third path
/// segment of the container's `match` link.
pub proof fn lemma_upcoming_id_is_link_segment(c: Elem, v: UpcomingMatchView)
    requires
        upcoming_item_spec(c) == Ok::<UpcomingMatchView, Error>(v),
    ensures
        rich_attr(rich_find(Some(c), "match"@), "href"@) is Some,
        parse_u32_spec(
            split_seq(rich_attr(rich_find(Some(c), "match"@), "href"@)->0, '/')[2],
        ) == Some(v.id),
{
}

/// A fixture with no team slots resolved still converts: missing teams
/// make `team1` and `team2` absent, they never fail the record.
pub proof fn lemma_missing_teams_are_not_errors(c: Elem, v: UpcomingMatchView)
    requires
        upcoming_item_spec(c) == Ok::<UpcomingMatchView, Error>(v),
        rich_attr(Some(c), "team1"@) is None,
        rich_attr(Some(c), "team2"@) is None,
    ensures
        v.team1 is None,
        v.team2 is None,
{
}

/// Conversion is a pure function of the document: two conversions of
/// the same document yield identical records.
pub proof fn lemma_upcoming_deterministic(
    d: Document,
    r1: Result<Seq<UpcomingMatchView>, Error>,
    r2: Result<Seq<UpcomingMatchView>, Error>,
)
    requires
        r1 == upcoming_spec(d),
        r2 == upcoming_spec(d),
    ensures
        r1 == r2,
{
}

} // verus!
