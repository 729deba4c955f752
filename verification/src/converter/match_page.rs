/*!
The converter for a match detail page.

A match page carries the richest data of all layouts: identity, both
teams, event, start time, format, the overall score, per-map scores and
per-player statistics.  Identity-bearing fields abort the conversion
with the first error; cosmetic or state-dependent fields degrade to
`None` or empty instead.
*/
use vstd::prelude::*;

use crate::data::{
    game_map_from_name, Event, EventView, GameMap, MapScore, MatchFormat, MatchScore, MatchStatus,
    Stats, Team, TeamView,
};
use crate::dom::{all_with_tag, attr_str_spec, first_with_class, Document, Elem};
use crate::rich::{
    rich_attr, rich_attr_i64, rich_child, rich_find, rich_find_all, rich_find_all_tag,
    rich_parse_u32, rich_text, RichNode,
};
use crate::strutil::{parse_u32, parse_u32_spec, split_nth, split_seq, str_eq};
use crate::Error;

verus! {

/// A hyperlink whose target is a match page: its second path segment is
/// `matches`, and a third segment (the ID) exists.
pub open spec fn is_match_link(e: Elem) -> bool {
    match attr_str_spec(e, "href"@) {
        Some(h) => split_seq(h, '/').len() > 2 && split_seq(h, '/')[1] == "matches"@,
        None => false,
    }
}

/// The target of the first match link among `s`, in order.
pub open spec fn first_match_href(s: Seq<Elem>) -> Option<Seq<char>>
    decreases s.len(),
{
    if s.len() == 0 {
        None
    } else if is_match_link(s[0]) {
        attr_str_spec(s[0], "href"@)
    } else {
        first_match_href(s.drop_first())
    }
}

/// Scanning a concatenation scans the left part first.
pub proof fn lemma_first_match_href_add(a: Seq<Elem>, b: Seq<Elem>)
    ensures
        first_match_href(a + b) == (if first_match_href(a) is Some {
            first_match_href(a)
        } else {
            first_match_href(b)
        }),
    decreases a.len(),
{
    if a.len() == 0 {
        assert(a + b =~= b);
    } else {
        assert((a + b)[0] == a[0]);
        assert((a + b).drop_first() =~= a.drop_first() + b);
        lemma_first_match_href_add(a.drop_first(), b);
    }
}

/// The match ID of the page under `root`: the numeric third path
/// segment of the first hyperlink that points at a match page.
pub open spec fn match_id_spec(root: Option<Elem>) -> Result<u32, Error> {
    match first_match_href(rich_find_all_tag(root, "a"@)) {
        None => Err(Error::ConversionError("no match link found")),
        Some(href) => match parse_u32_spec(split_seq(href, '/')[2]) {
            Some(id) => Ok(id),
            None => Err(Error::ConversionError("match ID isn't a valid number")),
        },
    }
}

/// Scans the hyperlinks under `root` for the match ID.
#[verifier::loop_isolation(false)]
pub fn get_match_id(root: RichNode) -> (r: Result<u32, Error>)
    ensures
        r == match_id_spec(root.opt()),
{
    let links = root.find_all_tag("a");
    let ghost all = rich_find_all_tag(root.opt(), "a"@);
    let n = links.len();
    let mut i: usize = 0;
    while i < n
        invariant
            0 <= i <= n,
            first_match_href(all.subrange(0, i as int)) is None,
        decreases n - i,
    {
        proof {
            assert(all.subrange(0, (i + 1) as int) =~= all.subrange(0, i as int) + seq![all[i as int]]);
            lemma_first_match_href_add(all.subrange(0, i as int), seq![all[i as int]]);
            assert(seq![all[i as int]].drop_first() =~= Seq::<Elem>::empty());
        }
        let link = links[i];
        match link.get_attr_str("href") {
            Some(href) => {
                let seg1 = split_nth(href.as_str(), '/', 1);
                let seg2 = split_nth(href.as_str(), '/', 2);
                match (seg1, seg2) {
                    (Some(s1), Some(s2)) => {
                        if str_eq(s1.as_str(), "matches") {
                            proof {
                                assert(is_match_link(all[i as int]));
                                assert(all =~= all.subrange(0, i as int) + all.subrange(
                                    i as int,
                                    n as int,
                                ));
                                lemma_first_match_href_add(
                                    all.subrange(0, i as int),
                                    all.subrange(i as int, n as int),
                                );
                                assert(all.subrange(i as int, n as int)[0] == all[i as int]);
                                assert(first_match_href(all.subrange(i as int, n as int))
                                    == attr_str_spec(all[i as int], "href"@));
                            }
                            return match parse_u32(s2.as_str()) {
                                Some(id) => Ok(id),
                                None => Err(Error::ConversionError("match ID isn't a valid number")),
                            };
                        }
                        proof {
                            assert(!is_match_link(all[i as int]));
                        }
                    },
                    _ => {
                        proof {
                            assert(!is_match_link(all[i as int]));
                        }
                    },
                }
            },
            None => {
                proof {
                    assert(!is_match_link(all[i as int]));
                }
            },
        }
        proof {
            assert(first_match_href(Seq::<Elem>::empty()) is None);
            assert(seq![all[i as int]].drop_first() =~= Seq::<Elem>::empty());
            assert(first_match_href(seq![all[i as int]]) is None);
            assert(first_match_href(all.subrange(0, (i + 1) as int)) is None);
        }
        i += 1;
    }
    proof {
        assert(all.subrange(0, n as int) =~= all);
    }
    Err(Error::ConversionError("no match link found"))
}

/// The team shown in the container with class `class`: ID from the
/// first child link, name from the nested name element, logo and the
/// optional night-mode logo read independently.  `None` when the
/// container, the link or the name is absent or the ID is not numeric.
pub open spec fn team_spec(root: Option<Elem>, class: Seq<char>) -> Option<TeamView> {
    let t = rich_find(root, class);
    match rich_attr(rich_child(t, 0), "href"@) {
        None => None,
        Some(href) => if split_seq(href, '/').len() <= 2 {
            None
        } else {
            match parse_u32_spec(split_seq(href, '/')[2]) {
                None => None,
                Some(id) => match rich_text(rich_find(t, "teamName"@)) {
                    None => None,
                    Some(name) => Some(
                        TeamView {
                            id,
                            name,
                            logo: match rich_attr(rich_find(t, "logo"@), "src"@) {
                                Some(l) => l,
                                None => Seq::empty(),
                            },
                            alt_logo: rich_attr(rich_find(t, "night-only"@), "src"@),
                        },
                    ),
                },
            }
        },
    }
}

/// Returns the team information, given the appropriate match-page root
/// element and the team container's class.
pub fn get_team(root: RichNode, class: &str) -> (r: Option<Team>)
    ensures
        match r {
            Some(t) => team_spec(root.opt(), class@) == Some(t@),
            None => team_spec(root.opt(), class@) is None,
        },
{
    let t = root.find(class);
    let c0 = match t.child(0) {
        Some(c) => c,
        None => {
            return None;
        },
    };
    let href = match c0.get_attr_str("href") {
        Some(h) => h,
        None => {
            return None;
        },
    };
    let seg = match split_nth(href.as_str(), '/', 2) {
        Some(s) => s,
        None => {
            return None;
        },
    };
    let id = match parse_u32(seg.as_str()) {
        Some(i) => i,
        None => {
            return None;
        },
    };
    let name = match t.find("teamName").inner_text() {
        Some(n) => n,
        None => {
            return None;
        },
    };
    let logo = match t.find("logo").get_attr_str("src") {
        Some(l) => l,
        None => String::new(),
    };
    let alt_logo = t.find("night-only").get_attr_str("src");
    Some(Team { id, name, logo, alt_logo })
}

/// The event of the match: ID from the event link's third path segment,
/// display name from its `title` attribute; both are required.
pub open spec fn event_spec(root: Option<Elem>) -> Result<EventView, Error> {
    match rich_child(rich_find(rich_find(root, "timeAndEvent"@), "event"@), 0) {
        None => Err(Error::ConversionError("no event data found")),
        Some(e) => match attr_str_spec(e, "href"@) {
            None => Err(Error::ConversionError("event element has no href link")),
            Some(href) => if split_seq(href, '/').len() <= 2 {
                Err(Error::ConversionError("event link has incorrect format"))
            } else {
                match parse_u32_spec(split_seq(href, '/')[2]) {
                    None => Err(Error::ConversionError("cant parse event ID")),
                    Some(id) => match attr_str_spec(e, "title"@) {
                        None => Err(Error::ConversionError("no title attribute in event")),
                        Some(name) => Ok(EventView { id, name }),
                    },
                }
            },
        },
    }
}

/// Returns event information, like event ID or name. Requires the
/// match-page root.
pub fn get_event(root: RichNode) -> (r: Result<Event, Error>)
    ensures
        match (r, event_spec(root.opt())) {
            (Ok(ev), Ok(v)) => ev@ == v,
            (Err(a), Err(b)) => a == b,
            _ => false,
        },
{
    let event = match root.find("timeAndEvent").find("event").child(0) {
        Some(e) => e,
        None => {
            return Err(Error::ConversionError("no event data found"));
        },
    };
    let href = match event.get_attr_str("href") {
        Some(h) => h,
        None => {
            return Err(Error::ConversionError("event element has no href link"));
        },
    };
    let seg = match split_nth(href.as_str(), '/', 2) {
        Some(s) => s,
        None => {
            return Err(Error::ConversionError("event link has incorrect format"));
        },
    };
    let id = match parse_u32(seg.as_str()) {
        Some(i) => i,
        None => {
            return Err(Error::ConversionError("cant parse event ID"));
        },
    };
    let name = match event.get_attr_str("title") {
        Some(n) => n,
        None => {
            return Err(Error::ConversionError("no title attribute in event"));
        },
    };
    Ok(Event { id, name })
}

/// The match's start time in Unix seconds: the `data-unix` attribute
/// (milliseconds) divided by 1000, truncating toward zero.  A
/// pre-epoch timestamp is a valid date, not an error.
pub open spec fn date_spec(root: Option<Elem>) -> Result<i64, Error> {
    match rich_attr_i64(rich_find(rich_find(root, "timeAndEvent"@), "time"@), "data-unix"@) {
        Err(e) => Err(e),
        Ok(None) => Err(Error::ConversionError("no data-unix attribute")),
        Ok(Some(ts)) => Ok(crate::strutil::ms_to_secs_spec(ts)),
    }
}

/// Return the match starting date. Shouldn't change over time.
pub fn get_date(root: RichNode) -> (r: Result<i64, Error>)
    ensures
        r == date_spec(root.opt()),
{
    let ts = match root.find("timeAndEvent").find("time").get_attr_i64("data-unix") {
        Ok(Some(t)) => t,
        Ok(None) => {
            return Err(Error::ConversionError("no data-unix attribute"));
        },
        Err(e) => {
            return Err(e);
        },
    };
    Ok(crate::strutil::ms_to_secs(ts))
}

/// The bo1 disambiguation heuristic: a side's counter above 8 that also
/// beats the other side is a round score, so the result collapses to a
/// 1-0 map score for that side; otherwise the raw numbers stand.
pub open spec fn resolve_score(t1: u32, t2: u32) -> MatchScore {
    if t1 > 8 && t1 > t2 {
        MatchScore { team1: 1, team2: 0 }
    } else if t2 > 8 && t2 > t1 {
        MatchScore { team1: 0, team2: 1 }
    } else {
        MatchScore { team1: t1, team2: t2 }
    }
}

/// The overall map-win score, if both counters are shown, after bo1
/// disambiguation.
pub open spec fn score_spec(root: Option<Elem>) -> Option<MatchScore> {
    let a = rich_parse_u32(rich_child(rich_find(root, "team1-gradient"@), 1));
    let b = rich_parse_u32(rich_child(rich_find(root, "team2-gradient"@), 1));
    match (a, b) {
        (Ok(Some(t1)), Ok(Some(t2))) => Some(resolve_score(t1, t2)),
        _ => None,
    }
}

/// Reads both sides' map-win counters and applies the bo1 heuristic.
pub fn get_score(root: RichNode) -> (r: Option<MatchScore>)
    ensures
        r == score_spec(root.opt()),
{
    let c1 = match root.find("team1-gradient").child(1) {
        Some(c) => c,
        None => {
            return None;
        },
    };
    let c2 = match root.find("team2-gradient").child(1) {
        Some(c) => c,
        None => {
            return None;
        },
    };
    let team1 = match c1.inner_parse_u32() {
        Ok(Some(t)) => t,
        _ => {
            return None;
        },
    };
    let team2 = match c2.inner_parse_u32() {
        Ok(Some(t)) => t,
        _ => {
            return None;
        },
    };
    // if one of the scores is high enough, it has to be a bo1
    if team1 > 8 && team1 > team2 {
        return Some(MatchScore { team1: 1, team2: 0 });
    }
    if team2 > 8 && team2 > team1 {
        return Some(MatchScore { team1: 0, team2: 1 });
    }
    Some(MatchScore { team1, team2 })
}

/// The match format from the number of map holders: 1, 3, 5 or 7 maps
/// give Bo1, Bo3, Bo5 or Bo7; any other count is a schema error.
pub open spec fn format_spec(root: Option<Elem>) -> Result<MatchFormat, Error> {
    let n = rich_find_all(root, "mapholder"@).len();
    if n == 1 {
        Ok(MatchFormat::Bo1)
    } else if n == 3 {
        Ok(MatchFormat::Bo3)
    } else if n == 5 {
        Ok(MatchFormat::Bo5)
    } else if n == 7 {
        Ok(MatchFormat::Bo7)
    } else {
        Err(Error::ConversionError("can't determine match format. weird number of maps."))
    }
}

/// Counts the map holders to classify the format.
pub fn get_matchformat(root: RichNode) -> (r: Result<MatchFormat, Error>)
    ensures
        r == format_spec(root.opt()),
{
    let holders = root.find_all("mapholder");
    if holders.len() == 1 {
        Ok(MatchFormat::Bo1)
    } else if holders.len() == 3 {
        Ok(MatchFormat::Bo3)
    } else if holders.len() == 5 {
        Ok(MatchFormat::Bo5)
    } else if holders.len() == 7 {
        Ok(MatchFormat::Bo7)
    } else {
        Err(Error::ConversionError("can't determine match format. weird number of maps."))
    }
}

/// The 3-way status classification: the exact status text `Match over`
/// means finished and `LIVE` means live; everything else (countdowns
/// included) means upcoming.
pub open spec fn status_spec(root: Option<Elem>) -> Result<MatchStatus, Error> {
    match rich_text(rich_find(root, "countdown"@)) {
        None => Err(Error::ConversionError("can't find countdown or match status")),
        Some(t) => if t == "Match over"@ {
            Ok(MatchStatus::Finished)
        } else if t == "LIVE"@ {
            Ok(MatchStatus::Live)
        } else {
            Ok(MatchStatus::Upcoming)
        },
    }
}

/// Reads the countdown text and classifies the match status.
pub fn get_matchstatus(root: RichNode) -> (r: Result<MatchStatus, Error>)
    ensures
        r == status_spec(root.opt()),
{
    let t = match root.find("countdown").inner_text() {
        Some(t) => t,
        None => {
            return Err(Error::ConversionError("can't find countdown or match status"));
        },
    };
    if str_eq(t.as_str(), "Match over") {
        Ok(MatchStatus::Finished)
    } else if str_eq(t.as_str(), "LIVE") {
        Ok(MatchStatus::Live)
    } else {
        Ok(MatchStatus::Upcoming)
    }
}

/// What one map holder contributes: `Ok(None)` for placeholders (name
/// or either counter missing, name `TBA` or `-`, or a counter `-`),
/// an entry for a played map, and a hard error for a counter that is
/// present but not numeric.
pub open spec fn holder_entry_spec(h: Elem) -> Result<Option<MapScore>, Error> {
    let map = rich_text(rich_find(Some(h), "mapname"@));
    let t1 = rich_text(rich_find(rich_find(Some(h), "results-left"@), "results-team-score"@));
    let t2 = rich_text(rich_find(rich_find(Some(h), "results-right"@), "results-team-score"@));
    match (map, t1, t2) {
        (Some(m), Some(a), Some(b)) => {
            if m == "TBA"@ || m == "-"@ || a == "-"@ || b == "-"@ {
                Ok(None)
            } else {
                match parse_u32_spec(a) {
                    None => Err(Error::ConversionError("can't convert 1st team's map score")),
                    Some(x) => match parse_u32_spec(b) {
                        None => Err(Error::ConversionError("cant convert 2nd team's map score")),
                        Some(y) => Ok(
                            Some(MapScore { map: game_map_from_name(m), team1: x, team2: y }),
                        ),
                    },
                }
            }
        },
        _ => Ok(None),
    }
}

/// Reads one map holder.
fn holder_entry(e: &Elem) -> (r: Result<Option<MapScore>, Error>)
    ensures
        r == holder_entry_spec(*e),
{
    let h = RichNode::from_elem(e);
    let map = match h.find("mapname").inner_text() {
        Some(m) => m,
        None => {
            return Ok(None);
        },
    };
    let t1 = match h.find("results-left").find("results-team-score").inner_text() {
        Some(t) => t,
        None => {
            return Ok(None);
        },
    };
    let t2 = match h.find("results-right").find("results-team-score").inner_text() {
        Some(t) => t,
        None => {
            return Ok(None);
        },
    };
    if str_eq(map.as_str(), "TBA") || str_eq(map.as_str(), "-") || str_eq(t1.as_str(), "-")
        || str_eq(t2.as_str(), "-") {
        return Ok(None);
    }
    let x = match parse_u32(t1.as_str()) {
        Some(x) => x,
        None => {
            return Err(Error::ConversionError("can't convert 1st team's map score"));
        },
    };
    let y = match parse_u32(t2.as_str()) {
        Some(y) => y,
        None => {
            return Err(Error::ConversionError("cant convert 2nd team's map score"));
        },
    };
    Ok(Some(MapScore { map: GameMap::from_name(map.as_str()), team1: x, team2: y }))
}

/// The map scores contributed by a list of holders, in order, with the
/// first hard error aborting.
pub open spec fn mapscores_list_spec(hs: Seq<Elem>) -> Result<Seq<MapScore>, Error>
    decreases hs.len(),
{
    if hs.len() == 0 {
        Ok(Seq::empty())
    } else {
        match holder_entry_spec(hs[0]) {
            Err(e) => Err(e),
            Ok(opt) => match mapscores_list_spec(hs.drop_first()) {
                Err(e) => Err(e),
                Ok(rest) => Ok(
                    match opt {
                        Some(m) => seq![m] + rest,
                        None => rest,
                    },
                ),
            },
        }
    }
}

/// The per-map scores of the page: every map holder in the maps
/// section, placeholders skipped.
pub open spec fn mapscores_spec(root: Option<Elem>) -> Result<Seq<MapScore>, Error> {
    mapscores_list_spec(rich_find_all(rich_find(root, "maps"@), "mapholder"@))
}

/// Collects the played maps' scores, skipping placeholder holders.
#[verifier::loop_isolation(false)]
pub fn get_mapscores(root: RichNode) -> (r: Result<Vec<MapScore>, Error>)
    ensures
        match (r, mapscores_spec(root.opt())) {
            (Ok(v), Ok(s)) => v@ == s,
            (Err(a), Err(b)) => a == b,
            _ => false,
        },
{
    let holders = root.find("maps").find_all("mapholder");
    let ghost hs = rich_find_all(rich_find(root.opt(), "maps"@), "mapholder"@);
    let mut out: Vec<MapScore> = Vec::new();
    let n = holders.len();
    let mut i: usize = 0;
    proof {
        assert(hs.subrange(0, n as int) =~= hs);
        let m = mapscores_list_spec(hs);
        if m is Ok {
            assert(out@ + m->Ok_0 =~= m->Ok_0);
        }
    }
    while i < n
        invariant
            0 <= i <= n,
            mapscores_list_spec(hs) == (match mapscores_list_spec(
                hs.subrange(i as int, n as int),
            ) {
                Ok(rest) => Ok::<Seq<MapScore>, Error>(out@ + rest),
                Err(e) => Err(e),
            }),
        decreases n - i,
    {
        proof {
            assert(hs.subrange(i as int, n as int)[0] == hs[i as int]);
            assert(hs.subrange(i as int, n as int).drop_first() =~= hs.subrange(
                (i + 1) as int,
                n as int,
            ));
        }
        let h = holders[i];
        match h.n {
            Some(e) => {
                match holder_entry(e) {
                    Err(err) => {
                        return Err(err);
                    },
                    Ok(Some(m)) => {
                        let ghost prev = out@;
                        out.push(m);
                        proof {
                            let rest = mapscores_list_spec(hs.subrange((i + 1) as int, n as int));
                            if rest is Ok {
                                assert(prev + (seq![m] + rest->Ok_0) =~= out@ + rest->Ok_0);
                            }
                        }
                    },
                    Ok(None) => {},
                }
            },
            None => {
                proof {
                    assert(false);
                }
                return Err(Error::ParseError);
            },
        }
        i += 1;
    }
    proof {
        assert(hs.subrange(n as int, n as int) =~= Seq::<Elem>::empty());
        let m = mapscores_list_spec(hs);
        if m is Ok {
            assert(out@ + Seq::<MapScore>::empty() =~= out@);
        }
    }
    Ok(out)
}

/// What one statistics row yields: the player's ID (from the profile
/// link) and nickname, kills and deaths (split on `-`), ADR, KAST (the
/// `%` suffix stripped) and rating.  Any missing or malformed part
/// makes the whole row `None`, so it is skipped rather than aborting
/// the table.
pub open spec fn player_row_spec(row: Elem) -> Option<crate::data::PerformanceView> {
    let r = Some(row);
    match rich_attr(rich_child(rich_find(rich_find(r, "players"@), "flagAlign"@), 0), "href"@) {
        None => None,
        Some(href) => if split_seq(href, '/').len() <= 2 {
            None
        } else {
            match parse_u32_spec(split_seq(href, '/')[2]) {
                None => None,
                Some(id) => match rich_text(rich_find(r, "statsPlayerName"@)) {
                    None => None,
                    Some(nick) => match rich_text(rich_find(r, "kd"@)) {
                        None => None,
                        Some(kd) => if split_seq(kd, '-').len() < 2 {
                            None
                        } else {
                            match (parse_u32_spec(split_seq(kd, '-')[0]), parse_u32_spec(
                                split_seq(kd, '-')[1],
                            )) {
                                (Some(kills), Some(deaths)) => match rich_text(
                                    rich_find(r, "adr"@),
                                ) {
                                    None => None,
                                    Some(adrt) => match crate::strutil::parse_decimal_spec(adrt) {
                                        None => None,
                                        Some(adr) => match rich_text(rich_find(r, "kast"@)) {
                                            None => None,
                                            Some(kastt) => match crate::strutil::parse_decimal_spec(
                                                split_seq(kastt, '%')[0],
                                            ) {
                                                None => None,
                                                Some(kast) => match rich_text(
                                                    rich_find(r, "rating"@),
                                                ) {
                                                    None => None,
                                                    Some(rt) => match crate::strutil::parse_decimal_spec(
                                                        rt,
                                                    ) {
                                                        None => None,
                                                        Some(rating) => Some(
                                                            crate::data::PerformanceView {
                                                                player: crate::data::PlayerView {
                                                                    id,
                                                                    nickname: nick,
                                                                },
                                                                stats: Stats {
                                                                    kills,
                                                                    deaths,
                                                                    adr,
                                                                    kast,
                                                                    rating,
                                                                },
                                                            },
                                                        ),
                                                    },
                                                },
                                            },
                                        },
                                    },
                                },
                                _ => None,
                            }
                        },
                    },
                },
            }
        },
    }
}

/// Gets the performance of a specific player row.
fn player_row(row: &Elem) -> (r: Option<crate::data::Performance>)
    ensures
        match r {
            Some(p) => player_row_spec(*row) == Some(p@),
            None => player_row_spec(*row) is None,
        },
{
    let h = RichNode::from_elem(row);
    let c0 = match h.find("players").find("flagAlign").child(0) {
        Some(c) => c,
        None => {
            return None;
        },
    };
    let href = match c0.get_attr_str("href") {
        Some(l) => l,
        None => {
            return None;
        },
    };
    let seg = match split_nth(href.as_str(), '/', 2) {
        Some(s) => s,
        None => {
            return None;
        },
    };
    let id = match parse_u32(seg.as_str()) {
        Some(i) => i,
        None => {
            return None;
        },
    };
    let nick = match h.find("statsPlayerName").inner_text() {
        Some(n) => n,
        None => {
            return None;
        },
    };
    let kd = match h.find("kd").inner_text() {
        Some(k) => k,
        None => {
            return None;
        },
    };
    let kills_txt = match split_nth(kd.as_str(), '-', 0) {
        Some(t) => t,
        None => {
            return None;
        },
    };
    let deaths_txt = match split_nth(kd.as_str(), '-', 1) {
        Some(t) => t,
        None => {
            return None;
        },
    };
    let kills = match parse_u32(kills_txt.as_str()) {
        Some(k) => k,
        None => {
            return None;
        },
    };
    let deaths = match parse_u32(deaths_txt.as_str()) {
        Some(d) => d,
        None => {
            return None;
        },
    };
    let adr_txt = match h.find("adr").inner_text() {
        Some(t) => t,
        None => {
            return None;
        },
    };
    let adr = match crate::strutil::parse_decimal(adr_txt.as_str()) {
        Some(a) => a,
        None => {
            return None;
        },
    };
    let kast_txt = match h.find("kast").inner_text() {
        Some(t) => t,
        None => {
            return None;
        },
    };
    let kast_num = match split_nth(kast_txt.as_str(), '%', 0) {
        Some(t) => t,
        None => {
            return None;
        },
    };
    let kast = match crate::strutil::parse_decimal(kast_num.as_str()) {
        Some(k) => k,
        None => {
            return None;
        },
    };
    let rating_txt = match h.find("rating").inner_text() {
        Some(t) => t,
        None => {
            return None;
        },
    };
    let rating = match crate::strutil::parse_decimal(rating_txt.as_str()) {
        Some(x) => x,
        None => {
            return None;
        },
    };
    Some(
        crate::data::Performance(
            crate::data::Player { id, nickname: nick },
            Stats { kills, deaths, adr, kast, rating },
        ),
    )
}

/// The rows of one statistics table: its element children after the
/// header row.
pub open spec fn rows_of_table(t: Elem) -> Seq<Elem> {
    let ec = crate::dom::elem_children(t.children@);
    if ec.len() >= 1 {
        ec.subrange(1, ec.len() as int)
    } else {
        Seq::empty()
    }
}

/// The performances of a list of rows, in order, failing rows skipped.
pub open spec fn table_rows_spec(rows: Seq<Elem>) -> Seq<crate::data::PerformanceView>
    decreases rows.len(),
{
    if rows.len() == 0 {
        Seq::empty()
    } else {
        match player_row_spec(rows[0]) {
            Some(p) => seq![p] + table_rows_spec(rows.drop_first()),
            None => table_rows_spec(rows.drop_first()),
        }
    }
}

/// Row collection distributes over concatenation.
pub proof fn lemma_table_rows_add(a: Seq<Elem>, b: Seq<Elem>)
    ensures
        table_rows_spec(a + b) == table_rows_spec(a) + table_rows_spec(b),
    decreases a.len(),
{
    if a.len() == 0 {
        assert(a + b =~= b);
        assert(table_rows_spec(a) + table_rows_spec(b) =~= table_rows_spec(b));
    } else {
        assert((a + b)[0] == a[0]);
        assert((a + b).drop_first() =~= a.drop_first() + b);
        lemma_table_rows_add(a.drop_first(), b);
        match player_row_spec(a[0]) {
            Some(p) => {
                assert(seq![p] + (table_rows_spec(a.drop_first()) + table_rows_spec(b)) =~= (
                seq![p] + table_rows_spec(a.drop_first())) + table_rows_spec(b));
            },
            None => {},
        }
    }
}

/// The views of a sequence of performances.
pub open spec fn perf_views(s: Seq<crate::data::Performance>) -> Seq<
    crate::data::PerformanceView,
> {
    Seq::new(s.len(), |i: int| s[i]@)
}

/// Parse the match performance belonging to a specific team's
/// statistics table.
#[verifier::loop_isolation(false)]
fn table_perf(t: &Elem) -> (r: Vec<crate::data::Performance>)
    ensures
        perf_views(r@) == table_rows_spec(rows_of_table(*t)),
{
    let ghost rows = rows_of_table(*t);
    let count = crate::dom::elem_child_count(t);
    let mut out: Vec<crate::data::Performance> = Vec::new();
    if count == 0 {
        proof {
            assert(perf_views(out@) =~= table_rows_spec(rows));
        }
        return out;
    }
    let mut i: usize = 1;
    proof {
        assert(rows.subrange(0, 0) =~= Seq::<Elem>::empty());
        assert(perf_views(out@) =~= Seq::<crate::data::PerformanceView>::empty());
    }
    while i < count
        invariant
            1 <= i <= count,
            perf_views(out@) == table_rows_spec(rows.subrange(0, i - 1)),
        decreases count - i,
    {
        let row = match crate::dom::elem_child(t, i) {
            Some(r) => r,
            None => {
                proof {
                    assert(false);
                }
                return out;
            },
        };
        proof {
            assert(rows[i - 1] == *row);
            assert(rows.subrange(0, i as int) =~= rows.subrange(0, i - 1) + seq![rows[i - 1]]);
            lemma_table_rows_add(rows.subrange(0, i - 1), seq![rows[i - 1]]);
            assert(seq![rows[i - 1]].drop_first() =~= Seq::<Elem>::empty());
            assert(table_rows_spec(Seq::<Elem>::empty()) =~= Seq::<
                crate::data::PerformanceView,
            >::empty());
            assert(seq![rows[i - 1]][0] == rows[i - 1]);
        }
        match player_row(row) {
            Some(p) => {
                let ghost pv = p@;
                let ghost prev = out@;
                out.push(p);
                proof {
                    assert(table_rows_spec(seq![rows[i - 1]]) == seq![pv] + table_rows_spec(
                        seq![rows[i - 1]].drop_first(),
                    ));
                    assert(seq![pv] + Seq::<crate::data::PerformanceView>::empty() =~= seq![pv]);
                    assert(perf_views(out@) =~= perf_views(prev) + seq![pv]);
                }
            },
            None => {
                proof {
                    assert(table_rows_spec(seq![rows[i - 1]]) =~= Seq::<
                        crate::data::PerformanceView,
                    >::empty());
                    assert(table_rows_spec(rows.subrange(0, i as int)) =~= table_rows_spec(
                        rows.subrange(0, i - 1),
                    ));
                }
            },
        }
        i += 1;
    }
    proof {
        assert(rows.subrange(0, count - 1) =~= rows);
    }
    out
}

/// The per-player performances of the page: the rows of the two team
/// statistics tables in document order, or empty unless the page shows
/// exactly two tables.
pub open spec fn performance_spec(root: Option<Elem>) -> Seq<crate::data::PerformanceView> {
    let tables = rich_find_all(rich_find(root, "stats-content"@), "totalstats"@);
    if tables.len() != 2 {
        Seq::empty()
    } else {
        table_rows_spec(rows_of_table(tables[0])) + table_rows_spec(rows_of_table(tables[1]))
    }
}

/// Collects per-player performances from the two team statistics
/// tables; pages without exactly two tables report no statistics.
pub fn get_performance(root: RichNode) -> (r: Vec<crate::data::Performance>)
    ensures
        perf_views(r@) == performance_spec(root.opt()),
{
    let tables = root.find("stats-content").find_all("totalstats");
    if tables.len() != 2 {
        let out: Vec<crate::data::Performance> = Vec::new();
        proof {
            assert(perf_views(out@) =~= Seq::<crate::data::PerformanceView>::empty());
        }
        return out;
    }
    let t0 = match tables[0].n {
        Some(e) => e,
        None => {
            proof {
                assert(false);
            }
            return Vec::new();
        },
    };
    let t1 = match tables[1].n {
        Some(e) => e,
        None => {
            proof {
                assert(false);
            }
            return Vec::new();
        },
    };
    let mut a = table_perf(t0);
    let ghost a0 = a@;
    let mut b = table_perf(t1);
    let ghost b0 = b@;
    a.append(&mut b);
    proof {
        assert(perf_views(a@) =~= perf_views(a0) + perf_views(b0));
    }
    a
}

/// What converting a whole match page yields.  The identity-bearing
/// parts (root container, match ID, status, event, date, format, map
/// scores) abort with the first error; teams, the overall score and the
/// statistics degrade to `None` or empty.
pub open spec fn match_page_spec(d: Document) -> Result<crate::data::MatchPageView, Error> {
    match first_with_class(d.elems(), "match-page"@) {
        None => Err(Error::ConversionError("no root node match-page found")),
        Some(root) => {
            let r = Some(root);
            match match_id_spec(r) {
                Err(e) => Err(e),
                Ok(id) => match status_spec(r) {
                    Err(e) => Err(e),
                    Ok(status) => match event_spec(r) {
                        Err(e) => Err(e),
                        Ok(event) => match date_spec(r) {
                            Err(e) => Err(e),
                            Ok(date) => match format_spec(r) {
                                Err(e) => Err(e),
                                Ok(format) => match mapscores_spec(r) {
                                    Err(e) => Err(e),
                                    Ok(maps) => Ok(
                                        crate::data::MatchPageView {
                                            id,
                                            status,
                                            team1: team_spec(r, "team1-gradient"@),
                                            team2: team_spec(r, "team2-gradient"@),
                                            event,
                                            date,
                                            format,
                                            score: score_spec(r),
                                            maps,
                                            stats: performance_spec(r),
                                        },
                                    ),
                                },
                            },
                        },
                    },
                },
            }
        },
    }
}

/// Converts a parsed document holding a match detail page.
pub fn convert(d: &Document) -> (r: Result<crate::data::MatchPage, Error>)
    ensures
        match (r, match_page_spec(*d)) {
            (Ok(m), Ok(v)) => m@ == v,
            (Err(a), Err(b)) => a == b,
            _ => false,
        },
{
    let root_elem = match d.find_first_class("match-page") {
        Some(e) => e,
        None => {
            return Err(Error::ConversionError("no root node match-page found"));
        },
    };
    let root = RichNode::from_elem(root_elem);
    let id = match get_match_id(root) {
        Ok(x) => x,
        Err(e) => {
            return Err(e);
        },
    };
    let status = match get_matchstatus(root) {
        Ok(x) => x,
        Err(e) => {
            return Err(e);
        },
    };
    let event = match get_event(root) {
        Ok(x) => x,
        Err(e) => {
            return Err(e);
        },
    };
    let date = match get_date(root) {
        Ok(x) => x,
        Err(e) => {
            return Err(e);
        },
    };
    let format = match get_matchformat(root) {
        Ok(x) => x,
        Err(e) => {
            return Err(e);
        },
    };
    let maps = match get_mapscores(root) {
        Ok(x) => x,
        Err(e) => {
            return Err(e);
        },
    };
    let team1 = get_team(root, "team1-gradient");
    let team2 = get_team(root, "team2-gradient");
    let score = get_score(root);
    let stats = get_performance(root);
    Ok(
        crate::data::MatchPage {
            id,
            status,
            team1,
            team2,
            event,
            date,
            format,
            score,
            maps,
            stats,
        },
    )
}

/// Identity comes from hyperlinks: whenever the conversion yields a
/// match ID, that ID is the numeric value embedded in the third path
/// segment of the first match link of the page.
pub proof fn lemma_match_id_is_link_segment(root: Option<Elem>, id: u32)
    requires
        match_id_spec(root) == Ok::<u32, Error>(id),
    ensures
        first_match_href(rich_find_all_tag(root, "a"@)) is Some,
        parse_u32_spec(
            split_seq(first_match_href(rich_find_all_tag(root, "a"@))->0, '/')[2],
        ) == Some(id),
{
}

/// Identity comes from hyperlinks: whenever a team is resolved, its ID
/// is the numeric value embedded in the third path segment of the
/// team container's first child link.
pub proof fn lemma_team_id_is_link_segment(root: Option<Elem>, class: Seq<char>, t: crate::data::TeamView)
    requires
        team_spec(root, class) == Some(t),
    ensures
        rich_attr(rich_child(rich_find(root, class), 0), "href"@) is Some,
        parse_u32_spec(
            split_seq(rich_attr(rich_child(rich_find(root, class), 0), "href"@)->0, '/')[2],
        ) == Some(t.id),
{
}

/// Identity comes from hyperlinks: whenever the event is resolved, its
/// ID is the numeric value embedded in the third path segment of the
/// event link.
pub proof fn lemma_event_id_is_link_segment(root: Option<Elem>, ev: EventView)
    requires
        event_spec(root) == Ok::<EventView, Error>(ev),
    ensures
        rich_child(rich_find(rich_find(root, "timeAndEvent"@), "event"@), 0) matches Some(e)
            && attr_str_spec(e, "href"@) is Some && parse_u32_spec(
            split_seq(attr_str_spec(e, "href"@)->0, '/')[2],
        ) == Some(ev.id),
{
}

/// Map-count classification: exactly 1, 3, 5 or 7 map holders yield
/// Bo1, Bo3, Bo5 or Bo7; any other count is a schema error.
pub proof fn lemma_format_classification(root: Option<Elem>)
    ensures
        ({
            let n = rich_find_all(root, "mapholder"@).len();
            &&& (n == 1 ==> format_spec(root) == Ok::<MatchFormat, Error>(MatchFormat::Bo1))
            &&& (n == 3 ==> format_spec(root) == Ok::<MatchFormat, Error>(MatchFormat::Bo3))
            &&& (n == 5 ==> format_spec(root) == Ok::<MatchFormat, Error>(MatchFormat::Bo5))
            &&& (n == 7 ==> format_spec(root) == Ok::<MatchFormat, Error>(MatchFormat::Bo7))
            &&& (n != 1 && n != 3 && n != 5 && n != 7 ==> format_spec(root) == Err::<
                MatchFormat,
                Error,
            >(Error::ConversionError("can't determine match format. weird number of maps.")))
        }),
{
}

/// The bo1 heuristic: a side's counter above 8 that beats the other
/// side collapses the score to a 1-0 for that side; otherwise both
/// counters are taken literally.
pub proof fn lemma_bo1_heuristic(t1: u32, t2: u32)
    ensures
        t1 > 8 && t1 > t2 ==> resolve_score(t1, t2) == (MatchScore { team1: 1, team2: 0 }),
        t2 > 8 && t2 > t1 ==> resolve_score(t1, t2) == (MatchScore { team1: 0, team2: 1 }),
        (t1 <= 8 || t1 <= t2) && (t2 <= 8 || t2 <= t1) ==> resolve_score(t1, t2) == (MatchScore {
            team1: t1,
            team2: t2,
        }),
{
}

/// A map holder whose name reads `TBA` is a placeholder and yields no
/// entry.
pub proof fn lemma_tba_is_placeholder(h: Elem)
    requires
        rich_text(rich_find(Some(h), "mapname"@)) == Some("TBA"@),
    ensures
        holder_entry_spec(h) == Ok::<Option<MapScore>, Error>(None),
{
}

/// A placeholder holder contributes zero entries to the map list: the
/// list converts exactly as if the holder were not there.
pub proof fn lemma_placeholder_contributes_nothing(hs: Seq<Elem>, i: int)
    requires
        0 <= i < hs.len(),
        holder_entry_spec(hs[i]) == Ok::<Option<MapScore>, Error>(None),
    ensures
        mapscores_list_spec(hs) == mapscores_list_spec(hs.remove(i)),
    decreases i,
{
    if i == 0 {
        assert(hs.remove(0) =~= hs.drop_first());
    } else {
        assert(hs.remove(i)[0] == hs[0]);
        assert(hs.remove(i).drop_first() =~= hs.drop_first().remove(i - 1));
        assert(hs.drop_first()[i - 1] == hs[i]);
        lemma_placeholder_contributes_nothing(hs.drop_first(), i - 1);
    }
}

/// Status classification is an exhaustive three-way split: the exact
/// text `Match over` means finished, the exact text `LIVE` means live,
/// and any other status text (countdowns included) means upcoming.
pub proof fn lemma_status_classification(root: Option<Elem>, t: Seq<char>)
    requires
        rich_text(rich_find(root, "countdown"@)) == Some(t),
    ensures
        t == "Match over"@ ==> status_spec(root) == Ok::<MatchStatus, Error>(MatchStatus::Finished),
        t == "LIVE"@ ==> status_spec(root) == Ok::<MatchStatus, Error>(MatchStatus::Live),
        t != "Match over"@ && t != "LIVE"@ ==> status_spec(root) == Ok::<MatchStatus, Error>(
            MatchStatus::Upcoming,
        ),
{
    reveal_strlit("Match over");
    reveal_strlit("LIVE");
    assert("LIVE"@.len() == 4);
    assert("Match over"@.len() == 10);
    assert("LIVE"@ != "Match over"@);
}

/// A successfully converted page carries exactly the identity its
/// links show: the match ID, the event and the teams of the record are
/// the ones the respective sub-extractions yield on the page's root
/// container.
pub proof fn lemma_page_identity(d: Document, v: crate::data::MatchPageView)
    requires
        match_page_spec(d) == Ok::<crate::data::MatchPageView, Error>(v),
    ensures
        first_with_class(d.elems(), "match-page"@) matches Some(root) && match_id_spec(Some(root))
            == Ok::<u32, Error>(v.id) && event_spec(Some(root)) == Ok::<EventView, Error>(v.event)
            && team_spec(Some(root), "team1-gradient"@) == v.team1 && team_spec(
            Some(root),
            "team2-gradient"@,
        ) == v.team2,
{
}

/// Conversion is a pure function of the document: two conversions of
/// the same document yield identical records.
pub proof fn lemma_match_page_deterministic(
    d: Document,
    r1: Result<crate::data::MatchPageView, Error>,
    r2: Result<crate::data::MatchPageView, Error>,
)
    requires
        r1 == match_page_spec(d),
        r2 == match_page_spec(d),
    ensures
        r1 == r2,
{
}

} // verus!
