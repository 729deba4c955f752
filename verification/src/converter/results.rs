/*!
The converter for the match-result list page.

Every result container on the page becomes one [`MatchResult`]; the
first field that cannot be extracted aborts the conversion with its
error.
*/
use vstd::prelude::*;

use crate::data::{MatchFormat, MatchResult, MatchResultView, Score, WhichTeam};
use crate::dom::{all_with_class, Document, Elem};
use crate::rich::{rich_find, rich_has_class, rich_parse_u32, rich_text, RichNode};
use crate::strutil::{parse_u32, parse_u32_spec, split_nth, split_seq, str_eq};
use crate::Error;

verus! {

/// The match ID of one result container: the numeric third path segment
/// of its `a-reset` link.
pub open spec fn result_id_spec(c: Option<Elem>) -> Result<u32, Error> {
    match crate::rich::rich_attr(rich_find(c, "a-reset"@), "href"@) {
        None => Err(Error::ParseError),
        Some(href) => if split_seq(href, '/').len() <= 2 {
            Err(Error::ParseError)
        } else {
            match parse_u32_spec(split_seq(href, '/')[2]) {
                Some(id) => Ok(id),
                None => Err(Error::ConversionError("match ID isn't a valid number")),
            }
        },
    }
}

/// The winner of one result container: team 1 won iff its team element
/// carries the `team-won` marker class.
pub open spec fn result_which_spec(c: Option<Elem>) -> Result<WhichTeam, Error> {
    match rich_has_class(rich_find(rich_find(c, "team1"@), "team"@), "team-won"@) {
        None => Err(Error::ConversionError("team format incorrect")),
        Some(true) => Ok(WhichTeam::First),
        Some(false) => Ok(WhichTeam::Second),
    }
}

/// The name shown in the given team slot.
pub open spec fn result_team_spec(c: Option<Elem>, slot: Seq<char>) -> Result<Seq<char>, Error> {
    match rich_text(rich_find(rich_find(c, slot), "team"@)) {
        None => Err(Error::ConversionError("no team name found")),
        Some(t) => Ok(t),
    }
}

/// The winner-first score of one result container.
pub open spec fn result_score_spec(c: Option<Elem>) -> Result<Score, Error> {
    match rich_parse_u32(rich_find(c, "score-won"@)) {
        Err(e) => Err(e),
        Ok(None) => Err(Error::ConversionError("no score-won found")),
        Ok(Some(won)) => match rich_parse_u32(rich_find(c, "score-lost"@)) {
            Err(e) => Err(e),
            Ok(None) => Err(Error::ConversionError("no score-lost found")),
            Ok(Some(lost)) => Ok(Score { score_won: won, score_lost: lost }),
        },
    }
}

/// The event name of one result container.
pub open spec fn result_event_spec(c: Option<Elem>) -> Result<Seq<char>, Error> {
    match rich_text(rich_find(c, "event-name"@)) {
        None => Err(Error::ConversionError("no event name found")),
        Some(t) => Ok(t),
    }
}

/// The format code of one result container: `bo3`, `bo5` and `bo7` are
/// read literally; any other or absent code defaults to Bo1.
pub open spec fn result_format_spec(c: Option<Elem>) -> Result<MatchFormat, Error> {
    match rich_text(rich_find(c, "map-text"@)) {
        None => Err(Error::ConversionError("match format can't be found")),
        Some(t) => if t == "bo3"@ {
            Ok(MatchFormat::Bo3)
        } else if t == "bo5"@ {
            Ok(MatchFormat::Bo5)
        } else if t == "bo7"@ {
            Ok(MatchFormat::Bo7)
        } else {
            Ok(MatchFormat::Bo1)
        },
    }
}

/// One result container as a record, fields resolved in declaration
/// order with the first error aborting.
pub open spec fn result_item_spec(c: Elem) -> Result<MatchResultView, Error> {
    let r = Some(c);
    match result_id_spec(r) {
        Err(e) => Err(e),
        Ok(id) => match result_which_spec(r) {
            Err(e) => Err(e),
            Ok(winner) => match result_team_spec(r, "team1"@) {
                Err(e) => Err(e),
                Ok(team1) => match result_team_spec(r, "team2"@) {
                    Err(e) => Err(e),
                    Ok(team2) => match result_score_spec(r) {
                        Err(e) => Err(e),
                        Ok(score) => match result_event_spec(r) {
                            Err(e) => Err(e),
                            Ok(event) => match result_format_spec(r) {
                                Err(e) => Err(e),
                                Ok(format) => Ok(
                                    MatchResultView {
                                        id,
                                        winner,
                                        team1,
                                        team2,
                                        score,
                                        event,
                                        format,
                                    },
                                ),
                            },
                        },
                    },
                },
            },
        },
    }
}

/// Converts one result container.
fn result_item(c: &Elem) -> (r: Result<MatchResult, Error>)
    ensures
        match (r, result_item_spec(*c)) {
            (Ok(m), Ok(v)) => m@ == v,
            (Err(a), Err(b)) => a == b,
            _ => false,
        },
{
    let h = RichNode::from_elem(c);
    let href = match h.find("a-reset").get_attr_str("href") {
        Some(x) => x,
        None => {
            return Err(Error::ParseError);
        },
    };
    let seg = match split_nth(href.as_str(), '/', 2) {
        Some(s) => s,
        None => {
            return Err(Error::ParseError);
        },
    };
    let id = match parse_u32(seg.as_str()) {
        Some(i) => i,
        None => {
            return Err(Error::ConversionError("match ID isn't a valid number"));
        },
    };
    let winner = match h.find("team1").find("team").has_class("team-won") {
        None => {
            return Err(Error::ConversionError("team format incorrect"));
        },
        Some(true) => WhichTeam::First,
        Some(false) => WhichTeam::Second,
    };
    let team1 = match h.find("team1").find("team").inner_text() {
        Some(t) => t,
        None => {
            return Err(Error::ConversionError("no team name found"));
        },
    };
    let team2 = match h.find("team2").find("team").inner_text() {
        Some(t) => t,
        None => {
            return Err(Error::ConversionError("no team name found"));
        },
    };
    let score_won = match h.find("score-won").inner_parse_u32() {
        Err(e) => {
            return Err(e);
        },
        Ok(None) => {
            return Err(Error::ConversionError("no score-won found"));
        },
        Ok(Some(w)) => w,
    };
    let score_lost = match h.find("score-lost").inner_parse_u32() {
        Err(e) => {
            return Err(e);
        },
        Ok(None) => {
            return Err(Error::ConversionError("no score-lost found"));
        },
        Ok(Some(l)) => l,
    };
    let event = match h.find("event-name").inner_text() {
        Some(t) => t,
        None => {
            return Err(Error::ConversionError("no event name found"));
        },
    };
    let ft = match h.find("map-text").inner_text() {
        Some(t) => t,
        None => {
            return Err(Error::ConversionError("match format can't be found"));
        },
    };
    let format = if str_eq(ft.as_str(), "bo3") {
        MatchFormat::Bo3
    } else if str_eq(ft.as_str(), "bo5") {
        MatchFormat::Bo5
    } else if str_eq(ft.as_str(), "bo7") {
        MatchFormat::Bo7
    } else {
        MatchFormat::Bo1
    };
    Ok(
        MatchResult {
            id,
            winner,
            team1,
            team2,
            score: Score { score_won, score_lost },
            event,
            format,
        },
    )
}

/// The records of a list of result containers, first error aborting.
pub open spec fn results_list_spec(cs: Seq<Elem>) -> Result<Seq<MatchResultView>, Error>
    decreases cs.len(),
{
    if cs.len() == 0 {
        Ok(Seq::empty())
    } else {
        match result_item_spec(cs[0]) {
            Err(e) => Err(e),
            Ok(m) => match results_list_spec(cs.drop_first()) {
                Err(e) => Err(e),
                Ok(rest) => Ok(seq![m] + rest),
            },
        }
    }
}

/// What converting a result list page yields: one record per
/// `result-con` container, in document order.
pub open spec fn results_spec(d: Document) -> Result<Seq<MatchResultView>, Error> {
    results_list_spec(all_with_class(d.elems(), "result-con"@))
}

/// The views of a sequence of match results.
pub open spec fn result_views(s: Seq<MatchResult>) -> Seq<MatchResultView> {
    Seq::new(s.len(), |i: int| s[i]@)
}

/// Converts a parsed document holding a match-result list page.
#[verifier::loop_isolation(false)]
pub fn convert(d: &Document) -> (r: Result<Vec<MatchResult>, Error>)
    ensures
        match (r, results_spec(*d)) {
            (Ok(v), Ok(s)) => result_views(v@) == s,
            (Err(a), Err(b)) => a == b,
            _ => false,
        },
{
    let containers = d.find_all_class("result-con");
    let ghost cs = all_with_class(d.elems(), "result-con"@);
    let mut out: Vec<MatchResult> = Vec::new();
    let n = containers.len();
    let mut i: usize = 0;
    proof {
        assert(cs.subrange(0, n as int) =~= cs);
        let m = results_list_spec(cs);
        if m is Ok {
            assert(result_views(out@) + m->Ok_0 =~= m->Ok_0);
        }
    }
    while i < n
        invariant
            0 <= i <= n,
            results_list_spec(cs) == (match results_list_spec(cs.subrange(i as int, n as int)) {
                Ok(rest) => Ok::<Seq<MatchResultView>, Error>(result_views(out@) + rest),
                Err(e) => Err(e),
            }),
        decreases n - i,
    {
        proof {
            assert(cs.subrange(i as int, n as int)[0] == cs[i as int]);
            assert(cs.subrange(i as int, n as int).drop_first() =~= cs.subrange(
                (i + 1) as int,
                n as int,
            ));
        }
        match result_item(containers[i]) {
            Err(e) => {
                return Err(e);
            },
            Ok(m) => {
                let ghost mv = m@;
                let ghost prev = out@;
                out.push(m);
                proof {
                    let rest = results_list_spec(cs.subrange((i + 1) as int, n as int));
                    if rest is Ok {
                        assert(result_views(prev) + (seq![mv] + rest->Ok_0) =~= result_views(out@)
                            + rest->Ok_0);
                    }
                }
            },
        }
        i += 1;
    }
    proof {
        assert(cs.subrange(n as int, n as int) =~= Seq::<Elem>::empty());
        let m = results_list_spec(cs);
        if m is Ok {
            assert(result_views(out@) + Seq::<MatchResultView>::empty() =~= result_views(out@));
        }
    }
    Ok(out)
}

/// Identity comes from hyperlinks: whenever a result record is built,
/// its ID is the numeric value embedded in the third path segment of
/// the container's `a-reset` link.
pub proof fn lemma_result_id_is_link_segment(c: Elem, v: MatchResultView)
    requires
        result_item_spec(c) == Ok::<MatchResultView, Error>(v),
    ensures
        crate::rich::rich_attr(rich_find(Some(c), "a-reset"@), "href"@) is Some,
        parse_u32_spec(
            split_seq(
                crate::rich::rich_attr(rich_find(Some(c), "a-reset"@), "href"@)->0,
                '/',
            )[2],
        ) == Some(v.id),
{
}

/// Conversion is a pure function of the document: two conversions of
/// the same document yield identical records.
pub proof fn lemma_results_deterministic(
    d: Document,
    r1: Result<Seq<MatchResultView>, Error>,
    r2: Result<Seq<MatchResultView>, Error>,
)
    requires
        r1 == results_spec(d),
        r2 == results_spec(d),
    ensures
        r1 == r2,
{
}

} // verus!
