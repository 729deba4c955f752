/*!
The converter that collects basic player information from a document,
understanding both the team-page roster markup and the match-page
statistics markup.
*/
use vstd::prelude::*;

use crate::converter::team_page::player_views;
use crate::data::{Player, PlayerView};
use crate::dom::{all_with_class, attr_str_spec, first_with_class, subtree, Document, Elem};
use crate::rich::{rich_attr_u32, rich_find, rich_text, RichNode};
use crate::strutil::{parse_u32, parse_u32_spec, split_nth, split_seq};
use crate::Error;

verus! {

/// One player cell of the match-page statistics markup: ID from the
/// flag element's attribute, nickname from the ellipsis element.
pub open spec fn match_player_spec(e: Elem) -> Result<PlayerView, Error> {
    match rich_attr_u32(rich_find(Some(e), "flagAlign"@), "data-player-id"@) {
        Err(err) => Err(err),
        Ok(None) => Err(Error::ConversionError("No ID found for player")),
        Ok(Some(id)) => match rich_text(rich_find(Some(e), "text-ellipsis"@)) {
            None => Err(Error::ConversionError("No player name found")),
            Some(nickname) => Ok(PlayerView { id, nickname }),
        },
    }
}

/// The players of a list of match-page cells, first error aborting.
pub open spec fn match_players_spec(cs: Seq<Elem>) -> Result<Seq<PlayerView>, Error>
    decreases cs.len(),
{
    if cs.len() == 0 {
        Ok(Seq::empty())
    } else {
        match match_player_spec(cs[0]) {
            Err(e) => Err(e),
            Ok(p) => match match_players_spec(cs.drop_first()) {
                Err(e) => Err(e),
                Ok(rest) => Ok(seq![p] + rest),
            },
        }
    }
}

/// One roster cell of the team-page markup: nickname from the `title`
/// attribute, ID from the player link's third path segment.
pub open spec fn team_player_spec(e: Elem) -> Result<PlayerView, Error> {
    match attr_str_spec(e, "title"@) {
        None => Err(Error::ConversionError("missing title attribute in player div")),
        Some(nickname) => match attr_str_spec(e, "href"@) {
            None => Err(Error::ConversionError("missing href link in player div")),
            Some(href) => if split_seq(href, '/').len() <= 2 {
                Err(Error::ParseError)
            } else {
                match parse_u32_spec(split_seq(href, '/')[2]) {
                    Some(id) => Ok(PlayerView { id, nickname }),
                    None => Err(Error::ConversionError("incorrect ID / format of href was changed")),
                }
            },
        },
    }
}

/// The players of a list of roster cells, first error aborting.
pub open spec fn team_players_spec(cs: Seq<Elem>) -> Result<Seq<PlayerView>, Error>
    decreases cs.len(),
{
    if cs.len() == 0 {
        Ok(Seq::empty())
    } else {
        match team_player_spec(cs[0]) {
            Err(e) => Err(e),
            Ok(p) => match team_players_spec(cs.drop_first()) {
                Err(e) => Err(e),
                Ok(rest) => Ok(seq![p] + rest),
            },
        }
    }
}

/// What collecting players from a document yields: the roster cells
/// under the first team-page container (nothing when that container is
/// absent), followed by the match-page player cells.
pub open spec fn players_doc_spec(d: Document) -> Result<Seq<PlayerView>, Error> {
    let team_part = match first_with_class(d.elems(), "bodyshot-team-bg"@) {
        None => Ok(Seq::<PlayerView>::empty()),
        Some(p) => team_players_spec(all_with_class(subtree(p), "col-custom"@)),
    };
    match team_part {
        Err(e) => Err(e),
        Ok(a) => match match_players_spec(all_with_class(d.elems(), "player"@)) {
            Err(e) => Err(e),
            Ok(b) => Ok(a + b),
        },
    }
}

/// Parses the roster cells found on a team page into `out`.
#[verifier::loop_isolation(false)]
fn for_teampage(d: &Document, out: &mut Vec<Player>) -> (r: Result<(), Error>)
    ensures
        match (r, match first_with_class(d.elems(), "bodyshot-team-bg"@) {
            None => Ok(Seq::<PlayerView>::empty()),
            Some(p) => team_players_spec(all_with_class(subtree(p), "col-custom"@)),
        }) {
            (Ok(_), Ok(s)) => player_views(final(out)@) == player_views(old(out)@) + s,
            (Err(a), Err(b)) => a == b,
            _ => false,
        },
{
    let parent = match d.find_first_class("bodyshot-team-bg") {
        Some(p) => p,
        None => {
            proof {
                assert(player_views(out@) + Seq::<PlayerView>::empty() =~= player_views(out@));
            }
            return Ok(());
        },
    };
    let cells = RichNode::from_elem(parent).find_all("col-custom");
    let ghost cs = all_with_class(subtree(*parent), "col-custom"@);
    let n = cells.len();
    let mut i: usize = 0;
    proof {
        assert(cs.subrange(0, n as int) =~= cs);
        assert(player_views(out@).skip(player_views(old(out)@).len() as int) =~= Seq::<
            PlayerView,
        >::empty());
        assert(out@.subrange(0, old(out)@.len() as int) =~= old(out)@);
        let m = team_players_spec(cs);
        if m is Ok {
            assert(Seq::<PlayerView>::empty() + m->Ok_0 =~= m->Ok_0);
        }
    }
    while i < n
        invariant
            0 <= i <= n,
            team_players_spec(cs) == (match team_players_spec(cs.subrange(i as int, n as int)) {
                Ok(rest) => Ok::<Seq<PlayerView>, Error>(
                    player_views(out@).skip(player_views(old(out)@).len() as int) + rest,
                ),
                Err(e) => Err(e),
            }),
            out@.len() >= old(out)@.len(),
            out@.subrange(0, old(out)@.len() as int) == old(out)@,
        decreases n - i,
    {
        proof {
            assert(cs.subrange(i as int, n as int)[0] == cs[i as int]);
            assert(cs.subrange(i as int, n as int).drop_first() =~= cs.subrange(
                (i + 1) as int,
                n as int,
            ));
        }
        let cell = cells[i];
        let e = match cell.n {
            Some(e) => e,
            None => {
                proof {
                    assert(false);
                }
                return Err(Error::ParseError);
            },
        };
        let nickname = match crate::dom::elem_attr(e, "title") {
            Some(t) => t,
            None => {
                return Err(Error::ConversionError("missing title attribute in player div"));
            },
        };
        let href = match crate::dom::elem_attr(e, "href") {
            Some(h) => h,
            None => {
                return Err(Error::ConversionError("missing href link in player div"));
            },
        };
        let seg = match split_nth(href.as_str(), '/', 2) {
            Some(s) => s,
            None => {
                return Err(Error::ParseError);
            },
        };
        let id = match parse_u32(seg.as_str()) {
            Some(x) => x,
            None => {
                return Err(Error::ConversionError("incorrect ID / format of href was changed"));
            },
        };
        let ghost prev = out@;
        let ghost pv = PlayerView { id, nickname: nickname@ };
        out.push(Player { id, nickname });
        proof {
            let base = player_views(old(out)@).len() as int;
            let rest = team_players_spec(cs.subrange((i + 1) as int, n as int));
            if rest is Ok {
                assert(player_views(prev).skip(base) + (seq![pv] + rest->Ok_0) =~= player_views(
                    out@,
                ).skip(base) + rest->Ok_0);
            }
            assert(out@.subrange(0, old(out)@.len() as int) =~= old(out)@);
        }
        i += 1;
    }
    proof {
        assert(cs.subrange(n as int, n as int) =~= Seq::<Elem>::empty());
        let m = team_players_spec(cs);
        if m is Ok {
            assert(player_views(out@).skip(player_views(old(out)@).len() as int) + Seq::<
                PlayerView,
            >::empty() =~= player_views(out@).skip(player_views(old(out)@).len() as int));
            assert(player_views(old(out)@) + player_views(out@).skip(
                player_views(old(out)@).len() as int,
            ) =~= player_views(out@));
        }
    }
    Ok(())
}

/// Parses the player cells found on a match page into `out`.
#[verifier::loop_isolation(false)]
fn for_matchpage(d: &Document, out: &mut Vec<Player>) -> (r: Result<(), Error>)
    ensures
        match (r, match_players_spec(all_with_class(d.elems(), "player"@))) {
            (Ok(_), Ok(s)) => player_views(final(out)@) == player_views(old(out)@) + s,
            (Err(a), Err(b)) => a == b,
            _ => false,
        },
{
    let cells = d.find_all_class("player");
    let ghost cs = all_with_class(d.elems(), "player"@);
    let n = cells.len();
    let mut i: usize = 0;
    proof {
        assert(cs.subrange(0, n as int) =~= cs);
        assert(player_views(out@).skip(player_views(old(out)@).len() as int) =~= Seq::<
            PlayerView,
        >::empty());
        assert(out@.subrange(0, old(out)@.len() as int) =~= old(out)@);
        let m = match_players_spec(cs);
        if m is Ok {
            assert(Seq::<PlayerView>::empty() + m->Ok_0 =~= m->Ok_0);
        }
    }
    while i < n
        invariant
            0 <= i <= n,
            match_players_spec(cs) == (match match_players_spec(cs.subrange(i as int, n as int)) {
                Ok(rest) => Ok::<Seq<PlayerView>, Error>(
                    player_views(out@).skip(player_views(old(out)@).len() as int) + rest,
                ),
                Err(e) => Err(e),
            }),
            out@.len() >= old(out)@.len(),
            out@.subrange(0, old(out)@.len() as int) == old(out)@,
        decreases n - i,
    {
        proof {
            assert(cs.subrange(i as int, n as int)[0] == cs[i as int]);
            assert(cs.subrange(i as int, n as int).drop_first() =~= cs.subrange(
                (i + 1) as int,
                n as int,
            ));
        }
        let cell = RichNode { n: Some(cells[i]) };
        let id = match cell.find("flagAlign").get_attr_u32("data-player-id") {
            Err(e) => {
                return Err(e);
            },
            Ok(None) => {
                return Err(Error::ConversionError("No ID found for player"));
            },
            Ok(Some(x)) => x,
        };
        let nickname = match cell.find("text-ellipsis").inner_text() {
            Some(t) => t,
            None => {
                return Err(Error::ConversionError("No player name found"));
            },
        };
        let ghost prev = out@;
        let ghost pv = PlayerView { id, nickname: nickname@ };
        out.push(Player { id, nickname });
        proof {
            let base = player_views(old(out)@).len() as int;
            let rest = match_players_spec(cs.subrange((i + 1) as int, n as int));
            if rest is Ok {
                assert(player_views(prev).skip(base) + (seq![pv] + rest->Ok_0) =~= player_views(
                    out@,
                ).skip(base) + rest->Ok_0);
            }
            assert(out@.subrange(0, old(out)@.len() as int) =~= old(out)@);
        }
        i += 1;
    }
    proof {
        assert(cs.subrange(n as int, n as int) =~= Seq::<Elem>::empty());
        let m = match_players_spec(cs);
        if m is Ok {
            assert(player_views(out@).skip(player_views(old(out)@).len() as int) + Seq::<
                PlayerView,
            >::empty() =~= player_views(out@).skip(player_views(old(out)@).len() as int));
            assert(player_views(old(out)@) + player_views(out@).skip(
                player_views(old(out)@).len() as int,
            ) =~= player_views(out@));
        }
    }
    Ok(())
}

/// Collects every player the document shows, roster cells first, then
/// match-page statistics cells.
pub fn convert(d: &Document) -> (r: Result<Vec<Player>, Error>)
    ensures
        match (r, players_doc_spec(*d)) {
            (Ok(v), Ok(s)) => player_views(v@) == s,
            (Err(a), Err(b)) => a == b,
            _ => false,
        },
{
    let mut result: Vec<Player> = Vec::new();
    proof {
        assert(player_views(result@) =~= Seq::<PlayerView>::empty());
    }
    match for_teampage(d, &mut result) {
        Ok(_) => {},
        Err(e) => {
            return Err(e);
        },
    }
    match for_matchpage(d, &mut result) {
        Ok(_) => {},
        Err(e) => {
            return Err(e);
        },
    }
    proof {
        let team_part = match first_with_class(d.elems(), "bodyshot-team-bg"@) {
            None => Ok::<Seq<PlayerView>, Error>(Seq::<PlayerView>::empty()),
            Some(p) => team_players_spec(all_with_class(subtree(p), "col-custom"@)),
        };
        let match_part = match_players_spec(all_with_class(d.elems(), "player"@));
        if team_part is Ok && match_part is Ok {
            assert(Seq::<PlayerView>::empty() + team_part->Ok_0 =~= team_part->Ok_0);
            assert(player_views(result@) =~= team_part->Ok_0 + match_part->Ok_0);
        }
    }
    Ok(result)
}

/// Conversion is a pure function of the document: two collections from
/// the same document yield identical players.
pub proof fn lemma_players_deterministic(
    d: Document,
    r1: Result<Seq<PlayerView>, Error>,
    r2: Result<Seq<PlayerView>, Error>,
)
    requires
        r1 == players_doc_spec(d),
        r2 == players_doc_spec(d),
    ensures
        r1 == r2,
{
}

} // verus!
