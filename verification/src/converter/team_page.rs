/*!
The converter for a team profile page.

The page carries the team's identity, its world ranking, its roster
and its logo.  Identity, ranking and logo are required, and the first
missing or malformed field aborts the conversion; the roster holds one
player per cell of the roster block, however many there are, and a
cell that is present but malformed is an error.
*/
use vstd::prelude::*;

use crate::data::{Player, PlayerView, TeamPage, TeamPageView};
use crate::dom::{attr_str_spec, first_with_class, Document, Elem};
use crate::rich::{
    rich_attr, rich_find, rich_find_all_tag, rich_find_tag, rich_text, RichNode,
};
use crate::strutil::{parse_u32, parse_u32_spec, split_nth, split_seq, str_eq};
use crate::Error;

verus! {

/// A hyperlink whose target is a team page: its second path segment is
/// `team`, and a third segment (the ID) exists.
pub open spec fn is_team_link(e: Elem) -> bool {
    match attr_str_spec(e, "href"@) {
        Some(h) => split_seq(h, '/').len() > 2 && split_seq(h, '/')[1] == "team"@,
        None => false,
    }
}

/// The target of the first team link among `s`, in order.
pub open spec fn first_team_href(s: Seq<Elem>) -> Option<Seq<char>>
    decreases s.len(),
{
    if s.len() == 0 {
        None
    } else if is_team_link(s[0]) {
        attr_str_spec(s[0], "href"@)
    } else {
        first_team_href(s.drop_first())
    }
}

/// Scanning a concatenation scans the left part first.
pub proof fn lemma_first_team_href_add(a: Seq<Elem>, b: Seq<Elem>)
    ensures
        first_team_href(a + b) == (if first_team_href(a) is Some {
            first_team_href(a)
        } else {
            first_team_href(b)
        }),
    decreases a.len(),
{
    if a.len() == 0 {
        assert(a + b =~= b);
    } else {
        assert((a + b)[0] == a[0]);
        assert((a + b).drop_first() =~= a.drop_first() + b);
        lemma_first_team_href_add(a.drop_first(), b);
    }
}

/// The team ID of the page under `root`: the numeric third path segment
/// of the first hyperlink that points at a team page.
pub open spec fn team_id_spec(root: Option<Elem>) -> Result<u32, Error> {
    match first_team_href(rich_find_all_tag(root, "a"@)) {
        None => Err(Error::ConversionError("no team link found")),
        Some(href) => match parse_u32_spec(split_seq(href, '/')[2]) {
            Some(id) => Ok(id),
            None => Err(Error::ConversionError("team ID isn't a valid number")),
        },
    }
}

/// Scans the hyperlinks under `root` for the team ID.
#[verifier::loop_isolation(false)]
pub fn get_team_id(root: RichNode) -> (r: Result<u32, Error>)
    ensures
        r == team_id_spec(root.opt()),
{
    let links = root.find_all_tag("a");
    let ghost all = rich_find_all_tag(root.opt(), "a"@);
    let n = links.len();
    let mut i: usize = 0;
    while i < n
        invariant
            0 <= i <= n,
            first_team_href(all.subrange(0, i as int)) is None,
        decreases n - i,
    {
        proof {
            assert(all.subrange(0, (i + 1) as int) =~= all.subrange(0, i as int) + seq![all[i as int]]);
            lemma_first_team_href_add(all.subrange(0, i as int), seq![all[i as int]]);
        }
        let link = links[i];
        match link.get_attr_str("href") {
            Some(href) => {
                let seg1 = split_nth(href.as_str(), '/', 1);
                let seg2 = split_nth(href.as_str(), '/', 2);
                match (seg1, seg2) {
                    (Some(s1), Some(s2)) => {
                        if str_eq(s1.as_str(), "team") {
                            proof {
                                assert(is_team_link(all[i as int]));
                                assert(all =~= all.subrange(0, i as int) + all.subrange(
                                    i as int,
                                    n as int,
                                ));
                                lemma_first_team_href_add(
                                    all.subrange(0, i as int),
                                    all.subrange(i as int, n as int),
                                );
                                assert(all.subrange(i as int, n as int)[0] == all[i as int]);
                                assert(first_team_href(all.subrange(i as int, n as int))
                                    == attr_str_spec(all[i as int], "href"@));
                            }
                            return match parse_u32(s2.as_str()) {
                                Some(id) => Ok(id),
                                None => Err(Error::ConversionError("team ID isn't a valid number")),
                            };
                        }
                        proof {
                            assert(!is_team_link(all[i as int]));
                        }
                    },
                    _ => {
                        proof {
                            assert(!is_team_link(all[i as int]));
                        }
                    },
                }
            },
            None => {
                proof {
                    assert(!is_team_link(all[i as int]));
                }
            },
        }
        proof {
            assert(first_team_href(Seq::<Elem>::empty()) is None);
            assert(seq![all[i as int]].drop_first() =~= Seq::<Elem>::empty());
            assert(first_team_href(seq![all[i as int]]) is None);
            assert(first_team_href(all.subrange(0, (i + 1) as int)) is None);
        }
        i += 1;
    }
    proof {
        assert(all.subrange(0, n as int) =~= all);
    }
    Err(Error::ConversionError("no team link found"))
}

/// The team's display name.
pub open spec fn team_name_spec(root: Option<Elem>) -> Result<Seq<char>, Error> {
    match rich_text(rich_find(root, "profile-team-name"@)) {
        None => Err(Error::ConversionError("no team name found")),
        Some(t) => Ok(t),
    }
}

/// The team's HLTV world ranking: the text of the first link in the
/// right-hand stats block, with its leading `#` stripped.
pub open spec fn team_rank_spec(root: Option<Elem>) -> Result<u32, Error> {
    match rich_text(
        rich_find_tag(rich_find(rich_find(root, "profile-team-stats-container"@), "right"@), "a"@),
    ) {
        None => Err(Error::ConversionError("couldn't find hltv ranking text container")),
        Some(t) => if t.len() >= 1 {
            match parse_u32_spec(t.drop_first()) {
                Some(r) => Ok(r),
                None => Err(Error::ConversionError("couldn't parse hltv ranking")),
            }
        } else {
            Err(Error::ConversionError("couldn't parse hltv ranking"))
        },
    }
}

/// Returns the hltv team ranking.
pub fn get_team_rank(root: RichNode) -> (r: Result<u32, Error>)
    ensures
        r == team_rank_spec(root.opt()),
{
    let t = match root.find("profile-team-stats-container").find("right").find_tag(
        "a",
    ).inner_text() {
        Some(t) => t,
        None => {
            return Err(Error::ConversionError("couldn't find hltv ranking text container"));
        },
    };
    let len = t.as_str().unicode_len();
    if len < 1 {
        return Err(Error::ConversionError("couldn't parse hltv ranking"));
    }
    let digits = t.as_str().substring_char(1, len);
    proof {
        assert(digits@ =~= t@.drop_first());
    }
    match parse_u32(digits) {
        Some(r) => Ok(r),
        None => Err(Error::ConversionError("couldn't parse hltv ranking")),
    }
}

/// One roster cell: the nickname from the `title` attribute and the ID
/// from the player link's third path segment; both are required.
pub open spec fn roster_cell_spec(child: Elem) -> Result<PlayerView, Error> {
    match attr_str_spec(child, "title"@) {
        None => Err(Error::ConversionError("player tag has no title attr")),
        Some(nickname) => match attr_str_spec(child, "href"@) {
            None => Err(Error::ConversionError("player tag has no href attr")),
            Some(href) => if split_seq(href, '/').len() <= 2 {
                Err(Error::ConversionError("href of player link has incorrect format"))
            } else {
                match parse_u32_spec(split_seq(href, '/')[2]) {
                    Some(id) => Ok(PlayerView { id, nickname }),
                    None => Err(Error::ConversionError("href player id is not a number")),
                }
            },
        },
    }
}

/// The roster entries of a list of cells, in order, first error
/// aborting.
pub open spec fn roster_list_spec(cells: Seq<Elem>) -> Result<Seq<PlayerView>, Error>
    decreases cells.len(),
{
    if cells.len() == 0 {
        Ok(Seq::empty())
    } else {
        match roster_cell_spec(cells[0]) {
            Err(e) => Err(e),
            Ok(p) => match roster_list_spec(cells.drop_first()) {
                Err(e) => Err(e),
                Ok(rest) => Ok(seq![p] + rest),
            },
        }
    }
}

/// The players of the roster container: every element child of the
/// `bodyshot-team` block, in order.  A roster can hold fewer than five
/// players or more than five (6-man rosters); a page without the block
/// lists no players.
pub open spec fn players_spec(root: Option<Elem>) -> Result<Seq<PlayerView>, Error> {
    match rich_find(root, "bodyshot-team"@) {
        None => Ok(Seq::empty()),
        Some(t) => roster_list_spec(crate::dom::elem_children(t.children@)),
    }
}

/// The views of a sequence of players.
pub open spec fn player_views(s: Seq<Player>) -> Seq<PlayerView> {
    Seq::new(s.len(), |i: int| s[i]@)
}

/// Returns the collection of players in this team, one per roster
/// cell.
#[verifier::loop_isolation(false)]
pub fn get_players(root: RichNode) -> (r: Result<Vec<Player>, Error>)
    ensures
        match (r, players_spec(root.opt())) {
            (Ok(v), Ok(s)) => player_views(v@) == s,
            (Err(a), Err(b)) => a == b,
            _ => false,
        },
{
    let roster = root.find("bodyshot-team");
    let mut out: Vec<Player> = Vec::new();
    let t = match roster.n {
        Some(t) => t,
        None => {
            proof {
                assert(player_views(out@) =~= Seq::<PlayerView>::empty());
            }
            return Ok(out);
        },
    };
    let ghost cells = crate::dom::elem_children(t.children@);
    let n = crate::dom::elem_child_count(t);
    let mut i: usize = 0;
    proof {
        assert(cells.subrange(0, n as int) =~= cells);
        let m = roster_list_spec(cells);
        if m is Ok {
            assert(player_views(out@) + m->Ok_0 =~= m->Ok_0);
        }
    }
    while i < n
        invariant
            0 <= i <= n,
            n == cells.len(),
            roster_list_spec(cells) == (match roster_list_spec(cells.subrange(i as int, n as int)) {
                Ok(rest) => Ok::<Seq<PlayerView>, Error>(player_views(out@) + rest),
                Err(e) => Err(e),
            }),
        decreases n - i,
    {
        proof {
            assert(cells.subrange(i as int, n as int)[0] == cells[i as int]);
            assert(cells.subrange(i as int, n as int).drop_first() =~= cells.subrange(
                (i + 1) as int,
                n as int,
            ));
        }
        let child = match crate::dom::elem_child(t, i) {
            Some(c) => c,
            None => {
                proof {
                    assert(false);
                }
                return Err(Error::ParseError);
            },
        };
        let nickname = match crate::dom::elem_attr(child, "title") {
            Some(na) => na,
            None => {
                return Err(Error::ConversionError("player tag has no title attr"));
            },
        };
        let href = match crate::dom::elem_attr(child, "href") {
            Some(h) => h,
            None => {
                return Err(Error::ConversionError("player tag has no href attr"));
            },
        };
        let seg = match split_nth(href.as_str(), '/', 2) {
            Some(s) => s,
            None => {
                return Err(Error::ConversionError("href of player link has incorrect format"));
            },
        };
        let id = match parse_u32(seg.as_str()) {
            Some(x) => x,
            None => {
                return Err(Error::ConversionError("href player id is not a number"));
            },
        };
        let ghost prev = out@;
        let ghost pv = PlayerView { id, nickname: nickname@ };
        out.push(Player { id, nickname });
        proof {
            let rest = roster_list_spec(cells.subrange((i + 1) as int, n as int));
            if rest is Ok {
                assert(player_views(prev) + (seq![pv] + rest->Ok_0) =~= player_views(out@)
                    + rest->Ok_0);
            }
        }
        i += 1;
    }
    proof {
        assert(cells.subrange(n as int, n as int) =~= Seq::<Elem>::empty());
        let m = roster_list_spec(cells);
        if m is Ok {
            assert(player_views(out@) + Seq::<PlayerView>::empty() =~= player_views(out@));
        }
    }
    Ok(out)
}

/// The team's logo URL.
pub open spec fn team_logo_spec(root: Option<Elem>) -> Result<Seq<char>, Error> {
    match rich_attr(
        rich_find(rich_find(root, "profile-team-logo-container"@), "teamlogo"@),
        "src"@,
    ) {
        None => Err(Error::ConversionError("couldn't find logo container or logo")),
        Some(l) => Ok(l),
    }
}

/// What converting a team profile page yields.
pub open spec fn team_page_spec(d: Document) -> Result<TeamPageView, Error> {
    match first_with_class(d.elems(), "teamProfile"@) {
        None => Err(Error::ConversionError("no teamProfile node found")),
        Some(root) => {
            let r = Some(root);
            match team_id_spec(r) {
                Err(e) => Err(e),
                Ok(id) => match team_name_spec(r) {
                    Err(e) => Err(e),
                    Ok(name) => match team_rank_spec(r) {
                        Err(e) => Err(e),
                        Ok(ranking) => match players_spec(r) {
                            Err(e) => Err(e),
                            Ok(players) => match team_logo_spec(r) {
                                Err(e) => Err(e),
                                Ok(logo) => Ok(
                                    TeamPageView { id, name, ranking, players, logo },
                                ),
                            },
                        },
                    },
                },
            }
        },
    }
}

/// Converts a parsed document holding a team profile page.
pub fn convert(d: &Document) -> (r: Result<TeamPage, Error>)
    ensures
        match (r, team_page_spec(*d)) {
            (Ok(t), Ok(v)) => t@ == v,
            (Err(a), Err(b)) => a == b,
            _ => false,
        },
{
    let root_elem = match d.find_first_class("teamProfile") {
        Some(e) => e,
        None => {
            return Err(Error::ConversionError("no teamProfile node found"));
        },
    };
    let root = RichNode::from_elem(root_elem);
    let id = match get_team_id(root) {
        Ok(x) => x,
        Err(e) => {
            return Err(e);
        },
    };
    let name = match root.find("profile-team-name").inner_text() {
        Some(t) => t,
        None => {
            return Err(Error::ConversionError("no team name found"));
        },
    };
    let ranking = match get_team_rank(root) {
        Ok(x) => x,
        Err(e) => {
            return Err(e);
        },
    };
    let players = match get_players(root) {
        Ok(x) => x,
        Err(e) => {
            return Err(e);
        },
    };
    let logo = match root.find("profile-team-logo-container").find("teamlogo").get_attr_str(
        "src",
    ) {
        Some(l) => l,
        None => {
            return Err(Error::ConversionError("couldn't find logo container or logo"));
        },
    };
    Ok(TeamPage { id, name, ranking, players, logo })
}

/// Identity comes from hyperlinks: every roster player's ID is the
/// numeric value embedded in the third path segment of that player's
/// profile link.
pub proof fn lemma_player_id_is_link_segment(cell: Elem, p: PlayerView)
    requires
        roster_cell_spec(cell) == Ok::<PlayerView, Error>(p),
    ensures
        attr_str_spec(cell, "href"@) is Some,
        parse_u32_spec(split_seq(attr_str_spec(cell, "href"@)->0, '/')[2]) == Some(p.id),
{
}

/// Conversion is a pure function of the document: two conversions of
/// the same document yield identical records.
pub proof fn lemma_team_page_deterministic(
    d: Document,
    r1: Result<TeamPageView, Error>,
    r2: Result<TeamPageView, Error>,
)
    requires
        r1 == team_page_spec(d),
        r2 == team_page_spec(d),
    ensures
        r1 == r2,
{
}

} // verus!
