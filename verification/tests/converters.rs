//! Tests for the player, result-list, upcoming-list and team-page
//! converters.
use hltv::converter::{player, results, team_page, upcoming};
use hltv::data::{MatchFormat, MatchResult, Player, Score, Team, WhichTeam};
use hltv::dom::{Document, Elem, Node};

fn elem(tag: &str, attrs: Vec<(&str, &str)>, children: Vec<Node>) -> Elem {
    Elem {
        tag: tag.to_string(),
        attrs: attrs.into_iter().map(|(k, v)| (k.to_string(), Some(v.to_string()))).collect(),
        children,
    }
}

fn el(tag: &str, attrs: Vec<(&str, &str)>, children: Vec<Node>) -> Node {
    Node::Elem(elem(tag, attrs, children))
}

fn txt(s: &str) -> Node {
    Node::Text(s.to_string())
}

fn match_player_cell(id: &str, name: &str) -> Node {
    el(
        "td",
        vec![("class", "player")],
        vec![
            el("div", vec![("class", "flagAlign"), ("data-player-id", id)], vec![]),
            el("div", vec![("class", "text-ellipsis")], vec![txt(name)]),
        ],
    )
}

fn team_player_cell(id_path: &str, name: &str) -> Node {
    el(
        "a",
        vec![("class", "col-custom"), ("title", name), ("href", id_path)],
        vec![txt(name)],
    )
}

#[test]
pub fn abc() {}

/// Tests if the converter parses player info from a match page correctly.
#[test]
pub fn player_match() {
    let d = Document {
        roots: vec![el(
            "table",
            vec![],
            vec![
                match_player_cell("1337", "dist1ll"),
                match_player_cell("1338", "3rr0r"),
            ],
        )],
    };
    let result = player::convert(&d).unwrap();
    assert_eq!(result.len(), 2);
    assert_eq!(result[0], Player { id: 1337, nickname: "dist1ll".to_string() });
    assert_eq!(result[1], Player { id: 1338, nickname: "3rr0r".to_string() });
}

/// Tests if the converter parses player info from a team page correctly.
#[test]
pub fn player_team() {
    let d = Document {
        roots: vec![el(
            "div",
            vec![("class", "bodyshot-team-bg")],
            vec![
                team_player_cell("/player/123/dist1ll", "dist1ll"),
                team_player_cell("/player/124/3rr0r", "3rr0r"),
                team_player_cell("/player/125/rabbit", "rabbit"),
            ],
        )],
    };
    let result = player::convert(&d).unwrap();
    assert_eq!(result.len(), 3);
    assert_eq!(result[0], Player { id: 123, nickname: "dist1ll".to_string() });
    assert_eq!(result[1], Player { id: 124, nickname: "3rr0r".to_string() });
    assert_eq!(result[2], Player { id: 125, nickname: "rabbit".to_string() });
}

/// The match-page player schema alone yields only those players.
#[test]
pub fn converter_player_match() {
    let d = Document {
        roots: vec![el(
            "table",
            vec![],
            vec![
                match_player_cell("77", "dist1ll"),
                match_player_cell("78", "3rr0r"),
            ],
        )],
    };
    let result = player::convert(&d).unwrap();
    assert_eq!(result[0].nickname, "dist1ll");
    assert_eq!(result[1].nickname, "3rr0r");
}

/// The team-page player schema alone yields only those players.
#[test]
pub fn converter_player_team() {
    let d = Document {
        roots: vec![el(
            "div",
            vec![("class", "bodyshot-team-bg")],
            vec![
                team_player_cell("/player/11/dist1ll", "dist1ll"),
                team_player_cell("/player/12/3rr0r", "3rr0r"),
            ],
        )],
    };
    let result = player::convert(&d).unwrap();
    assert_eq!(result.len(), 2);
    assert_eq!(result[0].nickname, "dist1ll");
    assert_eq!(result[1].nickname, "3rr0r");
}

fn result_con(
    id_path: &str,
    team1: &str,
    team2: &str,
    team1_won: bool,
    won: &str,
    lost: &str,
    event: &str,
    format: &str,
) -> Node {
    let team1_class = if team1_won { "team team-won" } else { "team" };
    el(
        "div",
        vec![("class", "result-con")],
        vec![el(
            "a",
            vec![("class", "a-reset"), ("href", id_path)],
            vec![
                el(
                    "div",
                    vec![("class", "team1")],
                    vec![el("div", vec![("class", team1_class)], vec![txt(team1)])],
                ),
                el(
                    "div",
                    vec![("class", "team2")],
                    vec![el("div", vec![("class", "team")], vec![txt(team2)])],
                ),
                el("span", vec![("class", "score-won")], vec![txt(won)]),
                el("span", vec![("class", "score-lost")], vec![txt(lost)]),
                el("span", vec![("class", "event-name")], vec![txt(event)]),
                el("div", vec![("class", "map-text")], vec![txt(format)]),
            ],
        )],
    )
}

/// Tests if the converter parses match results correctly.
#[test]
pub fn results() {
    let d = Document {
        roots: vec![
            result_con(
                "/matches/123456/stars-horizon-vs-redragon",
                "Stars Horizon",
                "Redragon",
                true,
                "2",
                "0",
                "Liga Gamers Club 2022 Serie A January Cup",
                "bo3",
            ),
            result_con(
                "/matches/2354179/dignitas-vs-havu",
                "Dignitas",
                "HAVU",
                true,
                "16",
                "10",
                "Elisa Invitational Winter 2021 Main Qualifier",
                "bo1",
            ),
        ],
    };
    let result = results::convert(&d).unwrap();
    assert_eq!(result.len(), 2);

    assert_eq!(
        result[0],
        MatchResult {
            id: 123456,
            winner: WhichTeam::First,
            team1: "Stars Horizon".to_string(),
            team2: "Redragon".to_string(),
            score: Score { score_won: 2, score_lost: 0 },
            event: "Liga Gamers Club 2022 Serie A January Cup".to_string(),
            format: MatchFormat::Bo3,
        }
    );

    assert_eq!(
        result[1],
        MatchResult {
            id: 2354179,
            winner: WhichTeam::First,
            team1: "Dignitas".to_string(),
            team2: "HAVU".to_string(),
            score: Score { score_won: 16, score_lost: 10 },
            event: "Elisa Invitational Winter 2021 Main Qualifier".to_string(),
            format: MatchFormat::Bo1,
        }
    );
}

fn upcoming_con(
    id_path: &str,
    teams: Option<((&str, &str), (&str, &str))>,
    event: &str,
    unix_ms: &str,
    stars: &str,
) -> Node {
    let mut attrs =
        vec![("class", "upcomingMatch"), ("data-zonedgrouping-entry-unix", unix_ms), ("stars", stars)];
    let mut inner = Vec::new();
    match teams {
        Some(((id1, name1), (id2, name2))) => {
            attrs.push(("team1", id1));
            attrs.push(("team2", id2));
            inner.push(el(
                "div",
                vec![("class", "matchEvent")],
                vec![el("div", vec![("class", "matchEventName")], vec![txt(event)])],
            ));
            inner.push(el(
                "div",
                vec![("class", "team1")],
                vec![el("div", vec![("class", "matchTeamName")], vec![txt(name1)])],
            ));
            inner.push(el(
                "div",
                vec![("class", "team2")],
                vec![el("div", vec![("class", "matchTeamName")], vec![txt(name2)])],
            ));
        },
        None => {
            inner.push(el(
                "div",
                vec![("class", "matchInfoEmpty")],
                vec![el("span", vec![("class", "line-clamp-3")], vec![txt(event)])],
            ));
        },
    }
    el(
        "div",
        attrs,
        vec![el("a", vec![("class", "match"), ("href", id_path)], inner)],
    )
}

fn upcoming_fixture() -> Document {
    Document {
        roots: vec![
            upcoming_con(
                "/matches/2353980/faze-vs-liquid",
                Some(((("6667"), "FaZe"), (("5973"), "Liquid"))),
                "IEM Katowice 2022",
                "1645380000000",
                "5",
            ),
            upcoming_con(
                "/matches/2353979/tba-vs-tba",
                None,
                "IEM Katowice 2022 play-in",
                "1645383600000",
                "0",
            ),
        ],
    }
}

/// Tests if upcoming matches are parsed with teams, IDs and absences
/// intact.
#[test]
pub fn upcoming_matches() {
    let d = upcoming_fixture();
    let result = upcoming::convert(&d).unwrap();
    assert_eq!(result.len(), 2);
    // test existence of teams
    assert!(result[1].team1.is_none() && result[1].team2.is_none());
    // test team data
    assert_eq!(*result[0].team1.as_ref().unwrap(), Team::new(6667, "FaZe", "", None));
    assert_eq!(*result[0].team2.as_ref().unwrap(), Team::new(5973, "Liquid", "", None));
    // test match ID
    assert_eq!(result[0].id, 2353980);
    assert_eq!(result[1].id, 2353979);
}

/// Tests if the converter parses the upcoming match list without
/// errors.
#[test]
pub fn matches_matches() {
    let d = upcoming_fixture();
    let result = upcoming::convert(&d).unwrap();
    println!("{:?}", result);
}

/// A result container without its identity link fails with a parse
/// error; a malformed ID fails with the conversion error.
#[test]
pub fn result_error_variants() {
    let d = Document {
        roots: vec![el("div", vec![("class", "result-con")], vec![txt("empty")])],
    };
    assert_eq!(results::convert(&d), Err(hltv::Error::ParseError));

    let d2 = Document {
        roots: vec![result_con(
            "/matches/notanumber/a-vs-b",
            "A",
            "B",
            true,
            "2",
            "0",
            "Cup",
            "bo3",
        )],
    };
    assert_eq!(
        results::convert(&d2),
        Err(hltv::Error::ConversionError("match ID isn't a valid number"))
    );
}

/// A pre-epoch start time is a valid date for an upcoming match.
#[test]
pub fn upcoming_negative_timestamp() {
    let d = Document {
        roots: vec![upcoming_con(
            "/matches/88/x",
            None,
            "Retro Cup",
            "-1500",
            "0",
        )],
    };
    let result = upcoming::convert(&d).unwrap();
    assert_eq!(result[0].date, -1);
}

/// A container without the stars attribute, or with a non-numeric one,
/// fails accordingly.
#[test]
pub fn upcoming_error_variants() {
    let base = |stars_attr: Option<&str>| {
        let mut attrs = vec![
            ("class", "upcomingMatch"),
            ("data-zonedgrouping-entry-unix", "1645380000000"),
        ];
        if let Some(s) = stars_attr {
            attrs.push(("stars", s));
        }
        Document {
            roots: vec![el(
                "div",
                attrs,
                vec![el(
                    "a",
                    vec![("class", "match"), ("href", "/matches/77/x")],
                    vec![el(
                        "div",
                        vec![("class", "matchEvent")],
                        vec![el("div", vec![("class", "matchEventName")], vec![txt("Cup")])],
                    )],
                )],
            )],
        }
    };
    assert_eq!(
        upcoming::convert(&base(None)),
        Err(hltv::Error::ConversionError("no stars attribute in div.upcomingMatch"))
    );
    assert_eq!(upcoming::convert(&base(Some("many"))), Err(hltv::Error::ParseError));
    assert!(upcoming::convert(&base(Some("3"))).is_ok());
}

fn roster_cell(id_path: &str, name: &str) -> Node {
    el("a", vec![("title", name), ("href", id_path)], vec![txt(name)])
}

fn team_profile_doc(roster: Option<Vec<Node>>) -> Document {
    let mut parts = vec![
        el(
            "a",
            vec![("href", "/team/4608/natus-vincere")],
            vec![el("div", vec![("class", "profile-team-name")], vec![txt("Natus Vincere")])],
        ),
        el(
            "div",
            vec![("class", "profile-team-logo-container")],
            vec![el("img", vec![("class", "teamlogo"), ("src", "navi.png")], vec![])],
        ),
        el(
            "div",
            vec![("class", "profile-team-stats-container")],
            vec![el(
                "div",
                vec![("class", "right")],
                vec![el("a", vec![("href", "/ranking/teams")], vec![txt("#2")])],
            )],
        ),
    ];
    if let Some(cells) = roster {
        parts.push(el("div", vec![("class", "bodyshot-team")], cells));
    }
    Document { roots: vec![el("div", vec![("class", "teamProfile")], parts)] }
}

/// The roster holds however many cells the block shows: six-man
/// rosters, short rosters and a missing block all convert.
#[test]
pub fn roster_sizes() {
    let six = team_profile_doc(Some(vec![
        roster_cell("/player/1/a", "a"),
        roster_cell("/player/2/b", "b"),
        roster_cell("/player/3/c", "c"),
        roster_cell("/player/4/d", "d"),
        roster_cell("/player/5/e", "e"),
        roster_cell("/player/6/f", "f"),
    ]));
    let result = team_page::convert(&six).unwrap();
    assert_eq!(result.players.len(), 6);
    assert_eq!(result.players[5], Player { id: 6, nickname: "f".to_string() });

    let four = team_profile_doc(Some(vec![
        roster_cell("/player/1/a", "a"),
        roster_cell("/player/2/b", "b"),
        roster_cell("/player/3/c", "c"),
        roster_cell("/player/4/d", "d"),
    ]));
    assert_eq!(team_page::convert(&four).unwrap().players.len(), 4);

    let none = team_profile_doc(None);
    assert_eq!(team_page::convert(&none).unwrap().players, Vec::new());

    // a cell that is present but malformed is still an error
    let bad = team_profile_doc(Some(vec![el("a", vec![("href", "/player/1/a")], vec![])]));
    assert_eq!(
        team_page::convert(&bad),
        Err(hltv::Error::ConversionError("player tag has no title attr"))
    );
}

/// Tests if a top team with very complete data gets parsed correctly.
#[test]
pub fn top_team() {
    let d = Document {
        roots: vec![el(
            "div",
            vec![("class", "teamProfile")],
            vec![
                el(
                    "a",
                    vec![("href", "/team/4608/natus-vincere")],
                    vec![el("div", vec![("class", "profile-team-name")], vec![txt("Natus Vincere")])],
                ),
                el(
                    "div",
                    vec![("class", "profile-team-logo-container")],
                    vec![el(
                        "img",
                        vec![("class", "teamlogo"), ("src", "https://img-cdn.hltv.org/navi.png")],
                        vec![],
                    )],
                ),
                el(
                    "div",
                    vec![("class", "profile-team-stats-container")],
                    vec![el(
                        "div",
                        vec![("class", "right")],
                        vec![el("a", vec![("href", "/ranking/teams")], vec![txt("#2")])],
                    )],
                ),
                el(
                    "div",
                    vec![("class", "bodyshot-team")],
                    vec![
                        roster_cell("/player/3741/b1ad3", "B1ad3"),
                        roster_cell("/player/7998/s1mple", "s1mple"),
                        roster_cell("/player/429/electronic", "electroNic"),
                        roster_cell("/player/13776/b1t", "b1t"),
                        roster_cell("/player/18053/npl", "npl"),
                    ],
                ),
            ],
        )],
    };
    let result = team_page::convert(&d).unwrap();
    println!("{:?}", result);
    assert_eq!(result.id, 4608);
    assert_eq!(result.name, "Natus Vincere");
    assert_eq!(result.ranking, 2);
    assert_eq!(result.logo, "https://img-cdn.hltv.org/navi.png");
    assert_eq!(result.players.len(), 5);
    assert_eq!(result.players[1], Player { id: 7998, nickname: "s1mple".to_string() });
}
