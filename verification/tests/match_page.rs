//! Tests for the match detail page converter: the finished-bo3
//! fixture, the score heuristic, placeholder skipping and the status
//! classification.
use hltv::converter::match_page;
use hltv::data::{
    Decimal, Event, GameMap, MapScore, MatchFormat, MatchPage, MatchScore, MatchStatus,
    Performance, Player, Stats, Team,
};
use hltv::dom::{Document, Elem, Node};
use hltv::rich::RichNode;
use hltv::Error;

fn elem(tag: &str, attrs: Vec<(&str, &str)>, children: Vec<Node>) -> Elem {
    Elem {
        tag: tag.to_string(),
        attrs: attrs.into_iter().map(|(k, v)| (k.to_string(), Some(v.to_string()))).collect(),
        children,
    }
}

fn el(tag: &str, attrs: Vec<(&str, &str)>, children: Vec<Node>) -> Node {
    Node::Elem(elem(tag, attrs, children))
}

fn txt(s: &str) -> Node {
    Node::Text(s.to_string())
}

fn dec(hundredths: u32) -> Decimal {
    Decimal { hundredths }
}

/// Convenient constructor for Performance; stats decimals are given in
/// hundredths (87.3 is 8730).
fn perf(id: u32, s: (u32, u32, u32, u32, u32), name: &str) -> Performance {
    Performance(
        Player { id, nickname: name.to_string() },
        Stats { kills: s.0, deaths: s.1, adr: dec(s.2), kast: dec(s.3), rating: dec(s.4) },
    )
}

fn team_gradient(slot: &str, href: &str, name: &str, logo: &str, score: &str) -> Node {
    el(
        "div",
        vec![("class", slot)],
        vec![
            el(
                "a",
                vec![("href", href)],
                vec![
                    el("img", vec![("class", "logo"), ("src", logo)], vec![]),
                    el("div", vec![("class", "teamName")], vec![txt(name)]),
                ],
            ),
            el("div", vec![("class", "score")], vec![txt(score)]),
        ],
    )
}

fn mapholder(name: &str, left: &str, right: &str) -> Node {
    el(
        "div",
        vec![("class", "mapholder")],
        vec![
            el("div", vec![("class", "mapname")], vec![txt(name)]),
            el(
                "div",
                vec![("class", "results-left")],
                vec![el("div", vec![("class", "results-team-score")], vec![txt(left)])],
            ),
            el(
                "div",
                vec![("class", "results-right")],
                vec![el("div", vec![("class", "results-team-score")], vec![txt(right)])],
            ),
        ],
    )
}

fn stats_row(href: &str, name: &str, kd: &str, adr: &str, kast: &str, rating: &str) -> Node {
    el(
        "tr",
        vec![],
        vec![
            el(
                "td",
                vec![("class", "players")],
                vec![el(
                    "div",
                    vec![("class", "flagAlign")],
                    vec![el("a", vec![("href", href)], vec![txt(name)])],
                )],
            ),
            el("td", vec![("class", "statsPlayerName")], vec![txt(name)]),
            el("td", vec![("class", "kd")], vec![txt(kd)]),
            el("td", vec![("class", "adr")], vec![txt(adr)]),
            el("td", vec![("class", "kast")], vec![txt(kast)]),
            el("td", vec![("class", "rating")], vec![txt(rating)]),
        ],
    )
}

fn header_row() -> Node {
    el("tr", vec![("class", "header-row")], vec![txt("Player")])
}

/// The captured finished bo3 between Astralis and Vitality.
fn finished_bo3() -> Document {
    let team1_rows = vec![
        header_row(),
        stats_row("/player/7398/dupreeh", "dupreeh", "67-53", "87.3", "71.4%", "1.25"),
        stats_row("/player/7592/device", "device", "56-51", "79.0", "68.8%", "1.13"),
        stats_row("/player/4954/Xyp9x", "Xyp9x", "52-45", "76.1", "70.1%", "1.09"),
        stats_row("/player/9032/Magisk", "Magisk", "54-53", "73.9", "70.1%", "1.07"),
        stats_row("/player/7412/gla1ve", "gla1ve", "44-55", "65.1", "70.1%", "0.9"),
    ];
    let team2_rows = vec![
        header_row(),
        stats_row("/player/11893/ZywOo", "ZywOo", "81-49", "98.3", "72.7%", "1.47"),
        stats_row("/player/1225/shox", "shox", "41-38", "88.2", "76.8%", "1.14"),
        stats_row("/player/7169/RpK", "RpK", "43-54", "65.5", "74.0%", "0.92"),
        stats_row("/player/7322/apEX", "apEX", "43-54", "69.3", "67.5%", "0.88"),
        stats_row("/player/19512/Nivera", "Nivera", "24-42", "59.6", "60.8%", "0.76"),
        stats_row("/player/14176/misutaaa", "misutaaa", "25-37", "47.8", "70.2%", "0.75"),
    ];
    Document {
        roots: vec![el(
            "div",
            vec![("class", "match-page")],
            vec![
                el(
                    "a",
                    vec![("href", "/matches/2346065/astralis-vs-vitality")],
                    vec![txt("Astralis vs. Vitality")],
                ),
                team_gradient(
                    "team1-gradient",
                    "/team/6665/astralis",
                    "Astralis",
                    "https://img-cdn.hltv.org/teamlogo/astralis.svg",
                    "2",
                ),
                team_gradient(
                    "team2-gradient",
                    "/team/9565/vitality",
                    "Vitality",
                    "https://img-cdn.hltv.org/teamlogo/vitality.png",
                    "1",
                ),
                el(
                    "div",
                    vec![("class", "timeAndEvent")],
                    vec![
                        el(
                            "div",
                            vec![("class", "time"), ("data-unix", "1611415800000")],
                            vec![txt("20:30")],
                        ),
                        el(
                            "div",
                            vec![("class", "event")],
                            vec![el(
                                "a",
                                vec![
                                    ("href", "/events/5206/blast-premier-global-final-2020"),
                                    ("title", "BLAST Premier Global Final 2020"),
                                ],
                                vec![txt("BLAST Premier Global Final 2020")],
                            )],
                        ),
                        el("div", vec![("class", "countdown")], vec![txt("Match over")]),
                    ],
                ),
                el(
                    "div",
                    vec![("class", "maps")],
                    vec![
                        mapholder("Dust2", "16", "14"),
                        mapholder("Overpass", "10", "16"),
                        mapholder("Inferno", "16", "5"),
                    ],
                ),
                el(
                    "div",
                    vec![("class", "stats-content")],
                    vec![
                        el("table", vec![("class", "totalstats")], team1_rows),
                        el("table", vec![("class", "totalstats")], team2_rows),
                    ],
                ),
            ],
        )],
    }
}

#[test]
pub fn xyz() {
    let d = finished_bo3();
    let root = d.find_first_class("match-page").unwrap();
    println!("{:?}", match_page::get_performance(RichNode::from_elem(root)));
}

/// Tests if a finished bo3 match is correctly parsed.
#[test]
pub fn concluded_bo3() {
    let d = finished_bo3();
    let result = match_page::convert(&d).unwrap();
    assert_eq!(
        result,
        MatchPage {
            id: 2346065,
            status: MatchStatus::Finished,
            team1: Some(Team::new(
                6665,
                "Astralis",
                "https://img-cdn.hltv.org/teamlogo/astralis.svg",
                None
            )),
            team2: Some(Team::new(
                9565,
                "Vitality",
                "https://img-cdn.hltv.org/teamlogo/vitality.png",
                None
            )),
            event: Event { id: 5206, name: "BLAST Premier Global Final 2020".to_string() },
            date: 1611415800,
            format: MatchFormat::Bo3,
            maps: vec![
                MapScore::new(GameMap::Dust2, 16, 14),
                MapScore::new(GameMap::Overpass, 10, 16),
                MapScore::new(GameMap::Inferno, 16, 5),
            ],
            score: Some(MatchScore { team1: 2, team2: 1 }),
            stats: vec![
                perf(7398, (67, 53, 8730, 7140, 125), "dupreeh"),
                perf(7592, (56, 51, 7900, 6880, 113), "device"),
                perf(4954, (52, 45, 7610, 7010, 109), "Xyp9x"),
                perf(9032, (54, 53, 7390, 7010, 107), "Magisk"),
                perf(7412, (44, 55, 6510, 7010, 90), "gla1ve"),
                perf(11893, (81, 49, 9830, 7270, 147), "ZywOo"),
                perf(1225, (41, 38, 8820, 7680, 114), "shox"),
                perf(7169, (43, 54, 6550, 7400, 92), "RpK"),
                perf(7322, (43, 54, 6930, 6750, 88), "apEX"),
                perf(19512, (24, 42, 5960, 6080, 76), "Nivera"),
                perf(14176, (25, 37, 4780, 7020, 75), "misutaaa"),
            ],
        }
    );
    // every player row carries a valid (nonzero) ID and a rating
    for p in &result.stats {
        assert!(p.0.id > 0);
        assert!(p.1.rating.hundredths > 0);
    }
}

/// bo1-shaped counters (9 and 3) collapse to a 1-0 map score.
#[test]
pub fn bo1_score_heuristic() {
    let root = elem(
        "div",
        vec![("class", "match-page")],
        vec![
            team_gradient("team1-gradient", "/team/1/a", "A", "", "9"),
            team_gradient("team2-gradient", "/team/2/b", "B", "", "3"),
        ],
    );
    let score = match_page::get_score(RichNode::from_elem(&root)).unwrap();
    assert_eq!(score, MatchScore { team1: 1, team2: 0 });

    let root2 = elem(
        "div",
        vec![("class", "match-page")],
        vec![
            team_gradient("team1-gradient", "/team/1/a", "A", "", "2"),
            team_gradient("team2-gradient", "/team/2/b", "B", "", "16"),
        ],
    );
    let score2 = match_page::get_score(RichNode::from_elem(&root2)).unwrap();
    assert_eq!(score2, MatchScore { team1: 0, team2: 1 });

    let root3 = elem(
        "div",
        vec![("class", "match-page")],
        vec![
            team_gradient("team1-gradient", "/team/1/a", "A", "", "2"),
            team_gradient("team2-gradient", "/team/2/b", "B", "", "1"),
        ],
    );
    let score3 = match_page::get_score(RichNode::from_elem(&root3)).unwrap();
    assert_eq!(score3, MatchScore { team1: 2, team2: 1 });
}

/// A map holder named TBA contributes zero entries.
#[test]
pub fn placeholder_map_skipped() {
    let root = elem(
        "div",
        vec![("class", "match-page")],
        vec![el(
            "div",
            vec![("class", "maps")],
            vec![
                mapholder("Nuke", "16", "9"),
                mapholder("TBA", "-", "-"),
                mapholder("-", "-", "-"),
            ],
        )],
    );
    let maps = match_page::get_mapscores(RichNode::from_elem(&root)).unwrap();
    assert_eq!(maps, vec![MapScore::new(GameMap::Nuke, 16, 9)]);
}

/// A present but non-numeric round counter is a hard conversion error.
#[test]
pub fn malformed_map_score_is_error() {
    let root = elem(
        "div",
        vec![("class", "match-page")],
        vec![el(
            "div",
            vec![("class", "maps")],
            vec![mapholder("Nuke", "sixteen", "9")],
        )],
    );
    let r = match_page::get_mapscores(RichNode::from_elem(&root));
    assert_eq!(r, Err(Error::ConversionError("can't convert 1st team's map score")));
}

/// Status text classifies three ways: exact matches for finished and
/// live, everything else upcoming.
#[test]
pub fn status_classification() {
    for (text, expected) in [
        ("Match over", MatchStatus::Finished),
        ("LIVE", MatchStatus::Live),
        ("Starts in 02:10:00", MatchStatus::Upcoming),
    ] {
        let root = elem(
            "div",
            vec![("class", "match-page")],
            vec![el("div", vec![("class", "countdown")], vec![txt(text)])],
        );
        assert_eq!(match_page::get_matchstatus(RichNode::from_elem(&root)), Ok(expected));
    }
}

/// 1, 3, 5 or 7 map holders classify the format; any other count is a
/// schema error.
#[test]
pub fn map_count_classification() {
    for (count, expected) in [
        (1usize, Ok(MatchFormat::Bo1)),
        (3, Ok(MatchFormat::Bo3)),
        (5, Ok(MatchFormat::Bo5)),
        (7, Ok(MatchFormat::Bo7)),
        (2, Err(Error::ConversionError("can't determine match format. weird number of maps."))),
        (0, Err(Error::ConversionError("can't determine match format. weird number of maps."))),
    ] {
        let holders: Vec<Node> = (0..count).map(|_| mapholder("TBA", "-", "-")).collect();
        let root = elem(
            "div",
            vec![("class", "match-page")],
            vec![el("div", vec![("class", "maps")], holders)],
        );
        assert_eq!(match_page::get_matchformat(RichNode::from_elem(&root)), expected);
    }
}

/// A night-mode logo is reported when present and stays `None` when
/// absent.
#[test]
pub fn alt_logo() {
    let root = elem(
        "div",
        vec![("class", "match-page")],
        vec![
            team_gradient("team1-gradient", "/team/4869/big", "BIG", "day.png", "0"),
            el(
                "div",
                vec![("class", "team2-gradient")],
                vec![el(
                    "a",
                    vec![("href", "/team/4608/navi")],
                    vec![
                        el("img", vec![("class", "logo day-only"), ("src", "navi-day.png")], vec![]),
                        el(
                            "img",
                            vec![("class", "logo night-only"), ("src", "navi-night.png")],
                            vec![],
                        ),
                        el("div", vec![("class", "teamName")], vec![txt("Natus Vincere")]),
                    ],
                )],
            ),
        ],
    );
    let t1 = match_page::get_team(RichNode::from_elem(&root), "team1-gradient").unwrap();
    assert!(t1.alt_logo.is_none());
    let t2 = match_page::get_team(RichNode::from_elem(&root), "team2-gradient").unwrap();
    assert_eq!(t2.alt_logo, Some("navi-night.png".to_string()));
    assert_eq!(t2.logo, "navi-day.png".to_string());
}

/// A pre-epoch timestamp is a valid date: milliseconds divide to
/// seconds truncating toward zero, for either sign.
#[test]
pub fn negative_timestamp_date() {
    for (ms, expected) in [
        ("1611415800000", 1611415800i64),
        ("-1500", -1),
        ("-999", 0),
        ("-86400000", -86400),
    ] {
        let root = elem(
            "div",
            vec![("class", "match-page")],
            vec![el(
                "div",
                vec![("class", "timeAndEvent")],
                vec![el("div", vec![("class", "time"), ("data-unix", ms)], vec![])],
            )],
        );
        assert_eq!(match_page::get_date(RichNode::from_elem(&root)), Ok(expected));
    }
}

/// A live bo3 converts with status Live, partial map results and a
/// running score.
#[test]
pub fn live_match() {
    let d = Document {
        roots: vec![el(
            "div",
            vec![("class", "match-page")],
            vec![
                el("a", vec![("href", "/matches/2354349/g2-vs-og")], vec![txt("G2 vs. OG")]),
                team_gradient("team1-gradient", "/team/5995/g2", "G2", "g2.png", "1"),
                team_gradient("team2-gradient", "/team/10503/og", "OG", "og.png", "0"),
                el(
                    "div",
                    vec![("class", "timeAndEvent")],
                    vec![
                        el(
                            "div",
                            vec![("class", "time"), ("data-unix", "1650000000000")],
                            vec![txt("18:00")],
                        ),
                        el(
                            "div",
                            vec![("class", "event")],
                            vec![el(
                                "a",
                                vec![("href", "/events/6372/pro-league"), ("title", "Pro League")],
                                vec![txt("Pro League")],
                            )],
                        ),
                        el("div", vec![("class", "countdown")], vec![txt("LIVE")]),
                    ],
                ),
                el(
                    "div",
                    vec![("class", "maps")],
                    vec![
                        mapholder("Ancient", "16", "12"),
                        mapholder("Vertigo", "7", "9"),
                        mapholder("TBA", "-", "-"),
                    ],
                ),
            ],
        )],
    };
    let m = match_page::convert(&d).unwrap();
    assert_eq!(m.status, MatchStatus::Live);
    assert_eq!(m.id, 2354349);
    assert_eq!(m.format, MatchFormat::Bo3);
    assert_eq!(m.score, Some(MatchScore { team1: 1, team2: 0 }));
    assert_eq!(
        m.maps,
        vec![
            MapScore::new(GameMap::Ancient, 16, 12),
            MapScore::new(GameMap::Vertigo, 7, 9),
        ]
    );
    assert_eq!(m.stats, Vec::new());
}

/// Missing identity-bearing parts abort the conversion with their
/// specific errors.
#[test]
pub fn identity_error_variants() {
    // no match-page root at all
    let d = Document { roots: vec![el("div", vec![("class", "something")], vec![])] };
    assert_eq!(
        match_page::convert(&d),
        Err(Error::ConversionError("no root node match-page found"))
    );

    // an event link without a title attribute
    let root = elem(
        "div",
        vec![("class", "match-page")],
        vec![el(
            "div",
            vec![("class", "timeAndEvent")],
            vec![el(
                "div",
                vec![("class", "event")],
                vec![el("a", vec![("href", "/events/5206/x")], vec![txt("event")])],
            )],
        )],
    );
    assert_eq!(
        match_page::get_event(RichNode::from_elem(&root)),
        Err(Error::ConversionError("no title attribute in event"))
    );

    // no countdown element
    assert_eq!(
        match_page::get_matchstatus(RichNode::from_elem(&root)),
        Err(Error::ConversionError("can't find countdown or match status"))
    );

    // a time element without the unix attribute
    let root2 = elem(
        "div",
        vec![("class", "match-page")],
        vec![el(
            "div",
            vec![("class", "timeAndEvent")],
            vec![el("div", vec![("class", "time")], vec![txt("20:30")])],
        )],
    );
    assert_eq!(
        match_page::get_date(RichNode::from_elem(&root2)),
        Err(Error::ConversionError("no data-unix attribute"))
    );

    // a unix attribute that is not a number
    let root3 = elem(
        "div",
        vec![("class", "match-page")],
        vec![el(
            "div",
            vec![("class", "timeAndEvent")],
            vec![el("div", vec![("class", "time"), ("data-unix", "soon")], vec![])],
        )],
    );
    assert_eq!(match_page::get_date(RichNode::from_elem(&root3)), Err(Error::ParseError));
}

/// An upcoming match page with no team links still converts, with both
/// teams absent.
#[test]
pub fn unknown_upcoming() {
    let d = Document {
        roots: vec![el(
            "div",
            vec![("class", "match-page")],
            vec![
                el("a", vec![("href", "/matches/999001/tba-vs-tba")], vec![txt("TBA")]),
                el(
                    "div",
                    vec![("class", "timeAndEvent")],
                    vec![
                        el(
                            "div",
                            vec![("class", "time"), ("data-unix", "1700000000000")],
                            vec![txt("12:00")],
                        ),
                        el(
                            "div",
                            vec![("class", "event")],
                            vec![el(
                                "a",
                                vec![("href", "/events/7000/some-event"), ("title", "Some Event")],
                                vec![txt("Some Event")],
                            )],
                        ),
                        el("div", vec![("class", "countdown")], vec![txt("Starts in 02:10:00")]),
                    ],
                ),
                el(
                    "div",
                    vec![("class", "maps")],
                    vec![
                        mapholder("TBA", "-", "-"),
                        mapholder("TBA", "-", "-"),
                        mapholder("TBA", "-", "-"),
                    ],
                ),
            ],
        )],
    };
    let m = match_page::convert(&d).unwrap();
    assert_eq!(m.team1, None);
    assert_eq!(m.team2, None);
    assert_eq!(m.maps, Vec::new());
    assert_eq!(m.stats, Vec::new());
    assert_eq!(m.score, None);
    assert_eq!(m.status, MatchStatus::Upcoming);
    assert_eq!(m.format, MatchFormat::Bo3);
    assert_eq!(m.id, 999001);
}
