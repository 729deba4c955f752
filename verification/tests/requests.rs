//! Tests for the request-URL builders.
use hltv::data::GameMap;
use hltv::request::EventTypeFilter;

#[test]
pub fn get_match_url() {
    let req = hltv::get_match(2346065);
    assert_eq!(req.url, "https://www.hltv.org/matches/2346065/xyz");
}

#[test]
pub fn results_url() {
    let req = hltv::results()
        .from(2016, 2, 20)
        .to(2017, 12, 20)
        .map(GameMap::Inferno)
        .event(2683)
        .team(4608)
        .player(7998)
        .event_type(EventTypeFilter::Lan)
        .build();
    assert_eq!(
        req.url,
        "https://www.hltv.org/results?stars=0&matchType=LAN&startDate=2016-2-20&endDate=2017-12-20&event=2683&player=7998&team=4608&map=de_inferno"
    );
}

#[test]
pub fn results_url_multi() {
    let req = hltv::results()
        .stars(2)
        .year(2016)
        .maps(vec![GameMap::Inferno, GameMap::Cobblestone])
        .events(vec![2683, 3016])
        .teams(vec![4608, 5995])
        .players(vec![7998, 7167])
        .build();
    assert_eq!(
        req.url,
        "https://www.hltv.org/results?stars=2&matchType=All&startDate=2016-01-01&endDate=2016-12-31&event=2683&event=3016&player=7998&player=7167&team=4608&team=5995&map=de_inferno&map=de_cobblestone"
    );
}

#[test]
pub fn upcoming_url() {
    let req = hltv::upcoming()
        .events(vec![6343, 6335])
        .event_type(EventTypeFilter::Online)
        .build();
    assert_eq!(
        req.url,
        "https://www.hltv.org/matches?eventType=Online&event=6343&event=6335"
    );

    // because top_tier is a predefined filter, it overrides the other
    // methods.
    let req = hltv::upcoming().top_tier().build();
    assert_eq!(req.url, "https://www.hltv.org/matches?predefinedFilter=top_tier");
}

#[test]
pub fn map_codes() {
    assert_eq!(GameMap::Dust2.code(), "de_dust2");
    assert_eq!(GameMap::Unknown.code(), "n/a");
    assert_eq!(GameMap::from_name("Dust2"), GameMap::Dust2);
    assert_eq!(GameMap::from_name("dust2"), GameMap::Unknown);
}
