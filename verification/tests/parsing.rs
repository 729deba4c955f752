//! Tests that go through the real HTML parser: raw text in, records
//! out.  These would fail if the parsing boundary handed its input
//! back unchanged instead of building the element tree.
use hltv::converter::results;
use hltv::data::{MatchFormat, Score, WhichTeam};
use hltv::parse::parse_document;
use hltv::rich::RichNode;

#[test]
pub fn parse_and_query() {
    let html = "<div class=\"outer\"><div class=\"abc\">dist1ll</div>\
                <span class=\"abc\">second</span></div>";
    let d = parse_document(html).unwrap();
    let hits = d.find_all_class("abc");
    assert_eq!(hits.len(), 2);
    let first = d.find_first_class("abc").unwrap();
    assert_eq!(RichNode::from_elem(first).inner_text().unwrap(), "dist1ll");
    assert!(RichNode::from_elem(first).has_class("abc").unwrap());
}

#[test]
pub fn parse_attributes_and_children() {
    let html = "<div id=\"root\">text<a href=\"/matches/42/x\">m</a><b class=\"k\">y</b></div>";
    let d = parse_document(html).unwrap();
    let root = d.element_by_id("root").unwrap();
    let r = RichNode::from_elem(root);
    assert_eq!(r.child(0).unwrap().get_attr_str("href").unwrap(), "/matches/42/x");
    assert!(r.child(1).unwrap().has_class("k").unwrap());
    assert_eq!(r.inner_text().unwrap(), "textmy");
}

#[test]
pub fn parse_and_convert_results() {
    let html = "<div class=\"result-con\"><a class=\"a-reset\" href=\"/matches/123456/a-vs-b\">\
                <div class=\"team1\"><div class=\"team team-won\">Alpha</div></div>\
                <div class=\"team2\"><div class=\"team\">Beta</div></div>\
                <span class=\"score-won\">2</span><span class=\"score-lost\">1</span>\
                <span class=\"event-name\">Some Cup</span>\
                <div class=\"map-text\">bo3</div></a></div>";
    let d = parse_document(html).unwrap();
    let rs = results::convert(&d).unwrap();
    assert_eq!(rs.len(), 1);
    assert_eq!(rs[0].id, 123456);
    assert_eq!(rs[0].winner, WhichTeam::First);
    assert_eq!(rs[0].team1, "Alpha");
    assert_eq!(rs[0].team2, "Beta");
    assert_eq!(rs[0].score, Score { score_won: 2, score_lost: 1 });
    assert_eq!(rs[0].event, "Some Cup");
    assert_eq!(rs[0].format, MatchFormat::Bo3);
}
