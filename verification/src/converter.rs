/*!
Methods to convert a parsed [`Document`](crate::dom::Document) to HLTV
data types.

Correct conversion is dependent on the HTML layout of the HLTV webpage,
and therefore its stability depends on HLTV not changing their site.
*/

pub mod match_page;
pub mod player;
pub mod results;
pub mod team_page;
pub mod upcoming;
