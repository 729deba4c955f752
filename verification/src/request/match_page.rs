/*!
The request for the page of one match.
*/
use vstd::prelude::*;

use vstd::string::*;

use crate::data::MatchPage;
use crate::strutil::{dec_str, u32_to_dec};
use crate::Request;

verus! {

/// Builds a [`Request`] object to fetch the page of a given match. The
/// ID of a match is the number found in the HLTV URL after
/// `hltv.org/matches/{id}/...`.  Any string may stand after the last
/// slash; it doesn't need to contain the team or event names.
pub fn get_match(id: u32) -> (r: Request<MatchPage>)
    ensures
        r.url@ == "https://www.hltv.org/matches/"@ + dec_str(id as nat) + "/xyz"@,
{
    let mut url = String::from_str("https://www.hltv.org/matches/");
    let digits = u32_to_dec(id);
    url.append(digits.as_str());
    url.append("/xyz");
    Request::new(url)
}

} // verus!
