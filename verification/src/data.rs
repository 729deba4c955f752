/*!
Types for esports data from HLTV.
*/
use vstd::prelude::*;

verus! {

/// Type of event. At this moment either LAN or online.
#[derive(Debug, Clone, Copy, PartialEq, Eq, Structural)]
pub enum EventType {
    LAN,
    Online,
}

/// Best-of-X format of a match. Since there are 7 maps in the CSGO map pool,
/// the maximum is Bo7.
#[derive(Debug, Clone, Copy, PartialEq, Eq, Structural)]
pub enum MatchFormat {
    Bo1,
    Bo3,
    Bo5,
    Bo7,
}

/// Current status of a match.
#[derive(Debug, Clone, Copy, PartialEq, Eq, Structural)]
pub enum MatchStatus {
    Upcoming,
    Finished,
    Live,
}

/// Refers to either the first or second team in a match, according to HLTV order.
#[derive(Debug, Clone, Copy, PartialEq, Eq, Structural)]
pub enum WhichTeam {
    Neither,
    First,
    Second,
}

/// All CSGO maps that are listed on HLTV.
#[derive(Debug, Clone, Copy, PartialEq, Eq, Structural)]
pub enum GameMap {
    Unknown,
    Cache,
    Season,
    Dust2,
    Mirage,
    Inferno,
    Nuke,
    Train,
    Cobblestone,
    Overpass,
    Tuscan,
    Vertigo,
    Ancient,
}

/// The map denoted by a display name; names outside the known pool give
/// [`GameMap::Unknown`].
pub open spec fn game_map_from_name(s: Seq<char>) -> GameMap {
    if s == "Cache"@ {
        GameMap::Cache
    } else if s == "Season"@ {
        GameMap::Season
    } else if s == "Dust2"@ {
        GameMap::Dust2
    } else if s == "Mirage"@ {
        GameMap::Mirage
    } else if s == "Inferno"@ {
        GameMap::Inferno
    } else if s == "Nuke"@ {
        GameMap::Nuke
    } else if s == "Train"@ {
        GameMap::Train
    } else if s == "Cobblestone"@ {
        GameMap::Cobblestone
    } else if s == "Overpass"@ {
        GameMap::Overpass
    } else if s == "Tuscan"@ {
        GameMap::Tuscan
    } else if s == "Vertigo"@ {
        GameMap::Vertigo
    } else if s == "Ancient"@ {
        GameMap::Ancient
    } else {
        GameMap::Unknown
    }
}

/// The query-string code of a map (`de_dust2` and friends); the
/// unknown map renders as `n/a`.
pub open spec fn game_map_code(m: GameMap) -> Seq<char> {
    match m {
        GameMap::Unknown => "n/a"@,
        GameMap::Cache => "de_cache"@,
        GameMap::Season => "de_season"@,
        GameMap::Dust2 => "de_dust2"@,
        GameMap::Mirage => "de_mirage"@,
        GameMap::Inferno => "de_inferno"@,
        GameMap::Nuke => "de_nuke"@,
        GameMap::Train => "de_train"@,
        GameMap::Cobblestone => "de_cobblestone"@,
        GameMap::Overpass => "de_overpass"@,
        GameMap::Tuscan => "de_tuscan"@,
        GameMap::Vertigo => "de_vertigo"@,
        GameMap::Ancient => "de_ancient"@,
    }
}

impl GameMap {
    /// The map's code as it appears in URLs (`de_dust2` and friends).
    pub fn code(&self) -> (r: &'static str)
        ensures
            r@ == game_map_code(*self),
    {
        match self {
            GameMap::Unknown => "n/a",
            GameMap::Cache => "de_cache",
            GameMap::Season => "de_season",
            GameMap::Dust2 => "de_dust2",
            GameMap::Mirage => "de_mirage",
            GameMap::Inferno => "de_inferno",
            GameMap::Nuke => "de_nuke",
            GameMap::Train => "de_train",
            GameMap::Cobblestone => "de_cobblestone",
            GameMap::Overpass => "de_overpass",
            GameMap::Tuscan => "de_tuscan",
            GameMap::Vertigo => "de_vertigo",
            GameMap::Ancient => "de_ancient",
        }
    }

    /// Reads a map from its display name on HLTV.
    pub fn from_name(s: &str) -> (r: GameMap)
        ensures
            r == game_map_from_name(s@),
    {
        if crate::strutil::str_eq(s, "Cache") {
            GameMap::Cache
        } else if crate::strutil::str_eq(s, "Season") {
            GameMap::Season
        } else if crate::strutil::str_eq(s, "Dust2") {
            GameMap::Dust2
        } else if crate::strutil::str_eq(s, "Mirage") {
            GameMap::Mirage
        } else if crate::strutil::str_eq(s, "Inferno") {
            GameMap::Inferno
        } else if crate::strutil::str_eq(s, "Nuke") {
            GameMap::Nuke
        } else if crate::strutil::str_eq(s, "Train") {
            GameMap::Train
        } else if crate::strutil::str_eq(s, "Cobblestone") {
            GameMap::Cobblestone
        } else if crate::strutil::str_eq(s, "Overpass") {
            GameMap::Overpass
        } else if crate::strutil::str_eq(s, "Tuscan") {
            GameMap::Tuscan
        } else if crate::strutil::str_eq(s, "Vertigo") {
            GameMap::Vertigo
        } else if crate::strutil::str_eq(s, "Ancient") {
            GameMap::Ancient
        } else {
            GameMap::Unknown
        }
    }
}

/// A decimal number with two fractional digits, stored as a count of
/// hundredths.  Statistics such as ADR or the HLTV rating are reported
/// with at most two decimals, so this representation is exact.
#[derive(Debug, Clone, Copy, PartialEq, Eq, Structural)]
pub struct Decimal {
    /// The value scaled by 100: `12.34` is stored as `1234`.
    pub hundredths: u32,
}

impl Decimal {
    /// Builds the decimal `units.frac` from its two printed parts.
    pub fn new(units: u32, frac: u32) -> (r: Decimal)
        requires
            frac < 100,
            units <= (u32::MAX - 99) / 100,
        ensures
            r.hundredths == units * 100 + frac,
    {
        Decimal { hundredths: units * 100 + frac }
    }
}

/// Basic player information.
#[derive(Debug, Clone, PartialEq, Eq)]
pub struct Player {
    pub id: u32,
    pub nickname: String,
}

/// Basic information about a team.
#[derive(Debug, Clone, PartialEq, Eq)]
pub struct Team {
    /// HLTV-associated ID (found in the URL of the team page).
    pub id: u32,
    /// Name of the team.
    pub name: String,
    /// URL of the team logo (hltv cdn).
    pub logo: String,
    /// URL of an alternate ("night mode") logo, if the team has one.
    pub alt_logo: Option<String>,
}

impl Team {
    pub fn new(id: u32, name: &str, logo: &str, alt_logo: Option<&str>) -> (r: Team)
        ensures
            r.id == id,
            r.name@ == name@,
            r.logo@ == logo@,
            alt_logo is Some <==> r.alt_logo is Some,
            alt_logo matches Some(a) ==> r.alt_logo matches Some(ra) && ra@ == a@,
    {
        let alt = match alt_logo {
            Some(a) => Some(a.to_owned()),
            None => None,
        };
        Team { id, name: name.to_owned(), logo: logo.to_owned(), alt_logo: alt }
    }
}

/// Basic information about an event.
#[derive(Debug, Clone, PartialEq, Eq)]
pub struct Event {
    /// HLTV-associated ID (found in the URL of the event page).
    pub id: u32,
    /// Name of the event.
    pub name: String,
}

/// Contains detailed information about an event. Corresponds to data found on
/// HLTV's event page.
#[derive(Debug, Clone, PartialEq, Eq)]
pub struct EventDetails {
    /// HLTV-associated ID (found in the URL of the event page).
    pub id: u32,
    /// Name of the event.
    pub name: String,
    /// Unix time (seconds) when the event starts.
    pub start_date: i64,
    /// Unix time (seconds) when the event finished.
    pub end_date: i64,
    /// Prize pool of the event. Can be a USD figure, or guaranteed spots in
    /// another tournament.
    pub price_pool: String,
}

/// Contains extensive information about a team.
#[derive(Debug, Clone, PartialEq, Eq)]
pub struct TeamPage {
    /// Team ID according to HLTV team page URL.
    pub id: u32,
    /// Name of the team.
    pub name: String,
    /// Current position in the HLTV world ranking.
    pub ranking: u32,
    /// All known players of the team. Can be less than five, or even more than
    /// five (in the case of 6-man rosters).
    pub players: Vec<Player>,
    /// URL of the logo (hltv cdn).
    pub logo: String,
}

/// Contains a summary of an upcoming match.
#[derive(Debug, Clone, PartialEq, Eq)]
pub struct UpcomingMatch {
    pub id: u32,
    /// First team of the match, according to HLTV's display order.
    pub team1: Option<Team>,
    /// Second team of the match, according to HLTV's display order.
    pub team2: Option<Team>,
    /// Name of the event.
    pub event: String,
    /// Format of the match.
    pub format: MatchFormat,
    /// Unix time (seconds) when the match is supposed to start.
    pub date: i64,
    /// Number of HLTV stars given to the match. Stars are a measure of match
    /// prestige.
    pub stars: u32,
}

/// A general W-L match score.
#[derive(Debug, Clone, Copy, PartialEq, Eq, Structural)]
pub struct Score {
    pub score_won: u32,
    pub score_lost: u32,
}

/// Contains a summary of a concluded match.
#[derive(Debug, Clone, PartialEq, Eq)]
pub struct MatchResult {
    pub id: u32,
    /// Which team won the match.
    pub winner: WhichTeam,
    /// Name of team 1. The result page doesn't contain team IDs unfortunately.
    pub team1: String,
    /// Name of team 2. The result page doesn't contain team IDs unfortunately.
    pub team2: String,
    /// Either a match score for bo3 and higher, or a map score for bo1s.
    pub score: Score,
    /// Name of the event.
    pub event: String,
    /// Format of the match.
    pub format: MatchFormat,
}

/// A match score refers to the number of won maps of both team 1 and team 2.
/// Examples are `1-0`, `2-1`, `1-3`, etc.
#[derive(Debug, Clone, Copy, PartialEq, Eq, Structural)]
pub struct MatchScore {
    pub team1: u32,
    pub team2: u32,
}

/// Represents the result of a single map. Examples are: `16-14`, `10-16`.
#[derive(Debug, Clone, Copy, PartialEq, Eq, Structural)]
pub struct MapScore {
    pub map: GameMap,
    /// Number of rounds won by team 1.
    pub team1: u32,
    /// Number of rounds won by team 2.
    pub team2: u32,
}

impl MapScore {
    pub fn new(map: GameMap, team1: u32, team2: u32) -> (r: MapScore)
        ensures
            r == (MapScore { map, team1, team2 }),
    {
        MapScore { map, team1, team2 }
    }
}

/// Collection of performance metrics of a player.
#[derive(Debug, Clone, PartialEq, Eq)]
pub struct Stats {
    /// Total kills.
    pub kills: u32,
    /// Total deaths.
    pub deaths: u32,
    /// Average damage per round.
    pub adr: Decimal,
    /// Percentage of rounds with either kill, assist, support or trade.
    pub kast: Decimal,
    /// HLTV 2.0 rating.
    pub rating: Decimal,
}

/// A tuple of a specific player's map performance.
#[derive(Debug, Clone, PartialEq, Eq)]
pub struct Performance(pub Player, pub Stats);

/// Contains detailed information about a match. Corresponds to data found on
/// HLTV's match page.
#[derive(Debug, Clone, PartialEq, Eq)]
pub struct MatchPage {
    /// ID of the match.
    pub id: u32,
    /// Status of the match.
    pub status: MatchStatus,
    /// First team, if known.
    pub team1: Option<Team>,
    /// Second team, if known.
    pub team2: Option<Team>,
    /// Event at which this match is played.
    pub event: Event,
    /// Unix time (seconds) when the match is supposed to start.
    pub date: i64,
    /// Format of the match. The format determines how many maps a team needs
    /// to win a match.
    pub format: MatchFormat,
    /// A match score. In case of bo1, either `1-0` or `0-1`. For bo3 it's
    /// `2-0`, `2-1` and so on.
    pub score: Option<MatchScore>,
    /// A collection of map-specific scores. Empty if the game hasn't started
    /// yet. Contains partial results if maps have been played but the match
    /// hasn't fully concluded yet.
    pub maps: Vec<MapScore>,
    /// Performance of players over all maps.
    pub stats: Vec<Performance>,
}

/// Mathematical view of a [`Team`]: strings become character sequences.
pub ghost struct TeamView {
    pub id: u32,
    pub name: Seq<char>,
    pub logo: Seq<char>,
    pub alt_logo: Option<Seq<char>>,
}

impl View for Team {
    type V = TeamView;

    open spec fn view(&self) -> TeamView {
        TeamView {
            id: self.id,
            name: self.name@,
            logo: self.logo@,
            alt_logo: match self.alt_logo {
                Some(s) => Some(s@),
                None => None,
            },
        }
    }
}

/// Mathematical view of an [`Event`].
pub ghost struct EventView {
    pub id: u32,
    pub name: Seq<char>,
}

impl View for Event {
    type V = EventView;

    open spec fn view(&self) -> EventView {
        EventView { id: self.id, name: self.name@ }
    }
}

/// Mathematical view of a [`Player`].
pub ghost struct PlayerView {
    pub id: u32,
    pub nickname: Seq<char>,
}

impl View for Player {
    type V = PlayerView;

    open spec fn view(&self) -> PlayerView {
        PlayerView { id: self.id, nickname: self.nickname@ }
    }
}

/// Mathematical view of a [`Performance`]; the stats are plain values
/// already.
pub ghost struct PerformanceView {
    pub player: PlayerView,
    pub stats: Stats,
}

impl View for Performance {
    type V = PerformanceView;

    open spec fn view(&self) -> PerformanceView {
        PerformanceView { player: self.0@, stats: self.1 }
    }
}

/// Mathematical view of a [`MatchPage`].
pub ghost struct MatchPageView {
    pub id: u32,
    pub status: MatchStatus,
    pub team1: Option<TeamView>,
    pub team2: Option<TeamView>,
    pub event: EventView,
    pub date: i64,
    pub format: MatchFormat,
    pub score: Option<MatchScore>,
    pub maps: Seq<MapScore>,
    pub stats: Seq<PerformanceView>,
}

impl View for MatchPage {
    type V = MatchPageView;

    open spec fn view(&self) -> MatchPageView {
        MatchPageView {
            id: self.id,
            status: self.status,
            team1: match self.team1 {
                Some(t) => Some(t@),
                None => None,
            },
            team2: match self.team2 {
                Some(t) => Some(t@),
                None => None,
            },
            event: self.event@,
            date: self.date,
            format: self.format,
            score: self.score,
            maps: self.maps@,
            stats: Seq::new(self.stats@.len(), |i: int| self.stats@[i]@),
        }
    }
}

/// Mathematical view of a [`MatchResult`].
pub ghost struct MatchResultView {
    pub id: u32,
    pub winner: WhichTeam,
    pub team1: Seq<char>,
    pub team2: Seq<char>,
    pub score: Score,
    pub event: Seq<char>,
    pub format: MatchFormat,
}

impl View for MatchResult {
    type V = MatchResultView;

    open spec fn view(&self) -> MatchResultView {
        MatchResultView {
            id: self.id,
            winner: self.winner,
            team1: self.team1@,
            team2: self.team2@,
            score: self.score,
            event: self.event@,
            format: self.format,
        }
    }
}

/// Mathematical view of an [`UpcomingMatch`].
pub ghost struct UpcomingMatchView {
    pub id: u32,
    pub team1: Option<TeamView>,
    pub team2: Option<TeamView>,
    pub event: Seq<char>,
    pub format: MatchFormat,
    pub date: i64,
    pub stars: u32,
}

impl View for UpcomingMatch {
    type V = UpcomingMatchView;

    open spec fn view(&self) -> UpcomingMatchView {
        UpcomingMatchView {
            id: self.id,
            team1: match self.team1 {
                Some(t) => Some(t@),
                None => None,
            },
            team2: match self.team2 {
                Some(t) => Some(t@),
                None => None,
            },
            event: self.event@,
            format: self.format,
            date: self.date,
            stars: self.stars,
        }
    }
}

/// Mathematical view of a [`TeamPage`].
pub ghost struct TeamPageView {
    pub id: u32,
    pub name: Seq<char>,
    pub ranking: u32,
    pub players: Seq<PlayerView>,
    pub logo: Seq<char>,
}

impl View for TeamPage {
    type V = TeamPageView;

    open spec fn view(&self) -> TeamPageView {
        TeamPageView {
            id: self.id,
            name: self.name@,
            ranking: self.ranking,
            players: Seq::new(self.players@.len(), |i: int| self.players@[i]@),
            logo: self.logo@,
        }
    }
}

} // verus!
