//! Team tables: display names to short codes, codes to roster ids and to the
//! chat emoji that stands for each team.

use vstd::prelude::*;

verus! {

/// Code returned for a team name that the table does not know.
pub open spec fn unknown_code() -> Seq<char> {
    "N/A"@
}

/// Roster id returned for a code that the table does not know.
pub const UNKNOWN_TEAM_ID: i64 = -1;

/// Emoji id shown for a code that the table does not know.
pub const UNKNOWN_TEAM_EMOJI: u64 = 1142674584508825681;

/// Emoji id shown for an "over" feature pick.
pub const OVER_PICK_EMOJI: u64 = 1415070599415468096;

/// Emoji id shown for an "under" feature pick.
pub const UNDER_PICK_EMOJI: u64 = 1415070657682870312;

/// Short code of a team's display name; former names map to the current code.
pub open spec fn short_name_of(name: Seq<char>) -> Seq<char> {
    if name == "Arizona Cardinals"@ {
        "ARI"@
    } else if name == "Atlanta Falcons"@ {
        "ATL"@
    } else if name == "Baltimore Ravens"@ {
        "BAL"@
    } else if name == "Buffalo Bills"@ {
        "BUF"@
    } else if name == "Carolina Panthers"@ {
        "CAR"@
    } else if name == "Chicago Bears"@ {
        "CHI"@
    } else if name == "Cincinnati Bengals"@ {
        "CIN"@
    } else if name == "Cleveland Browns"@ {
        "CLE"@
    } else if name == "Dallas Cowboys"@ {
        "DAL"@
    } else if name == "Denver Broncos"@ {
        "DEN"@
    } else if name == "Detroit Lions"@ {
        "DET"@
    } else if name == "Green Bay Packers"@ {
        "GB"@
    } else if name == "Houston Texans"@ {
        "HOU"@
    } else if name == "Indianapolis Colts"@ {
        "IND"@
    } else if name == "Jacksonville Jaguars"@ {
        "JAX"@
    } else if name == "Kansas City Chiefs"@ {
        "KC"@
    } else if name == "Los Angeles Rams"@ {
        "LAR"@
    } else if name == "Los Angeles Chargers"@ {
        "LAC"@
    } else if name == "Las Vegas Raiders"@ {
        "LV"@
    } else if name == "Oakland Raiders"@ {
        "LV"@
    } else if name == "Miami Dolphins"@ {
        "MIA"@
    } else if name == "Minnesota Vikings"@ {
        "MIN"@
    } else if name == "New England Patriots"@ {
        "NE"@
    } else if name == "New Orleans Saints"@ {
        "NO"@
    } else if name == "New York Giants"@ {
        "NYG"@
    } else if name == "New York Jets"@ {
        "NYJ"@
    } else if name == "Philadelphia Eagles"@ {
        "PHI"@
    } else if name == "Pittsburgh Steelers"@ {
        "PIT"@
    } else if name == "Seattle Seahawks"@ {
        "SEA"@
    } else if name == "San Francisco 49ers"@ {
        "SF"@
    } else if name == "Tampa Bay Buccaneers"@ {
        "TB"@
    } else if name == "Tennessee Titans"@ {
        "TEN"@
    } else if name == "Washington"@ {
        "WSH"@
    } else if name == "Washington Commanders"@ {
        "WSH"@
    } else if name == "Washington Redskins"@ {
        "WSH"@
    } else {
        unknown_code()
    }
}

/// Roster id of a team code, `UNKNOWN_TEAM_ID` for an unknown code.
pub open spec fn team_id_of(code: Seq<char>) -> i64 {
    if code == "ARI"@ {
        22
    } else if code == "ATL"@ {
        1
    } else if code == "BAL"@ {
        33
    } else if code == "BUF"@ {
        2
    } else if code == "CAR"@ {
        29
    } else if code == "CHI"@ {
        3
    } else if code == "CIN"@ {
        4
    } else if code == "CLE"@ {
        5
    } else if code == "DAL"@ {
        6
    } else if code == "DEN"@ {
        7
    } else if code == "DET"@ {
        8
    } else if code == "GB"@ {
        9
    } else if code == "HOU"@ {
        34
    } else if code == "IND"@ {
        11
    } else if code == "JAX"@ {
        30
    } else if code == "KC"@ {
        12
    } else if code == "LA"@ {
        14
    } else if code == "LAR"@ {
        14
    } else if code == "LAC"@ {
        24
    } else if code == "LV"@ {
        13
    } else if code == "MIA"@ {
        15
    } else if code == "MIN"@ {
        16
    } else if code == "NE"@ {
        17
    } else if code == "NO"@ {
        18
    } else if code == "NYG"@ {
        19
    } else if code == "NYJ"@ {
        20
    } else if code == "PHI"@ {
        21
    } else if code == "PIT"@ {
        23
    } else if code == "SEA"@ {
        26
    } else if code == "SF"@ {
        25
    } else if code == "TB"@ {
        27
    } else if code == "TEN"@ {
        10
    } else if code == "WAS"@ {
        28
    } else if code == "WSH"@ {
        28
    } else {
        UNKNOWN_TEAM_ID
    }
}

/// Emoji id of a team code, `UNKNOWN_TEAM_EMOJI` for an unknown code.
pub open spec fn team_emoji_of(code: Seq<char>) -> u64 {
    if code == "ARI"@ {
        1142671366424887367
    } else if code == "ATL"@ {
        1142671368161341491
    } else if code == "BAL"@ {
        1142671369008582697
    } else if code == "BUF"@ {
        1142671369956507668
    } else if code == "CAR"@ {
        1142671371260932197
    } else if code == "CHI"@ {
        1142671373139968040
    } else if code == "CIN"@ {
        1142671374515703868
    } else if code == "CLE"@ {
        1142671375941783685
    } else if code == "DAL"@ {
        1142671377736925234
    } else if code == "DEN"@ {
        1142671664379875459
    } else if code == "DET"@ {
        1142671665449410570
    } else if code == "GB"@ {
        1142671674727223507
    } else if code == "HOU"@ {
        1142671676417523731
    } else if code == "IND"@ {
        1142671380832338000
    } else if code == "JAX"@ {
        1142671677990387722
    } else if code == "KC"@ {
        1142671679051546724
    } else if code == "LA"@ {
        1142671680410484888
    } else if code == "LAR"@ {
        1142671680410484888
    } else if code == "LAC"@ {
        1142671682121773097
    } else if code == "LV"@ {
        1142671384263270410
    } else if code == "MIA"@ {
        1142671683325526126
    } else if code == "MIN"@ {
        1142671684395094086
    } else if code == "NE"@ {
        1142671686001512538
    } else if code == "NO"@ {
        1142671388507918356
    } else if code == "NYG"@ {
        1142671779022770237
    } else if code == "NYJ"@ {
        1142671392026923148
    } else if code == "PHI"@ {
        1142671781107347606
    } else if code == "PIT"@ {
        1142671688723603496
    } else if code == "SEA"@ {
        1142671395256541225
    } else if code == "SF"@ {
        1142671782139134043
    } else if code == "TB"@ {
        1142671784433430570
    } else if code == "TEN"@ {
        1142671692989218937
    } else if code == "WAS"@ {
        1142671397987041281
    } else if code == "WSH"@ {
        1142671397987041281
    } else {
        UNKNOWN_TEAM_EMOJI
    }
}

/// Compares two strings by their characters.
pub fn same_text(a: &str, b: &str) -> (r: bool)
    ensures
        r == (a@ == b@),
{
    a.to_owned() == b.to_owned()
}

/// The short code of a team's display name, "N/A" when the name is unknown.
pub fn get_short_name(name: &str) -> (r: String)
    ensures
        r@ == short_name_of(name@),
{
    let code: &str = if same_text(name, "Arizona Cardinals") {
        "ARI"
    } else if same_text(name, "Atlanta Falcons") {
        "ATL"
    } else if same_text(name, "Baltimore Ravens") {
        "BAL"
    } else if same_text(name, "Buffalo Bills") {
        "BUF"
    } else if same_text(name, "Carolina Panthers") {
        "CAR"
    } else if same_text(name, "Chicago Bears") {
        "CHI"
    } else if same_text(name, "Cincinnati Bengals") {
        "CIN"
    } else if same_text(name, "Cleveland Browns") {
        "CLE"
    } else if same_text(name, "Dallas Cowboys") {
        "DAL"
    } else if same_text(name, "Denver Broncos") {
        "DEN"
    } else if same_text(name, "Detroit Lions") {
        "DET"
    } else if same_text(name, "Green Bay Packers") {
        "GB"
    } else if same_text(name, "Houston Texans") {
        "HOU"
    } else if same_text(name, "Indianapolis Colts") {
        "IND"
    } else if same_text(name, "Jacksonville Jaguars") {
        "JAX"
    } else if same_text(name, "Kansas City Chiefs") {
        "KC"
    } else if same_text(name, "Los Angeles Rams") {
        "LAR"
    } else if same_text(name, "Los Angeles Chargers") {
        "LAC"
    } else if same_text(name, "Las Vegas Raiders") {
        "LV"
    } else if same_text(name, "Oakland Raiders") {
        "LV"
    } else if same_text(name, "Miami Dolphins") {
        "MIA"
    } else if same_text(name, "Minnesota Vikings") {
        "MIN"
    } else if same_text(name, "New England Patriots") {
        "NE"
    } else if same_text(name, "New Orleans Saints") {
        "NO"
    } else if same_text(name, "New York Giants") {
        "NYG"
    } else if same_text(name, "New York Jets") {
        "NYJ"
    } else if same_text(name, "Philadelphia Eagles") {
        "PHI"
    } else if same_text(name, "Pittsburgh Steelers") {
        "PIT"
    } else if same_text(name, "Seattle Seahawks") {
        "SEA"
    } else if same_text(name, "San Francisco 49ers") {
        "SF"
    } else if same_text(name, "Tampa Bay Buccaneers") {
        "TB"
    } else if same_text(name, "Tennessee Titans") {
        "TEN"
    } else if same_text(name, "Washington") {
        "WSH"
    } else if same_text(name, "Washington Commanders") {
        "WSH"
    } else if same_text(name, "Washington Redskins") {
        "WSH"
    } else {
        "N/A"
    };
    code.to_owned()
}

/// The roster id of a team code, `UNKNOWN_TEAM_ID` when the code is unknown.
pub fn get_team_id(team: &str) -> (r: i64)
    ensures
        r == team_id_of(team@),
{
    if same_text(team, "ARI") {
        22
    } else if same_text(team, "ATL") {
        1
    } else if same_text(team, "BAL") {
        33
    } else if same_text(team, "BUF") {
        2
    } else if same_text(team, "CAR") {
        29
    } else if same_text(team, "CHI") {
        3
    } else if same_text(team, "CIN") {
        4
    } else if same_text(team, "CLE") {
        5
    } else if same_text(team, "DAL") {
        6
    } else if same_text(team, "DEN") {
        7
    } else if same_text(team, "DET") {
        8
    } else if same_text(team, "GB") {
        9
    } else if same_text(team, "HOU") {
        34
    } else if same_text(team, "IND") {
        11
    } else if same_text(team, "JAX") {
        30
    } else if same_text(team, "KC") {
        12
    } else if same_text(team, "LA") {
        14
    } else if same_text(team, "LAR") {
        14
    } else if same_text(team, "LAC") {
        24
    } else if same_text(team, "LV") {
        13
    } else if same_text(team, "MIA") {
        15
    } else if same_text(team, "MIN") {
        16
    } else if same_text(team, "NE") {
        17
    } else if same_text(team, "NO") {
        18
    } else if same_text(team, "NYG") {
        19
    } else if same_text(team, "NYJ") {
        20
    } else if same_text(team, "PHI") {
        21
    } else if same_text(team, "PIT") {
        23
    } else if same_text(team, "SEA") {
        26
    } else if same_text(team, "SF") {
        25
    } else if same_text(team, "TB") {
        27
    } else if same_text(team, "TEN") {
        10
    } else if same_text(team, "WAS") {
        28
    } else if same_text(team, "WSH") {
        28
    } else {
        UNKNOWN_TEAM_ID
    }
}

/// The emoji id of a team code, `UNKNOWN_TEAM_EMOJI` when the code is unknown.
pub fn get_team_emoji(team: &str) -> (r: u64)
    ensures
        r == team_emoji_of(team@),
{
    if same_text(team, "ARI") {
        1142671366424887367
    } else if same_text(team, "ATL") {
        1142671368161341491
    } else if same_text(team, "BAL") {
        1142671369008582697
    } else if same_text(team, "BUF") {
        1142671369956507668
    } else if same_text(team, "CAR") {
        1142671371260932197
    } else if same_text(team, "CHI") {
        1142671373139968040
    } else if same_text(team, "CIN") {
        1142671374515703868
    } else if same_text(team, "CLE") {
        1142671375941783685
    } else if same_text(team, "DAL") {
        1142671377736925234
    } else if same_text(team, "DEN") {
        1142671664379875459
    } else if same_text(team, "DET") {
        1142671665449410570
    } else if same_text(team, "GB") {
        1142671674727223507
    } else if same_text(team, "HOU") {
        1142671676417523731
    } else if same_text(team, "IND") {
        1142671380832338000
    } else if same_text(team, "JAX") {
        1142671677990387722
    } else if same_text(team, "KC") {
        1142671679051546724
    } else if same_text(team, "LA") {
        1142671680410484888
    } else if same_text(team, "LAR") {
        1142671680410484888
    } else if same_text(team, "LAC") {
        1142671682121773097
    } else if same_text(team, "LV") {
        1142671384263270410
    } else if same_text(team, "MIA") {
        1142671683325526126
    } else if same_text(team, "MIN") {
        1142671684395094086
    } else if same_text(team, "NE") {
        1142671686001512538
    } else if same_text(team, "NO") {
        1142671388507918356
    } else if same_text(team, "NYG") {
        1142671779022770237
    } else if same_text(team, "NYJ") {
        1142671392026923148
    } else if same_text(team, "PHI") {
        1142671781107347606
    } else if same_text(team, "PIT") {
        1142671688723603496
    } else if same_text(team, "SEA") {
        1142671395256541225
    } else if same_text(team, "SF") {
        1142671782139134043
    } else if same_text(team, "TB") {
        1142671784433430570
    } else if same_text(team, "TEN") {
        1142671692989218937
    } else if same_text(team, "WAS") {
        1142671397987041281
    } else if same_text(team, "WSH") {
        1142671397987041281
    } else {
        UNKNOWN_TEAM_EMOJI
    }
}

/// The emoji id shown for an "over" feature pick.
pub fn get_overpick_emoji() -> (r: u64)
    ensures
        r == OVER_PICK_EMOJI,
{
    OVER_PICK_EMOJI
}

/// The emoji id shown for an "under" feature pick.
pub fn get_underpick_emoji() -> (r: u64)
    ensures
        r == UNDER_PICK_EMOJI,
{
    UNDER_PICK_EMOJI
}

} // verus!
