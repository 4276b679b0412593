//! Facts about games and the Steam runtime that the launcher reads from
//! names: which XXMI package serves a game, where a game writes its engine
//! log, and which Steam Linux Runtime a compatibility tool needs.

use vstd::prelude::*;
use crate::text::{
    ascii_lower, chars_of, contains, contains_exec, lower, owned, rfind,
    rfind_exec, slice_chars, split_char, split_char_exec, starts_with, starts_with_exec, str_eq,
    string_from, trim, trim_exec, lemma_split_char_nonempty,
};

verus! {

// ---------------------------------------------------------------------------
// XXMI packages
// ---------------------------------------------------------------------------

/// The XXMI package for a lower-cased executable name.
pub open spec fn mi_for_exe(exe: Seq<char>) -> Option<Seq<char>> {
    if exe == "genshinimpact.exe"@ {
        Some("gimi"@)
    } else if exe == "starrail.exe"@ {
        Some("srmi"@)
    } else if exe == "zenlesszonezero.exe"@ {
        Some("zzmi"@)
    } else if exe == "bh3.exe"@ {
        Some("himi"@)
    } else if exe == "client-win64-shipping.exe"@ {
        Some("wwmi"@)
    } else if exe == "endfield.exe"@ {
        Some("efmi"@)
    } else if exe == "stellasora.exe"@ {
        Some("ssmi"@)
    } else {
        None
    }
}

/// The XXMI package for a game's executable path: nothing for an empty
/// path, else by the lower-cased file name after the last `/`.
pub open spec fn mi_path_for(exe_name: Seq<char>) -> Option<Seq<char>> {
    if exe_name.len() == 0 {
        None
    } else {
        mi_for_exe(lower(split_char(exe_name, '/').last()))
    }
}

/// The XXMI package (`gimi`, `srmi`, ...) that mods the game whose
/// executable is `exe_name`, if any.
pub fn get_mi_path_from_game(exe_name: String) -> (r: Option<String>)
    ensures
        match r {
            Some(s) => mi_path_for(exe_name@) == Some(s@),
            None => mi_path_for(exe_name@) is None,
        },
{
    let v = chars_of(exe_name.as_str());
    if v.len() == 0 {
        return None;
    }
    let pieces = split_char_exec(v.as_slice(), '/');
    proof {
        lemma_split_char_nonempty(v@, '/');
    }
    let last = &pieces[pieces.len() - 1];
    let lowered = string_from(ascii_lower(last.as_slice()).as_slice());
    let e = lowered.as_str();
    if str_eq(e, "genshinimpact.exe") {
        Some(owned("gimi"))
    } else if str_eq(e, "starrail.exe") {
        Some(owned("srmi"))
    } else if str_eq(e, "zenlesszonezero.exe") {
        Some(owned("zzmi"))
    } else if str_eq(e, "bh3.exe") {
        Some(owned("himi"))
    } else if str_eq(e, "client-win64-shipping.exe") {
        Some(owned("wwmi"))
    } else if str_eq(e, "endfield.exe") {
        Some(owned("efmi"))
    } else if str_eq(e, "stellasora.exe") {
        Some(owned("ssmi"))
    } else {
        None
    }
}

// ---------------------------------------------------------------------------
// Steam Linux Runtime kinds
// ---------------------------------------------------------------------------

/// The Steam Linux Runtimes a compatibility tool can require.
#[derive(Clone, Copy, Debug, PartialEq, Eq, Structural)]
pub enum SteamRTType {
    Soldier,
    SteamRT3,
    SteamRT3Arm64,
    SteamRT4,
    SteamRT4Arm64,
}

/// The directory name of a runtime.
pub open spec fn runtime_name_of(t: SteamRTType) -> Seq<char> {
    match t {
        SteamRTType::Soldier => "soldier"@,
        SteamRTType::SteamRT3 => "steamrt3"@,
        SteamRTType::SteamRT3Arm64 => "steamrt3"@,
        SteamRTType::SteamRT4 => "steamrt4"@,
        SteamRTType::SteamRT4Arm64 => "steamrt4"@,
    }
}

/// The Steam app id of a runtime.
pub open spec fn tool_appid_of(t: SteamRTType) -> Seq<char> {
    match t {
        SteamRTType::Soldier => "1391110"@,
        SteamRTType::SteamRT3 => "1628350"@,
        SteamRTType::SteamRT3Arm64 => "3810310"@,
        SteamRTType::SteamRT4 => "4183110"@,
        SteamRTType::SteamRT4Arm64 => "4185400"@,
    }
}

/// The runtime with Steam app id `a`, if any.
pub open spec fn runtime_for_appid(a: Seq<char>) -> Option<SteamRTType> {
    if a == "1391110"@ {
        Some(SteamRTType::Soldier)
    } else if a == "1628350"@ {
        Some(SteamRTType::SteamRT3)
    } else if a == "3810310"@ {
        Some(SteamRTType::SteamRT3Arm64)
    } else if a == "4183110"@ {
        Some(SteamRTType::SteamRT4)
    } else if a == "4185400"@ {
        Some(SteamRTType::SteamRT4Arm64)
    } else {
        None
    }
}

impl SteamRTType {
    /// The directory name of this runtime.
    pub fn runtime_name(&self) -> (r: &'static str)
        ensures
            r@ == runtime_name_of(*self),
    {
        match self {
            SteamRTType::Soldier => "soldier",
            SteamRTType::SteamRT3 => "steamrt3",
            SteamRTType::SteamRT3Arm64 => "steamrt3",
            SteamRTType::SteamRT4 => "steamrt4",
            SteamRTType::SteamRT4Arm64 => "steamrt4",
        }
    }

    /// The Steam app id of this runtime.
    pub fn tool_appid(&self) -> (r: &'static str)
        ensures
            r@ == tool_appid_of(*self),
    {
        match self {
            SteamRTType::Soldier => "1391110",
            SteamRTType::SteamRT3 => "1628350",
            SteamRTType::SteamRT3Arm64 => "3810310",
            SteamRTType::SteamRT4 => "4183110",
            SteamRTType::SteamRT4Arm64 => "4185400",
        }
    }

    /// The runtime with Steam app id `appid`, if it is one of the known ones.
    pub fn from_tool_appid(appid: &str) -> (r: Option<Self>)
        ensures
            r == runtime_for_appid(appid@),
    {
        if str_eq(appid, "1391110") {
            Some(SteamRTType::Soldier)
        } else if str_eq(appid, "1628350") {
            Some(SteamRTType::SteamRT3)
        } else if str_eq(appid, "3810310") {
            Some(SteamRTType::SteamRT3Arm64)
        } else if str_eq(appid, "4183110") {
            Some(SteamRTType::SteamRT4)
        } else if str_eq(appid, "4185400") {
            Some(SteamRTType::SteamRT4Arm64)
        } else {
            None
        }
    }
}

/// The value on a `"require_tool_appid" "<id>"` line: the text between the
/// last two double quotes of the trimmed line.
pub open spec fn quoted_value(t: Seq<char>) -> Option<Seq<char>> {
    match rfind(t, seq!['"']) {
        Some(end) => match rfind(t.take(end), seq!['"']) {
            Some(start) => Some(t.subrange(start + 1, end)),
            None => None,
        },
        None => None,
    }
}

/// The runtime that one line of a tool manifest requires, if it is a
/// `"require_tool_appid"` line naming a known runtime.
pub open spec fn line_runtime(line: Seq<char>) -> Option<SteamRTType> {
    let t = trim(line);
    if starts_with(t, "\"require_tool_appid\""@) {
        match quoted_value(t) {
            Some(a) => runtime_for_appid(a),
            None => None,
        }
    } else {
        None
    }
}

/// The runtime directory that the first matching line of `lines` names, or
/// the empty text when no line does.
pub open spec fn first_runtime_name(lines: Seq<Seq<char>>) -> Seq<char>
    decreases lines.len(),
{
    if lines.len() == 0 {
        Seq::empty()
    } else {
        match line_runtime(lines[0]) {
            Some(t) => runtime_name_of(t),
            None => first_runtime_name(lines.drop_first()),
        }
    }
}

fn line_runtime_exec(line: &[char]) -> (r: Option<SteamRTType>)
    ensures
        r == line_runtime(line@),
{
    let t = trim_exec(line);
    let key = chars_of("\"require_tool_appid\"");
    if !starts_with_exec(t.as_slice(), key.as_slice()) {
        return None;
    }
    let quote: Vec<char> = vec!['"'];
    assert(quote@ =~= seq!['"']);
    let end = match rfind_exec(t.as_slice(), quote.as_slice()) {
        Some(e) => e,
        None => {
            return None;
        },
    };
    let head = slice_chars(t.as_slice(), 0, end);
    assert(head@ =~= t@.take(end as int));
    let start = match rfind_exec(head.as_slice(), quote.as_slice()) {
        Some(s) => s,
        None => {
            return None;
        },
    };
    let appid = string_from(slice_chars(t.as_slice(), start + 1, end).as_slice());
    SteamRTType::from_tool_appid(appid.as_str())
}

/// The runtime directory (`soldier`, `steamrt3`, `steamrt4`) that a
/// compatibility tool's `toolmanifest.vdf` requires through its
/// `"require_tool_appid"` line; empty when none is named.
pub fn steam_tool_runtime_from_manifest(manifest: &str) -> (r: String)
    ensures
        r@ == first_runtime_name(split_char(manifest@, '\n')),
{
    let v = chars_of(manifest);
    let lines = split_char_exec(v.as_slice(), '\n');
    let ghost ls = split_char(v@, '\n');
    let mut i: usize = 0;
    assert(ls.skip(0) =~= ls);
    while i < lines.len()
        invariant
            i <= lines@.len(),
            lines@.len() == ls.len(),
            forall|k: int| 0 <= k < lines@.len() ==> #[trigger] lines@[k]@ == ls[k],
            first_runtime_name(ls) == first_runtime_name(ls.skip(i as int)),
            ls == split_char(manifest@, '\n'),
        decreases lines.len() - i,
    {
        let ghost rest = ls.skip(i as int);
        assert(rest[0] == ls[i as int]);
        match line_runtime_exec(lines[i].as_slice()) {
            Some(t) => {
                return owned(t.runtime_name());
            },
            None => {},
        }
        assert(rest.drop_first() =~= ls.skip(i + 1));
        i = i + 1;
    }
    String::new()
}

// ---------------------------------------------------------------------------
// Engine logs
// ---------------------------------------------------------------------------

/// `a` comes before or equals `b` in character order (as `str` orders).
pub open spec fn text_le(a: Seq<char>, b: Seq<char>) -> bool
    decreases a.len(),
{
    if a.len() == 0 {
        true
    } else if b.len() == 0 {
        false
    } else if a[0] < b[0] {
        true
    } else if a[0] > b[0] {
        false
    } else {
        text_le(a.drop_first(), b.drop_first())
    }
}

pub(crate) fn text_le_exec(a: &[char], b: &[char]) -> (r: bool)
    ensures
        r == text_le(a@, b@),
{
    let mut i: usize = 0;
    assert(a@.skip(0) =~= a@);
    assert(b@.skip(0) =~= b@);
    while i < a.len() && i < b.len()
        invariant
            i <= a@.len(),
            i <= b@.len(),
            text_le(a@, b@) == text_le(a@.skip(i as int), b@.skip(i as int)),
        decreases a.len() - i,
    {
        let ghost x = a@.skip(i as int);
        let ghost y = b@.skip(i as int);
        assert(x[0] == a@[i as int]);
        assert(y[0] == b@[i as int]);
        if a[i] < b[i] {
            return true;
        }
        if a[i] > b[i] {
            return false;
        }
        assert(x.drop_first() =~= a@.skip(i + 1));
        assert(y.drop_first() =~= b@.skip(i + 1));
        i = i + 1;
    }
    i == a.len()
}

/// The position of the greatest name in `names`, the last one among equals,
/// scanning from position `from` on with `best` the best so far.
pub open spec fn last_max_from(names: Seq<String>, from: int, best: int) -> int
    decreases names.len() - from,
{
    if from >= names.len() || from < 0 {
        best
    } else if text_le(names[best]@, names[from]@) {
        last_max_from(names, from + 1, from)
    } else {
        last_max_from(names, from + 1, best)
    }
}

/// The greatest of `names` in character order (the last one among equal
/// greatest), or nothing when there are none.
pub open spec fn newest_name(names: Seq<String>) -> Option<String> {
    if names.len() == 0 {
        None
    } else {
        Some(names[last_max_from(names, 1, 0)])
    }
}

proof fn lemma_last_max_from(names: Seq<String>, from: int, best: int)
    requires
        0 <= best < names.len(),
        0 < from,
        best < from,
    ensures
        0 <= last_max_from(names, from, best) < names.len(),
    decreases names.len() - from,
{
    if from < names.len() {
        if text_le(names[best]@, names[from]@) {
            lemma_last_max_from(names, from + 1, from);
        } else {
            lemma_last_max_from(names, from + 1, best);
        }
    }
}

/// The greatest of the log file names `names` (the one `max_by_key` on the
/// file name picks), or nothing when there are none.
pub fn newest_log_name(names: &Vec<String>) -> (r: Option<String>)
    ensures
        r == newest_name(names@),
{
    if names.len() == 0 {
        return None;
    }
    let mut best: usize = 0;
    let mut i: usize = 1;
    while i < names.len()
        invariant
            1 <= i <= names@.len(),
            best < i,
            last_max_from(names@, 1, 0) == last_max_from(names@, i as int, best as int),
        decreases names.len() - i,
    {
        let a = chars_of(names[best].as_str());
        let b = chars_of(names[i].as_str());
        if text_le_exec(a.as_slice(), b.as_slice()) {
            best = i;
        }
        i = i + 1;
    }
    Some(names[best].clone())
}

/// Where a game writes its engine log, relative to the user's data
/// directory, found from the game's name and region; for Punishing: Gray
/// Raven the newest of the log files `pgr_logs` (nothing when the log
/// directory could not be read); empty for other games.
pub open spec fn engine_log_for(game: Seq<char>, region: Seq<char>, pgr_logs: Option<Seq<String>>) -> Seq<char> {
    let g = lower(game);
    let r = lower(region);
    if contains(g, "genshin"@) {
        "miHoYo/Genshin Impact/output_log.txt"@
    } else if contains(g, "starrail"@) {
        "Cognosphere/Star Rail/Player.log"@
    } else if contains(g, "zenless"@) {
        "miHoYo/ZenlessZoneZero/Player.log"@
    } else if contains(g, "honkai"@) {
        if contains(r, "glb_official"@) {
            "miHoYo/Honkai Impact 3rd/Player.log"@
        } else if contains(r, "overseas_official"@) {
            "miHoYo/Honkai Impact 3/Player.log"@
        } else if contains(r, "kr_official"@) {
            "miHoYo/붕괴3rd/Player.log"@
        } else if contains(r, "asia_offcial"@) {
            "miHoYo/崩壊3rd/Player.log"@
        } else if contains(r, "jp_official"@) {
            "miHoYo/崩壊3rd/Player.log"@
        } else {
            "miHoYo/Honkai Impact 3rd/Player.log"@
        }
    } else if contains(g, "punishing"@) {
        match pgr_logs {
            Some(names) => match newest_name(names) {
                Some(n) => "kurogame/PGR/log/"@ + n@,
                None => Seq::empty(),
            },
            None => Seq::empty(),
        }
    } else if contains(g, "endfield"@) {
        "Gryphline/Endfield/Player.log"@
    } else {
        Seq::empty()
    }
}

fn contains_str(hay: &Vec<char>, needle: &str) -> (r: bool)
    ensures
        r == contains(hay@, needle@),
{
    let n = chars_of(needle);
    contains_exec(hay.as_slice(), n.as_slice())
}

/// Where a game writes its engine log, relative to the user's data
/// directory. `pgr_logs` lists the files of Punishing: Gray Raven's log
/// directory, or is nothing when that directory could not be read.
pub fn get_engine_log_from_game(game_name: String, region_code: String, pgr_logs: Option<Vec<String>>) -> (r: String)
    ensures
        r@ == engine_log_for(
            game_name@,
            region_code@,
            match pgr_logs {
                Some(v) => Some(v@),
                None => None,
            },
        ),
{
    let g = ascii_lower(chars_of(game_name.as_str()).as_slice());
    let rg = ascii_lower(chars_of(region_code.as_str()).as_slice());
    if contains_str(&g, "genshin") {
        return owned("miHoYo/Genshin Impact/output_log.txt");
    }
    if contains_str(&g, "starrail") {
        return owned("Cognosphere/Star Rail/Player.log");
    }
    if contains_str(&g, "zenless") {
        return owned("miHoYo/ZenlessZoneZero/Player.log");
    }
    if contains_str(&g, "honkai") {
        if contains_str(&rg, "glb_official") {
            return owned("miHoYo/Honkai Impact 3rd/Player.log");
        }
        if contains_str(&rg, "overseas_official") {
            return owned("miHoYo/Honkai Impact 3/Player.log");
        }
        if contains_str(&rg, "kr_official") {
            return owned("miHoYo/붕괴3rd/Player.log");
        }
        if contains_str(&rg, "asia_offcial") {
            return owned("miHoYo/崩壊3rd/Player.log");
        }
        if contains_str(&rg, "jp_official") {
            return owned("miHoYo/崩壊3rd/Player.log");
        }
        return owned("miHoYo/Honkai Impact 3rd/Player.log");
    }
    if contains_str(&g, "punishing") {
        return match pgr_logs {
            Some(names) => match newest_log_name(&names) {
                Some(n) => {
                    let prefix = chars_of("kurogame/PGR/log/");
                    let name = chars_of(n.as_str());
                    string_from(crate::text::concat_chars(prefix.as_slice(), name.as_slice()).as_slice())
                },
                None => String::new(),
            },
            None => String::new(),
        };
    }
    if contains_str(&g, "endfield") {
        return owned("Gryphline/Endfield/Player.log");
    }
    String::new()
}

} // verus!
