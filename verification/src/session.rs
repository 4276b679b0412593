//! A play session and install upkeep: how the game's process is recognised,
//! how play time is recorded, what is cleaned up after a crash, which files
//! survive emptying a folder, and small per-install adjustments.

use vstd::prelude::*;
use crate::scan::utf8_len;
use crate::text::{copy_chars, ascii_lower, chars_of, contains, contains_exec, lower, owned, replace_all, replaced, str_eq, string_from};

verus! {

/// The text before the first `.` (the whole text where there is none).
pub open spec fn stem_of(s: Seq<char>) -> Seq<char> {
    match crate::text::find(s, seq!['.']) {
        Some(i) => s.take(i),
        None => s,
    }
}

/// The first `limit` bytes of `s` in UTF-8, or all of it where it is
/// shorter; `None` where byte `limit` falls inside a character.
pub open spec fn cut_bytes(s: Seq<char>, limit: int) -> Option<Seq<char>>
    decreases s.len(),
{
    if limit <= 0 || s.len() == 0 {
        Some(Seq::empty())
    } else if utf8_len(s[0]) > limit {
        None
    } else {
        match cut_bytes(s.drop_first(), limit - utf8_len(s[0])) {
            Some(t) => Some(seq![s[0]] + t),
            None => None,
        }
    }
}

proof fn lemma_utf8_size_prepend(c: char, t: Seq<char>)
    ensures
        crate::scan::utf8_size(seq![c] + t) == utf8_len(c) + crate::scan::utf8_size(t),
    decreases t.len(),
{
    let w = seq![c] + t;
    if t.len() > 0 {
        lemma_utf8_size_prepend(c, t.drop_last());
        assert(w.drop_last() =~= seq![c] + t.drop_last());
        assert(w.last() == t.last());
    } else {
        assert(w.drop_last() =~= Seq::<char>::empty());
        assert(w.last() == c);
        assert(crate::scan::utf8_size(Seq::<char>::empty()) == 0);
    }
}

/// A cut is a prefix of the text and takes at most `limit` bytes.
pub proof fn lemma_cut_bytes(s: Seq<char>, limit: int)
    requires
        limit >= 0,
    ensures
        cut_bytes(s, limit) matches Some(t) ==> t.len() <= s.len() && s.take(t.len() as int) == t
            && crate::scan::utf8_size(t) <= limit,
    decreases s.len(),
{
    if limit <= 0 || s.len() == 0 {
        assert(s.take(0) =~= Seq::<char>::empty());
        assert(crate::scan::utf8_size(Seq::<char>::empty()) == 0);
    } else if utf8_len(s[0]) <= limit {
        lemma_cut_bytes(s.drop_first(), limit - utf8_len(s[0]));
        match cut_bytes(s.drop_first(), limit - utf8_len(s[0])) {
            Some(t) => {
                lemma_utf8_size_prepend(s[0], t);
                assert(s.take(t.len() + 1int) =~= seq![s[0]] + s.drop_first().take(t.len() as int));
            },
            None => {},
        }
    }
}

/// The length, in bytes, of the process names the system shows.
pub const PROCESS_NAME_BYTES: usize = 15;

/// The name a game's process shows under: the executable's name before its
/// first `.`, cut to its first 15 bytes; no name where the cut falls inside a
/// character.
pub open spec fn process_name_of(exe: Seq<char>) -> Option<Seq<char>> {
    cut_bytes(stem_of(exe), PROCESS_NAME_BYTES as int)
}

fn utf8_len_exec(c: char) -> (r: usize)
    ensures
        r == utf8_len(c),
{
    if (c as u32) < 0x80 {
        1
    } else if (c as u32) < 0x800 {
        2
    } else if (c as u32) < 0x10000 {
        3
    } else {
        4
    }
}

/// The first `limit` bytes of `stem`, as `cut_bytes` gives them.
fn cut_exec(stem: &[char], limit: usize) -> (r: Option<Vec<char>>)
    ensures
        match r {
            Some(o) => cut_bytes(stem@, limit as int) == Some(o@),
            None => cut_bytes(stem@, limit as int) is None,
        },
{
    let mut out: Vec<char> = Vec::new();
    let mut left: usize = limit;
    let mut i: usize = 0;
    proof {
        assert(stem@.skip(0) =~= stem@);
        match cut_bytes(stem@, limit as int) {
            Some(t) => {
                assert(out@ + t =~= t);
            },
            None => {},
        }
    }
    while i < stem.len() && left > 0
        invariant
            i <= stem@.len(),
            left <= limit,
            cut_bytes(stem@, limit as int) == match cut_bytes(stem@.skip(i as int), left as int) {
                Some(t) => Some(out@ + t),
                None => None,
            },
        decreases stem.len() - i,
    {
        let c = stem[i];
        let w = utf8_len_exec(c);
        let ghost rest = stem@.skip(i as int);
        assert(rest[0] == c);
        assert(rest.drop_first() =~= stem@.skip(i + 1));
        if w > left {
            return None;
        }
        let ghost before = out@;
        out.push(c);
        left = left - w;
        i = i + 1;
        proof {
            match cut_bytes(stem@.skip(i as int), left as int) {
                Some(t) => {
                    assert(before + (seq![c] + t) =~= out@ + t);
                },
                None => {},
            }
        }
    }
    proof {
        if i == stem@.len() {
            assert(stem@.skip(i as int) =~= Seq::<char>::empty());
        }
        assert(out@ + Seq::<char>::empty() =~= out@);
    }
    Some(out)
}

fn stem_exec(v: Vec<char>) -> (r: Vec<char>)
    ensures
        r@ == stem_of(v@),
{
    let dot: [char; 1] = ['.'];
    assert(dot@ == seq!['.']);
    match crate::text::find_exec(v.as_slice(), dot.as_slice()) {
        Some(i) => crate::text::slice_chars(v.as_slice(), 0, i),
        None => v,
    }
}

/// Works out the name a game's process shows under. The name begins the
/// executable's name and takes at most 15 bytes.
pub fn process_name(exe: &str) -> (r: Option<String>)
    ensures
        match r {
            Some(n) => process_name_of(exe@) == Some(n@),
            None => process_name_of(exe@) is None,
        },
        r matches Some(n) ==> exe@.take(n@.len() as int) == n@ && crate::scan::utf8_size(n@) <= PROCESS_NAME_BYTES,
{
    proof {
        lemma_cut_bytes(stem_of(exe@), PROCESS_NAME_BYTES as int);
        crate::text::lemma_find_from(exe@, seq!['.'], 0);
        match cut_bytes(stem_of(exe@), PROCESS_NAME_BYTES as int) {
            Some(t) => {
                assert(stem_of(exe@).len() <= exe@.len());
                assert(stem_of(exe@) =~= exe@.take(stem_of(exe@).len() as int));
                assert(exe@.take(t.len() as int) =~= stem_of(exe@).take(t.len() as int));
            },
            None => {},
        }
    }
    let stem = stem_exec(chars_of(exe));
    match cut_exec(stem.as_slice(), PROCESS_NAME_BYTES) {
        Some(o) => Some(string_from(o.as_slice())),
        None => None,
    }
}

/// The text after the last `/` of a path (all of it where there is none).
pub open spec fn last_segment(s: Seq<char>) -> Seq<char> {
    match crate::text::rfind(s, seq!['/']) {
        Some(i) => s.skip(i + 1),
        None => s,
    }
}

/// The name under which the launcher looks for a running game, from the
/// executable's path in its manifest: the file's name before its first `.`
/// cut to 15 bytes where that is longer than 15 bytes, else the whole file
/// name; no name where the cut falls inside a character.
pub open spec fn status_name_of(exe_path: Seq<char>) -> Option<Seq<char>> {
    let file = last_segment(exe_path);
    if crate::scan::utf8_size(stem_of(file)) > PROCESS_NAME_BYTES {
        cut_bytes(stem_of(file), PROCESS_NAME_BYTES as int)
    } else {
        Some(file)
    }
}

/// Works out the name under which the launcher looks for a running game.
pub fn status_process_name(exe_path: &str) -> (r: Option<String>)
    ensures
        match r {
            Some(n) => status_name_of(exe_path@) == Some(n@),
            None => status_name_of(exe_path@) is None,
        },
{
    let v = chars_of(exe_path);
    let slash: [char; 1] = ['/'];
    assert(slash@ == seq!['/']);
    let file = match crate::text::rfind_exec(v.as_slice(), slash.as_slice()) {
        Some(i) => {
            assert(i + slash@.len() <= v@.len());
            assert(i < v.len());
            crate::text::slice_chars(v.as_slice(), i + 1, v.len())
        },
        None => v,
    };
    assert(file@ == last_segment(exe_path@));
    let stem = stem_exec(copy_chars(file.as_slice()));
    if crate::scan::utf8_size_over(stem.as_slice(), PROCESS_NAME_BYTES) {
        match cut_exec(stem.as_slice(), PROCESS_NAME_BYTES) {
            Some(o) => Some(string_from(o.as_slice())),
            None => None,
        }
    } else {
        Some(string_from(file.as_slice()))
    }
}

/// What the launcher reports of a game: `preparing` while winetricks runs,
/// `running` while the game's process runs, else `idle`.
pub fn game_status(winetricks_running: bool, game_running: bool) -> (r: String)
    ensures
        winetricks_running ==> r@ == "preparing"@,
        !winetricks_running && game_running ==> r@ == "running"@,
        !winetricks_running && !game_running ==> r@ == "idle"@,
{
    if winetricks_running {
        owned("preparing")
    } else if game_running {
        owned("running")
    } else {
        owned("idle")
    }
}

/// How often the play session looks for the game's process, in milliseconds.
pub const POLL_MS: u64 = 500;

/// How many times the session looks for the process to appear before it
/// gives up.
pub const MAX_WAIT_POLLS: u64 = 240;

/// How long, in seconds, play time may go unrecorded while the game runs.
pub const RECORD_EVERY_SECS: u64 = 10;

/// What the session does after one look at the process: the total play time
/// to record (where it records), the time of the last record, and whether
/// the session is over.
pub struct PlaytimeStep {
    pub record: Option<u64>,
    pub last_record: u64,
    pub finished: bool,
}

/// Takes one look at the game's process, `elapsed` seconds into the
/// session: the total (the play time before the session plus `elapsed`) is
/// recorded when the game has ended or ten seconds have passed since the
/// last record, and the session ends with the game.
pub fn playtime_step(base: u64, last_record: u64, elapsed: u64, running: bool) -> (r: PlaytimeStep)
    requires
        last_record <= elapsed,
        base + elapsed <= u64::MAX,
    ensures
        (!running || elapsed - last_record >= RECORD_EVERY_SECS) ==> r.record == Some((base + elapsed) as u64)
            && r.last_record == elapsed,
        !(!running || elapsed - last_record >= RECORD_EVERY_SECS) ==> r.record is None && r.last_record
            == last_record,
        r.finished == !running,
{
    if !running || elapsed - last_record >= RECORD_EVERY_SECS {
        PlaytimeStep { record: Some(base + elapsed), last_record: elapsed, finished: !running }
    } else {
        PlaytimeStep { record: None, last_record, finished: !running }
    }
}

/// The icon a game is shown with in the chat client's presence, by the
/// game's id; the launcher's own icon for other games.
pub open spec fn presence_icon_of(biz: Seq<char>) -> Seq<char> {
    if biz == "hk4e_global"@ {
        "hk4e_icon"@
    } else if biz == "hkrpg_global"@ {
        "hkrpg_icon"@
    } else if biz == "nap_global"@ {
        "nap_icon"@
    } else if biz == "bh3_global"@ {
        "bh3_icon"@
    } else if biz == "wuwa_global"@ {
        "aki_icon"@
    } else if biz == "pgr_global"@ {
        "pgr_icon"@
    } else if biz == "aethergazer_global"@ {
        "agzr_icon"@
    } else if biz == "endfield_global"@ {
        "endf_icon"@
    } else if biz == "stellasora_global"@ {
        "stso_icon"@
    } else if biz == "dna_global"@ {
        "dna_icon"@
    } else if biz == "rev1999_global"@ {
        "rev1999_icon"@
    } else if biz == "sdsgc_global"@ {
        "sdsgc_icon"@
    } else {
        "tl_512"@
    }
}

/// Gives the icon a game is shown with in the chat client's presence.
pub fn presence_icon(biz: &str) -> (r: &'static str)
    ensures
        r@ == presence_icon_of(biz@),
{
    if str_eq(biz, "hk4e_global") {
        "hk4e_icon"
    } else if str_eq(biz, "hkrpg_global") {
        "hkrpg_icon"
    } else if str_eq(biz, "nap_global") {
        "nap_icon"
    } else if str_eq(biz, "bh3_global") {
        "bh3_icon"
    } else if str_eq(biz, "wuwa_global") {
        "aki_icon"
    } else if str_eq(biz, "pgr_global") {
        "pgr_icon"
    } else if str_eq(biz, "aethergazer_global") {
        "agzr_icon"
    } else if str_eq(biz, "endfield_global") {
        "endf_icon"
    } else if str_eq(biz, "stellasora_global") {
        "stso_icon"
    } else if str_eq(biz, "dna_global") {
        "dna_icon"
    } else if str_eq(biz, "rev1999_global") {
        "rev1999_icon"
    } else if str_eq(biz, "sdsgc_global") {
        "sdsgc_icon"
    } else {
        "tl_512"
    }
}

/// What the chat client shows while a game runs.
pub struct Presence {
    /// `Playing ` and the install's name.
    pub details: String,
    /// `In Game`.
    pub state: String,
    /// The game's icon (see `presence_icon`).
    pub large_image: String,
    /// The install's name.
    pub large_text: String,
    /// The launcher's icon.
    pub small_image: String,
    /// `TwintailLauncher v` and the launcher's version.
    pub small_text: String,
}

/// Builds what the chat client shows while the game `biz` of the install
/// named `install_name` runs, under launcher version `version`.
pub fn presence(biz: &str, install_name: &str, version: &str) -> (r: Presence)
    ensures
        r.details@ == "Playing "@ + install_name@,
        r.state@ == "In Game"@,
        r.large_image@ == presence_icon_of(biz@),
        r.large_text@ == install_name@,
        r.small_image@ == "tl_512"@,
        r.small_text@ == "TwintailLauncher v"@ + version@,
{
    let details = crate::text::concat_chars(chars_of("Playing ").as_slice(), chars_of(install_name).as_slice());
    let small = crate::text::concat_chars(chars_of("TwintailLauncher v").as_slice(), chars_of(version).as_slice());
    Presence {
        details: string_from(details.as_slice()),
        state: owned("In Game"),
        large_image: owned(presence_icon(biz)),
        large_text: owned(install_name),
        small_image: owned("tl_512"),
        small_text: string_from(small.as_slice()),
    }
}

/// Which helpers are stopped when the game's process never appeared (the
/// game crashed at start): the injector's loader and the FPS unlocker,
/// each where it was used and is still running, except for the game whose
/// launch does not start the process under its own name.
pub fn helpers_to_stop(
    appeared: bool,
    biz: &str,
    use_xxmi: bool,
    loader_running: bool,
    use_fps_unlock: bool,
    unlocker_running: bool,
) -> (r: (bool, bool))
    ensures
        r == (if !appeared && biz@ != "wuwa_global"@ {
            (use_xxmi && loader_running, use_fps_unlock && unlocker_running)
        } else {
            (false, false)
        }),
{
    if !appeared && !str_eq(biz, "wuwa_global") {
        (use_xxmi && loader_running, use_fps_unlock && unlocker_running)
    } else {
        (false, false)
    }
}

// ---------------------------------------------------------------------------
// Upkeep
// ---------------------------------------------------------------------------

/// Whether the anti-cheat shim is switched off for a game, by the name of
/// its manifest: the games it no longer works with.
pub open spec fn jadeite_retired_for(display_name: Seq<char>) -> bool {
    contains(lower(display_name), "wuthering"@) || contains(lower(display_name), "starrail"@)
        || contains(lower(display_name), "honkaiimpact"@)
}

/// Checks whether the anti-cheat shim is switched off for a game.
pub fn jadeite_retired(display_name: &str) -> (r: bool)
    ensures
        r == jadeite_retired_for(display_name@),
{
    let low = ascii_lower(chars_of(display_name).as_slice());
    contains_exec(low.as_slice(), chars_of("wuthering").as_slice()) || contains_exec(
        low.as_slice(),
        chars_of("starrail").as_slice(),
    ) || contains_exec(low.as_slice(), chars_of("honkaiimpact").as_slice())
}

/// Whether emptying a tool's folder keeps an entry: folders of mods, shader
/// caches and fixes, or of an injector, and the user's own settings file.
pub open spec fn kept_when_emptying(name: Seq<char>, is_dir: bool) -> bool {
    if is_dir {
        contains(name, "Mods"@) || contains(name, "ShaderCache"@) || contains(name, "ShaderFixes"@)
            || contains(name, "gimi"@) || contains(name, "srmi"@) || contains(name, "zzmi"@) || contains(
            name,
            "himi"@,
        ) || contains(name, "wwmi"@) || contains(name, "ssmi"@) || contains(name, "efmi"@)
    } else {
        name == "d3dx_user.ini"@
    }
}

/// Checks whether emptying a tool's folder keeps an entry.
pub fn keeps_when_emptying(name: &str, is_dir: bool) -> (r: bool)
    ensures
        r == kept_when_emptying(name@, is_dir),
{
    if is_dir {
        let n = chars_of(name);
        let has = |p: &str| -> (b: bool)
            ensures
                b == contains(n@, p@),
            { contains_exec(n.as_slice(), chars_of(p).as_slice()) };
        has("Mods") || has("ShaderCache") || has("ShaderFixes") || has("gimi") || has("srmi") || has("zzmi")
            || has("himi") || has("wwmi") || has("ssmi") || has("efmi")
    } else {
        str_eq(name, "d3dx_user.ini")
    }
}

/// The runner folder an install uses after switching runner versions: its
/// old folder with the old version's name replaced by the new one's.
pub fn switched_runner_path(runner_path: &str, old_version: &str, new_version: &str) -> (r: String)
    ensures
        r@ == replaced(runner_path@, old_version@, new_version@),
{
    let out = replace_all(
        chars_of(runner_path).as_slice(),
        chars_of(old_version).as_slice(),
        chars_of(new_version).as_slice(),
    );
    string_from(out.as_slice())
}

} // verus!
