//! How a game is launched through a Wine or Proton runner: whether a launch
//! may go ahead, the arguments handed to the game, the command line, the
//! placeholders a user's own command may use, and the environment of the
//! game process.

use vstd::prelude::*;
use crate::text::{
    ascii_lower, char_views, chars_of, contains, contains_exec, extend, join_exec, joined, lower,
    owned, str_eq, string_from, words, words_exec,
};
use crate::versions::{family_suffix, is_runner_lower, is_using_overriden_runner, runner_is_lower};

verus! {

// ---------------------------------------------------------------------------
// The runner
// ---------------------------------------------------------------------------

/// Whether a runner's display name is that of a Proton build: it names
/// "proton" and not "wine", whatever the case.
pub open spec fn is_proton_name(name: Seq<char>) -> bool {
    contains(lower(name), seq!['p', 'r', 'o', 't', 'o', 'n'])
        && !contains(lower(name), seq!['w', 'i', 'n', 'e'])
}

/// Whether a runner with this display name is a Proton build.
pub fn is_proton(display_name: &str) -> (r: bool)
    ensures
        r == is_proton_name(display_name@),
{
    let low = ascii_lower(chars_of(display_name).as_slice());
    let proton: [char; 6] = ['p', 'r', 'o', 't', 'o', 'n'];
    let wine: [char; 4] = ['w', 'i', 'n', 'e'];
    assert(proton@ == seq!['p', 'r', 'o', 't', 'o', 'n']);
    assert(wine@ == seq!['w', 'i', 'n', 'e']);
    contains_exec(low.as_slice(), proton.as_slice()) && !contains_exec(low.as_slice(), wine.as_slice())
}

/// The Wine binary a runner is started through: its 64-bit one, or its
/// 32-bit one where it names no 64-bit one.
pub fn wine_binary(wine64: &String, wine32: &String) -> (r: String)
    ensures
        r@ == (if wine64@.len() == 0 { wine32@ } else { wine64@ }),
{
    if chars_of(wine64.as_str()).len() == 0 {
        wine32.clone()
    } else {
        wine64.clone()
    }
}

/// Why a launch does not go ahead.
#[derive(Clone, Copy, Debug, PartialEq, Eq, Structural)]
pub enum LaunchRefusal {
    /// The Steam Linux Runtime the runner needs is missing or broken.
    SteamRuntimeBroken,
    /// The runner is older than a minimum version the game asks for.
    RunnerTooOld,
    /// The game asks for a runner family that the install does not use.
    RunnerOverrideRequired,
}

/// The first reason, in the order they are checked, for which a launch does
/// not go ahead, or `None` when it may.
pub open spec fn refusal_for(
    steam_runtime_present: bool,
    min_versions: Seq<String>,
    runner_version: Seq<char>,
    override_enabled: bool,
    override_version: Seq<char>,
) -> Option<LaunchRefusal> {
    if !steam_runtime_present {
        Some(LaunchRefusal::SteamRuntimeBroken)
    } else if runner_is_lower(min_versions, runner_version) && min_versions.len() > 0 {
        Some(LaunchRefusal::RunnerTooOld)
    } else if override_enabled && override_version.len() > 0 && !(match (
        family_suffix(override_version),
        family_suffix(runner_version),
    ) {
        (Some(o), Some(i)) => o == i,
        _ => false,
    }) {
        Some(LaunchRefusal::RunnerOverrideRequired)
    } else {
        None
    }
}

/// Checks whether a launch may go ahead.
pub fn launch_refusal(
    steam_runtime_present: bool,
    min_versions: &Vec<String>,
    runner_version: &String,
    override_enabled: bool,
    override_version: &String,
) -> (r: Option<LaunchRefusal>)
    ensures
        r == refusal_for(steam_runtime_present, min_versions@, runner_version@, override_enabled, override_version@),
{
    if !steam_runtime_present {
        return Some(LaunchRefusal::SteamRuntimeBroken);
    }
    if is_runner_lower(min_versions.clone(), runner_version.clone()) && min_versions.len() > 0 {
        return Some(LaunchRefusal::RunnerTooOld);
    }
    if override_enabled && chars_of(override_version.as_str()).len() > 0
        && !is_using_overriden_runner(runner_version.clone(), override_version.clone()) {
        return Some(LaunchRefusal::RunnerOverrideRequired);
    }
    None
}

/// Whether winetricks runs before the game: the prefix has no `drive_c` yet
/// and the game names verbs to install.
pub fn needs_winetricks(drive_c_exists: bool, verbs: &Vec<String>) -> (r: bool)
    ensures
        r == (!drive_c_exists && verbs@.len() > 0),
{
    !drive_c_exists && verbs.len() > 0
}

/// The verb the runtime runs the game with: a game started with a model
/// injector or an FPS unlocker beside it is only `run`; every other game is
/// waited for.
pub fn launch_verb(use_xxmi: bool, use_fps_unlock: bool) -> (r: String)
    ensures
        r@ == (if use_xxmi || use_fps_unlock { "run"@ } else { "waitforexitandrun"@ }),
{
    if use_xxmi || use_fps_unlock {
        owned("run")
    } else {
        owned("waitforexitandrun")
    }
}

/// Whether a list of strings holds `t`.
pub open spec fn has_text(v: Seq<String>, t: Seq<char>) -> bool {
    exists|i: int| 0 <= i < v.len() && (#[trigger] v[i])@ == t
}

/// Whether `v` holds the text of `t`.
pub fn has_text_exec(v: &Vec<String>, t: &str) -> (r: bool)
    ensures
        r == has_text(v@, t@),
{
    let mut i: usize = 0;
    while i < v.len()
        invariant
            i <= v@.len(),
            forall|j: int| 0 <= j < i ==> (#[trigger] v@[j])@ != t@,
        decreases v.len() - i,
    {
        if str_eq(v[i].as_str(), t) {
            return true;
        }
        i = i + 1;
    }
    false
}

/// The Windows path the game is started from: the `s:` game drive where the
/// compatibility configuration asks for `gamedrive`, the `z:` path to the
/// install otherwise.
pub open spec fn game_drive_path(compat_config: Seq<String>, dir: Seq<char>, game: Seq<char>) -> Seq<char> {
    if has_text(compat_config, "gamedrive"@) {
        seq!['s', ':', '\\'] + game
    } else {
        seq!['z', ':', '\\'] + dir + seq!['/'] + game
    }
}

/// Builds the Windows path the game is started from.
pub fn game_drive(compat_config: &Vec<String>, dir: &str, game: &str) -> (r: String)
    ensures
        r@ == game_drive_path(compat_config@, dir@, game@),
{
    let mut out: Vec<char> = Vec::new();
    if has_text_exec(compat_config, "gamedrive") {
        out.push('s');
        out.push(':');
        out.push('\\');
        extend(&mut out, chars_of(game).as_slice());
    } else {
        out.push('z');
        out.push(':');
        out.push('\\');
        extend(&mut out, chars_of(dir).as_slice());
        out.push('/');
        extend(&mut out, chars_of(game).as_slice());
    }
    assert(out@ =~= game_drive_path(compat_config@, dir@, game@));
    string_from(out.as_slice())
}

// ---------------------------------------------------------------------------
// The game's arguments
// ---------------------------------------------------------------------------

/// The flag that forces DirectX 11 on a game whose model injector needs it.
pub open spec fn dx11_flag(biz: Seq<char>) -> Option<Seq<char>> {
    if biz == "wuwa_global"@ {
        Some("-dx11"@)
    } else if biz == "endfield_global"@ {
        Some("-force-d3d11"@)
    } else if biz == "nap_global"@ {
        Some("-use-d3d11"@)
    } else {
        None
    }
}

/// Whether `w` is one of the graphics API options a manifest lists.
pub open spec fn is_api_option(w: Seq<char>, options: Seq<String>) -> bool {
    has_text(options, w)
}

/// The words that are no graphics API option, in order.
pub open spec fn without_api_options(ws: Seq<Seq<char>>, options: Seq<String>) -> Seq<Seq<char>>
    decreases ws.len(),
{
    if ws.len() == 0 {
        ws
    } else if is_api_option(ws.last(), options) {
        without_api_options(ws.drop_last(), options)
    } else {
        without_api_options(ws.drop_last(), options).push(ws.last())
    }
}

/// Whether one of the words is a graphics API option.
pub open spec fn names_api_option(ws: Seq<Seq<char>>, options: Seq<String>) -> bool {
    exists|k: int| 0 <= k < ws.len() && is_api_option(#[trigger] ws[k], options)
}

/// `args` with `w` added after a space, or `w` alone when `args` is empty.
pub open spec fn append_word(args: Seq<char>, w: Seq<char>) -> Seq<char> {
    if args.len() == 0 {
        w
    } else {
        args + seq![' '] + w
    }
}

/// The arguments a game is launched with. With the model injector on a game
/// that needs DirectX 11, every graphics API option is taken out of the
/// user's arguments (the rest joined by single spaces) and the game's
/// DirectX 11 flag added. Otherwise, where the game lets the user pick a
/// graphics API, none is named in the arguments already, and the install
/// has picked one, that pick is added.
pub open spec fn adjusted_args(
    args: Seq<char>,
    use_xxmi: bool,
    biz: Seq<char>,
    options: Seq<String>,
    api_switch: bool,
    graphics_api: Seq<char>,
) -> Seq<char> {
    if use_xxmi && dx11_flag(biz) is Some {
        append_word(joined(without_api_options(words(args), options), ' '), dx11_flag(biz).unwrap())
    } else if api_switch && !names_api_option(words(args), options) && graphics_api.len() > 0 {
        append_word(args, graphics_api)
    } else {
        args
    }
}

fn dx11_flag_exec(biz: &str) -> (r: Option<String>)
    ensures
        opt_chars(r) == dx11_flag(biz@),
{
    if str_eq(biz, "wuwa_global") {
        Some(owned("-dx11"))
    } else if str_eq(biz, "endfield_global") {
        Some(owned("-force-d3d11"))
    } else if str_eq(biz, "nap_global") {
        Some(owned("-use-d3d11"))
    } else {
        None
    }
}

/// The view of an optional string.
pub open spec fn opt_chars(o: Option<String>) -> Option<Seq<char>> {
    match o {
        Some(s) => Some(s@),
        None => None,
    }
}

fn is_api_option_exec(w: &Vec<char>, options: &Vec<String>) -> (r: bool)
    ensures
        r == is_api_option(w@, options@),
{
    let mut i: usize = 0;
    while i < options.len()
        invariant
            i <= options@.len(),
            forall|j: int| 0 <= j < i ==> (#[trigger] options@[j])@ != w@,
        decreases options.len() - i,
    {
        let o = chars_of(options[i].as_str());
        if crate::text::chars_eq(o.as_slice(), w.as_slice()) {
            return true;
        }
        i = i + 1;
    }
    false
}

fn append_word_exec(args: &mut Vec<char>, w: &[char])
    ensures
        final(args)@ == append_word(old(args)@, w@),
{
    if args.len() > 0 {
        args.push(' ');
    }
    extend(args, w);
    assert(final(args)@ =~= append_word(old(args)@, w@));
}

/// Works out the arguments a game is launched with.
pub fn adjust_launch_args(
    args: &str,
    use_xxmi: bool,
    biz: &str,
    options: &Vec<String>,
    api_switch: bool,
    graphics_api: &str,
) -> (r: String)
    ensures
        r@ == adjusted_args(args@, use_xxmi, biz@, options@, api_switch, graphics_api@),
{
    let a = chars_of(args);
    let ws = words_exec(a.as_slice());
    assert(char_views(ws@) =~= words(args@));
    let flag = dx11_flag_exec(biz);
    if use_xxmi && flag.is_some() {
        let f = flag.unwrap();
        let mut kept: Vec<Vec<char>> = Vec::new();
        let mut i: usize = 0;
        while i < ws.len()
            invariant
                i <= ws@.len(),
                char_views(ws@) == words(args@),
                char_views(kept@) == without_api_options(char_views(ws@).take(i as int), options@),
            decreases ws.len() - i,
        {
            assert(char_views(ws@).take(i + 1).drop_last() =~= char_views(ws@).take(i as int));
            assert(char_views(ws@).take(i + 1).last() == ws@[i as int]@);
            if !is_api_option_exec(&ws[i], options) {
                let ghost before = kept@;
                kept.push(ws[i].clone());
                assert(char_views(kept@) =~= char_views(before).push(ws@[i as int]@));
            }
            i = i + 1;
        }
        assert(char_views(ws@).take(ws@.len() as int) =~= char_views(ws@));
        let mut out = join_exec(&kept, ' ');
        append_word_exec(&mut out, chars_of(f.as_str()).as_slice());
        string_from(out.as_slice())
    } else if api_switch && chars_of(graphics_api).len() > 0 {
        let mut named = false;
        let mut i: usize = 0;
        while i < ws.len()
            invariant
                i <= ws@.len(),
                char_views(ws@) == words(args@),
                !named ==> forall|k: int| 0 <= k < i ==> !is_api_option(#[trigger] words(args@)[k], options@),
                named ==> names_api_option(words(args@), options@),
            decreases ws.len() - i,
        {
            assert(char_views(ws@)[i as int] == ws@[i as int]@);
            if !named && is_api_option_exec(&ws[i], options) {
                named = true;
            }
            i = i + 1;
        }
        if named {
            owned(args)
        } else {
            let mut out = a;
            append_word_exec(&mut out, chars_of(graphics_api).as_slice());
            string_from(out.as_slice())
        }
    } else {
        owned(args)
    }
}

// ---------------------------------------------------------------------------
// The user's environment variables
// ---------------------------------------------------------------------------

/// What one `;`-separated piece of an install's environment text gives: an
/// empty piece gives nothing (`Some(None)`), `KEY=value` gives the pair with
/// every `"` taken out of the value, and a piece without `=` or with an
/// empty key makes the whole text unusable (`None`).
pub open spec fn env_entry(piece: Seq<char>) -> Option<Option<(Seq<char>, Seq<char>)>> {
    if piece.len() == 0 {
        Some(None)
    } else {
        match crate::text::find(piece, seq!['=']) {
            None => None,
            Some(i) => if i == 0 {
                None
            } else {
                Some(Some((piece.take(i), crate::text::replaced(piece.skip(i + 1), seq!['"'], Seq::empty()))))
            },
        }
    }
}

/// The pairs that a list of pieces gives, or `None` when one piece is unusable.
pub open spec fn env_pairs(pieces: Seq<Seq<char>>) -> Option<Seq<(Seq<char>, Seq<char>)>>
    decreases pieces.len(),
{
    if pieces.len() == 0 {
        Some(Seq::empty())
    } else {
        match (env_pairs(pieces.drop_last()), env_entry(pieces.last())) {
            (Some(acc), Some(None)) => Some(acc),
            (Some(acc), Some(Some(p))) => Some(acc.push(p)),
            _ => None,
        }
    }
}

/// The variables an install's environment text (`KEY=value;KEY=value`) sets.
pub open spec fn env_vars_of(text: Seq<char>) -> Option<Seq<(Seq<char>, Seq<char>)>> {
    env_pairs(crate::text::split_char(text, ';'))
}

/// The views of a list of string pairs.
pub open spec fn pair_views(v: Seq<(String, String)>) -> Seq<(Seq<char>, Seq<char>)> {
    v.map_values(|p: (String, String)| (p.0@, p.1@))
}

/// Reads an install's environment text into variables; `None` when a piece
/// of it is not `KEY=value` with a non-empty key.
pub fn parse_env_vars(text: &str) -> (r: Option<Vec<(String, String)>>)
    ensures
        r is None <==> env_vars_of(text@) is None,
        r matches Some(v) ==> env_vars_of(text@) == Some(pair_views(v@)),
{
    let pieces = crate::text::split_char_exec(chars_of(text).as_slice(), ';');
    let ghost spec_pieces = crate::text::split_char(text@, ';');
    assert(char_views(pieces@) =~= spec_pieces);
    let mut out: Vec<(String, String)> = Vec::new();
    let mut i: usize = 0;
    let eq: [char; 1] = ['='];
    let quote: [char; 1] = ['"'];
    let nothing: [char; 0] = [];
    assert(eq@ == seq!['=']);
    assert(quote@ == seq!['"']);
    assert(nothing@ == Seq::<char>::empty());
    while i < pieces.len()
        invariant
            i <= pieces@.len(),
            char_views(pieces@) == spec_pieces,
            spec_pieces == crate::text::split_char(text@, ';'),
            eq@ == seq!['='],
            quote@ == seq!['"'],
            nothing@ == Seq::<char>::empty(),
            env_pairs(spec_pieces.take(i as int)) == Some(pair_views(out@)),
        decreases pieces.len() - i,
    {
        assert(spec_pieces.take(i + 1).drop_last() =~= spec_pieces.take(i as int));
        assert(spec_pieces.take(i + 1).last() == pieces@[i as int]@);
        let piece = &pieces[i];
        if piece.len() > 0 {
            match crate::text::find_exec(piece.as_slice(), eq.as_slice()) {
                None => {
                    assert(env_pairs(spec_pieces) is None) by {
                        lemma_env_pairs_fail(spec_pieces, i as int);
                    };
                    return None;
                },
                Some(k) => {
                    if k == 0 {
                        assert(env_pairs(spec_pieces) is None) by {
                            lemma_env_pairs_fail(spec_pieces, i as int);
                        };
                        return None;
                    }
                    assert(k + 1 <= piece.len());
                    let key = crate::text::slice_chars(piece.as_slice(), 0, k);
                    let raw = crate::text::slice_chars(piece.as_slice(), k + 1, piece.len());
                    let value = crate::text::replace_all(raw.as_slice(), quote.as_slice(), nothing.as_slice());
                    assert(key@ =~= piece@.take(k as int));
                    assert(raw@ =~= piece@.skip(k + 1));
                    let ghost before = out@;
                    out.push((string_from(key.as_slice()), string_from(value.as_slice())));
                    assert(pair_views(out@) =~= pair_views(before).push((key@, value@)));
                },
            }
        }
        i = i + 1;
    }
    assert(spec_pieces.take(pieces@.len() as int) =~= spec_pieces);
    Some(out)
}

/// Once one piece is unusable, so is every longer list holding it.
pub proof fn lemma_env_pairs_fail(pieces: Seq<Seq<char>>, i: int)
    requires
        0 <= i < pieces.len(),
        env_entry(pieces[i]) is None,
    ensures
        env_pairs(pieces) is None,
    decreases pieces.len(),
{
    if i < pieces.len() - 1 {
        lemma_env_pairs_fail(pieces.drop_last(), i);
    }
}

// ---------------------------------------------------------------------------
// Command lines
// ---------------------------------------------------------------------------

/// The places and numbers a game is launched with.
pub struct LaunchContext {
    /// The Steam app id the runtime is told.
    pub appid: u32,
    /// The process reaper the runtime starts the game under.
    pub reaper: String,
    /// The folder of the Steam Linux Runtime.
    pub steamrt_path: String,
    /// The runtime's entry point.
    pub steamrt: String,
    /// The Wine prefix.
    pub prefix: String,
    /// The runner's folder.
    pub runner: String,
    /// The runner's Wine binary, relative to its folder.
    pub wine64: String,
    /// The install's folder.
    pub dir: String,
    /// The game's executable, relative to the install's folder.
    pub game: String,
    /// The file name of the game's executable.
    pub exe: String,
}

/// A template with the placeholders a user's command may use filled in,
/// one after the other: `%appid%`, `%reaper%`, `%steamrt_path%`,
/// `%steamrt%`, `%prefix%`, `%runner_dir%`, `%runner%` (the Wine binary),
/// `%install_dir%` and `%game_exe%`.
pub open spec fn expand_paths(t: Seq<char>, c: LaunchContext) -> Seq<char> {
    let t1 = crate::text::replaced(t, "%appid%"@, crate::text::decimal(c.appid as nat));
    let t2 = crate::text::replaced(t1, "%reaper%"@, c.reaper@);
    let t3 = crate::text::replaced(t2, "%steamrt_path%"@, c.steamrt_path@);
    let t4 = crate::text::replaced(t3, "%steamrt%"@, c.steamrt@);
    let t5 = crate::text::replaced(t4, "%prefix%"@, c.prefix@);
    let t6 = crate::text::replaced(t5, "%runner_dir%"@, c.runner@);
    let t7 = crate::text::replaced(t6, "%runner%"@, c.runner@ + seq!['/'] + c.wine64@);
    let t8 = crate::text::replaced(t7, "%install_dir%"@, c.dir@);
    crate::text::replaced(t8, "%game_exe%"@, c.dir@ + seq!['/'] + c.exe@)
}

fn replace_in(t: Vec<char>, pattern: &str, value: &[char]) -> (r: Vec<char>)
    ensures
        r@ == crate::text::replaced(t@, pattern@, value@),
{
    crate::text::replace_all(t.as_slice(), chars_of(pattern).as_slice(), value)
}

fn path_to(dir: &String, name: &String) -> (r: Vec<char>)
    ensures
        r@ == dir@ + seq!['/'] + name@,
{
    let mut out = chars_of(dir.as_str());
    out.push('/');
    extend(&mut out, chars_of(name.as_str()).as_slice());
    out
}

fn fill_paths(t: Vec<char>, c: &LaunchContext) -> (r: Vec<char>)
    ensures
        r@ == expand_paths(t@, *c),
{
    let mut appid: Vec<char> = Vec::new();
    crate::text::push_decimal(c.appid as u64, &mut appid);
    assert(appid@ =~= crate::text::decimal(c.appid as nat));
    let t = replace_in(t, "%appid%", appid.as_slice());
    let t = replace_in(t, "%reaper%", chars_of(c.reaper.as_str()).as_slice());
    let t = replace_in(t, "%steamrt_path%", chars_of(c.steamrt_path.as_str()).as_slice());
    let t = replace_in(t, "%steamrt%", chars_of(c.steamrt.as_str()).as_slice());
    let t = replace_in(t, "%prefix%", chars_of(c.prefix.as_str()).as_slice());
    let t = replace_in(t, "%runner_dir%", chars_of(c.runner.as_str()).as_slice());
    let t = replace_in(t, "%runner%", path_to(&c.runner, &c.wine64).as_slice());
    let t = replace_in(t, "%install_dir%", chars_of(c.dir.as_str()).as_slice());
    replace_in(t, "%game_exe%", path_to(&c.dir, &c.exe).as_slice())
}

/// The command run before the game: the user's pre-launch command with its
/// placeholders filled in.
pub fn prelaunch_command(template: &str, c: &LaunchContext) -> (r: String)
    ensures
        r@ == expand_paths(template@, *c),
{
    string_from(fill_paths(chars_of(template), c).as_slice())
}

/// The user's own launch command with the game's arguments after it (where
/// there are any), `%command%` made the default command line, then the
/// other placeholders filled in.
pub open spec fn custom_command(template: Seq<char>, args: Seq<char>, default_command: Seq<char>, c: LaunchContext) -> Seq<char> {
    let with_args = if args.len() == 0 { template } else { template + seq![' '] + args };
    expand_paths(crate::text::replaced(with_args, "%command%"@, default_command), c)
}

/// Builds the command a user's own launch command stands for.
pub fn custom_launch_command(template: &str, args: &str, default_command: &str, c: &LaunchContext) -> (r: String)
    ensures
        r@ == custom_command(template@, args@, default_command@, *c),
{
    let mut t = chars_of(template);
    let a = chars_of(args);
    if a.len() > 0 {
        t.push(' ');
        extend(&mut t, a.as_slice());
    }
    assert(t@ =~= (if args@.len() == 0 { template@ } else { template@ + seq![' '] + args@ }));
    let t = replace_in(t, "%command%", chars_of(default_command).as_slice());
    string_from(fill_paths(t, c).as_slice())
}

/// The command line that starts a game: through the Steam Linux Runtime and
/// the reaper for a Proton runner, straight through the Wine binary
/// otherwise; behind `gamemoderun` where game mode is on.
pub open spec fn default_command_line(
    proton: bool,
    gamemode: bool,
    c: LaunchContext,
    verb: Seq<char>,
    drive: Seq<char>,
    args: Seq<char>,
) -> Seq<char> {
    let run = if proton {
        proton_line(c, verb, drive, args)
    } else {
        wine_line(c, args)
    };
    if gamemode {
        "gamemoderun "@ + run
    } else {
        run
    }
}

/// The Proton command line, before any `gamemoderun`.
pub open spec fn proton_line(c: LaunchContext, verb: Seq<char>, drive: Seq<char>, args: Seq<char>) -> Seq<char> {
    seq!['\''] + c.steamrt@ + "' --verb="@ + verb + " -- '"@ + c.reaper@ + "' SteamLaunch AppId="@
        + crate::text::decimal(c.appid as nat) + " -- '"@ + c.runner@ + seq!['/'] + c.wine64@ + "' "@
        + verb + " '"@ + drive + "' "@ + args
}

/// The Wine command line, before any `gamemoderun`.
pub open spec fn wine_line(c: LaunchContext, args: Seq<char>) -> Seq<char> {
    seq!['\''] + c.runner@ + seq!['/'] + c.wine64@ + "' '"@ + c.dir@ + seq!['/'] + c.game@ + "' "@ + args
}

fn proton_line_exec(out: &mut Vec<char>, c: &LaunchContext, verb: &str, drive: &str, args: &str)
    ensures
        final(out)@ == old(out)@ + proton_line(*c, verb@, drive@, args@),
{
    let ghost o = old(out)@;
    out.push('\'');
    extend(out, chars_of(c.steamrt.as_str()).as_slice());
    extend(out, chars_of("' --verb=").as_slice());
    extend(out, chars_of(verb).as_slice());
    extend(out, chars_of(" -- '").as_slice());
    let ghost p1 = out@;
    assert(p1 =~= o + (seq!['\''] + c.steamrt@ + "' --verb="@ + verb@ + " -- '"@));
    extend(out, chars_of(c.reaper.as_str()).as_slice());
    extend(out, chars_of("' SteamLaunch AppId=").as_slice());
    crate::text::push_decimal(c.appid as u64, out);
    extend(out, chars_of(" -- '").as_slice());
    let ghost p2 = out@;
    assert(p2 =~= p1 + (c.reaper@ + "' SteamLaunch AppId="@ + crate::text::decimal(c.appid as nat) + " -- '"@));
    extend(out, path_to(&c.runner, &c.wine64).as_slice());
    extend(out, chars_of("' ").as_slice());
    extend(out, chars_of(verb).as_slice());
    extend(out, chars_of(" '").as_slice());
    let ghost p3 = out@;
    assert(p3 =~= p2 + (c.runner@ + seq!['/'] + c.wine64@ + "' "@ + verb@ + " '"@));
    extend(out, chars_of(drive).as_slice());
    extend(out, chars_of("' ").as_slice());
    extend(out, chars_of(args).as_slice());
    assert(out@ =~= p3 + (drive@ + "' "@ + args@));
    assert(out@ =~= o + proton_line(*c, verb@, drive@, args@));
}

fn wine_line_exec(out: &mut Vec<char>, c: &LaunchContext, args: &str)
    ensures
        final(out)@ == old(out)@ + wine_line(*c, args@),
{
    let ghost o = old(out)@;
    out.push('\'');
    extend(out, path_to(&c.runner, &c.wine64).as_slice());
    extend(out, chars_of("' '").as_slice());
    extend(out, path_to(&c.dir, &c.game).as_slice());
    extend(out, chars_of("' ").as_slice());
    extend(out, chars_of(args).as_slice());
    assert(out@ =~= o + wine_line(*c, args@));
}

/// Builds the command line that starts a game.
pub fn default_command(proton: bool, gamemode: bool, c: &LaunchContext, verb: &str, drive: &str, args: &str) -> (r: String)
    ensures
        r@ == default_command_line(proton, gamemode, *c, verb@, drive@, args@),
{
    let mut out: Vec<char> = Vec::new();
    if gamemode {
        extend(&mut out, chars_of("gamemoderun ").as_slice());
    }
    let ghost start = out@;
    if proton {
        proton_line_exec(&mut out, c, verb, drive, args);
        assert(out@ == start + proton_line(*c, verb@, drive@, args@));
    } else {
        wine_line_exec(&mut out, c, args);
    }
    assert(start =~= (if gamemode { "gamemoderun "@ } else { Seq::<char>::empty() }));
    assert(out@ =~= default_command_line(proton, gamemode, *c, verb@, drive@, args@));
    string_from(out.as_slice())
}

// ---------------------------------------------------------------------------
// Environments
// ---------------------------------------------------------------------------

/// The compatibility switches a game's manifest sets for its runner.
pub struct RunnerSwitches {
    pub stub_wintrust: bool,
    pub block_first_req: bool,
    pub disable_protonfixes: bool,
    pub protonfixes_store: String,
    pub protonfixes_id: String,
}

/// One variable where `on` holds, none otherwise.
pub open spec fn flag(on: bool, k: Seq<char>, v: Seq<char>) -> Seq<(Seq<char>, Seq<char>)> {
    if on {
        seq![(k, v)]
    } else {
        Seq::empty()
    }
}

/// The Steam game id a game reports: a fixed one for the game that needs
/// it, the app id otherwise.
pub open spec fn steam_game_id(biz: Seq<char>, appid: u32) -> Seq<char> {
    if biz == "wuwa_global"@ {
        "3513350"@
    } else {
        crate::text::decimal(appid as nat)
    }
}

/// The variables that the user's environment text adds; none when it is unusable.
pub open spec fn user_env(text: Seq<char>) -> Seq<(Seq<char>, Seq<char>)> {
    match env_vars_of(text) {
        Some(v) => v,
        None => Seq::empty(),
    }
}

/// Whether the wintrust patch is put in place (rather than taken out) for a
/// launch: where either switch that needs it is on.
pub open spec fn needs_sparkle_patch(sw: RunnerSwitches) -> bool {
    sw.stub_wintrust || sw.block_first_req
}

/// The environment of the game process, in the order it is set (a later
/// variable of the same name wins).
pub open spec fn game_env_of(
    biz: Seq<char>,
    c: LaunchContext,
    sw: RunnerSwitches,
    compat_config: Seq<char>,
    mangohud: bool,
    mangohud_config: Seq<char>,
    env_text: Seq<char>,
) -> Seq<(Seq<char>, Seq<char>)> {
    seq![
        ("SteamGameId"@, steam_game_id(biz, c.appid)),
        ("SteamOS"@, "1"@),
        ("WINEARCH"@, "win64"@),
        ("WINEPREFIX"@, c.prefix@ + "/pfx"@),
        ("STEAM_COMPAT_APP_ID"@, "0"@),
        ("STEAM_COMPAT_DATA_PATH"@, c.prefix@),
        ("STEAM_COMPAT_INSTALL_PATH"@, c.dir@),
        ("STEAM_COMPAT_CLIENT_INSTALL_PATH"@, Seq::empty()),
        ("STEAM_COMPAT_TOOL_PATHS"@, c.runner@),
        ("STEAM_COMPAT_LIBRARY_PATHS"@, c.dir@ + seq![':'] + c.prefix@ + "/pfx"@),
        ("STEAM_COMPAT_SHADER_PATH"@, c.prefix@ + "/shadercache"@),
        ("WINEDLLOVERRIDES"@, "lsteamclient=d;KRSDKExternal.exe=d"@)
    ]
        + flag(sw.stub_wintrust, "STUB_WINTRUST"@, "1"@)
        + flag(sw.block_first_req, "BLOCK_FIRST_REQ"@, "1"@)
        + flag(sw.disable_protonfixes, "PROTONFIXES_DISABLE"@, "1"@)
        + flag(sw.protonfixes_store@.len() > 0, "STORE"@, sw.protonfixes_store@)
        + flag(sw.protonfixes_id@.len() > 0, "UMU_ID"@, sw.protonfixes_id@)
        + flag(needs_sparkle_patch(sw), "WINEDLLOVERRIDES"@, "lsteamclient=d;KRSDKExternal.exe=d;jsproxy=n,b"@)
        + seq![("STEAM_COMPAT_CONFIG"@, compat_config)]
        + flag(mangohud, "MANGOHUD"@, "1"@)
        + flag(mangohud && mangohud_config.len() > 0, "MANGOHUD_CONFIGFILE"@, mangohud_config)
        + user_env(env_text)
}

fn push_env(out: &mut Vec<(String, String)>, k: &str, v: Vec<char>)
    ensures
        pair_views(final(out)@) == pair_views(old(out)@).push((k@, v@)),
{
    out.push((owned(k), string_from(v.as_slice())));
    assert(pair_views(final(out)@) =~= pair_views(old(out)@).push((k@, v@)));
}

fn push_flag(out: &mut Vec<(String, String)>, on: bool, k: &str, v: Vec<char>)
    ensures
        pair_views(final(out)@) == pair_views(old(out)@) + flag(on, k@, v@),
{
    if on {
        push_env(out, k, v);
        assert(pair_views(final(out)@) =~= pair_views(old(out)@) + flag(on, k@, v@));
    } else {
        assert(pair_views(old(out)@) + flag(on, k@, v@) =~= pair_views(old(out)@));
    }
}

fn push_user_env(out: &mut Vec<(String, String)>, env_text: &str)
    ensures
        pair_views(final(out)@) == pair_views(old(out)@) + user_env(env_text@),
{
    match parse_env_vars(env_text) {
        Some(vars) => {
            let mut i: usize = 0;
            while i < vars.len()
                invariant
                    i <= vars@.len(),
                    pair_views(out@) == pair_views(old(out)@) + pair_views(vars@).take(i as int),
                decreases vars.len() - i,
            {
                let ghost before = out@;
                let k = vars[i].0.clone();
                let v = vars[i].1.clone();
                out.push((k, v));
                assert(pair_views(out@) =~= pair_views(before).push((vars@[i as int].0@, vars@[i as int].1@)));
                assert(pair_views(vars@).take(i + 1) =~= pair_views(vars@).take(i as int).push(
                    (vars@[i as int].0@, vars@[i as int].1@)));
                i = i + 1;
                assert(pair_views(out@) =~= pair_views(old(out)@) + pair_views(vars@).take(i as int));
            }
            assert(pair_views(vars@).take(vars@.len() as int) =~= pair_views(vars@));
        },
        None => {
            assert(pair_views(old(out)@) + user_env(env_text@) =~= pair_views(old(out)@));
        },
    }
}

fn with_suffix(a: &String, suffix: &str) -> (r: Vec<char>)
    ensures
        r@ == a@ + suffix@,
{
    let mut v = chars_of(a.as_str());
    extend(&mut v, chars_of(suffix).as_slice());
    v
}

fn base_game_env(out: &mut Vec<(String, String)>, biz: &str, c: &LaunchContext)
    ensures
        pair_views(final(out)@) == pair_views(old(out)@) + seq![
            ("SteamGameId"@, steam_game_id(biz@, c.appid)),
            ("SteamOS"@, "1"@),
            ("WINEARCH"@, "win64"@),
            ("WINEPREFIX"@, c.prefix@ + "/pfx"@),
            ("STEAM_COMPAT_APP_ID"@, "0"@),
            ("STEAM_COMPAT_DATA_PATH"@, c.prefix@),
            ("STEAM_COMPAT_INSTALL_PATH"@, c.dir@),
            ("STEAM_COMPAT_CLIENT_INSTALL_PATH"@, Seq::<char>::empty()),
            ("STEAM_COMPAT_TOOL_PATHS"@, c.runner@),
            ("STEAM_COMPAT_LIBRARY_PATHS"@, c.dir@ + seq![':'] + c.prefix@ + "/pfx"@),
            ("STEAM_COMPAT_SHADER_PATH"@, c.prefix@ + "/shadercache"@),
            ("WINEDLLOVERRIDES"@, "lsteamclient=d;KRSDKExternal.exe=d"@)
        ],
{
    let ghost o = pair_views(old(out)@);
    let id = if str_eq(biz, "wuwa_global") {
        chars_of("3513350")
    } else {
        let mut d: Vec<char> = Vec::new();
        crate::text::push_decimal(c.appid as u64, &mut d);
        assert(d@ =~= crate::text::decimal(c.appid as nat));
        d
    };
    push_env(out, "SteamGameId", id);
    push_env(out, "SteamOS", chars_of("1"));
    push_env(out, "WINEARCH", chars_of("win64"));
    push_env(out, "WINEPREFIX", with_suffix(&c.prefix, "/pfx"));
    push_env(out, "STEAM_COMPAT_APP_ID", chars_of("0"));
    push_env(out, "STEAM_COMPAT_DATA_PATH", chars_of(c.prefix.as_str()));
    push_env(out, "STEAM_COMPAT_INSTALL_PATH", chars_of(c.dir.as_str()));
    push_env(out, "STEAM_COMPAT_CLIENT_INSTALL_PATH", Vec::new());
    push_env(out, "STEAM_COMPAT_TOOL_PATHS", chars_of(c.runner.as_str()));
    let mut lib = chars_of(c.dir.as_str());
    lib.push(':');
    extend(&mut lib, with_suffix(&c.prefix, "/pfx").as_slice());
    assert(lib@ =~= c.dir@ + seq![':'] + c.prefix@ + "/pfx"@);
    push_env(out, "STEAM_COMPAT_LIBRARY_PATHS", lib);
    push_env(out, "STEAM_COMPAT_SHADER_PATH", with_suffix(&c.prefix, "/shadercache"));
    push_env(out, "WINEDLLOVERRIDES", chars_of("lsteamclient=d;KRSDKExternal.exe=d"));
    assert(pair_views(out@) =~= o + seq![
        ("SteamGameId"@, steam_game_id(biz@, c.appid)),
        ("SteamOS"@, "1"@),
        ("WINEARCH"@, "win64"@),
        ("WINEPREFIX"@, c.prefix@ + "/pfx"@),
        ("STEAM_COMPAT_APP_ID"@, "0"@),
        ("STEAM_COMPAT_DATA_PATH"@, c.prefix@),
        ("STEAM_COMPAT_INSTALL_PATH"@, c.dir@),
        ("STEAM_COMPAT_CLIENT_INSTALL_PATH"@, Seq::<char>::empty()),
        ("STEAM_COMPAT_TOOL_PATHS"@, c.runner@),
        ("STEAM_COMPAT_LIBRARY_PATHS"@, c.dir@ + seq![':'] + c.prefix@ + "/pfx"@),
        ("STEAM_COMPAT_SHADER_PATH"@, c.prefix@ + "/shadercache"@),
        ("WINEDLLOVERRIDES"@, "lsteamclient=d;KRSDKExternal.exe=d"@)
    ]);
}

/// Builds the environment of the game process.
pub fn game_env(
    biz: &str,
    c: &LaunchContext,
    sw: &RunnerSwitches,
    compat_config: &str,
    mangohud: bool,
    mangohud_config: &str,
    env_text: &str,
) -> (r: Vec<(String, String)>)
    ensures
        pair_views(r@) == game_env_of(biz@, *c, *sw, compat_config@, mangohud, mangohud_config@, env_text@),
{
    let mut out: Vec<(String, String)> = Vec::new();
    base_game_env(&mut out, biz, c);
    let ghost p0 = pair_views(out@);
    push_flag(&mut out, sw.stub_wintrust, "STUB_WINTRUST", chars_of("1"));
    push_flag(&mut out, sw.block_first_req, "BLOCK_FIRST_REQ", chars_of("1"));
    push_flag(&mut out, sw.disable_protonfixes, "PROTONFIXES_DISABLE", chars_of("1"));
    let store = chars_of(sw.protonfixes_store.as_str());
    let store_set = store.len() > 0;
    push_flag(&mut out, store_set, "STORE", store);
    let id = chars_of(sw.protonfixes_id.as_str());
    let id_set = id.len() > 0;
    push_flag(&mut out, id_set, "UMU_ID", id);
    push_flag(
        &mut out,
        sw.stub_wintrust || sw.block_first_req,
        "WINEDLLOVERRIDES",
        chars_of("lsteamclient=d;KRSDKExternal.exe=d;jsproxy=n,b"),
    );
    let ghost p1 = pair_views(out@);
    push_env(&mut out, "STEAM_COMPAT_CONFIG", chars_of(compat_config));
    push_flag(&mut out, mangohud, "MANGOHUD", chars_of("1"));
    let cfg = chars_of(mangohud_config);
    let cfg_set = mangohud && cfg.len() > 0;
    push_flag(&mut out, cfg_set, "MANGOHUD_CONFIGFILE", cfg);
    let ghost p2 = pair_views(out@);
    push_user_env(&mut out, env_text);
    assert(p1 =~= p0
        + flag(sw.stub_wintrust, "STUB_WINTRUST"@, "1"@)
        + flag(sw.block_first_req, "BLOCK_FIRST_REQ"@, "1"@)
        + flag(sw.disable_protonfixes, "PROTONFIXES_DISABLE"@, "1"@)
        + flag(sw.protonfixes_store@.len() > 0, "STORE"@, sw.protonfixes_store@)
        + flag(sw.protonfixes_id@.len() > 0, "UMU_ID"@, sw.protonfixes_id@)
        + flag(needs_sparkle_patch(*sw), "WINEDLLOVERRIDES"@, "lsteamclient=d;KRSDKExternal.exe=d;jsproxy=n,b"@));
    assert(p2 =~= p1
        + seq![("STEAM_COMPAT_CONFIG"@, compat_config@)]
        + flag(mangohud, "MANGOHUD"@, "1"@)
        + flag(mangohud && mangohud_config@.len() > 0, "MANGOHUD_CONFIGFILE"@, mangohud_config@));
    assert(pair_views(out@) =~= game_env_of(biz@, *c, *sw, compat_config@, mangohud, mangohud_config@, env_text@));
    out
}

/// The environment of the user's pre-launch command.
pub open spec fn prelaunch_env_of(c: LaunchContext, sw: RunnerSwitches) -> Seq<(Seq<char>, Seq<char>)> {
    seq![
        ("WINEARCH"@, "win64"@),
        ("WINEPREFIX"@, c.prefix@ + "/pfx"@),
        ("STEAM_COMPAT_APP_ID"@, "0"@),
        ("STEAM_COMPAT_DATA_PATH"@, c.prefix@),
        ("STEAM_COMPAT_INSTALL_PATH"@, c.dir@),
        ("STEAM_COMPAT_CLIENT_INSTALL_PATH"@, Seq::empty()),
        ("STEAM_COMPAT_TOOL_PATHS"@, c.runner@),
        ("STEAM_COMPAT_SHADER_PATH"@, c.prefix@ + "/shadercache"@),
        ("WINEDLLOVERRIDES"@, "lsteamclient=d;KRSDKExternal.exe=d"@)
    ]
        + flag(sw.disable_protonfixes, "PROTONFIXES_DISABLE"@, "1"@)
        + flag(sw.protonfixes_store@.len() > 0, "STORE"@, sw.protonfixes_store@)
        + flag(sw.protonfixes_id@.len() > 0, "UMU_ID"@, sw.protonfixes_id@)
}

/// Builds the environment of the user's pre-launch command.
pub fn prelaunch_env(c: &LaunchContext, sw: &RunnerSwitches) -> (r: Vec<(String, String)>)
    ensures
        pair_views(r@) == prelaunch_env_of(*c, *sw),
{
    let mut out: Vec<(String, String)> = Vec::new();
    push_env(&mut out, "WINEARCH", chars_of("win64"));
    push_env(&mut out, "WINEPREFIX", with_suffix(&c.prefix, "/pfx"));
    push_env(&mut out, "STEAM_COMPAT_APP_ID", chars_of("0"));
    push_env(&mut out, "STEAM_COMPAT_DATA_PATH", chars_of(c.prefix.as_str()));
    push_env(&mut out, "STEAM_COMPAT_INSTALL_PATH", chars_of(c.dir.as_str()));
    push_env(&mut out, "STEAM_COMPAT_CLIENT_INSTALL_PATH", Vec::new());
    push_env(&mut out, "STEAM_COMPAT_TOOL_PATHS", chars_of(c.runner.as_str()));
    push_env(&mut out, "STEAM_COMPAT_SHADER_PATH", with_suffix(&c.prefix, "/shadercache"));
    push_env(&mut out, "WINEDLLOVERRIDES", chars_of("lsteamclient=d;KRSDKExternal.exe=d"));
    let ghost p0 = pair_views(out@);
    push_flag(&mut out, sw.disable_protonfixes, "PROTONFIXES_DISABLE", chars_of("1"));
    let store = chars_of(sw.protonfixes_store.as_str());
    let store_set = store.len() > 0;
    push_flag(&mut out, store_set, "STORE", store);
    let id = chars_of(sw.protonfixes_id.as_str());
    let id_set = id.len() > 0;
    push_flag(&mut out, id_set, "UMU_ID", id);
    assert(p0 =~= seq![
        ("WINEARCH"@, "win64"@),
        ("WINEPREFIX"@, c.prefix@ + "/pfx"@),
        ("STEAM_COMPAT_APP_ID"@, "0"@),
        ("STEAM_COMPAT_DATA_PATH"@, c.prefix@),
        ("STEAM_COMPAT_INSTALL_PATH"@, c.dir@),
        ("STEAM_COMPAT_CLIENT_INSTALL_PATH"@, Seq::<char>::empty()),
        ("STEAM_COMPAT_TOOL_PATHS"@, c.runner@),
        ("STEAM_COMPAT_SHADER_PATH"@, c.prefix@ + "/shadercache"@),
        ("WINEDLLOVERRIDES"@, "lsteamclient=d;KRSDKExternal.exe=d"@)
    ]);
    assert(pair_views(out@) =~= prelaunch_env_of(*c, *sw));
    out
}

/// How the model injector's loader attaches to a game: it injects into the
/// games whose injector is `efmi` or `wwmi`, and hooks the others.
pub open spec fn loader_mode_of(mi: Seq<char>) -> Seq<char> {
    if mi == "efmi"@ || mi == "wwmi"@ {
        "inject"@
    } else {
        "hook"@
    }
}

/// The environment of a helper tool started in the game's prefix (the model
/// injector's loader, with its loader mode, or the FPS unlocker, without).
pub open spec fn tool_env_of(loader_mode: Option<Seq<char>>, c: LaunchContext, env_text: Seq<char>) -> Seq<(Seq<char>, Seq<char>)> {
    (match loader_mode {
        Some(m) => seq![("LOADER_MODE"@, m)],
        None => Seq::empty(),
    }) + seq![
        ("WINEARCH"@, "win64"@),
        ("WINEPREFIX"@, c.prefix@ + "/pfx"@),
        ("STEAM_COMPAT_APP_ID"@, "0"@),
        ("STEAM_COMPAT_DATA_PATH"@, c.prefix@),
        ("STEAM_COMPAT_CLIENT_INSTALL_PATH"@, Seq::empty()),
        ("STEAM_COMPAT_TOOL_PATHS"@, c.runner@),
        ("PROTONFIXES_DISABLE"@, "1"@),
        ("PROTON_USE_XALIA"@, "0"@),
        ("WINEDLLOVERRIDES"@, "lsteamclient=d;KRSDKExternal.exe=d"@)
    ] + user_env(env_text)
}

/// Builds the environment of the model injector's loader for injector `mi`
/// (`Some`), or of the FPS unlocker (`None`).
pub fn tool_env(mi: Option<&str>, c: &LaunchContext, env_text: &str) -> (r: Vec<(String, String)>)
    ensures
        pair_views(r@) == tool_env_of(
            match mi {
                Some(m) => Some(loader_mode_of(m@)),
                None => None,
            },
            *c,
            env_text@,
        ),
{
    let mut out: Vec<(String, String)> = Vec::new();
    match mi {
        Some(m) => {
            let mode = if str_eq(m, "efmi") || str_eq(m, "wwmi") {
                chars_of("inject")
            } else {
                chars_of("hook")
            };
            push_env(&mut out, "LOADER_MODE", mode);
        },
        None => {},
    }
    let ghost p0 = pair_views(out@);
    push_env(&mut out, "WINEARCH", chars_of("win64"));
    push_env(&mut out, "WINEPREFIX", with_suffix(&c.prefix, "/pfx"));
    push_env(&mut out, "STEAM_COMPAT_APP_ID", chars_of("0"));
    push_env(&mut out, "STEAM_COMPAT_DATA_PATH", chars_of(c.prefix.as_str()));
    push_env(&mut out, "STEAM_COMPAT_CLIENT_INSTALL_PATH", Vec::new());
    push_env(&mut out, "STEAM_COMPAT_TOOL_PATHS", chars_of(c.runner.as_str()));
    push_env(&mut out, "PROTONFIXES_DISABLE", chars_of("1"));
    push_env(&mut out, "PROTON_USE_XALIA", chars_of("0"));
    push_env(&mut out, "WINEDLLOVERRIDES", chars_of("lsteamclient=d;KRSDKExternal.exe=d"));
    let ghost p1 = pair_views(out@);
    push_user_env(&mut out, env_text);
    assert(p1 =~= p0 + seq![
        ("WINEARCH"@, "win64"@),
        ("WINEPREFIX"@, c.prefix@ + "/pfx"@),
        ("STEAM_COMPAT_APP_ID"@, "0"@),
        ("STEAM_COMPAT_DATA_PATH"@, c.prefix@),
        ("STEAM_COMPAT_CLIENT_INSTALL_PATH"@, Seq::<char>::empty()),
        ("STEAM_COMPAT_TOOL_PATHS"@, c.runner@),
        ("PROTONFIXES_DISABLE"@, "1"@),
        ("PROTON_USE_XALIA"@, "0"@),
        ("WINEDLLOVERRIDES"@, "lsteamclient=d;KRSDKExternal.exe=d"@)
    ]);
    assert(pair_views(out@) =~= tool_env_of(
        match mi {
            Some(m) => Some(loader_mode_of(m@)),
            None => None,
        },
        *c,
        env_text@,
    ));
    out
}

/// The command that starts the model injector's loader for injector `mi`
/// from the folder `xxmi_path`; a Proton runner is told to `run` it.
pub open spec fn xxmi_command_of(proton: bool, c: LaunchContext, xxmi_path: Seq<char>, mi: Seq<char>) -> Seq<char> {
    seq!['\''] + c.runner@ + seq!['/'] + c.wine64@ + (if proton { "' run 'z:\\"@ } else { "' 'z:\\"@ })
        + xxmi_path + "/3dmloader.exe' "@ + mi
}

/// Builds the command that starts the model injector's loader.
pub fn xxmi_command(proton: bool, c: &LaunchContext, xxmi_path: &str, mi: &str) -> (r: String)
    ensures
        r@ == xxmi_command_of(proton, *c, xxmi_path@, mi@),
{
    let mut out: Vec<char> = Vec::new();
    out.push('\'');
    extend(&mut out, path_to(&c.runner, &c.wine64).as_slice());
    if proton {
        extend(&mut out, chars_of("' run 'z:\\").as_slice());
    } else {
        extend(&mut out, chars_of("' 'z:\\").as_slice());
    }
    extend(&mut out, chars_of(xxmi_path).as_slice());
    extend(&mut out, chars_of("/3dmloader.exe' ").as_slice());
    extend(&mut out, chars_of(mi).as_slice());
    assert(out@ =~= xxmi_command_of(proton, *c, xxmi_path@, mi@));
    string_from(out.as_slice())
}

/// The command that starts the FPS unlocker from the folder `unlock_path`
/// for the game `biz` at `fps` frames per second; a Proton runner is told to
/// `run` it.
pub open spec fn fps_unlock_command_of(
    proton: bool,
    c: LaunchContext,
    unlock_path: Seq<char>,
    biz: Seq<char>,
    fps: Seq<char>,
    game_path: Seq<char>,
) -> Seq<char> {
    seq!['\''] + c.runner@ + seq!['/'] + c.wine64@ + (if proton { "' run 'z:\\"@ } else { "' 'z:\\"@ })
        + unlock_path + "/keqing_unlock.exe' run "@ + biz + seq![' '] + fps + " 2000 600 '"@ + game_path + seq!['\'']
}

/// Builds the command that starts the FPS unlocker.
pub fn fps_unlock_command(
    proton: bool,
    c: &LaunchContext,
    unlock_path: &str,
    biz: &str,
    fps: &str,
    game_path: &str,
) -> (r: String)
    ensures
        r@ == fps_unlock_command_of(proton, *c, unlock_path@, biz@, fps@, game_path@),
{
    let mut out: Vec<char> = Vec::new();
    out.push('\'');
    extend(&mut out, path_to(&c.runner, &c.wine64).as_slice());
    if proton {
        extend(&mut out, chars_of("' run 'z:\\").as_slice());
    } else {
        extend(&mut out, chars_of("' 'z:\\").as_slice());
    }
    extend(&mut out, chars_of(unlock_path).as_slice());
    extend(&mut out, chars_of("/keqing_unlock.exe' run ").as_slice());
    let ghost p1 = out@;
    extend(&mut out, chars_of(biz).as_slice());
    out.push(' ');
    extend(&mut out, chars_of(fps).as_slice());
    extend(&mut out, chars_of(" 2000 600 '").as_slice());
    extend(&mut out, chars_of(game_path).as_slice());
    out.push('\'');
    assert(out@ =~= p1 + (biz@ + seq![' '] + fps@ + " 2000 600 '"@ + game_path@ + seq!['\'']));
    assert(out@ =~= fps_unlock_command_of(proton, *c, unlock_path@, biz@, fps@, game_path@));
    string_from(out.as_slice())
}

// ---------------------------------------------------------------------------
// The Steam Linux Runtime and tools in the prefix
// ---------------------------------------------------------------------------

/// The runtime's folder for tool `toolid` under the runners' folder, and its
/// entry point.
pub open spec fn runtime_paths_of(runner_root: Seq<char>, toolid: Seq<char>) -> (Seq<char>, Seq<char>) {
    let base = crate::installs::path_join(crate::installs::path_join(runner_root, "steamrt/"@), toolid);
    (base, crate::installs::path_join(base, "_v2-entry-point"@))
}

/// Works out where the runtime for tool `toolid` lives and how it is entered.
pub fn runtime_paths(runner_root: &str, toolid: &str) -> (r: (String, String))
    ensures
        (r.0@, r.1@) == runtime_paths_of(runner_root@, toolid@),
{
    let a = crate::installs::join_path(runner_root, "steamrt/");
    let base = crate::installs::join_path(a.as_str(), toolid);
    let entry = crate::installs::join_path(base.as_str(), "_v2-entry-point");
    (base, entry)
}

/// The reaper's path as the runtime's container sees it: a Flatpak's
/// `/app/lib/` is reached through `/run/parent/app/lib/`, the host's
/// `/usr/lib/` through `/run/host/usr/lib/`.
pub open spec fn reaper_in_container(reaper: Seq<char>, flatpak: bool) -> Seq<char> {
    if flatpak {
        crate::text::replaced(reaper, "/app/lib/"@, "/run/parent/app/lib/"@)
    } else {
        crate::text::replaced(reaper, "/usr/lib/"@, "/run/host/usr/lib/"@)
    }
}

/// Rewrites the reaper's path for the runtime's container.
pub fn container_reaper_path(reaper: &str, flatpak: bool) -> (r: String)
    ensures
        r@ == reaper_in_container(reaper@, flatpak),
{
    let v = chars_of(reaper);
    let out = if flatpak {
        crate::text::replace_all(v.as_slice(), chars_of("/app/lib/").as_slice(), chars_of("/run/parent/app/lib/").as_slice())
    } else {
        crate::text::replace_all(v.as_slice(), chars_of("/usr/lib/").as_slice(), chars_of("/run/host/usr/lib/").as_slice())
    };
    string_from(out.as_slice())
}

/// The Wine programs the launcher can open inside an install's prefix.
#[derive(Clone, Copy, Debug, PartialEq, Eq, Structural)]
pub enum PrefixTool {
    Regedit,
    Control,
    Cmd,
    Winecfg,
}

/// The program a request names.
pub open spec fn prefix_tool_of(name: Seq<char>) -> Option<PrefixTool> {
    if name == "regedit.exe"@ {
        Some(PrefixTool::Regedit)
    } else if name == "control.exe"@ {
        Some(PrefixTool::Control)
    } else if name == "cmd.exe"@ {
        Some(PrefixTool::Cmd)
    } else if name == "winecfg.exe"@ {
        Some(PrefixTool::Winecfg)
    } else {
        None
    }
}

/// Reads which program a request names.
pub fn prefix_tool(name: &str) -> (r: Option<PrefixTool>)
    ensures
        r == prefix_tool_of(name@),
{
    if str_eq(name, "regedit.exe") {
        Some(PrefixTool::Regedit)
    } else if str_eq(name, "control.exe") {
        Some(PrefixTool::Control)
    } else if str_eq(name, "cmd.exe") {
        Some(PrefixTool::Cmd)
    } else if str_eq(name, "winecfg.exe") {
        Some(PrefixTool::Winecfg)
    } else {
        None
    }
}

/// The executable of a program.
pub open spec fn tool_exe(t: PrefixTool) -> Seq<char> {
    match t {
        PrefixTool::Regedit => "regedit.exe"@,
        PrefixTool::Control => "control.exe"@,
        PrefixTool::Cmd => "cmd.exe"@,
        PrefixTool::Winecfg => "winecfg.exe"@,
    }
}

/// The command that runs a program in the prefix through the runtime, the
/// reaper and the runner's `proton` script.
pub open spec fn prefix_tool_command_of(steamrt: Seq<char>, reaper: Seq<char>, appid: u32, runner: Seq<char>, t: PrefixTool) -> Seq<char> {
    seq!['\''] + steamrt + "' --verb=run -- '"@ + reaper + "' SteamLaunch AppId="@ + crate::text::decimal(appid as nat)
        + " -- '"@ + runner + "/proton' run '"@ + tool_exe(t) + seq!['\'']
}

/// Builds the command that runs a program in the prefix.
pub fn prefix_tool_command(steamrt: &str, reaper: &str, appid: u32, runner: &str, t: PrefixTool) -> (r: String)
    ensures
        r@ == prefix_tool_command_of(steamrt@, reaper@, appid, runner@, t),
{
    let exe = match t {
        PrefixTool::Regedit => chars_of("regedit.exe"),
        PrefixTool::Control => chars_of("control.exe"),
        PrefixTool::Cmd => chars_of("cmd.exe"),
        PrefixTool::Winecfg => chars_of("winecfg.exe"),
    };
    let mut out: Vec<char> = Vec::new();
    out.push('\'');
    extend(&mut out, chars_of(steamrt).as_slice());
    extend(&mut out, chars_of("' --verb=run -- '").as_slice());
    extend(&mut out, chars_of(reaper).as_slice());
    extend(&mut out, chars_of("' SteamLaunch AppId=").as_slice());
    let ghost p1 = out@;
    crate::text::push_decimal(appid as u64, &mut out);
    extend(&mut out, chars_of(" -- '").as_slice());
    extend(&mut out, chars_of(runner).as_slice());
    extend(&mut out, chars_of("/proton' run '").as_slice());
    extend(&mut out, exe.as_slice());
    out.push('\'');
    assert(out@ =~= p1 + (crate::text::decimal(appid as nat) + " -- '"@ + runner@ + "/proton' run '"@ + tool_exe(t)
        + seq!['\'']));
    assert(out@ =~= prefix_tool_command_of(steamrt@, reaper@, appid, runner@, t));
    string_from(out.as_slice())
}

/// The environment a program in the prefix runs in.
pub open spec fn prefix_tool_env_of(prefix: Seq<char>, dir: Seq<char>, runner: Seq<char>) -> Seq<(Seq<char>, Seq<char>)> {
    seq![
        ("WINEARCH"@, "win64"@),
        ("WINEPREFIX"@, prefix + "/pfx"@),
        ("STEAM_COMPAT_APP_ID"@, "0"@),
        ("STEAM_COMPAT_DATA_PATH"@, prefix),
        ("STEAM_COMPAT_INSTALL_PATH"@, dir),
        ("STEAM_COMPAT_CLIENT_INSTALL_PATH"@, Seq::empty()),
        ("STEAM_COMPAT_TOOL_PATHS"@, runner),
        ("STEAM_COMPAT_SHADER_PATH"@, prefix + "/shadercache"@),
        ("WINEDLLOVERRIDES"@, "lsteamclient=d;KRSDKExternal.exe=d"@),
        ("PROTONFIXES_DISABLE"@, "1"@),
        ("PROTON_USE_XALIA"@, "0"@)
    ]
}

/// Builds the environment a program in the prefix runs in.
pub fn prefix_tool_env(prefix: &String, dir: &str, runner: &str) -> (r: Vec<(String, String)>)
    ensures
        pair_views(r@) == prefix_tool_env_of(prefix@, dir@, runner@),
{
    let mut out: Vec<(String, String)> = Vec::new();
    push_env(&mut out, "WINEARCH", chars_of("win64"));
    push_env(&mut out, "WINEPREFIX", with_suffix(prefix, "/pfx"));
    push_env(&mut out, "STEAM_COMPAT_APP_ID", chars_of("0"));
    push_env(&mut out, "STEAM_COMPAT_DATA_PATH", chars_of(prefix.as_str()));
    push_env(&mut out, "STEAM_COMPAT_INSTALL_PATH", chars_of(dir));
    push_env(&mut out, "STEAM_COMPAT_CLIENT_INSTALL_PATH", Vec::new());
    push_env(&mut out, "STEAM_COMPAT_TOOL_PATHS", chars_of(runner));
    push_env(&mut out, "STEAM_COMPAT_SHADER_PATH", with_suffix(prefix, "/shadercache"));
    push_env(&mut out, "WINEDLLOVERRIDES", chars_of("lsteamclient=d;KRSDKExternal.exe=d"));
    push_env(&mut out, "PROTONFIXES_DISABLE", chars_of("1"));
    push_env(&mut out, "PROTON_USE_XALIA", chars_of("0"));
    assert(pair_views(out@) =~= prefix_tool_env_of(prefix@, dir@, runner@));
    out
}

/// What can go wrong when a Wine program is opened in a prefix.
#[derive(Clone, Copy, Debug, PartialEq, Eq, Structural)]
pub enum ToolProblem {
    /// The prefix has not been created yet.
    PrefixNotInitialized,
    /// The install's runner is missing.
    RunnerNotFound,
    /// The program ended with a failure.
    ExecFailed,
    /// The program's state could not be read.
    ExecIncorrect,
    /// The program could not be started.
    ExecCritical,
}

/// What stops a Wine program from being opened in a prefix, if anything: a
/// missing runner first, then a prefix that has not been created.
pub fn tool_problem(runner_exists: bool, prefix_exists: bool) -> (r: Option<ToolProblem>)
    ensures
        !runner_exists ==> r == Some(ToolProblem::RunnerNotFound),
        runner_exists && !prefix_exists ==> r == Some(ToolProblem::PrefixNotInitialized),
        runner_exists && prefix_exists ==> r is None,
{
    if !runner_exists {
        Some(ToolProblem::RunnerNotFound)
    } else if !prefix_exists {
        Some(ToolProblem::PrefixNotInitialized)
    } else {
        None
    }
}

/// The name a prefix program's messages go under.
pub open spec fn tool_stem(t: PrefixTool) -> Seq<char> {
    match t {
        PrefixTool::Regedit => "regedit"@,
        PrefixTool::Control => "control"@,
        PrefixTool::Cmd => "cmd"@,
        PrefixTool::Winecfg => "winecfg"@,
    }
}

/// The last part of a problem's message.
pub open spec fn problem_suffix(p: ToolProblem) -> Seq<char> {
    match p {
        ToolProblem::PrefixNotInitialized => "prefix_not_initialized"@,
        ToolProblem::RunnerNotFound => "runner_not_found"@,
        ToolProblem::ExecFailed => "exec_failed"@,
        ToolProblem::ExecIncorrect => "exec_incorrect"@,
        ToolProblem::ExecCritical => "exec_critical"@,
    }
}

/// The message shown for a problem with a prefix program:
/// `dialogs.<program>_<problem>`.
pub open spec fn tool_message_of(t: PrefixTool, p: ToolProblem) -> Seq<char> {
    "dialogs."@ + tool_stem(t) + "_"@ + problem_suffix(p)
}

/// Gives the message shown for a problem with a prefix program.
pub fn tool_message(t: PrefixTool, p: ToolProblem) -> (r: String)
    ensures
        r@ == tool_message_of(t, p),
{
    let stem = match t {
        PrefixTool::Regedit => chars_of("regedit"),
        PrefixTool::Control => chars_of("control"),
        PrefixTool::Cmd => chars_of("cmd"),
        PrefixTool::Winecfg => chars_of("winecfg"),
    };
    let suffix = match p {
        ToolProblem::PrefixNotInitialized => chars_of("prefix_not_initialized"),
        ToolProblem::RunnerNotFound => chars_of("runner_not_found"),
        ToolProblem::ExecFailed => chars_of("exec_failed"),
        ToolProblem::ExecIncorrect => chars_of("exec_incorrect"),
        ToolProblem::ExecCritical => chars_of("exec_critical"),
    };
    let mut out = chars_of("dialogs.");
    extend(&mut out, stem.as_slice());
    out.push('_');
    extend(&mut out, suffix.as_slice());
    assert(out@ =~= "dialogs."@ + stem@ + "_"@ + suffix@) by {
        reveal_strlit("_");
    };
    string_from(out.as_slice())
}

/// A diagnostics run of a Steam Runtime: its folder, the program run in it,
/// the log file's name, and the messages for a failed run, a runtime that is
/// not downloaded and a log that cannot be shown.
pub struct Diagnostics {
    pub dir: String,
    pub run: String,
    pub log_name: String,
    pub failed: String,
    pub not_downloaded: String,
    pub log_open_failed: String,
}

/// The Steam Runtime a diagnostics request names (`steamrt3` or `steamrt4`).
pub open spec fn diagnosed_runtime(path_type: Seq<char>) -> bool {
    path_type == "steamrt3"@ || path_type == "steamrt4"@
}

/// Works out a diagnostics run of the Steam Runtime `path_type` under the
/// runners' folder; nothing for other requests.
pub fn diagnostics_target(path_type: &str, runner_root: &str) -> (r: Option<Diagnostics>)
    ensures
        r is Some <==> diagnosed_runtime(path_type@),
        r matches Some(d) ==> {
            let dir = crate::installs::path_join(runner_root@, "steamrt/"@ + path_type@ + "/"@);
            &&& d.dir@ == dir
            &&& d.run@ == crate::installs::path_join(dir, "run"@)
            &&& d.log_name@ == path_type@ + "_diagnostics.log"@
            &&& d.failed@ == "dialogs."@ + path_type@ + "_diagnostics_failed"@
            &&& d.not_downloaded@ == "dialogs."@ + path_type@ + "_not_downloaded_diag"@
            &&& d.log_open_failed@ == "dialogs."@ + path_type@ + "_log_open_failed"@
        },
{
    if !str_eq(path_type, "steamrt3") && !str_eq(path_type, "steamrt4") {
        return None;
    }
    let name = chars_of(path_type);
    let mut sub = chars_of("steamrt/");
    extend(&mut sub, name.as_slice());
    sub.push('/');
    assert(sub@ =~= "steamrt/"@ + path_type@ + "/"@) by {
        reveal_strlit("/");
    };
    let sub = string_from(sub.as_slice());
    let dir = crate::installs::join_path(runner_root, sub.as_str());
    let run = crate::installs::join_path(dir.as_str(), "run");
    let mut log = crate::text::copy_chars(name.as_slice());
    extend(&mut log, chars_of("_diagnostics.log").as_slice());
    let mut failed = chars_of("dialogs.");
    extend(&mut failed, name.as_slice());
    extend(&mut failed, chars_of("_diagnostics_failed").as_slice());
    let mut missing = chars_of("dialogs.");
    extend(&mut missing, name.as_slice());
    extend(&mut missing, chars_of("_not_downloaded_diag").as_slice());
    let mut open_failed = chars_of("dialogs.");
    extend(&mut open_failed, name.as_slice());
    extend(&mut open_failed, chars_of("_log_open_failed").as_slice());
    Some(
        Diagnostics {
            dir,
            run,
            log_name: string_from(log.as_slice()),
            failed: string_from(failed.as_slice()),
            not_downloaded: string_from(missing.as_slice()),
            log_open_failed: string_from(open_failed.as_slice()),
        },
    )
}

/// The messages shown when the diagnostics program could not be followed or
/// started.
pub fn diagnostics_exec_messages() -> (r: (&'static str, &'static str))
    ensures
        r.0@ == "dialogs.steamrt_diagnostics_exec_incorrect"@,
        r.1@ == "dialogs.steamrt_diagnostics_exec_critical"@,
{
    ("dialogs.steamrt_diagnostics_exec_incorrect", "dialogs.steamrt_diagnostics_exec_critical")
}

/// The command that runs the runtime's diagnostics.
pub fn diagnostics_command(steamrt: &str) -> (r: String)
    ensures
        r@ == seq!['\''] + steamrt@ + "' steam-runtime-system-info --verbose"@,
{
    let mut out: Vec<char> = Vec::new();
    out.push('\'');
    extend(&mut out, chars_of(steamrt).as_slice());
    extend(&mut out, chars_of("' steam-runtime-system-info --verbose").as_slice());
    assert(out@ =~= seq!['\''] + steamrt@ + "' steam-runtime-system-info --verbose"@);
    string_from(out.as_slice())
}

/// The folder an engine log is found under: the prefix's `LocalLow` for
/// most games, the game's folder for the one that logs there.
pub open spec fn engine_log_base_of(prefix: Seq<char>, game_dir: Seq<char>, biz: Seq<char>) -> Seq<char> {
    if biz != "wuwa_global"@ {
        crate::installs::path_join(prefix, "pfx/drive_c/users/steamuser/AppData/LocalLow/"@)
    } else {
        game_dir
    }
}

/// Works out the folder an engine log is found under.
pub fn engine_log_base(prefix: &str, game_dir: &str, biz: &str) -> (r: String)
    ensures
        r@ == engine_log_base_of(prefix@, game_dir@, biz@),
{
    if !str_eq(biz, "wuwa_global") {
        crate::installs::join_path(prefix, "pfx/drive_c/users/steamuser/AppData/LocalLow/")
    } else {
        owned(game_dir)
    }
}

// ---------------------------------------------------------------------------
// Winetricks
// ---------------------------------------------------------------------------

/// The command that installs the game's winetricks verbs into the prefix,
/// through the runtime and the runner, waiting until it is done.
pub open spec fn winetricks_command_of(c: LaunchContext, winetricks: Seq<char>, verbs: Seq<Seq<char>>) -> Seq<char> {
    seq!['\''] + c.steamrt@ + "' --verb=waitforexitandrun -- '"@ + c.reaper@ + "' SteamLaunch AppId="@
        + crate::text::decimal(c.appid as nat) + " -- '"@ + c.runner@ + seq!['/'] + c.wine64@
        + "' waitforexitandrun '"@ + winetricks + "' -q -f "@ + joined(verbs, ' ')
}

/// Builds the command that installs the game's winetricks verbs.
pub fn winetricks_command(c: &LaunchContext, winetricks: &str, verbs: &Vec<String>) -> (r: String)
    ensures
        r@ == winetricks_command_of(*c, winetricks@, verbs@.map_values(|v: String| v@)),
{
    let mut vs: Vec<Vec<char>> = Vec::new();
    let mut i: usize = 0;
    while i < verbs.len()
        invariant
            i <= verbs@.len(),
            char_views(vs@) == verbs@.map_values(|v: String| v@).take(i as int),
        decreases verbs.len() - i,
    {
        let ghost before = vs@;
        vs.push(chars_of(verbs[i].as_str()));
        assert(char_views(vs@) =~= char_views(before).push(verbs@[i as int]@));
        assert(verbs@.map_values(|v: String| v@).take(i + 1) =~= verbs@.map_values(|v: String| v@).take(
            i as int,
        ).push(verbs@[i as int]@));
        i = i + 1;
    }
    assert(verbs@.map_values(|v: String| v@).take(verbs@.len() as int) =~= verbs@.map_values(|v: String| v@));
    let mut out: Vec<char> = Vec::new();
    out.push('\'');
    extend(&mut out, chars_of(c.steamrt.as_str()).as_slice());
    extend(&mut out, chars_of("' --verb=waitforexitandrun -- '").as_slice());
    extend(&mut out, chars_of(c.reaper.as_str()).as_slice());
    extend(&mut out, chars_of("' SteamLaunch AppId=").as_slice());
    let ghost p1 = out@;
    crate::text::push_decimal(c.appid as u64, &mut out);
    extend(&mut out, chars_of(" -- '").as_slice());
    extend(&mut out, path_to(&c.runner, &c.wine64).as_slice());
    let ghost p2 = out@;
    extend(&mut out, chars_of("' waitforexitandrun '").as_slice());
    extend(&mut out, chars_of(winetricks).as_slice());
    extend(&mut out, chars_of("' -q -f ").as_slice());
    extend(&mut out, join_exec(&vs, ' ').as_slice());
    assert(p2 =~= p1 + (crate::text::decimal(c.appid as nat) + " -- '"@ + c.runner@ + seq!['/'] + c.wine64@));
    assert(out@ =~= p2 + ("' waitforexitandrun '"@ + winetricks@ + "' -q -f "@ + joined(
        verbs@.map_values(|v: String| v@),
        ' ',
    )));
    assert(out@ =~= winetricks_command_of(*c, winetricks@, verbs@.map_values(|v: String| v@)));
    string_from(out.as_slice())
}

/// The environment winetricks runs in: the runner's own Wine programs, an
/// unattended run with its download cache, the prefix, and the user's own
/// variables last.
pub open spec fn winetricks_env_of(runner: Seq<char>, prefix: Seq<char>, cache: Seq<char>, env_text: Seq<char>) -> Seq<(Seq<char>, Seq<char>)> {
    seq![
        ("WINE"@, runner + "/files/bin/wine64"@),
        ("WINESERVER"@, runner + "/files/bin/wineserver"@),
        ("WINE_BIN"@, runner + "/files/bin/wine64"@),
        ("WINESERVER_BIN"@, runner + "/files/bin/wineserver"@),
        ("WINEBOOT"@, runner + "/files/bin/wineboot"@),
        ("WINEBOOT_BIN"@, runner + "/files/bin/wineboot"@),
        ("W_OPT_UNATTENDED"@, "1"@),
        ("W_CACHE"@, cache),
        ("WINEARCH"@, "win64"@),
        ("WINEPREFIX"@, prefix + "/pfx"@),
        ("STEAM_COMPAT_DATA_PATH"@, prefix),
        ("STEAM_COMPAT_TOOL_PATHS"@, runner),
        ("STEAM_COMPAT_CLIENT_INSTALL_PATH"@, Seq::empty()),
        ("PROTONFIXES_DISABLE"@, "1"@),
        ("PROTON_USE_XALIA"@, "0"@),
        ("WINEDLLOVERRIDES"@, "lsteamclient=d;KRSDKExternal.exe=d"@),
        ("WINETRICKS_SUPER_QUIET"@, "1"@)
    ] + user_env(env_text)
}

/// Builds the environment winetricks runs in.
pub fn winetricks_env(runner: &String, prefix: &String, cache: &str, env_text: &str) -> (r: Vec<(String, String)>)
    ensures
        pair_views(r@) == winetricks_env_of(runner@, prefix@, cache@, env_text@),
{
    let mut out: Vec<(String, String)> = Vec::new();
    push_env(&mut out, "WINE", with_suffix(runner, "/files/bin/wine64"));
    push_env(&mut out, "WINESERVER", with_suffix(runner, "/files/bin/wineserver"));
    push_env(&mut out, "WINE_BIN", with_suffix(runner, "/files/bin/wine64"));
    push_env(&mut out, "WINESERVER_BIN", with_suffix(runner, "/files/bin/wineserver"));
    push_env(&mut out, "WINEBOOT", with_suffix(runner, "/files/bin/wineboot"));
    push_env(&mut out, "WINEBOOT_BIN", with_suffix(runner, "/files/bin/wineboot"));
    push_env(&mut out, "W_OPT_UNATTENDED", chars_of("1"));
    push_env(&mut out, "W_CACHE", chars_of(cache));
    push_env(&mut out, "WINEARCH", chars_of("win64"));
    push_env(&mut out, "WINEPREFIX", with_suffix(prefix, "/pfx"));
    push_env(&mut out, "STEAM_COMPAT_DATA_PATH", chars_of(prefix.as_str()));
    push_env(&mut out, "STEAM_COMPAT_TOOL_PATHS", chars_of(runner.as_str()));
    push_env(&mut out, "STEAM_COMPAT_CLIENT_INSTALL_PATH", Vec::new());
    push_env(&mut out, "PROTONFIXES_DISABLE", chars_of("1"));
    push_env(&mut out, "PROTON_USE_XALIA", chars_of("0"));
    push_env(&mut out, "WINEDLLOVERRIDES", chars_of("lsteamclient=d;KRSDKExternal.exe=d"));
    push_env(&mut out, "WINETRICKS_SUPER_QUIET", chars_of("1"));
    let ghost p0 = pair_views(out@);
    push_user_env(&mut out, env_text);
    assert(p0 =~= seq![
        ("WINE"@, runner@ + "/files/bin/wine64"@),
        ("WINESERVER"@, runner@ + "/files/bin/wineserver"@),
        ("WINE_BIN"@, runner@ + "/files/bin/wine64"@),
        ("WINESERVER_BIN"@, runner@ + "/files/bin/wineserver"@),
        ("WINEBOOT"@, runner@ + "/files/bin/wineboot"@),
        ("WINEBOOT_BIN"@, runner@ + "/files/bin/wineboot"@),
        ("W_OPT_UNATTENDED"@, "1"@),
        ("W_CACHE"@, cache@),
        ("WINEARCH"@, "win64"@),
        ("WINEPREFIX"@, prefix@ + "/pfx"@),
        ("STEAM_COMPAT_DATA_PATH"@, prefix@),
        ("STEAM_COMPAT_TOOL_PATHS"@, runner@),
        ("STEAM_COMPAT_CLIENT_INSTALL_PATH"@, Seq::<char>::empty()),
        ("PROTONFIXES_DISABLE"@, "1"@),
        ("PROTON_USE_XALIA"@, "0"@),
        ("WINEDLLOVERRIDES"@, "lsteamclient=d;KRSDKExternal.exe=d"@),
        ("WINETRICKS_SUPER_QUIET"@, "1"@)
    ]);
    assert(pair_views(out@) =~= winetricks_env_of(runner@, prefix@, cache@, env_text@));
    out
}

} // verus!
