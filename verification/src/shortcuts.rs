//! Shortcuts to an install: the desktop entry that starts it, the Steam
//! shortcut that stands for it, and the Steam user folders they go in.

use vstd::prelude::*;
use crate::text::{
    char_views, chars_of, extend, join_exec, joined, lines_exec, owned, starts_with, starts_with_exec, str_eq,
    string_from, text_lines,
};

verus! {

// ---------------------------------------------------------------------------
// Desktop entries
// ---------------------------------------------------------------------------

/// The command and icon a shortcut starts the launcher with: the Flatpak's
/// where the launcher runs as a Flatpak, the plain binary's otherwise.
pub open spec fn launcher_command(flatpak: bool) -> (Seq<char>, Seq<char>) {
    if flatpak {
        ("flatpak run app.twintaillauncher.ttl"@, "app.twintaillauncher.ttl"@)
    } else {
        ("twintaillauncher"@, "twintaillauncher"@)
    }
}

/// Picks the command and icon a shortcut starts the launcher with.
pub fn launcher_binary(flatpak: bool) -> (r: (String, String))
    ensures
        (r.0@, r.1@) == launcher_command(flatpak),
{
    if flatpak {
        (owned("flatpak run app.twintaillauncher.ttl"), owned("app.twintaillauncher.ttl"))
    } else {
        (owned("twintaillauncher"), owned("twintaillauncher"))
    }
}

/// The text of the desktop entry that starts an install.
pub open spec fn desktop_entry_of(bin: Seq<char>, install_id: Seq<char>, icon: Seq<char>, name: Seq<char>) -> Seq<char> {
    "[Desktop Entry]\nCategories=Game;\nComment=Launch this game using TwintailLauncher\nExec="@ + bin
        + " --install="@ + install_id + "\nIcon="@ + icon + "\nName="@ + name
        + "\nTerminal=false\nType=Application\n"@
}

/// Writes the desktop entry that starts an install.
pub fn desktop_entry(bin: &str, install_id: &str, icon: &str, name: &str) -> (r: String)
    ensures
        r@ == desktop_entry_of(bin@, install_id@, icon@, name@),
{
    let mut out = chars_of("[Desktop Entry]\nCategories=Game;\nComment=Launch this game using TwintailLauncher\nExec=");
    extend(&mut out, chars_of(bin).as_slice());
    extend(&mut out, chars_of(" --install=").as_slice());
    extend(&mut out, chars_of(install_id).as_slice());
    extend(&mut out, chars_of("\nIcon=").as_slice());
    extend(&mut out, chars_of(icon).as_slice());
    extend(&mut out, chars_of("\nName=").as_slice());
    extend(&mut out, chars_of(name).as_slice());
    extend(&mut out, chars_of("\nTerminal=false\nType=Application\n").as_slice());
    assert(out@ =~= desktop_entry_of(bin@, install_id@, icon@, name@));
    string_from(out.as_slice())
}

/// A desktop entry's line after a rename: a `Name=` line names the new
/// name, every other line stays.
pub open spec fn renamed_line(line: Seq<char>, new_name: Seq<char>) -> Seq<char> {
    if starts_with(line, "Name="@) {
        "Name="@ + new_name
    } else {
        line
    }
}

/// A desktop entry's text after a rename: its lines, each renamed, joined
/// with `\n`.
pub open spec fn renamed_entry(content: Seq<char>, new_name: Seq<char>) -> Seq<char> {
    joined(text_lines(content).map_values(|l: Seq<char>| renamed_line(l, new_name)), '\n')
}

/// Renames the install a desktop entry starts.
pub fn rename_desktop_entry(content: &str, new_name: &str) -> (r: String)
    ensures
        r@ == renamed_entry(content@, new_name@),
{
    let lines = lines_exec(chars_of(content).as_slice());
    let ghost ls = text_lines(content@);
    let prefix = chars_of("Name=");
    let mut out: Vec<Vec<char>> = Vec::new();
    let mut i: usize = 0;
    while i < lines.len()
        invariant
            i <= lines@.len(),
            char_views(lines@) == ls,
            prefix@ == "Name="@,
            char_views(out@) == ls.take(i as int).map_values(|l: Seq<char>| renamed_line(l, new_name@)),
        decreases lines.len() - i,
    {
        let ghost before = out@;
        assert(ls[i as int] == lines@[i as int]@);
        if starts_with_exec(lines[i].as_slice(), prefix.as_slice()) {
            let mut l = chars_of("Name=");
            extend(&mut l, chars_of(new_name).as_slice());
            out.push(l);
        } else {
            out.push(crate::text::copy_chars(lines[i].as_slice()));
        }
        assert(char_views(out@) =~= char_views(before).push(renamed_line(ls[i as int], new_name@)));
        i = i + 1;
        assert(ls.take(i as int).map_values(|l: Seq<char>| renamed_line(l, new_name@)) =~= ls.take(i - 1).map_values(
            |l: Seq<char>| renamed_line(l, new_name@),
        ).push(renamed_line(ls[i - 1], new_name@)));
    }
    assert(ls.take(lines@.len() as int) =~= ls);
    string_from(join_exec(&out, '\n').as_slice())
}

/// The file name of the desktop entry of an install named `name`.
pub fn desktop_file_name(name: &str) -> (r: String)
    ensures
        r@ == name@ + ".desktop"@,
{
    let mut out = chars_of(name);
    extend(&mut out, chars_of(".desktop").as_slice());
    string_from(out.as_slice())
}

// ---------------------------------------------------------------------------
// Steam shortcuts
// ---------------------------------------------------------------------------

/// The app id Steam gives a shortcut to the executable `exe` named `app_name`.
pub uninterp spec fn shortcut_app_id(exe: Seq<char>, app_name: Seq<char>) -> u32;

/// `steam_shortcuts_util::app_id_generator::calculate_app_id`: a CRC32
/// checksum of the executable's text followed by the name's, with the
/// highest bit set. Claimed: the result is `shortcut_app_id` of the two
/// texts, and its highest bit is set (the source ORs in `0x80000000`).
#[verifier::external_body]
fn calculate_app_id_of(exe: &str, app_name: &str) -> (r: u32)
    ensures
        r == shortcut_app_id(exe@, app_name@),
        r >= 0x8000_0000,
{
    steam_shortcuts_util::app_id_generator::calculate_app_id(exe, app_name)
}

/// The values of the Steam shortcut that starts an install.
pub struct SteamShortcutSpec {
    pub app_id: u32,
    pub app_name: String,
    pub exe: String,
    pub start_dir: String,
    pub icon: String,
    pub launch_options: String,
    pub tags: Vec<String>,
}

/// Works out the Steam shortcut that starts an install: its app id comes
/// from the game's executable and the install's name, it starts the launcher
/// (through its Flatpak where it runs as one) with the install's id, in the
/// install's folder, with the game's icon and the launcher's two tags.
pub fn steam_shortcut(
    game_exe: &str,
    install_id: &str,
    install_name: &str,
    directory: &str,
    icon: &str,
    flatpak: bool,
) -> (r: SteamShortcutSpec)
    ensures
        r.app_id == shortcut_app_id(game_exe@, install_name@),
        r.app_id >= 0x8000_0000,
        r.app_name@ == install_name@,
        r.exe@ == launcher_command(flatpak).0,
        r.start_dir@ == directory@,
        r.icon@ == icon@,
        r.launch_options@ == "--install="@ + install_id@,
        r.tags@.len() == 2 && r.tags@[0]@ == "twintaillauncher"@ && r.tags@[1]@ == "ttl"@,
{
    let app_id = calculate_app_id_of(game_exe, install_name);
    let (exe, _icon) = launcher_binary(flatpak);
    let mut opts = chars_of("--install=");
    extend(&mut opts, chars_of(install_id).as_slice());
    let mut tags: Vec<String> = Vec::new();
    tags.push(owned("twintaillauncher"));
    tags.push(owned("ttl"));
    SteamShortcutSpec {
        app_id,
        app_name: owned(install_name),
        exe,
        start_dir: owned(directory),
        icon: owned(icon),
        launch_options: string_from(opts.as_slice()),
        tags,
    }
}

/// Whether a folder of Steam's `userdata` is a real user's: not `0`, `ac`
/// or `anonymous`.
pub open spec fn is_user_folder(name: Seq<char>) -> bool {
    name != "0"@ && name != "ac"@ && name != "anonymous"@
}

/// The users' folders among `names`, in order.
pub open spec fn user_folders_of(names: Seq<Seq<char>>) -> Seq<Seq<char>>
    decreases names.len(),
{
    if names.len() == 0 {
        names
    } else if is_user_folder(names.last()) {
        user_folders_of(names.drop_last()).push(names.last())
    } else {
        user_folders_of(names.drop_last())
    }
}

/// The views of a list of strings.
pub open spec fn string_views(v: Seq<String>) -> Seq<Seq<char>> {
    v.map_values(|s: String| s@)
}

/// Keeps the users' folders among the folders of Steam's `userdata`.
pub fn steam_user_folders(names: &Vec<String>) -> (r: Vec<String>)
    ensures
        string_views(r@) == user_folders_of(string_views(names@)),
{
    let mut out: Vec<String> = Vec::new();
    let mut i: usize = 0;
    while i < names.len()
        invariant
            i <= names@.len(),
            string_views(out@) == user_folders_of(string_views(names@).take(i as int)),
        decreases names.len() - i,
    {
        assert(string_views(names@).take(i + 1).drop_last() =~= string_views(names@).take(i as int));
        assert(string_views(names@).take(i + 1).last() == names@[i as int]@);
        let n = names[i].as_str();
        if !str_eq(n, "0") && !str_eq(n, "ac") && !str_eq(n, "anonymous") {
            let ghost before = out@;
            out.push(names[i].clone());
            assert(string_views(out@) =~= string_views(before).push(names@[i as int]@));
        }
        i = i + 1;
    }
    assert(string_views(names@).take(names@.len() as int) =~= string_views(names@));
    out
}

/// The names of the shortcuts a `shortcuts.vdf` file holds, in order, or
/// `None` where the bytes are no such file.
pub uninterp spec fn shortcut_file_names(data: Seq<u8>) -> Option<Seq<Seq<char>>>;

/// `steam_shortcuts_util::parse_shortcuts`, keeping each shortcut's
/// `app_name`. Claimed: the result is `shortcut_file_names` of the bytes
/// (an error exactly where it is `None`); what the parser accepts is not
/// stated.
#[verifier::external_body]
fn parse_shortcut_names(data: &[u8]) -> (r: Result<Vec<String>, String>)
    ensures
        match r {
            Ok(v) => shortcut_file_names(data@) == Some(string_views(v@)),
            Err(_) => shortcut_file_names(data@) is None,
        },
{
    steam_shortcuts_util::parse_shortcuts(data).map(|v| v.iter().map(|s| s.app_name.to_string()).collect())
}

/// The first position at which `names` holds `name`.
pub open spec fn first_position(names: Seq<Seq<char>>, name: Seq<char>) -> Option<int> {
    if exists|i: int| 0 <= i < names.len() && names[i] == name {
        Some(choose|i: int| 0 <= i < names.len() && names[i] == name && forall|j: int| 0 <= j < i ==> names[j] != name)
    } else {
        None
    }
}

/// Where the shortcut named `app_name` stands in a `shortcuts.vdf` file:
/// `None` for bytes that are no such file, `Some(None)` when no shortcut has
/// that name, `Some(Some(i))` for the first that has it.
pub fn find_steam_shortcut(data: &[u8], app_name: &str) -> (r: Option<Option<usize>>)
    ensures
        r is None <==> shortcut_file_names(data@) is None,
        r matches Some(p) ==> (match p {
            Some(i) => first_position(shortcut_file_names(data@).unwrap(), app_name@) == Some(i as int),
            None => first_position(shortcut_file_names(data@).unwrap(), app_name@) is None,
        }),
{
    match parse_shortcut_names(data) {
        Err(_) => None,
        Ok(names) => {
            let ghost vs = string_views(names@);
            let mut i: usize = 0;
            while i < names.len()
                invariant
                    i <= names@.len(),
                    vs == string_views(names@),
                    shortcut_file_names(data@) == Some(vs),
                    forall|j: int| 0 <= j < i ==> vs[j] != app_name@,
                decreases names.len() - i,
            {
                assert(vs[i as int] == names@[i as int]@);
                if str_eq(names[i].as_str(), app_name) {
                    assert(first_position(vs, app_name@) == Some(i as int)) by {
                        let w = choose|k: int| 0 <= k < vs.len() && vs[k] == app_name@ && forall|j: int|
                            0 <= j < k ==> vs[j] != app_name@;
                        assert(0 <= i < vs.len() && vs[i as int] == app_name@ && forall|j: int|
                            0 <= j < i ==> vs[j] != app_name@);
                        if w < i {
                            assert(vs[w] != app_name@);
                        } else if w > i {
                            assert(vs[i as int] != app_name@);
                        }
                    };
                    return Some(Some(i));
                }
                i = i + 1;
            }
            Some(None)
        },
    }
}

} // verus!
