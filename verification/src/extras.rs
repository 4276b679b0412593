//! The optional tools a game can run with (the model injectors and the FPS
//! unlocker): where each lives, when it is installed or updated, how its
//! package is unpacked, and which shared libraries each injector links to.

use vstd::prelude::*;
use crate::installs::{join_path, path_join};
use crate::text::{ascii_lower, chars_of, contains, contains_exec, lower, owned, str_eq};
use crate::versions::{compare_version, version_lt};

verus! {

/// Whether a package is one game's model injector.
pub open spec fn is_injector(t: Seq<char>) -> bool {
    t == "gimi"@ || t == "srmi"@ || t == "zzmi"@ || t == "himi"@ || t == "wwmi"@ || t == "ssmi"@ || t == "efmi"@
}

/// Checks whether a package is one game's model injector.
pub fn injector_package(t: &str) -> (r: bool)
    ensures
        r == is_injector(t@),
{
    str_eq(t, "gimi") || str_eq(t, "srmi") || str_eq(t, "zzmi") || str_eq(t, "himi") || str_eq(t, "wwmi")
        || str_eq(t, "ssmi") || str_eq(t, "efmi")
}

/// Whether a tool keeps its version file at the top of its folder: the FPS
/// unlocker, the old anti-cheat shim and the injectors' shared loader.
pub open spec fn top_level_tool(id: Seq<char>, t: Seq<char>) -> bool {
    id == "keqingunlock"@ || id == "jadeite"@ || t == "xxmi"@
}

/// The folder a package is unpacked into: an injector's own folder under
/// the tools' folder, the tools' folder itself for the others. An update
/// unpacks into the tools' folder for the top-level tools and into the
/// package's own folder otherwise.
pub open spec fn package_dir_of(path: Seq<char>, id: Seq<char>, t: Seq<char>, update: bool) -> Seq<char> {
    if update {
        if top_level_tool(id, t) {
            path
        } else {
            path_join(path, t)
        }
    } else if is_injector(t) {
        path_join(path, t)
    } else {
        path
    }
}

/// Works out the folder a package is unpacked into.
pub fn package_dir(path: &str, id: &str, t: &str, update: bool) -> (r: String)
    ensures
        r@ == package_dir_of(path@, id@, t@, update),
{
    let top = str_eq(id, "keqingunlock") || str_eq(id, "jadeite") || str_eq(t, "xxmi");
    if update {
        if top {
            owned(path)
        } else {
            join_path(path, t)
        }
    } else if injector_package(t) {
        join_path(path, t)
    } else {
        owned(path)
    }
}

/// The file that records a tool's installed version.
pub open spec fn version_file_of(path: Seq<char>, id: Seq<char>, t: Seq<char>) -> Seq<char> {
    if top_level_tool(id, t) {
        path_join(path, "VERSION.txt"@)
    } else {
        path_join(path_join(path, t), "VERSION.txt"@)
    }
}

/// Works out the file that records a tool's installed version.
pub fn version_file(path: &str, id: &str, t: &str) -> (r: String)
    ensures
        r@ == version_file_of(path@, id@, t@),
{
    if str_eq(id, "keqingunlock") || str_eq(id, "jadeite") || str_eq(t, "xxmi") {
        join_path(path, "VERSION.txt")
    } else {
        let d = join_path(path, t);
        join_path(d.as_str(), "VERSION.txt")
    }
}

/// The name a tool's version file lists it under: its id for the FPS
/// unlocker and the anti-cheat shim, its package otherwise.
pub fn version_entry_name(id: &str, t: &str) -> (r: String)
    ensures
        r@ == (if id@ == "keqingunlock"@ || id@ == "jadeite"@ { id@ } else { t@ }),
{
    if str_eq(id, "keqingunlock") || str_eq(id, "jadeite") {
        owned(id)
    } else {
        owned(t)
    }
}

/// The first package of a tool's remote manifest whose name, in lower case,
/// names the package `t`.
pub open spec fn remote_package_of(names: Seq<Seq<char>>, t: Seq<char>) -> Option<int> {
    if exists|i: int| 0 <= i < names.len() && contains(lower(names[i]), t) {
        Some(choose|i: int| 0 <= i < names.len() && contains(lower(names[i]), t)
            && forall|j: int| 0 <= j < i ==> !contains(lower(names[j]), t))
    } else {
        None
    }
}

/// Finds the remote package that matches the package `t`.
pub fn remote_package(names: &Vec<String>, t: &str) -> (r: Option<usize>)
    ensures
        match r {
            Some(i) => remote_package_of(names@.map_values(|s: String| s@), t@) == Some(i as int),
            None => remote_package_of(names@.map_values(|s: String| s@), t@) is None,
        },
{
    let ghost ns = names@.map_values(|s: String| s@);
    let tv = chars_of(t);
    let mut i: usize = 0;
    while i < names.len()
        invariant
            i <= names@.len(),
            ns == names@.map_values(|s: String| s@),
            tv@ == t@,
            forall|j: int| 0 <= j < i ==> !contains(lower(ns[j]), t@),
        decreases names.len() - i,
    {
        assert(ns[i as int] == names@[i as int]@);
        let low = ascii_lower(chars_of(names[i].as_str()).as_slice());
        if contains_exec(low.as_slice(), tv.as_slice()) {
            assert(remote_package_of(ns, t@) == Some(i as int)) by {
                let w = choose|k: int| 0 <= k < ns.len() && contains(lower(ns[k]), t@)
                    && forall|j: int| 0 <= j < k ==> !contains(lower(ns[j]), t@);
                assert(0 <= i < ns.len() && contains(lower(ns[i as int]), t@)
                    && forall|j: int| 0 <= j < i ==> !contains(lower(ns[j]), t@));
                if w < i {
                    assert(!contains(lower(ns[w]), t@));
                } else if w > i {
                    assert(!contains(lower(ns[i as int]), t@));
                }
            };
            return Some(i);
        }
        i = i + 1;
    }
    None
}

/// Whether an installed version is older than the remote one.
pub fn needs_update(local: &str, remote: &str) -> (r: bool)
    ensures
        r == version_lt(local@, remote@),
{
    let o = compare_version(local, remote);
    match o {
        core::cmp::Ordering::Less => true,
        _ => false,
    }
}

/// How a package is unpacked: extracted from an archive unless it is the
/// FPS unlocker or the shared loader; appended into its folder where it is
/// an injector.
pub open spec fn unpack_flags_of(t: Seq<char>) -> (bool, bool) {
    (!(t == "keqing_unlock"@ || t == "xxmi"@), is_injector(t))
}

/// Works out how a package is unpacked.
pub fn unpack_flags(t: &str) -> (r: (bool, bool))
    ensures
        r == unpack_flags_of(t@),
{
    (!(str_eq(t, "keqing_unlock") || str_eq(t, "xxmi")), injector_package(t))
}

/// The injectors whose folders get links to the loader's shared libraries
/// after a package is set up: all but the newest for an update of the shared
/// loader, all of them for its first download, the injector itself for an
/// injector, none otherwise.
pub open spec fn linked_injectors_of(id: Seq<char>, t: Seq<char>, update: bool) -> Seq<Seq<char>> {
    if update && t == "xxmi"@ {
        seq!["gimi"@, "srmi"@, "zzmi"@, "wwmi"@, "himi"@]
    } else if !update && id == "xxmi"@ {
        seq!["gimi"@, "srmi"@, "zzmi"@, "wwmi"@, "himi"@, "efmi"@]
    } else if is_injector(t) {
        seq![t]
    } else {
        Seq::empty()
    }
}

/// Lists the injectors whose folders get links to the shared libraries.
pub fn linked_injectors(id: &str, t: &str, update: bool) -> (r: Vec<String>)
    ensures
        r@.map_values(|s: String| s@) == linked_injectors_of(id@, t@, update),
{
    let mut out: Vec<String> = Vec::new();
    if update && str_eq(t, "xxmi") {
        out.push(owned("gimi"));
        out.push(owned("srmi"));
        out.push(owned("zzmi"));
        out.push(owned("wwmi"));
        out.push(owned("himi"));
    } else if !update && str_eq(id, "xxmi") {
        out.push(owned("gimi"));
        out.push(owned("srmi"));
        out.push(owned("zzmi"));
        out.push(owned("wwmi"));
        out.push(owned("himi"));
        out.push(owned("efmi"));
    } else if injector_package(t) {
        out.push(owned(t));
    }
    assert(out@.map_values(|s: String| s@) =~= linked_injectors_of(id@, t@, update));
    out
}

/// One entry of a tool's folder: its name and whether it is a folder.
pub struct FolderEntry {
    pub name: String,
    pub is_dir: bool,
}

/// Whether a folder entry is the user's own data that a fresh download may
/// leave in place: mods, shader caches and the user's own settings.
pub open spec fn user_data(name: Seq<char>) -> bool {
    contains(name, "Mods"@) || contains(name, "ShaderCache"@) || name == "d3dx_user.ini"@
}

/// Whether a tool's folder counts as empty, so that the tool is downloaded:
/// for the shared loader, when it holds only the injectors' folders; for the
/// others, when it holds nothing but the user's own data.
pub open spec fn effectively_empty_of(t: Seq<char>, entries: Seq<FolderEntry>) -> bool {
    if t == "xxmi"@ {
        forall|i: int| 0 <= i < entries.len() ==> (#[trigger] entries[i]).is_dir && is_injector(entries[i].name@)
    } else {
        forall|i: int| 0 <= i < entries.len() ==> user_data((#[trigger] entries[i]).name@)
    }
}

/// Checks whether a tool's folder counts as empty.
pub fn effectively_empty(t: &str, entries: &Vec<FolderEntry>) -> (r: bool)
    ensures
        r == effectively_empty_of(t@, entries@),
{
    let loader = str_eq(t, "xxmi");
    let mut i: usize = 0;
    while i < entries.len()
        invariant
            i <= entries@.len(),
            loader == (t@ == "xxmi"@),
            loader ==> forall|j: int| 0 <= j < i ==> (#[trigger] entries@[j]).is_dir && is_injector(entries@[j].name@),
            !loader ==> forall|j: int| 0 <= j < i ==> user_data((#[trigger] entries@[j]).name@),
        decreases entries.len() - i,
    {
        let e = &entries[i];
        let ok = if loader {
            e.is_dir && injector_package(e.name.as_str())
        } else {
            let n = chars_of(e.name.as_str());
            contains_exec(n.as_slice(), chars_of("Mods").as_slice()) || contains_exec(
                n.as_slice(),
                chars_of("ShaderCache").as_slice(),
            ) || str_eq(e.name.as_str(), "d3dx_user.ini")
        };
        if !ok {
            return false;
        }
        i = i + 1;
    }
    true
}

/// What a periodic check does with one tool.
#[derive(Clone, Copy, Debug, PartialEq, Eq, Structural)]
pub enum ExtraCheck {
    /// The tool is installed: look for an update.
    Update,
    /// The folder holds files but no version record: empty it and download
    /// the tool again.
    Reinstall,
    /// The tool is not there: leave it.
    Nothing,
}

/// Decides what a periodic check does with one tool.
pub fn extra_check(version_file_exists: bool, dir_exists: bool, dir_has_entries: bool) -> (r: ExtraCheck)
    ensures
        version_file_exists ==> r == ExtraCheck::Update,
        !version_file_exists && dir_exists && dir_has_entries ==> r == ExtraCheck::Reinstall,
        !version_file_exists && !(dir_exists && dir_has_entries) ==> r == ExtraCheck::Nothing,
{
    if version_file_exists {
        ExtraCheck::Update
    } else if dir_exists && dir_has_entries {
        ExtraCheck::Reinstall
    } else {
        ExtraCheck::Nothing
    }
}

/// One tool a periodic check looks at.
pub struct ExtraTool {
    /// The tool's own folder.
    pub dir: String,
    /// The folder its package is handled from.
    pub base: String,
    pub package_id: String,
    pub package_type: String,
}

/// The tools a periodic check looks at, in order: the FPS unlocker, the
/// shared loader, then each game's injector.
pub open spec fn checked_tools_of(fps_path: Seq<char>, xxmi_path: Seq<char>) -> Seq<(Seq<char>, Seq<char>, Seq<char>, Seq<char>)> {
    let mi = |t: Seq<char>| (path_join(xxmi_path, t), xxmi_path, "xxmi"@, t);
    seq![
        (fps_path, fps_path, "keqingunlock"@, "keqing_unlock"@),
        (xxmi_path, xxmi_path, "xxmi"@, "xxmi"@),
        mi("gimi"@),
        mi("srmi"@),
        mi("zzmi"@),
        mi("himi"@),
        mi("wwmi"@),
        mi("efmi"@)
    ]
}

fn tool(dir: String, base: &str, id: &str, t: &str) -> (r: ExtraTool)
    ensures
        r.dir@ == dir@,
        r.base@ == base@,
        r.package_id@ == id@,
        r.package_type@ == t@,
{
    ExtraTool { dir, base: owned(base), package_id: owned(id), package_type: owned(t) }
}

/// Lists the tools a periodic check looks at.
pub fn checked_tools(fps_path: &str, xxmi_path: &str) -> (r: Vec<ExtraTool>)
    ensures
        r@.map_values(|e: ExtraTool| (e.dir@, e.base@, e.package_id@, e.package_type@)) == checked_tools_of(
            fps_path@,
            xxmi_path@,
        ),
{
    let mut out: Vec<ExtraTool> = Vec::new();
    out.push(tool(owned(fps_path), fps_path, "keqingunlock", "keqing_unlock"));
    out.push(tool(owned(xxmi_path), xxmi_path, "xxmi", "xxmi"));
    out.push(tool(join_path(xxmi_path, "gimi"), xxmi_path, "xxmi", "gimi"));
    out.push(tool(join_path(xxmi_path, "srmi"), xxmi_path, "xxmi", "srmi"));
    out.push(tool(join_path(xxmi_path, "zzmi"), xxmi_path, "xxmi", "zzmi"));
    out.push(tool(join_path(xxmi_path, "himi"), xxmi_path, "xxmi", "himi"));
    out.push(tool(join_path(xxmi_path, "wwmi"), xxmi_path, "xxmi", "wwmi"));
    out.push(tool(join_path(xxmi_path, "efmi"), xxmi_path, "xxmi", "efmi"));
    assert(out@.map_values(|e: ExtraTool| (e.dir@, e.base@, e.package_id@, e.package_type@)) =~= checked_tools_of(
        fps_path@,
        xxmi_path@,
    ));
    out
}

/// The tools an install can switch on.
#[derive(Clone, Copy, Debug, PartialEq, Eq, Structural)]
pub enum ToolSwitch {
    Jadeite,
    Xxmi,
    FpsUnlock,
}

/// The packages (tool, package) whose download switching a tool on
/// queues: the shim's pinned release; the model injector's loader and its
/// per-game packages; the FPS unlocker.
pub open spec fn switch_packages(s: ToolSwitch) -> Seq<(Seq<char>, Seq<char>)> {
    match s {
        ToolSwitch::Jadeite => seq![("jadeite"@, "v5.0.1-hotfix"@)],
        ToolSwitch::Xxmi => seq![
            ("xxmi"@, "xxmi"@),
            ("xxmi"@, "gimi"@),
            ("xxmi"@, "srmi"@),
            ("xxmi"@, "zzmi"@),
            ("xxmi"@, "himi"@),
            ("xxmi"@, "wwmi"@),
        ],
        ToolSwitch::FpsUnlock => seq![("keqingunlock"@, "keqing_unlock"@)],
    }
}

/// Lists the packages whose download a switch queues: those of the tool
/// when it is switched on (or, for the FPS unlocker, when its frame rate
/// changes while it is on), none otherwise.
pub fn packages_for_switch(s: ToolSwitch, on: bool) -> (r: Vec<(String, String)>)
    ensures
        on ==> r@.len() == switch_packages(s).len() && forall|i: int| 0 <= i < r@.len() ==> (#[trigger] r@[i]).0@
            == switch_packages(s)[i].0 && r@[i].1@ == switch_packages(s)[i].1,
        !on ==> r@.len() == 0,
{
    let mut r: Vec<(String, String)> = Vec::new();
    if !on {
        return r;
    }
    match s {
        ToolSwitch::Jadeite => {
            r.push((owned("jadeite"), owned("v5.0.1-hotfix")));
        },
        ToolSwitch::Xxmi => {
            r.push((owned("xxmi"), owned("xxmi")));
            r.push((owned("xxmi"), owned("gimi")));
            r.push((owned("xxmi"), owned("srmi")));
            r.push((owned("xxmi"), owned("zzmi")));
            r.push((owned("xxmi"), owned("himi")));
            r.push((owned("xxmi"), owned("wwmi")));
        },
        ToolSwitch::FpsUnlock => {
            r.push((owned("keqingunlock"), owned("keqing_unlock")));
        },
    }
    r
}

} // verus!
