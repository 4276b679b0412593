//! Adding, moving and removing installs: which requests are refused, where
//! an install's game, prefix and runner go, and what a removal deletes.

use vstd::prelude::*;
use crate::models::{RunnerVersion, RunnerPlatformUrls};
use crate::plan::opt_view;
use crate::text::{chars_of, extend, owned, str_eq, string_from};

verus! {

/// Unix path joining (`Path::join`): an absolute `p` replaces `base`;
/// otherwise `p` follows `base`, after a `/` where `base` is not empty and
/// does not end in one.
pub open spec fn path_join(base: Seq<char>, p: Seq<char>) -> Seq<char> {
    if p.len() > 0 && p[0] == '/' {
        p
    } else if base.len() == 0 || base.last() == '/' {
        base + p
    } else {
        base + seq!['/'] + p
    }
}

/// Joins two Unix paths.
pub fn join_path(base: &str, p: &str) -> (r: String)
    ensures
        r@ == path_join(base@, p@),
{
    let b = chars_of(base);
    let q = chars_of(p);
    if q.len() > 0 && q[0] == '/' {
        owned(p)
    } else if b.len() == 0 || b[b.len() - 1] == '/' {
        let mut out = b;
        extend(&mut out, q.as_slice());
        string_from(out.as_slice())
    } else {
        let mut out = b;
        out.push('/');
        extend(&mut out, q.as_slice());
        string_from(out.as_slice())
    }
}

/// What an add-install request answers.
pub struct AddInstallRsp {
    pub success: bool,
    pub install_id: String,
    pub background: String,
}

/// Whether an add-install request names everything an install needs: a
/// manifest, a version, a name, a folder, runner and DXVK paths, an icon
/// and a background.
pub open spec fn add_request_complete(fields: Seq<Seq<char>>) -> bool {
    forall|i: int| 0 <= i < fields.len() ==> (#[trigger] fields[i]).len() > 0
}

/// Checks that none of the required fields of an add-install request
/// (manifest id, version, name, folder, runner path, DXVK path, icon,
/// background, in any order) is empty.
pub fn add_request_ok(fields: &Vec<String>) -> (r: bool)
    ensures
        r == add_request_complete(fields@.map_values(|s: String| s@)),
{
    let mut i: usize = 0;
    while i < fields.len()
        invariant
            i <= fields@.len(),
            forall|j: int| 0 <= j < i ==> (#[trigger] fields@[j])@.len() > 0,
        decreases fields.len() - i,
    {
        if chars_of(fields[i].as_str()).len() == 0 {
            assert(fields@.map_values(|s: String| s@)[i as int].len() == 0);
            return false;
        }
        i = i + 1;
    }
    true
}

/// An install of the same game that the request could clash with: its
/// version and whether a download job for it is queued or running.
pub struct ExistingInstall {
    pub name: String,
    pub version: String,
    pub has_job: bool,
}

/// The first existing install of the requested version with a download job:
/// a new download of that version is refused while it exists.
pub open spec fn clashing_install(existing: Seq<ExistingInstall>, version: Seq<char>) -> Option<int> {
    if exists|i: int| 0 <= i < existing.len() && existing[i].version@ == version && existing[i].has_job {
        Some(choose|i: int| 0 <= i < existing.len() && existing[i].version@ == version && existing[i].has_job
            && forall|j: int| 0 <= j < i ==> !(existing[j].version@ == version && existing[j].has_job))
    } else {
        None
    }
}

/// Finds the install that blocks a new download of `version`, if any.
pub fn find_clashing_install(existing: &Vec<ExistingInstall>, version: &str) -> (r: Option<usize>)
    ensures
        match r {
            Some(i) => clashing_install(existing@, version@) == Some(i as int),
            None => clashing_install(existing@, version@) is None,
        },
{
    let mut i: usize = 0;
    while i < existing.len()
        invariant
            i <= existing@.len(),
            forall|j: int| 0 <= j < i ==> !(existing@[j].version@ == version@ && existing@[j].has_job),
        decreases existing.len() - i,
    {
        if existing[i].has_job && str_eq(existing[i].version.as_str(), version) {
            assert(clashing_install(existing@, version@) == Some(i as int)) by {
                let w = choose|k: int| 0 <= k < existing@.len() && existing@[k].version@ == version@ && existing@[k].has_job
                    && forall|j: int| 0 <= j < k ==> !(existing@[j].version@ == version@ && existing@[j].has_job);
                assert(0 <= i < existing@.len() && existing@[i as int].version@ == version@ && existing@[i as int].has_job
                    && forall|j: int| 0 <= j < i ==> !(existing@[j].version@ == version@ && existing@[j].has_job));
                if w < i {
                    assert(!(existing@[w].version@ == version@ && existing@[w].has_job));
                } else if w > i {
                    assert(!(existing@[i as int].version@ == version@ && existing@[i as int].has_job));
                }
            };
            return Some(i);
        }
        i = i + 1;
    }
    None
}

/// What an add-install request comes to before anything is written.
pub enum AddInstallDecision {
    /// A required field is empty: the request gets no answer.
    Invalid,
    /// An install of the requested version is already queued or being
    /// downloaded (the first such install): the request is refused.
    AlreadyQueued(usize),
    /// The install is made with these settings.
    Proceed(AddInstallPlan),
}

/// The settings a new install is made with.
pub struct AddInstallPlan {
    /// Whether an existing Steam copy of the game is imported.
    pub steam_import: bool,
    /// Whether the install ignores updates: a Steam import always does.
    pub ignore_updates: bool,
    /// Whether the install's runner is queued for download: only where the
    /// runner's manifest lists the version and its folder is still empty.
    pub download_runner: bool,
}

/// Whether a new install imports a Steam copy of the game: only where the
/// game supports Steam imports, the game is not downloaded but taken from
/// its folder, and one of the files that a Steam copy has (each named only
/// where the game names it) is there.
pub open spec fn is_steam_import(
    enabled: bool,
    skip_game_dl: bool,
    steam_api_dll: Seq<char>,
    dll_exists: bool,
    steam_appid_txt: Seq<char>,
    appid_exists: bool,
) -> bool {
    enabled && skip_game_dl && ((steam_api_dll.len() > 0 && dll_exists) || (steam_appid_txt.len() > 0
        && appid_exists))
}

/// Decides an add-install request: no answer where a required field is
/// empty; a refusal where the game is to be downloaded and an install of the
/// same version already has a download job; otherwise the install's settings.
/// `existing` lists the installs of the same game, `dll_exists` and
/// `appid_exists` tell whether the Steam files are in the chosen folder,
/// `runner_listed` whether the runner's manifest lists the runner version and
/// `runner_dir_empty` whether the runner's folder is empty or unreadable.
pub fn decide_add_install(
    fields: &Vec<String>,
    version: &str,
    skip_game_dl: bool,
    existing: &Vec<ExistingInstall>,
    ignore_updates: bool,
    steam_import_enabled: bool,
    steam_api_dll: &str,
    dll_exists: bool,
    steam_appid_txt: &str,
    appid_exists: bool,
    runner_listed: bool,
    runner_dir_empty: bool,
) -> (r: AddInstallDecision)
    ensures
        match r {
            AddInstallDecision::Invalid => !add_request_complete(fields@.map_values(|s: String| s@)),
            AddInstallDecision::AlreadyQueued(i) => {
                &&& add_request_complete(fields@.map_values(|s: String| s@))
                &&& !skip_game_dl
                &&& clashing_install(existing@, version@) == Some(i as int)
            },
            AddInstallDecision::Proceed(p) => {
                &&& add_request_complete(fields@.map_values(|s: String| s@))
                &&& (skip_game_dl || clashing_install(existing@, version@) is None)
                &&& p.steam_import == is_steam_import(
                    steam_import_enabled,
                    skip_game_dl,
                    steam_api_dll@,
                    dll_exists,
                    steam_appid_txt@,
                    appid_exists,
                )
                &&& p.ignore_updates == (ignore_updates || p.steam_import)
                &&& p.download_runner == (runner_listed && runner_dir_empty)
            },
        },
{
    if !add_request_ok(fields) {
        return AddInstallDecision::Invalid;
    }
    if !skip_game_dl {
        match find_clashing_install(existing, version) {
            Some(i) => {
                return AddInstallDecision::AlreadyQueued(i);
            },
            None => {},
        }
    }
    let dll_named = chars_of(steam_api_dll).len() > 0;
    let appid_named = chars_of(steam_appid_txt).len() > 0;
    let steam_import = steam_import_enabled && skip_game_dl && ((dll_named && dll_exists) || (appid_named
        && appid_exists));
    AddInstallDecision::Proceed(
        AddInstallPlan {
            steam_import,
            ignore_updates: ignore_updates || steam_import,
            download_runner: runner_listed && runner_dir_empty,
        },
    )
}

/// The background a new install shows: the version's still background or,
/// where `live_backgrounds` is set, its live background where it has a
/// non-empty one.
pub open spec fn new_install_background(still: Seq<char>, live: Option<Seq<char>>, live_backgrounds: bool) -> Seq<char> {
    if live_backgrounds {
        match live {
            Some(l) => if l.len() > 0 { l } else { still },
            None => still,
        }
    } else {
        still
    }
}

/// The answer to an add-install request that got past `decide_add_install`:
/// where the install's folder could be made (`created`), success with the
/// new install's id and background; otherwise a failure with both empty.
pub fn add_install_answer(
    created: bool,
    install_id: String,
    still: &String,
    live: &Option<String>,
    live_backgrounds: bool,
) -> (r: AddInstallRsp)
    ensures
        r.success == created,
        created ==> r.install_id@ == install_id@ && r.background@ == new_install_background(
            still@,
            opt_view(*live),
            live_backgrounds,
        ),
        !created ==> r.install_id@.len() == 0 && r.background@.len() == 0,
{
    if !created {
        return refused_answer();
    }
    let background = if live_backgrounds {
        match live {
            Some(l) => if chars_of(l.as_str()).len() > 0 {
                l.clone()
            } else {
                still.clone()
            },
            None => still.clone(),
        }
    } else {
        still.clone()
    };
    AddInstallRsp { success: true, install_id, background }
}

/// The answer to a refused add-install request: a failure with an empty id
/// and background.
pub fn refused_answer() -> (r: AddInstallRsp)
    ensures
        !r.success,
        r.install_id@.len() == 0,
        r.background@.len() == 0,
{
    AddInstallRsp { success: false, install_id: String::new(), background: String::new() }
}

/// Where a new install's pieces go.
pub struct InstallLocations {
    /// The game's folder.
    pub directory: String,
    /// The Wine prefix.
    pub runner_prefix: String,
    /// The runner's folder.
    pub runner_path: String,
    /// The runner version whose files the install needs (the game's
    /// required one where it overrides the choice).
    pub runner_version: String,
    /// The DXVK folder.
    pub dxvk_path: String,
}

/// The places of a new install with id `id`. The game goes in its own
/// folder under the chosen one, unless an existing game is imported in
/// place; the prefix goes in its own folder under the chosen prefix folder,
/// and the game inside the prefix's `Program Files` where the game asks to be
/// installed there; the runner is the game's required one where it overrides
/// the choice.
pub open spec fn install_locations_of(
    id: Seq<char>,
    directory: Seq<char>,
    prefix_root: Seq<char>,
    runner_root: Seq<char>,
    dxvk_root: Seq<char>,
    runner_version: Seq<char>,
    dxvk_version: Seq<char>,
    import_existing: bool,
    install_to_prefix: bool,
    override_runner: Option<Seq<char>>,
) -> (Seq<char>, Seq<char>, Seq<char>, Seq<char>, Seq<char>) {
    let prefix = path_join(prefix_root, id);
    let game = if install_to_prefix {
        path_join(path_join(path_join(path_join(prefix, "pfx"@), "drive_c"@), "Program Files"@), id)
    } else if import_existing {
        directory
    } else {
        path_join(directory, id)
    };
    let runner = match override_runner {
        Some(v) => v,
        None => runner_version,
    };
    (game, prefix, path_join(runner_root, runner), runner, path_join(dxvk_root, dxvk_version))
}

/// Works out where a new install's pieces go.
pub fn install_locations(
    id: &str,
    directory: &str,
    prefix_root: &str,
    runner_root: &str,
    dxvk_root: &str,
    runner_version: &str,
    dxvk_version: &str,
    import_existing: bool,
    install_to_prefix: bool,
    override_runner: Option<&str>,
) -> (r: InstallLocations)
    ensures
        (r.directory@, r.runner_prefix@, r.runner_path@, r.runner_version@, r.dxvk_path@) == install_locations_of(
            id@,
            directory@,
            prefix_root@,
            runner_root@,
            dxvk_root@,
            runner_version@,
            dxvk_version@,
            import_existing,
            install_to_prefix,
            match override_runner {
                Some(v) => Some(v@),
                None => None,
            },
        ),
{
    let prefix = join_path(prefix_root, id);
    let game = if install_to_prefix {
        let a = join_path(prefix.as_str(), "pfx");
        let b = join_path(a.as_str(), "drive_c");
        let c = join_path(b.as_str(), "Program Files");
        join_path(c.as_str(), id)
    } else if import_existing {
        owned(directory)
    } else {
        join_path(directory, id)
    };
    let runner = match override_runner {
        Some(v) => owned(v),
        None => owned(runner_version),
    };
    let runner_path = join_path(runner_root, runner.as_str());
    let dxvk_path = join_path(dxvk_root, dxvk_version);
    InstallLocations { directory: game, runner_prefix: prefix, runner_path, runner_version: runner, dxvk_path }
}

/// The first of a runner's versions named `wanted`.
pub fn pick_runner_version(versions: &Vec<RunnerVersion>, wanted: &str) -> (r: Option<usize>)
    ensures
        r matches Some(i) ==> i < versions@.len() && versions@[i as int].version@ == wanted@
            && forall|j: int| 0 <= j < i ==> versions@[j].version@ != wanted@,
        r is None ==> forall|j: int| 0 <= j < versions@.len() ==> versions@[j].version@ != wanted@,
{
    let mut i: usize = 0;
    while i < versions.len()
        invariant
            i <= versions@.len(),
            forall|j: int| 0 <= j < i ==> versions@[j].version@ != wanted@,
        decreases versions.len() - i,
    {
        if str_eq(versions[i].version.as_str(), wanted) {
            return Some(i);
        }
        i = i + 1;
    }
    None
}

/// The address a runner version is downloaded from on a machine: its
/// generic address, unless it lists per-architecture ones; then the x86-64
/// one, or on ARM the ARM one where it is not empty.
pub open spec fn runner_url_for(url: Seq<char>, urls: Option<RunnerPlatformUrls>, aarch64: bool) -> Seq<char> {
    match urls {
        None => url,
        Some(u) => if !aarch64 {
            u.x86_64@
        } else if u.aarch64@.len() == 0 {
            url
        } else {
            u.aarch64@
        },
    }
}

/// Picks the address a runner version is downloaded from.
pub fn runner_download_url(v: &RunnerVersion, aarch64: bool) -> (r: String)
    ensures
        r@ == runner_url_for(v.url@, v.urls, aarch64),
{
    match &v.urls {
        None => v.url.clone(),
        Some(u) => if !aarch64 {
            u.x86_64.clone()
        } else if chars_of(u.aarch64.as_str()).len() == 0 {
            v.url.clone()
        } else {
            u.aarch64.clone()
        },
    }
}

/// What removing an install deletes.
#[derive(Clone, Copy, Debug, PartialEq, Eq, Structural)]
pub struct RemovalPlan {
    /// Whether the Wine prefix is deleted.
    pub wipe_prefix: bool,
    /// Whether the game's folder is deleted.
    pub delete_game: bool,
}

/// Decides what removing an install deletes: the prefix where the user asks;
/// the game's files unless the user keeps them or the game was imported
/// from Steam.
pub fn removal_plan(wipe_prefix: bool, keep_game_data: bool, steam_imported: bool) -> (r: RemovalPlan)
    ensures
        r.wipe_prefix == wipe_prefix,
        r.delete_game == (!keep_game_data && !steam_imported),
{
    RemovalPlan { wipe_prefix, delete_game: !keep_game_data && !steam_imported }
}

/// Whether moving an install's folder copies the old files over: only from
/// a folder that has files into one that is empty.
pub fn moves_files(old_exists: bool, old_has_files: bool, new_is_empty: bool) -> (r: bool)
    ensures
        r == (old_exists && old_has_files && new_is_empty),
{
    old_exists && old_has_files && new_is_empty
}

} // verus!
