//! Runners: which compatibility manifest a runner version belongs to, and
//! the ids new installs are given.

use vstd::prelude::*;
use crate::installs::{install_locations, install_locations_of, join_path, path_join, InstallLocations};
use crate::text::{chars_of, contains, contains_exec, owned, str_eq};

verus! {

/// The lower-case form of a text, as Unicode defines it.
pub uninterp spec fn unicode_lowercase(s: Seq<char>) -> Seq<char>;

/// `str::to_lowercase`. Claimed: the result is `unicode_lowercase` of the
/// text; the Unicode case mapping itself is not stated.
#[verifier::external_body]
fn lowercase(s: &str) -> (r: String)
    ensures
        r@ == unicode_lowercase(s@),
{
    s.to_lowercase()
}

/// The manifest a runner version's name points to, from the family names it
/// contains (checked in this order); the CachyOS Proton manifest when it
/// names none.
pub open spec fn family_manifest_of(low: Seq<char>) -> Seq<char> {
    if contains(low, "proton-cachyos"@) {
        "proton_cachyos.json"@
    } else if contains(low, "proton-ge"@) || contains(low, "ge-proton"@) {
        "proton_ge.json"@
    } else if contains(low, "proton-twintail"@) {
        "proton_twintail.json"@
    } else if contains(low, "proton-umu"@) {
        "proton_umu.json"@
    } else if contains(low, "proton-vanilla"@) {
        "proton_vanilla.json"@
    } else if contains(low, "proton-em"@) {
        "proton_em.json"@
    } else if contains(low, "wine-staging-tkg"@) {
        "wine_staging_tkg.json"@
    } else if contains(low, "wine-staging"@) {
        "wine_staging.json"@
    } else if contains(low, "wine-ge-proton"@) {
        "wine_ge_proton.json"@
    } else if contains(low, "wine-vaniglia"@) {
        "wine_vaniglia.json"@
    } else if contains(low, "wine-vanilla"@) {
        "wine_vanilla.json"@
    } else if contains(low, "wine-soda"@) {
        "wine_soda.json"@
    } else if contains(low, "wine-lutris"@) {
        "wine_lutris.json"@
    } else if contains(low, "wine-caffe"@) {
        "wine_caffe.json"@
    } else if contains(low, "gplasync"@) {
        "dxvk_gplasync.json"@
    } else if contains(low, "async"@) {
        "dxvk_async.json"@
    } else if contains(low, "vanilla"@) {
        "dxvk_vanilla.json"@
    } else {
        "proton_cachyos.json"@
    }
}

fn has(low: &Vec<char>, pat: &str) -> (r: bool)
    ensures
        r == contains(low@, pat@),
{
    contains_exec(low.as_slice(), chars_of(pat).as_slice())
}

fn family_manifest(low: &Vec<char>) -> (r: String)
    ensures
        r@ == family_manifest_of(low@),
{
    if has(low, "proton-cachyos") {
        owned("proton_cachyos.json")
    } else if has(low, "proton-ge") || has(low, "ge-proton") {
        owned("proton_ge.json")
    } else if has(low, "proton-twintail") {
        owned("proton_twintail.json")
    } else if has(low, "proton-umu") {
        owned("proton_umu.json")
    } else if has(low, "proton-vanilla") {
        owned("proton_vanilla.json")
    } else if has(low, "proton-em") {
        owned("proton_em.json")
    } else if has(low, "wine-staging-tkg") {
        owned("wine_staging_tkg.json")
    } else if has(low, "wine-staging") {
        owned("wine_staging.json")
    } else if has(low, "wine-ge-proton") {
        owned("wine_ge_proton.json")
    } else if has(low, "wine-vaniglia") {
        owned("wine_vaniglia.json")
    } else if has(low, "wine-vanilla") {
        owned("wine_vanilla.json")
    } else if has(low, "wine-soda") {
        owned("wine_soda.json")
    } else if has(low, "wine-lutris") {
        owned("wine_lutris.json")
    } else if has(low, "wine-caffe") {
        owned("wine_caffe.json")
    } else if has(low, "gplasync") {
        owned("dxvk_gplasync.json")
    } else if has(low, "async") {
        owned("dxvk_async.json")
    } else if has(low, "vanilla") {
        owned("dxvk_vanilla.json")
    } else {
        owned("proton_cachyos.json")
    }
}

/// The first entry that lists the version `v`.
pub open spec fn first_listing(entries: Seq<(Seq<char>, Seq<Seq<char>>)>, v: Seq<char>) -> Option<int> {
    if exists|i: int| 0 <= i < entries.len() && entries[i].1.contains(v) {
        Some(choose|i: int| 0 <= i < entries.len() && entries[i].1.contains(v)
            && forall|k: int| 0 <= k < i ==> !(#[trigger] entries[k]).1.contains(v))
    } else {
        None
    }
}

/// The compatibility manifest a runner version belongs to: none for an empty
/// version; the first loaded manifest (in load order) that lists it; else
/// the one its name points to.
pub open spec fn runner_manifest_of(entries: Seq<(Seq<char>, Seq<Seq<char>>)>, v: Seq<char>) -> Option<Seq<char>> {
    if v.len() == 0 {
        None
    } else {
        match first_listing(entries, v) {
            Some(i) => Some(entries[i].0),
            None => Some(family_manifest_of(unicode_lowercase(v))),
        }
    }
}

fn lists_version_exec(versions: &Vec<String>, v: &str) -> (r: bool)
    ensures
        r == versions@.map_values(|s: String| s@).contains(v@),
{
    let ghost vs = versions@.map_values(|s: String| s@);
    let mut j: usize = 0;
    while j < versions.len()
        invariant
            j <= versions@.len(),
            vs == versions@.map_values(|s: String| s@),
            forall|k: int| 0 <= k < j ==> vs[k] != v@,
        decreases versions.len() - j,
    {
        assert(vs[j as int] == versions@[j as int]@);
        if str_eq(versions[j].as_str(), v) {
            return true;
        }
        j = j + 1;
    }
    false
}

/// The views of loaded manifest entries: each file name with the names of
/// the versions its manifest lists.
pub open spec fn entry_views(entries: Seq<(String, Vec<String>)>) -> Seq<(Seq<char>, Seq<Seq<char>>)> {
    entries.map_values(|e: (String, Vec<String>)| (e.0@, e.1@.map_values(|s: String| s@)))
}

/// Finds the compatibility manifest (by file name) of a runner version; the
/// loaded manifests are given in load order, each by its file name and the
/// names of the versions it lists.
pub fn runner_from_runner_version(entries: &Vec<(String, Vec<String>)>, runner_version: &str) -> (r: Option<String>)
    ensures
        match r {
            Some(f) => runner_manifest_of(entry_views(entries@), runner_version@) == Some(f@),
            None => runner_manifest_of(entry_views(entries@), runner_version@) is None,
        },
{
    if chars_of(runner_version).len() == 0 {
        return None;
    }
    let ghost es = entry_views(entries@);
    let mut i: usize = 0;
    while i < entries.len()
        invariant
            i <= entries@.len(),
            runner_version@.len() > 0,
            es == entry_views(entries@),
            forall|k: int| 0 <= k < i ==> !(#[trigger] es[k]).1.contains(runner_version@),
        decreases entries.len() - i,
    {
        assert(es[i as int] == (entries@[i as int].0@, entries@[i as int].1@.map_values(|s: String| s@)));
        if lists_version_exec(&entries[i].1, runner_version) {
            assert(first_listing(es, runner_version@) == Some(i as int)) by {
                let w = choose|k: int| 0 <= k < es.len() && es[k].1.contains(runner_version@)
                    && forall|j: int| 0 <= j < k ==> !(#[trigger] es[j]).1.contains(runner_version@);
                assert(0 <= i < es.len() && es[i as int].1.contains(runner_version@)
                    && forall|j: int| 0 <= j < i ==> !(#[trigger] es[j]).1.contains(runner_version@));
                if w < i {
                    assert(!es[w].1.contains(runner_version@));
                } else if w > i {
                    assert(!es[i as int].1.contains(runner_version@));
                }
            };
            return Some(entries[i].0.clone());
        }
        i = i + 1;
    }
    let low = chars_of(lowercase(runner_version).as_str());
    Some(family_manifest(&low))
}

/// An install's runner: the install's id, its runner version and the
/// runner's folder.
pub struct InstallRunner {
    pub id: String,
    pub runner_version: String,
    pub runner_path: String,
}

/// An install moved to another runner version: its id, the new version and
/// the new runner folder.
pub struct RunnerMove {
    pub install_id: String,
    pub runner_version: String,
    pub runner_path: String,
}

/// The moves, in install order, of the installs whose runner belongs to the
/// manifest `removed` (a manifest that is no longer published) to the
/// runner version `replacement`: each keeps its runner folder with its old
/// version's name replaced by the new one.
pub open spec fn moves_off(
    installs: Seq<InstallRunner>,
    entries: Seq<(Seq<char>, Seq<Seq<char>>)>,
    removed: Seq<char>,
    replacement: Seq<char>,
) -> Seq<(Seq<char>, Seq<char>, Seq<char>)>
    decreases installs.len(),
{
    if installs.len() == 0 {
        Seq::empty()
    } else {
        let rest = moves_off(installs.drop_last(), entries, removed, replacement);
        let i = installs.last();
        if runner_manifest_of(entries, i.runner_version@) == Some(removed) {
            rest.push(
                (i.id@, replacement, crate::text::replaced(i.runner_path@, i.runner_version@, replacement)),
            )
        } else {
            rest
        }
    }
}

/// The views of runner moves.
pub open spec fn move_views(m: Seq<RunnerMove>) -> Seq<(Seq<char>, Seq<char>, Seq<char>)> {
    m.map_values(|x: RunnerMove| (x.install_id@, x.runner_version@, x.runner_path@))
}

/// Works out which installs move off a manifest that is no longer published,
/// and where to. Every install has a runner version here.
pub fn runner_moves(
    installs: &Vec<InstallRunner>,
    entries: &Vec<(String, Vec<String>)>,
    removed: &str,
    replacement: &str,
) -> (r: Vec<RunnerMove>)
    requires
        forall|k: int| 0 <= k < installs@.len() ==> (#[trigger] installs@[k]).runner_version@.len() > 0,
    ensures
        move_views(r@) == moves_off(installs@, entry_views(entries@), removed@, replacement@),
{
    let mut out: Vec<RunnerMove> = Vec::new();
    let mut i: usize = 0;
    while i < installs.len()
        invariant
            i <= installs@.len(),
            move_views(out@) == moves_off(installs@.take(i as int), entry_views(entries@), removed@, replacement@),
        decreases installs.len() - i,
    {
        assert(installs@.take(i + 1).drop_last() =~= installs@.take(i as int));
        let inst = &installs[i];
        let manifest = runner_from_runner_version(entries, inst.runner_version.as_str());
        let on_removed = match manifest {
            Some(m) => str_eq(m.as_str(), removed),
            None => false,
        };
        if on_removed {
            let path = crate::session::switched_runner_path(
                inst.runner_path.as_str(),
                inst.runner_version.as_str(),
                replacement,
            );
            let ghost before = out@;
            out.push(RunnerMove { install_id: inst.id.clone(), runner_version: owned(replacement), runner_path: path });
            assert(move_views(out@) =~= move_views(before).push(
                (inst.id@, replacement@, crate::text::replaced(inst.runner_path@, inst.runner_version@, replacement@)),
            ));
        }
        i = i + 1;
    }
    assert(installs@.take(installs@.len() as int) =~= installs@);
    out
}

/// An installed runner as the launcher records it: its version, its folder
/// and whether it is installed.
pub struct RunnerRecord {
    pub version: String,
    pub runner_path: String,
    pub is_installed: bool,
}

/// The first runner that is installed.
pub open spec fn first_installed(runners: Seq<RunnerRecord>) -> Option<int> {
    if exists|i: int| 0 <= i < runners.len() && (#[trigger] runners[i]).is_installed {
        Some(choose|i: int| 0 <= i < runners.len() && (#[trigger] runners[i]).is_installed
            && forall|k: int| 0 <= k < i ==> !(#[trigger] runners[k]).is_installed)
    } else {
        None
    }
}

/// Some install uses the runner version `v`.
pub open spec fn some_install_uses(installs: Seq<InstallRunner>, v: Seq<char>) -> bool {
    exists|k: int| 0 <= k < installs.len() && (#[trigger] installs[k]).runner_version@ == v
}

/// After the runner version `removed` is deleted, the installs that used it
/// (in install order) move to the first runner still installed, taking its
/// version and folder.
pub open spec fn fallbacks_of(installs: Seq<InstallRunner>, removed: Seq<char>, to: RunnerRecord) -> Seq<(Seq<char>, Seq<char>, Seq<char>)>
    decreases installs.len(),
{
    if installs.len() == 0 {
        Seq::empty()
    } else {
        let rest = fallbacks_of(installs.drop_last(), removed, to);
        if installs.last().runner_version@ == removed {
            rest.push((installs.last().id@, to.version@, to.runner_path@))
        } else {
            rest
        }
    }
}

proof fn lemma_fallbacks_empty(installs: Seq<InstallRunner>, removed: Seq<char>, to: RunnerRecord)
    requires
        !some_install_uses(installs, removed),
    ensures
        fallbacks_of(installs, removed, to) == Seq::<(Seq<char>, Seq<char>, Seq<char>)>::empty(),
    decreases installs.len(),
{
    if installs.len() > 0 {
        assert(!some_install_uses(installs.drop_last(), removed)) by {
            if some_install_uses(installs.drop_last(), removed) {
                let k = choose|k: int| 0 <= k < installs.drop_last().len() && (#[trigger] installs.drop_last()[k]).runner_version@ == removed;
                assert(installs[k] == installs.drop_last()[k]);
            }
        };
        assert(installs[installs.len() - 1] == installs.last());
        lemma_fallbacks_empty(installs.drop_last(), removed, to);
    }
}

/// Works out where the installs that used a deleted runner version move. A
/// runner must still be installed where some install used the deleted one.
pub fn runner_fallbacks(installs: &Vec<InstallRunner>, removed: &str, runners: &Vec<RunnerRecord>) -> (r: Vec<RunnerMove>)
    requires
        some_install_uses(installs@, removed@) ==> first_installed(runners@) is Some,
    ensures
        some_install_uses(installs@, removed@) ==> move_views(r@) == fallbacks_of(
            installs@,
            removed@,
            runners@[first_installed(runners@)->0],
        ),
        !some_install_uses(installs@, removed@) ==> r@.len() == 0,
{
    let mut first: Option<usize> = None;
    let mut j: usize = 0;
    while j < runners.len()
        invariant
            j <= runners@.len(),
            first matches Some(f) ==> f < j && runners@[f as int].is_installed && forall|k: int| 0 <= k < f ==> !(#[trigger] runners@[k]).is_installed,
            first is None ==> forall|k: int| 0 <= k < j ==> !(#[trigger] runners@[k]).is_installed,
        decreases runners.len() - j,
    {
        if first.is_none() && runners[j].is_installed {
            first = Some(j);
        }
        j = j + 1;
    }
    proof {
        match first {
            Some(f) => {
                let w = first_installed(runners@)->0;
                assert(runners@[f as int].is_installed);
                assert(first_installed(runners@) is Some);
                if w < f {
                    assert(!runners@[w].is_installed);
                } else if w > f {
                    assert(!runners@[f as int].is_installed);
                }
                assert(w == f);
            },
            None => {
                assert(first_installed(runners@) is None);
            },
        }
    }
    let mut out: Vec<RunnerMove> = Vec::new();
    match first {
        None => {
            proof {
                assert(!some_install_uses(installs@, removed@));
            }
            out
        },
        Some(f) => {
            let to = &runners[f];
            let mut i: usize = 0;
            while i < installs.len()
                invariant
                    i <= installs@.len(),
                    f < runners@.len(),
                    *to == runners@[f as int],
                    move_views(out@) == fallbacks_of(installs@.take(i as int), removed@, *to),
                decreases installs.len() - i,
            {
                assert(installs@.take(i + 1).drop_last() =~= installs@.take(i as int));
                if str_eq(installs[i].runner_version.as_str(), removed) {
                    let ghost before = out@;
                    out.push(
                        RunnerMove {
                            install_id: installs[i].id.clone(),
                            runner_version: to.version.clone(),
                            runner_path: to.runner_path.clone(),
                        },
                    );
                    assert(move_views(out@) =~= move_views(before).push((installs@[i as int].id@, to.version@, to.runner_path@)));
                }
                i = i + 1;
            }
            assert(installs@.take(installs@.len() as int) =~= installs@);
            proof {
                if !some_install_uses(installs@, removed@) {
                    lemma_fallbacks_empty(installs@, removed@, *to);
                }
            }
            out
        },
    }
}

/// What adding a runner version does.
#[derive(Clone, Copy, Debug, PartialEq, Eq, Structural)]
pub enum AddRunner {
    /// The request names no version or no download: nothing happens.
    Refused,
    /// The version's folder holds files: the user is told it is installed.
    AlreadyInstalled,
    /// A download of the version waits in the queue: the user is warned.
    AlreadyQueued,
    /// The version is downloaded into its folder through the queue.
    Download,
}

/// The decision for a request to add a runner version: refused without a
/// version or a download link; else, where the version's folder holds files,
/// it is installed; else, where the queue holds a job for it, it is queued;
/// else it is downloaded.
pub open spec fn add_runner_of(url: Seq<char>, version: Seq<char>, folder_empty: bool, queued: bool) -> AddRunner {
    if url.len() == 0 || version.len() == 0 {
        AddRunner::Refused
    } else if !folder_empty {
        AddRunner::AlreadyInstalled
    } else if queued {
        AddRunner::AlreadyQueued
    } else {
        AddRunner::Download
    }
}

/// Decides what a request to add a runner version does.
pub fn add_runner_decision(url: &str, version: &str, folder_empty: bool, queued: bool) -> (r: AddRunner)
    ensures
        r == add_runner_of(url@, version@, folder_empty, queued),
{
    if chars_of(url).len() == 0 || chars_of(version).len() == 0 {
        AddRunner::Refused
    } else if !folder_empty {
        AddRunner::AlreadyInstalled
    } else if queued {
        AddRunner::AlreadyQueued
    } else {
        AddRunner::Download
    }
}

/// `cuid2::create_id`: a new collision-resistant id. Claimed, of every id:
/// it has between 2 and 24 characters, starts with a lower-case letter and
/// holds only digits and lower-case letters (the source puts a random letter
/// before at most 23 base-36 digits of a hash). Which id comes out rests on
/// chance and the time, and is not stated.
#[verifier::external_body]
pub fn generate_cuid() -> (r: String)
    ensures
        2 <= r@.len() <= 24,
        'a' <= r@[0] <= 'z',
        forall|i: int| 0 <= i < r@.len() ==> ('a' <= #[trigger] r@[i] <= 'z') || ('0' <= r@[i] <= '9'),
{
    cuid2::create_id()
}

/// A new install's id and the places of its pieces, which all hang off that
/// id (see `install_locations`).
pub fn new_install_locations(
    directory: &str,
    prefix_root: &str,
    runner_root: &str,
    dxvk_root: &str,
    runner_version: &str,
    dxvk_version: &str,
    import_existing: bool,
    install_to_prefix: bool,
    override_runner: Option<&str>,
) -> (r: (String, InstallLocations))
    ensures
        2 <= r.0@.len() <= 24,
        (r.1.directory@, r.1.runner_prefix@, r.1.runner_path@, r.1.runner_version@, r.1.dxvk_path@) == install_locations_of(
            r.0@,
            directory@,
            prefix_root@,
            runner_root@,
            dxvk_root@,
            runner_version@,
            dxvk_version@,
            import_existing,
            install_to_prefix,
            match override_runner {
                Some(v) => Some(v@),
                None => None,
            },
        ),
{
    let id = generate_cuid();
    let locations = install_locations(
        id.as_str(),
        directory,
        prefix_root,
        runner_root,
        dxvk_root,
        runner_version,
        dxvk_version,
        import_existing,
        install_to_prefix,
        override_runner,
    );
    (id, locations)
}

/// The launcher's default folders under its data folder `base`.
pub struct DefaultPaths {
    pub games: String,
    pub xxmi: String,
    pub fps_unlock: String,
    pub jadeite: String,
    pub compatibility: String,
    pub runners: String,
    pub dxvk: String,
    pub prefixes: String,
    pub steamrt: String,
    pub steamrt3: String,
    pub steamrt4: String,
}

/// Works out the launcher's default folders: games, the tools under
/// `extras`, and the runners, DXVK builds, prefixes and runtimes under
/// `compatibility`.
pub fn default_paths(base: &str) -> (r: DefaultPaths)
    ensures
        r.games@ == path_join(base@, "games"@),
        r.xxmi@ == path_join(path_join(base@, "extras"@), "xxmi"@),
        r.fps_unlock@ == path_join(path_join(base@, "extras"@), "fps_unlock"@),
        r.jadeite@ == path_join(path_join(base@, "extras"@), "jadeite"@),
        r.compatibility@ == path_join(base@, "compatibility"@),
        r.runners@ == path_join(r.compatibility@, "runners"@),
        r.dxvk@ == path_join(r.compatibility@, "dxvk"@),
        r.prefixes@ == path_join(r.compatibility@, "prefixes"@),
        r.steamrt@ == path_join(r.runners@, "steamrt"@),
        r.steamrt3@ == path_join(r.steamrt@, "steamrt3"@),
        r.steamrt4@ == path_join(r.steamrt@, "steamrt4"@),
{
    let extras = join_path(base, "extras");
    let compatibility = join_path(base, "compatibility");
    let runners = join_path(compatibility.as_str(), "runners");
    let steamrt = join_path(runners.as_str(), "steamrt");
    DefaultPaths {
        games: join_path(base, "games"),
        xxmi: join_path(extras.as_str(), "xxmi"),
        fps_unlock: join_path(extras.as_str(), "fps_unlock"),
        jadeite: join_path(extras.as_str(), "jadeite"),
        dxvk: join_path(compatibility.as_str(), "dxvk"),
        prefixes: join_path(compatibility.as_str(), "prefixes"),
        steamrt3: join_path(steamrt.as_str(), "steamrt3"),
        steamrt4: join_path(steamrt.as_str(), "steamrt4"),
        steamrt,
        runners,
        compatibility,
    }
}

/// The entries of the runtimes' folder that are left from older layouts:
/// everything but `steamrt3` and `steamrt4`, in order.
pub open spec fn stale_runtime_entries_of(names: Seq<Seq<char>>) -> Seq<Seq<char>>
    decreases names.len(),
{
    if names.len() == 0 {
        names
    } else if names.last() != "steamrt3"@ && names.last() != "steamrt4"@ {
        stale_runtime_entries_of(names.drop_last()).push(names.last())
    } else {
        stale_runtime_entries_of(names.drop_last())
    }
}

/// Lists the entries of the runtimes' folder that are removed.
pub fn stale_runtime_entries(names: &Vec<String>) -> (r: Vec<String>)
    ensures
        r@.map_values(|s: String| s@) == stale_runtime_entries_of(names@.map_values(|s: String| s@)),
{
    let ghost ns = names@.map_values(|s: String| s@);
    let mut out: Vec<String> = Vec::new();
    let mut i: usize = 0;
    while i < names.len()
        invariant
            i <= names@.len(),
            ns == names@.map_values(|s: String| s@),
            out@.map_values(|s: String| s@) == stale_runtime_entries_of(ns.take(i as int)),
        decreases names.len() - i,
    {
        assert(ns.take(i + 1).drop_last() =~= ns.take(i as int));
        assert(ns.take(i + 1).last() == names@[i as int]@);
        if !str_eq(names[i].as_str(), "steamrt3") && !str_eq(names[i].as_str(), "steamrt4") {
            let ghost before = out@;
            out.push(names[i].clone());
            assert(out@.map_values(|s: String| s@) =~= before.map_values(|s: String| s@).push(names@[i as int]@));
        }
        i = i + 1;
    }
    assert(ns.take(names@.len() as int) =~= ns);
    out
}

/// The runner versions that installs need and that are not installed, each
/// once, in the order the installs name them (empty ones skipped).
pub open spec fn runners_to_fetch_of(wanted: Seq<(Seq<char>, bool)>) -> Seq<Seq<char>>
    decreases wanted.len(),
{
    if wanted.len() == 0 {
        Seq::empty()
    } else {
        let rest = runners_to_fetch_of(wanted.drop_last());
        let (v, installed) = wanted.last();
        if v.len() == 0 || installed || rest.contains(v) {
            rest
        } else {
            rest.push(v)
        }
    }
}

/// Lists the runner versions to download again: `wanted` holds, for each
/// install in order, its runner version and whether that version is
/// installed.
pub fn runners_to_fetch(wanted: &Vec<(String, bool)>) -> (r: Vec<String>)
    ensures
        r@.map_values(|s: String| s@) == runners_to_fetch_of(wanted@.map_values(|p: (String, bool)| (p.0@, p.1))),
{
    let ghost ws = wanted@.map_values(|p: (String, bool)| (p.0@, p.1));
    let mut out: Vec<String> = Vec::new();
    let mut i: usize = 0;
    while i < wanted.len()
        invariant
            i <= wanted@.len(),
            ws == wanted@.map_values(|p: (String, bool)| (p.0@, p.1)),
            out@.map_values(|s: String| s@) == runners_to_fetch_of(ws.take(i as int)),
        decreases wanted.len() - i,
    {
        assert(ws.take(i + 1).drop_last() =~= ws.take(i as int));
        assert(ws.take(i + 1).last() == (wanted@[i as int].0@, wanted@[i as int].1));
        let ghost rest = out@.map_values(|s: String| s@);
        let v = &wanted[i].0;
        let mut seen = false;
        let mut j: usize = 0;
        while j < out.len()
            invariant
                j <= out@.len(),
                rest == out@.map_values(|s: String| s@),
                seen == (exists|k: int| 0 <= k < j && rest[k] == v@),
            decreases out.len() - j,
        {
            if str_eq(out[j].as_str(), v.as_str()) {
                seen = true;
            }
            assert(rest[j as int] == out@[j as int]@);
            j = j + 1;
        }
        assert(seen == rest.contains(v@));
        if chars_of(v.as_str()).len() > 0 && !wanted[i].1 && !seen {
            out.push(v.clone());
            assert(out@.map_values(|s: String| s@) =~= rest.push(v@));
        }
        i = i + 1;
    }
    assert(ws.take(wanted@.len() as int) =~= ws);
    out
}

} // verus!
