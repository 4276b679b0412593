//! Which file the launcher shows in the system's file manager when asked to
//! open one of an install's folders, and what it says when that file is
//! missing.

use vstd::prelude::*;
use crate::installs::{join_path, path_join};
use crate::text::str_eq;

verus! {

/// The folders the launcher can open.
#[derive(Clone, Copy, Debug, PartialEq, Eq, Structural)]
pub enum FolderKind {
    /// The injector's folder for the game, at its settings file.
    Mods,
    /// The game's folder, at its executable.
    Install,
    /// The install's runner, at its `proton` script.
    Runner,
    /// An installed runner chosen by version, at its `proton` script.
    RunnerGlobal,
    /// The install's prefix, at its `version` file.
    RunnerPrefix,
    /// The folder of the game's engine log, at the log.
    EngineLog,
}

/// The folder named by a request's path type.
pub open spec fn folder_kind_of(t: Seq<char>) -> Option<FolderKind> {
    if t == "mods"@ {
        Some(FolderKind::Mods)
    } else if t == "install"@ {
        Some(FolderKind::Install)
    } else if t == "runner"@ {
        Some(FolderKind::Runner)
    } else if t == "runner_global"@ {
        Some(FolderKind::RunnerGlobal)
    } else if t == "runner_prefix"@ {
        Some(FolderKind::RunnerPrefix)
    } else if t == "engine_log"@ {
        Some(FolderKind::EngineLog)
    } else {
        None
    }
}

/// Reads a request's path type; other types open nothing.
pub fn folder_kind(path_type: &str) -> (r: Option<FolderKind>)
    ensures
        r == folder_kind_of(path_type@),
{
    if str_eq(path_type, "mods") {
        Some(FolderKind::Mods)
    } else if str_eq(path_type, "install") {
        Some(FolderKind::Install)
    } else if str_eq(path_type, "runner") {
        Some(FolderKind::Runner)
    } else if str_eq(path_type, "runner_global") {
        Some(FolderKind::RunnerGlobal)
    } else if str_eq(path_type, "runner_prefix") {
        Some(FolderKind::RunnerPrefix)
    } else if str_eq(path_type, "engine_log") {
        Some(FolderKind::EngineLog)
    } else {
        None
    }
}

/// The file shown for a folder: below `base` (the injectors' folder, the
/// game's folder, the runner, the prefix or the engine log's folder), `item`
/// being the game's injector package for `Mods`, the executable for
/// `Install` and the log's relative path for `EngineLog`.
pub open spec fn reveal_target_of(kind: FolderKind, base: Seq<char>, item: Seq<char>) -> Seq<char> {
    match kind {
        FolderKind::Mods => path_join(path_join(base, item), "d3dx.ini"@),
        FolderKind::Install => path_join(base, item),
        FolderKind::Runner => path_join(base, "proton"@),
        FolderKind::RunnerGlobal => path_join(base, "proton"@),
        FolderKind::RunnerPrefix => path_join(base, "version"@),
        FolderKind::EngineLog => path_join(base, item),
    }
}

/// Works out the file shown for a folder.
pub fn reveal_target(kind: FolderKind, base: &str, item: &str) -> (r: String)
    ensures
        r@ == reveal_target_of(kind, base@, item@),
{
    match kind {
        FolderKind::Mods => {
            let dir = join_path(base, item);
            join_path(dir.as_str(), "d3dx.ini")
        },
        FolderKind::Install => join_path(base, item),
        FolderKind::Runner => join_path(base, "proton"),
        FolderKind::RunnerGlobal => join_path(base, "proton"),
        FolderKind::RunnerPrefix => join_path(base, "version"),
        FolderKind::EngineLog => join_path(base, item),
    }
}

/// The message shown when the file to show for a folder does not exist.
pub open spec fn missing_message_of(kind: FolderKind) -> Seq<char> {
    match kind {
        FolderKind::Mods => "dialogs.xxmi_folder_not_found"@,
        FolderKind::Install => "dialogs.game_dir_open_failed"@,
        FolderKind::Runner => "dialogs.runner_dir_open_failed"@,
        FolderKind::RunnerGlobal => "dialogs.runner_dir_open_failed"@,
        FolderKind::RunnerPrefix => "dialogs.prefix_dir_open_failed"@,
        FolderKind::EngineLog => "dialogs.engine_log_dir_open_failed"@,
    }
}

/// Gives the message shown when the file to show for a folder does not
/// exist. The engine log's folder lies in the prefix, so a missing prefix
/// is reported with the prefix's message before the log is looked for.
pub fn missing_message(kind: FolderKind) -> (r: &'static str)
    ensures
        r@ == missing_message_of(kind),
{
    match kind {
        FolderKind::Mods => "dialogs.xxmi_folder_not_found",
        FolderKind::Install => "dialogs.game_dir_open_failed",
        FolderKind::Runner => "dialogs.runner_dir_open_failed",
        FolderKind::RunnerGlobal => "dialogs.runner_dir_open_failed",
        FolderKind::RunnerPrefix => "dialogs.prefix_dir_open_failed",
        FolderKind::EngineLog => "dialogs.engine_log_dir_open_failed",
    }
}

/// The message shown when the file manager could not show a file.
pub fn open_failed_message() -> (r: &'static str)
    ensures
        r@ == "dialogs.directory_open_failed"@,
{
    "dialogs.directory_open_failed"
}

/// One folder that a repair request empties: the folder, the message when
/// it does not exist, the message when emptying it fails, and the message,
/// if any, when it was emptied.
pub struct EmptyStep {
    pub path: String,
    pub missing: String,
    pub failed: String,
    pub done: Option<String>,
}

/// The folders a repair request empties, in order, with their messages, and
/// the message shown after all of them: the install's prefix for
/// `runner_prefix`; both Steam Runtime folders under the runners' folder
/// for `steamrt`, then a prompt to restart; nothing otherwise.
pub open spec fn empty_plan_of(path_type: Seq<char>, prefix: Seq<char>, runner_root: Seq<char>) -> (
    Seq<(Seq<char>, Seq<char>, Seq<char>, Option<Seq<char>>)>,
    Option<Seq<char>>,
) {
    if path_type == "runner_prefix"@ {
        (
            seq![
                (prefix, "dialogs.prefix_not_initialized"@, "dialogs.prefix_repair_failed"@, Some(
                    "dialogs.prefix_repair_queued"@,
                )),
            ],
            None,
        )
    } else if path_type == "steamrt"@ {
        (
            seq![
                (path_join(runner_root, "steamrt/steamrt3/"@), "dialogs.steamrt3_not_downloaded"@,
                "dialogs.steamrt3_repair_failed"@, None),
                (path_join(runner_root, "steamrt/steamrt4/"@), "dialogs.steamrt4_not_downloaded"@,
                "dialogs.steamrt4_repair_failed"@, None),
            ],
            Some("dialogs.steamrt_repair_restart"@),
        )
    } else {
        (Seq::empty(), None)
    }
}

/// The views of the steps of a repair request.
pub open spec fn step_views(s: Seq<EmptyStep>) -> Seq<(Seq<char>, Seq<char>, Seq<char>, Option<Seq<char>>)> {
    s.map_values(|e: EmptyStep| (e.path@, e.missing@, e.failed@, match e.done {
        Some(d) => Some(d@),
        None => None,
    }))
}

/// Works out which folders a repair request empties.
pub fn empty_plan(path_type: &str, prefix: &str, runner_root: &str) -> (r: (Vec<EmptyStep>, Option<String>))
    ensures
        step_views(r.0@) == empty_plan_of(path_type@, prefix@, runner_root@).0,
        (match r.1 {
            Some(m) => Some(m@),
            None => None,
        }) == empty_plan_of(path_type@, prefix@, runner_root@).1,
{
    let mut steps: Vec<EmptyStep> = Vec::new();
    if str_eq(path_type, "runner_prefix") {
        steps.push(
            EmptyStep {
                path: crate::text::owned(prefix),
                missing: crate::text::owned("dialogs.prefix_not_initialized"),
                failed: crate::text::owned("dialogs.prefix_repair_failed"),
                done: Some(crate::text::owned("dialogs.prefix_repair_queued")),
            },
        );
        assert(step_views(steps@) =~= empty_plan_of(path_type@, prefix@, runner_root@).0);
        (steps, None)
    } else if str_eq(path_type, "steamrt") {
        steps.push(
            EmptyStep {
                path: join_path(runner_root, "steamrt/steamrt3/"),
                missing: crate::text::owned("dialogs.steamrt3_not_downloaded"),
                failed: crate::text::owned("dialogs.steamrt3_repair_failed"),
                done: None,
            },
        );
        steps.push(
            EmptyStep {
                path: join_path(runner_root, "steamrt/steamrt4/"),
                missing: crate::text::owned("dialogs.steamrt4_not_downloaded"),
                failed: crate::text::owned("dialogs.steamrt4_repair_failed"),
                done: None,
            },
        );
        assert(step_views(steps@) =~= empty_plan_of(path_type@, prefix@, runner_root@).0);
        (steps, Some(crate::text::owned("dialogs.steamrt_repair_restart")))
    } else {
        assert(step_views(steps@) =~= empty_plan_of(path_type@, prefix@, runner_root@).0);
        (steps, None)
    }
}

} // verus!
