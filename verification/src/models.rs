//! The launcher's data: settings, repositories, installs, runners and the
//! game and runner manifests, as plain values.

use vstd::prelude::*;

verus! {

/// Tweaks applied to an XXMI configuration.
#[derive(Clone, Debug)]
pub struct XXMISettings {
    pub hunting_mode: u64,
    pub require_admin: bool,
    pub dll_init_delay: u64,
    pub close_delay: u64,
    pub show_warnings: u64,
    pub dump_shaders: bool,
}

/// The launcher's settings.
#[derive(Clone, Debug)]
pub struct GlobalSettings {
    pub default_game_path: String,
    pub xxmi_path: String,
    pub fps_unlock_path: String,
    pub jadeite_path: String,
    pub third_party_repo_updates: i32,
    pub default_runner_prefix_path: String,
    pub launcher_action: String,
    pub hide_manifests: bool,
    pub default_runner_path: String,
    pub default_dxvk_path: String,
    pub default_mangohud_config_path: String,
}

/// What a manifest repository lists.
#[derive(Clone, Debug)]
pub struct RepositoryManifest {
    pub name: String,
    pub description: String,
    pub maintainers: Vec<String>,
    pub manifests: Vec<String>,
}

/// A manifest repository known to the launcher.
#[derive(Clone, Debug)]
pub struct LauncherRepository {
    pub id: String,
    pub github_id: String,
}

/// A manifest known to the launcher.
#[derive(Clone, Debug)]
pub struct LauncherManifest {
    pub id: String,
    pub repository_id: String,
    pub display_name: String,
    pub filename: String,
    pub enabled: bool,
}

/// One game install.
#[derive(Clone, Debug)]
pub struct LauncherInstall {
    pub id: String,
    pub manifest_id: String,
    pub version: String,
    pub audio_langs: String,
    pub name: String,
    pub directory: String,
    pub runner_path: String,
    pub dxvk_path: String,
    pub runner_version: String,
    pub dxvk_version: String,
    pub game_icon: String,
    pub game_background: String,
    pub ignore_updates: bool,
    pub skip_hash_check: bool,
    pub use_jadeite: bool,
    pub use_xxmi: bool,
    pub use_fps_unlock: bool,
    pub env_vars: String,
    pub pre_launch_command: String,
    pub launch_command: String,
    pub fps_value: String,
    pub runner_prefix: String,
    pub launch_args: String,
    pub use_gamemode: bool,
    pub use_mangohud: bool,
    pub mangohud_config_path: String,
    pub shortcut_is_steam: bool,
    pub shortcut_path: String,
    pub region_code: String,
    pub xxmi_config: XXMISettings,
}

/// One compatibility runner known to the launcher.
#[derive(Clone, Debug)]
pub struct LauncherRunner {
    pub id: i64,
    pub runner_path: String,
    pub is_installed: bool,
    pub version: String,
    pub value: String,
    pub name: String,
}

/// A runner manifest: the versions of one runner family.
#[derive(Clone, Debug)]
pub struct RunnerManifest {
    pub version: i32,
    pub display_name: String,
    pub versions: Vec<RunnerVersion>,
    pub paths: RunnerPaths,
}

/// Download links of a runner version per architecture.
#[derive(Debug)]
pub struct RunnerPlatformUrls {
    pub x86_64: String,
    pub aarch64: String,
}

impl Clone for RunnerPlatformUrls {
    fn clone(&self) -> (r: Self)
        ensures
            r == *self,
    {
        RunnerPlatformUrls {
            x86_64: self.x86_64.clone(),
            aarch64: self.aarch64.clone(),
        }
    }
}

/// One version of a runner.
#[derive(Debug)]
pub struct RunnerVersion {
    pub version: String,
    pub url: String,
    pub urls: Option<RunnerPlatformUrls>,
}

impl Clone for RunnerVersion {
    fn clone(&self) -> (r: Self)
        ensures
            r == *self,
    {
        RunnerVersion {
            version: self.version.clone(),
            url: self.url.clone(),
            urls: match &self.urls {
                Some(u) => Some(u.clone()),
                None => None,
            },
        }
    }
}

/// Where a runner keeps its programs.
#[derive(Clone, Debug)]
pub struct RunnerPaths {
    pub wine32: String,
    pub wine64: String,
    pub wine_server: String,
    pub wine_boot: String,
}

/// A game manifest.
#[derive(Clone, Debug)]
pub struct GameManifest {
    pub version: i32,
    pub display_name: String,
    pub biz: String,
    pub latest_version: String,
    pub game_versions: Vec<GameVersion>,
    pub telemetry_hosts: Vec<String>,
    pub paths: GamePaths,
    pub assets: VersionAssets,
    pub extra: GameExtras,
}

/// One version of a game.
#[derive(Clone, Debug)]
pub struct GameVersion {
    pub metadata: VersionMetadata,
    pub assets: VersionAssets,
    pub game: VersionGameFiles,
    pub audio: VersionAudioFiles,
}

/// Where a game keeps its files.
#[derive(Clone, Debug)]
pub struct GamePaths {
    pub audio_pkg_res_dir: String,
    pub exe_filename: String,
    pub installation_dir: String,
    pub screenshot_dir: String,
    pub screenshot_dir_relative_to: String,
}

/// What identifies a game version and how to download it.
#[derive(Clone, Debug)]
pub struct VersionMetadata {
    pub versioned_name: String,
    pub version: String,
    pub download_mode: String,
    pub game_hash: String,
    pub index_file: String,
    pub res_list_url: String,
    pub diff_list_url: DiffUrls,
}

/// Links to the lists of changed files of a version.
#[derive(Clone, Debug)]
pub struct DiffUrls {
    pub game: String,
    pub en_us: String,
    pub zh_cn: String,
    pub ja_jp: String,
    pub ko_kr: String,
}

/// The pictures of a game version.
#[derive(Debug)]
pub struct VersionAssets {
    pub game_icon: String,
    pub game_background: String,
    pub game_live_background: Option<String>,
}

impl Clone for VersionAssets {
    fn clone(&self) -> (r: Self)
        ensures
            r == *self,
    {
        VersionAssets {
            game_icon: self.game_icon.clone(),
            game_background: self.game_background.clone(),
            game_live_background: crate::payload::copy_opt_string(&self.game_live_background),
        }
    }
}

/// The game files of a version: full downloads and patches.
#[derive(Clone, Debug)]
pub struct VersionGameFiles {
    pub full: Vec<FullGameFile>,
    pub diff: Vec<DiffGameFile>,
}

/// One full download of a game version.
#[derive(Debug)]
pub struct FullGameFile {
    pub file_url: String,
    pub compressed_size: String,
    pub decompressed_size: String,
    pub file_hash: String,
    pub file_path: String,
    pub region_code: Option<String>,
}

impl Clone for FullGameFile {
    fn clone(&self) -> (r: Self)
        ensures
            r == *self,
    {
        FullGameFile {
            file_url: self.file_url.clone(),
            compressed_size: self.compressed_size.clone(),
            decompressed_size: self.decompressed_size.clone(),
            file_hash: self.file_hash.clone(),
            file_path: self.file_path.clone(),
            region_code: crate::payload::copy_opt_string(&self.region_code),
        }
    }
}

/// One patch from an older version.
#[derive(Debug)]
pub struct DiffGameFile {
    pub file_url: String,
    pub compressed_size: String,
    pub decompressed_size: String,
    pub file_hash: String,
    pub diff_type: String,
    pub original_version: String,
    pub delete_files: Vec<String>,
}

impl Clone for DiffGameFile {
    fn clone(&self) -> (r: Self)
        ensures
            r.file_url == self.file_url,
            r.compressed_size == self.compressed_size,
            r.decompressed_size == self.decompressed_size,
            r.file_hash == self.file_hash,
            r.diff_type == self.diff_type,
            r.original_version == self.original_version,
            r.delete_files@ == self.delete_files@,
    {
        DiffGameFile {
            file_url: self.file_url.clone(),
            compressed_size: self.compressed_size.clone(),
            decompressed_size: self.decompressed_size.clone(),
            file_hash: self.file_hash.clone(),
            diff_type: self.diff_type.clone(),
            original_version: self.original_version.clone(),
            delete_files: copy_string_vec(&self.delete_files),
        }
    }
}

/// The audio files of a version.
#[derive(Clone, Debug)]
pub struct VersionAudioFiles {
    pub full: Vec<FullAudioFile>,
    pub diff: Vec<DiffAudioFile>,
}

/// One full audio download.
#[derive(Clone, Debug)]
pub struct FullAudioFile {
    pub file_url: String,
    pub compressed_size: String,
    pub decompressed_size: String,
    pub file_hash: String,
    pub language: String,
    pub region_code: Option<String>,
}

/// One audio patch.
#[derive(Clone, Debug)]
pub struct DiffAudioFile {
    pub file_url: String,
    pub compressed_size: String,
    pub decompressed_size: String,
    pub file_hash: String,
    pub diff_type: String,
    pub original_version: String,
    pub language: String,
}

/// A preload of the next game version.
#[derive(Clone, Debug)]
pub struct GamePreload {
    pub metadata: Option<VersionMetadata>,
    pub index_file: Option<String>,
    pub res_list_url: Option<String>,
    pub game: Option<VersionGameFiles>,
    pub audio: Option<VersionAudioFiles>,
}

/// Which tweaks a game supports.
#[derive(Clone, Debug)]
pub struct GameTweakSwitches {
    pub fps_unlocker: bool,
    pub jadeite: bool,
    pub xxmi: bool,
}

/// A runner that a platform must use.
#[derive(Clone, Debug)]
pub struct CompatRunnerOverrides {
    pub enabled: bool,
    pub runner_version: String,
}

/// Runner overrides per platform.
#[derive(Clone, Debug)]
pub struct CompatPlatformOverrides {
    pub linux: CompatRunnerOverrides,
    pub macos: CompatRunnerOverrides,
}

/// Compatibility settings of a game.
#[derive(Clone, Debug)]
pub struct GameCompatOverrides {
    pub install_to_prefix: bool,
    pub disable_protonfixes: bool,
    pub protonfixes_id: String,
    pub protonfixes_store: String,
    pub stub_wintrust: bool,
    pub block_first_req: bool,
    pub proton_compat_config: Vec<String>,
    pub override_runner: CompatPlatformOverrides,
    pub min_runner_versions: Vec<String>,
}

/// Extra data of a game manifest.
#[derive(Clone, Debug)]
pub struct GameExtras {
    pub preload: Option<GamePreload>,
    pub switches: GameTweakSwitches,
    pub compat_overrides: GameCompatOverrides,
    pub fps_unlock_options: Vec<String>,
}

/// A copy of a vector of strings.
pub fn copy_string_vec(v: &Vec<String>) -> (r: Vec<String>)
    ensures
        r@ == v@,
{
    let mut r: Vec<String> = Vec::new();
    let mut i: usize = 0;
    while i < v.len()
        invariant
            i <= v.len(),
            r@ == v@.take(i as int),
        decreases v.len() - i,
    {
        r.push(v[i].clone());
        i = i + 1;
        assert(r@ =~= v@.take(i as int));
    }
    assert(v@.take(v.len() as int) =~= v@);
    r
}

} // verus!
