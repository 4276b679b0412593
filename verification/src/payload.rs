//! What a download job carries: the payload of each kind of job, and the
//! install id and display name that the queue derives from it.

use vstd::prelude::*;
use crate::text::{owned, str_eq};

verus! {

/// Request to download, update, preload or repair one game install.
pub struct DownloadGamePayload {
    pub install: String,
    pub biz: String,
    pub lang: String,
    pub region: String,
    pub is_latest: Option<String>,
}

/// Request to download one compatibility runner.
pub struct RunnerDownloadPayload {
    pub runner_version: String,
    pub runner_url: String,
    pub runner_path: String,
}

/// Request to download or update the Steam Linux Runtime.
pub struct SteamrtDownloadPayload {
    pub steamrt_path: String,
    pub is_update: bool,
}

/// Request to download or update the XXMI modding tool.
pub struct XXMIDownloadPayload {
    pub xxmi_path: String,
    pub install_id: Option<String>,
    pub is_update: bool,
}

/// Request to download or update one extra package (FPS unlocker, XXMI parts, ...).
pub struct ExtrasDownloadPayload {
    pub path: String,
    pub package_id: String,
    pub package_type: String,
    pub update_mode: bool,
}

/// The payload of a queued job, one variant per kind of download.
pub enum QueueJobPayload {
    Game(DownloadGamePayload),
    Runner(RunnerDownloadPayload),
    Steamrt(SteamrtDownloadPayload),
    Steamrt4(SteamrtDownloadPayload),
    XXMI(XXMIDownloadPayload),
    Extras(ExtrasDownloadPayload),
}

/// A copy of an optional string.
pub fn copy_opt_string(o: &Option<String>) -> (r: Option<String>)
    ensures
        r == *o,
{
    match o {
        Some(s) => Some(s.clone()),
        None => None,
    }
}

impl Clone for DownloadGamePayload {
    fn clone(&self) -> (r: Self)
        ensures
            r == *self,
    {
        DownloadGamePayload {
            install: self.install.clone(),
            biz: self.biz.clone(),
            lang: self.lang.clone(),
            region: self.region.clone(),
            is_latest: copy_opt_string(&self.is_latest),
        }
    }
}

impl Clone for RunnerDownloadPayload {
    fn clone(&self) -> (r: Self)
        ensures
            r == *self,
    {
        RunnerDownloadPayload {
            runner_version: self.runner_version.clone(),
            runner_url: self.runner_url.clone(),
            runner_path: self.runner_path.clone(),
        }
    }
}

impl Clone for SteamrtDownloadPayload {
    fn clone(&self) -> (r: Self)
        ensures
            r == *self,
    {
        SteamrtDownloadPayload { steamrt_path: self.steamrt_path.clone(), is_update: self.is_update }
    }
}

impl Clone for XXMIDownloadPayload {
    fn clone(&self) -> (r: Self)
        ensures
            r == *self,
    {
        XXMIDownloadPayload {
            xxmi_path: self.xxmi_path.clone(),
            install_id: copy_opt_string(&self.install_id),
            is_update: self.is_update,
        }
    }
}

impl Clone for ExtrasDownloadPayload {
    fn clone(&self) -> (r: Self)
        ensures
            r == *self,
    {
        ExtrasDownloadPayload {
            path: self.path.clone(),
            package_id: self.package_id.clone(),
            package_type: self.package_type.clone(),
            update_mode: self.update_mode,
        }
    }
}

impl Clone for QueueJobPayload {
    fn clone(&self) -> (r: Self)
        ensures
            r == *self,
    {
        match self {
            QueueJobPayload::Game(p) => QueueJobPayload::Game(p.clone()),
            QueueJobPayload::Runner(p) => QueueJobPayload::Runner(p.clone()),
            QueueJobPayload::Steamrt(p) => QueueJobPayload::Steamrt(p.clone()),
            QueueJobPayload::Steamrt4(p) => QueueJobPayload::Steamrt4(p.clone()),
            QueueJobPayload::XXMI(p) => QueueJobPayload::XXMI(p.clone()),
            QueueJobPayload::Extras(p) => QueueJobPayload::Extras(p.clone()),
        }
    }
}

/// The install id that a payload belongs to: the game install's id, the
/// runner version, a fixed name for the runtimes and XXMI, or the package type
/// of an extra.
pub open spec fn payload_id(p: QueueJobPayload) -> Seq<char> {
    match p {
        QueueJobPayload::Game(g) => g.install@,
        QueueJobPayload::Runner(r) => r.runner_version@,
        QueueJobPayload::Steamrt(_) => "steamrt"@,
        QueueJobPayload::Steamrt4(_) => "steamrt4"@,
        QueueJobPayload::XXMI(_) => "xxmi"@,
        QueueJobPayload::Extras(e) => e.package_type@,
    }
}

/// The display name of an extra package, from its package type.
pub open spec fn extras_display_name(t: Seq<char>) -> Seq<char> {
    if t == "v5.0.1-hotfix"@ || t == "jadeite"@ {
        "Jadeite"@
    } else if t == "keqing_unlock"@ {
        "FPS Unlocker"@
    } else if t == "xxmi"@ {
        "XXMI"@
    } else if t == "gimi"@ {
        "XXMI - GIMI"@
    } else if t == "srmi"@ {
        "XXMI - SRMI"@
    } else if t == "zzmi"@ {
        "XXMI - ZZMI"@
    } else if t == "himi"@ {
        "XXMI - HIMI"@
    } else if t == "wwmi"@ {
        "XXMI - WWMI"@
    } else if t == "ssmi"@ {
        "XXMI - SSMI"@
    } else if t == "efmi"@ {
        "XXMI - EFMI"@
    } else {
        t
    }
}

/// The name under which a payload's job is shown.
pub open spec fn payload_name(p: QueueJobPayload) -> Seq<char> {
    match p {
        QueueJobPayload::Game(g) => g.install@,
        QueueJobPayload::Runner(r) => r.runner_version@,
        QueueJobPayload::Steamrt(_) => "SteamLinuxRuntime 3"@,
        QueueJobPayload::Steamrt4(_) => "SteamLinuxRuntime 4"@,
        QueueJobPayload::XXMI(_) => "XXMI Modding Tool"@,
        QueueJobPayload::Extras(e) => extras_display_name(e.package_type@),
    }
}

/// The display name of an extra package.
fn extras_name(t: &String) -> (r: String)
    ensures
        r@ == extras_display_name(t@),
{
    let s = t.as_str();
    if str_eq(s, "v5.0.1-hotfix") || str_eq(s, "jadeite") {
        owned("Jadeite")
    } else if str_eq(s, "keqing_unlock") {
        owned("FPS Unlocker")
    } else if str_eq(s, "xxmi") {
        owned("XXMI")
    } else if str_eq(s, "gimi") {
        owned("XXMI - GIMI")
    } else if str_eq(s, "srmi") {
        owned("XXMI - SRMI")
    } else if str_eq(s, "zzmi") {
        owned("XXMI - ZZMI")
    } else if str_eq(s, "himi") {
        owned("XXMI - HIMI")
    } else if str_eq(s, "wwmi") {
        owned("XXMI - WWMI")
    } else if str_eq(s, "ssmi") {
        owned("XXMI - SSMI")
    } else if str_eq(s, "efmi") {
        owned("XXMI - EFMI")
    } else {
        t.clone()
    }
}

impl QueueJobPayload {
    /// The install id this payload belongs to.
    pub fn get_id(&self) -> (r: String)
        ensures
            r@ == payload_id(*self),
    {
        match self {
            QueueJobPayload::Game(p) => p.install.clone(),
            QueueJobPayload::Runner(p) => p.runner_version.clone(),
            QueueJobPayload::Steamrt(_) => owned("steamrt"),
            QueueJobPayload::Steamrt4(_) => owned("steamrt4"),
            QueueJobPayload::XXMI(_) => owned("xxmi"),
            QueueJobPayload::Extras(p) => p.package_type.clone(),
        }
    }

    /// The name under which this payload's job is shown.
    pub fn get_name(&self) -> (r: String)
        ensures
            r@ == payload_name(*self),
    {
        match self {
            QueueJobPayload::Game(p) => p.install.clone(),
            QueueJobPayload::Runner(p) => p.runner_version.clone(),
            QueueJobPayload::Steamrt(_) => owned("SteamLinuxRuntime 3"),
            QueueJobPayload::Steamrt4(_) => owned("SteamLinuxRuntime 4"),
            QueueJobPayload::XXMI(_) => owned("XXMI Modding Tool"),
            QueueJobPayload::Extras(p) => extras_name(&p.package_type),
        }
    }
}

} // verus!
