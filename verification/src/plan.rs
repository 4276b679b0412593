//! What a download, an update, a predownload or a repair decides before and
//! after it moves any bytes: the way a version is fetched, which of its files
//! are taken, how large they are, whether the disk has room, how a progress
//! phase is shown and how the job ends.

use vstd::prelude::*;
use crate::models::{DiffGameFile, FullGameFile, GameVersion, LauncherInstall};
use crate::queue::QueueJobOutcome;
use crate::text::{chars_of, ends_with, ends_with_exec, rfind, rfind_exec, slice_chars, str_eq, string_from};

verus! {

// ---------------------------------------------------------------------------
// Download modes
// ---------------------------------------------------------------------------

/// The ways a manifest says a version's files are fetched.
#[derive(Clone, Copy, Debug, PartialEq, Eq, Structural)]
pub enum DownloadMode {
    /// Whole archives, extracted after the download.
    File,
    /// Chunked manifests, installed while they download.
    Chunk,
    /// One resource index that lists every file.
    Raw,
    /// Several archives, each extracted on its own.
    MultiFile,
    /// A mode this launcher does not know.
    Unsupported,
}

/// The mode that a manifest's `download_mode` text names.
pub open spec fn mode_of(s: Seq<char>) -> DownloadMode {
    if s == "DOWNLOAD_MODE_FILE"@ {
        DownloadMode::File
    } else if s == "DOWNLOAD_MODE_CHUNK"@ {
        DownloadMode::Chunk
    } else if s == "DOWNLOAD_MODE_RAW"@ {
        DownloadMode::Raw
    } else if s == "DOWNLOAD_MODE_MULTIFILE"@ {
        DownloadMode::MultiFile
    } else {
        DownloadMode::Unsupported
    }
}

/// Reads a manifest's `download_mode` text.
pub fn download_mode(s: &str) -> (r: DownloadMode)
    ensures
        r == mode_of(s@),
{
    if str_eq(s, "DOWNLOAD_MODE_FILE") {
        DownloadMode::File
    } else if str_eq(s, "DOWNLOAD_MODE_CHUNK") {
        DownloadMode::Chunk
    } else if str_eq(s, "DOWNLOAD_MODE_RAW") {
        DownloadMode::Raw
    } else if str_eq(s, "DOWNLOAD_MODE_MULTIFILE") {
        DownloadMode::MultiFile
    } else {
        DownloadMode::Unsupported
    }
}

// ---------------------------------------------------------------------------
// Small decisions
// ---------------------------------------------------------------------------

/// How a job ends: a cancelled job is `Cancelled` whatever else happened,
/// otherwise it is `Completed` when it succeeded and `Failed` when not.
pub fn job_outcome(cancelled: bool, success: bool) -> (r: QueueJobOutcome)
    ensures
        cancelled ==> r == QueueJobOutcome::Cancelled,
        !cancelled && success ==> r == QueueJobOutcome::Completed,
        !cancelled && !success ==> r == QueueJobOutcome::Failed,
{
    if cancelled {
        QueueJobOutcome::Cancelled
    } else if success {
        QueueJobOutcome::Completed
    } else {
        QueueJobOutcome::Failed
    }
}

/// The phase number that moves files into place.
pub const PHASE_MOVING: u32 = 5;

/// The phase number of downloading.
pub const PHASE_DOWNLOADING: u32 = 2;

/// The phase shown while one of several chunk manifests is worked on: the
/// "moving" phase of any but the last manifest is shown as "downloading", so
/// that the progress bar does not flicker between manifests.
pub fn effective_phase(phase: u32, is_last_manifest: bool) -> (r: u32)
    ensures
        r == (if phase == PHASE_MOVING && !is_last_manifest { PHASE_DOWNLOADING } else { phase }),
{
    if phase == PHASE_MOVING && !is_last_manifest {
        PHASE_DOWNLOADING
    } else {
        phase
    }
}

/// Whether a disk with `available` free bytes (or an unknown amount) has room
/// for `needed` bytes: an unknown amount never has room.
pub fn has_space(available: Option<u64>, needed: u64) -> (r: bool)
    ensures
        r == (match available {
            Some(av) => av >= needed,
            None => false,
        }),
{
    match available {
        Some(av) => av >= needed,
        None => false,
    }
}

/// Whether a background is a video (it ends in `.webm` or `.mp4`).
pub open spec fn is_video(bg: Seq<char>) -> bool {
    ends_with(bg, seq!['.', 'w', 'e', 'b', 'm']) || ends_with(bg, seq!['.', 'm', 'p', '4'])
}

/// The background an install shows after an update: an install that shows a
/// video keeps showing the new version's live background where it has a
/// non-empty one; every other case takes the new still background.
pub open spec fn background_after_update(
    current: Seq<char>,
    still: Seq<char>,
    live: Option<Seq<char>>,
) -> Seq<char> {
    if is_video(current) {
        match live {
            Some(l) => if l.len() > 0 { l } else { still },
            None => still,
        }
    } else {
        still
    }
}

/// The view of an optional string.
pub open spec fn opt_view(o: Option<String>) -> Option<Seq<char>> {
    match o {
        Some(s) => Some(s@),
        None => None,
    }
}

/// Picks the background an install shows after an update.
pub fn update_background(current: &str, still: &String, live: &Option<String>) -> (r: String)
    ensures
        r@ == background_after_update(current@, still@, opt_view(*live)),
{
    let cur = chars_of(current);
    let webm: [char; 5] = ['.', 'w', 'e', 'b', 'm'];
    let mp4: [char; 4] = ['.', 'm', 'p', '4'];
    assert(webm@ == seq!['.', 'w', 'e', 'b', 'm']);
    assert(mp4@ == seq!['.', 'm', 'p', '4']);
    let video = ends_with_exec(cur.as_slice(), webm.as_slice()) || ends_with_exec(cur.as_slice(), mp4.as_slice());
    if video {
        match live {
            Some(l) => {
                if chars_of(l.as_str()).len() > 0 {
                    l.clone()
                } else {
                    still.clone()
                }
            },
            None => still.clone(),
        }
    } else {
        still.clone()
    }
}

/// Records in `install` that it was updated to `picked`: it takes the
/// version's name, icon and version, and its background becomes the new
/// still background or, where `live_backgrounds` is set, the one that
/// `update_background` picks. Every other field stays as it was.
pub fn record_update(install: &mut LauncherInstall, picked: &GameVersion, live_backgrounds: bool)
    ensures
        final(install).name@ == picked.metadata.versioned_name@,
        final(install).game_icon@ == picked.assets.game_icon@,
        final(install).version@ == picked.metadata.version@,
        final(install).game_background@ == if live_backgrounds {
            background_after_update(
                old(install).game_background@,
                picked.assets.game_background@,
                opt_view(picked.assets.game_live_background),
            )
        } else {
            picked.assets.game_background@
        },
        (LauncherInstall {
            name: old(install).name,
            game_icon: old(install).game_icon,
            game_background: old(install).game_background,
            version: old(install).version,
            ..*final(install)
        }) == *old(install),
{
    let background = if live_backgrounds {
        update_background(
            install.game_background.as_str(),
            &picked.assets.game_background,
            &picked.assets.game_live_background,
        )
    } else {
        picked.assets.game_background.clone()
    };
    install.name = picked.metadata.versioned_name.clone();
    install.game_icon = picked.assets.game_icon.clone();
    install.game_background = background;
    install.version = picked.metadata.version.clone();
}

/// The file name at the end of a URL: what follows its last `/`, or the
/// whole URL where it has none.
pub open spec fn archive_name_of(url: Seq<char>) -> Seq<char> {
    match rfind(url, seq!['/']) {
        Some(k) => url.subrange(k + 1, url.len() as int),
        None => url,
    }
}

/// The name under which a downloaded archive is staged.
pub fn archive_name(url: &str) -> (r: String)
    ensures
        r@ == archive_name_of(url@),
{
    let v = chars_of(url);
    let slash: [char; 1] = ['/'];
    assert(slash@ == seq!['/']);
    match rfind_exec(v.as_slice(), slash.as_slice()) {
        Some(k) => {
            assert(k + 1 <= v.len());
            let tail = slice_chars(v.as_slice(), k + 1, v.len());
            string_from(tail.as_slice())
        },
        None => string_from(v.as_slice()),
    }
}

/// The staged archives a finished download unpacks, in order: the first
/// file's archive for whole-archive downloads (later parts of a multi-part
/// archive are reached from it), every file's archive for multi-archive
/// downloads, none for the modes that install while they download.
pub open spec fn archives_to_unpack_of(mode: DownloadMode, urls: Seq<Seq<char>>) -> Seq<Seq<char>> {
    match mode {
        DownloadMode::File => seq![archive_name_of(urls[0])],
        DownloadMode::MultiFile => urls.map_values(|u: Seq<char>| archive_name_of(u)),
        _ => Seq::empty(),
    }
}

/// Lists the staged archives a finished download unpacks. A whole-archive
/// download has at least one file.
pub fn archives_to_unpack(mode: DownloadMode, urls: &Vec<String>) -> (r: Vec<String>)
    requires
        mode == DownloadMode::File ==> urls@.len() > 0,
    ensures
        r@.map_values(|s: String| s@) == archives_to_unpack_of(mode, urls@.map_values(|s: String| s@)),
{
    let mut out: Vec<String> = Vec::new();
    match mode {
        DownloadMode::File => {
            out.push(archive_name(urls[0].as_str()));
            assert(out@.map_values(|s: String| s@) =~= seq![archive_name_of(urls@[0]@)]);
        },
        DownloadMode::MultiFile => {
            let mut i: usize = 0;
            while i < urls.len()
                invariant
                    i <= urls@.len(),
                    out@.map_values(|s: String| s@) == urls@.take(i as int).map_values(|s: String| s@).map_values(
                        |u: Seq<char>| archive_name_of(u),
                    ),
                decreases urls.len() - i,
            {
                let ghost before = out@;
                let a = archive_name(urls[i].as_str());
                out.push(a);
                proof {
                    let lhs = out@.map_values(|s: String| s@);
                    let rhs = urls@.take(i + 1).map_values(|s: String| s@).map_values(|u: Seq<char>| archive_name_of(u));
                    let old_rhs = urls@.take(i as int).map_values(|s: String| s@).map_values(|u: Seq<char>| archive_name_of(u));
                    assert(old_rhs.len() == i);
                    assert(before.map_values(|s: String| s@).len() == before.len());
                    assert(before.len() == i);
                    assert(lhs.len() == rhs.len());
                    assert forall|k: int| 0 <= k < lhs.len() implies lhs[k] == rhs[k] by {
                        if k < i {
                            assert(lhs[k] == before.map_values(|s: String| s@)[k]);
                            assert(rhs[k] == old_rhs[k]);
                        } else {
                            assert(lhs[k] == a@);
                            assert(rhs[k] == archive_name_of(urls@[i as int]@));
                        }
                    }
                    assert(lhs =~= rhs);
                }
                i = i + 1;
            }
            assert(urls@.take(urls@.len() as int) =~= urls@);
        },
        _ => {
            assert(out@.map_values(|s: String| s@) =~= Seq::<Seq<char>>::empty());
        },
    }
    out
}

// ---------------------------------------------------------------------------
// Picking a version and its files
// ---------------------------------------------------------------------------

/// Finds the first of `versions` whose version number is `wanted`.
pub fn pick_version(versions: &Vec<GameVersion>, wanted: &str) -> (r: Option<usize>)
    ensures
        r matches Some(i) ==> i < versions@.len() && versions@[i as int].metadata.version@ == wanted@
            && forall|j: int| 0 <= j < i ==> versions@[j].metadata.version@ != wanted@,
        r is None ==> forall|j: int| 0 <= j < versions@.len() ==> versions@[j].metadata.version@ != wanted@,
{
    let mut i: usize = 0;
    while i < versions.len()
        invariant
            i <= versions@.len(),
            forall|j: int| 0 <= j < i ==> versions@[j].metadata.version@ != wanted@,
        decreases versions.len() - i,
    {
        if str_eq(versions[i].metadata.version.as_str(), wanted) {
            return Some(i);
        }
        i = i + 1;
    }
    None
}

/// Every position of a list of `n` items, in order.
pub open spec fn all_positions(n: nat) -> Seq<usize> {
    Seq::new(n, |i: int| i as usize)
}

/// The positions of the patches that start from `version`, in list order.
pub open spec fn diffs_from(diffs: Seq<DiffGameFile>, version: Seq<char>) -> Seq<usize>
    decreases diffs.len(),
{
    if diffs.len() == 0 {
        Seq::empty()
    } else {
        let rest = diffs_from(diffs.drop_last(), version);
        if diffs.last().original_version@ == version {
            rest.push((diffs.len() - 1) as usize)
        } else {
            rest
        }
    }
}

/// The business name whose full files are split by region.
pub open spec fn regional_biz(biz: Seq<char>) -> bool {
    biz == "bh3_global"@
}

/// The positions of the full files an install of `region` takes: those of its
/// region for a regional game, all of them otherwise.
pub open spec fn region_files(files: Seq<FullGameFile>, biz: Seq<char>, region: Option<Seq<char>>) -> Seq<usize>
    decreases files.len(),
{
    if files.len() == 0 {
        Seq::empty()
    } else {
        let rest = region_files(files.drop_last(), biz, region);
        if !regional_biz(biz) || opt_view(files.last().region_code) == region {
            rest.push((files.len() - 1) as usize)
        } else {
            rest
        }
    }
}

/// Whether two optional strings hold the same text.
fn opt_str_eq(a: &Option<String>, b: &Option<String>) -> (r: bool)
    ensures
        r == (opt_view(*a) == opt_view(*b)),
{
    match (a, b) {
        (Some(x), Some(y)) => str_eq(x.as_str(), y.as_str()),
        (None, None) => true,
        _ => false,
    }
}

/// Every position of a list of `n` items.
pub fn positions(n: usize) -> (r: Vec<usize>)
    ensures
        r@ == all_positions(n as nat),
{
    let mut r: Vec<usize> = Vec::new();
    let mut i: usize = 0;
    while i < n
        invariant
            i <= n,
            r@ == all_positions(i as nat),
        decreases n - i,
    {
        r.push(i);
        i = i + 1;
        assert(r@ =~= all_positions(i as nat));
    }
    r
}

/// The positions of the patches in `diffs` that start from `version`.
pub fn patches_from(diffs: &Vec<DiffGameFile>, version: &str) -> (r: Vec<usize>)
    ensures
        r@ == diffs_from(diffs@, version@),
{
    let mut r: Vec<usize> = Vec::new();
    let mut i: usize = 0;
    while i < diffs.len()
        invariant
            i <= diffs@.len(),
            r@ == diffs_from(diffs@.take(i as int), version@),
        decreases diffs.len() - i,
    {
        assert(diffs@.take(i + 1).drop_last() =~= diffs@.take(i as int));
        if str_eq(diffs[i].original_version.as_str(), version) {
            r.push(i);
        }
        i = i + 1;
    }
    assert(diffs@.take(diffs@.len() as int) =~= diffs@);
    r
}

/// The positions of the full files that an install of `region` takes.
pub fn files_for_region(files: &Vec<FullGameFile>, biz: &str, region: &Option<String>) -> (r: Vec<usize>)
    ensures
        r@ == region_files(files@, biz@, opt_view(*region)),
{
    let regional = str_eq(biz, "bh3_global");
    let mut r: Vec<usize> = Vec::new();
    let mut i: usize = 0;
    while i < files.len()
        invariant
            i <= files@.len(),
            regional == regional_biz(biz@),
            r@ == region_files(files@.take(i as int), biz@, opt_view(*region)),
        decreases files.len() - i,
    {
        assert(files@.take(i + 1).drop_last() =~= files@.take(i as int));
        if !regional || opt_str_eq(&files[i].region_code, region) {
            r.push(i);
        }
        i = i + 1;
    }
    assert(files@.take(files@.len() as int) =~= files@);
    r
}

// ---------------------------------------------------------------------------
// Sizes
// ---------------------------------------------------------------------------

/// The size a manifest gives, read as a number, or 0 where it is no number.
pub open spec fn size_or_zero(s: Seq<char>) -> nat {
    crate::text::parse_u64_or(s, 0) as nat
}

/// The sum of the compressed (or decompressed) sizes of the picked full files.
pub open spec fn full_total(files: Seq<FullGameFile>, picks: Seq<usize>, compressed: bool) -> nat
    decreases picks.len(),
{
    if picks.len() == 0 {
        0
    } else {
        let f = files[picks.last() as int];
        full_total(files, picks.drop_last(), compressed)
            + size_or_zero(if compressed { f.compressed_size@ } else { f.decompressed_size@ })
    }
}

/// The sum of the compressed (or decompressed) sizes of the picked patches.
pub open spec fn diff_total(diffs: Seq<DiffGameFile>, picks: Seq<usize>, compressed: bool) -> nat
    decreases picks.len(),
{
    if picks.len() == 0 {
        0
    } else {
        let d = diffs[picks.last() as int];
        diff_total(diffs, picks.drop_last(), compressed)
            + size_or_zero(if compressed { d.compressed_size@ } else { d.decompressed_size@ })
    }
}

/// Whether every picked patch gives its decompressed size as a number.
pub open spec fn diff_sizes_readable(diffs: Seq<DiffGameFile>, picks: Seq<usize>) -> bool {
    forall|k: int| 0 <= k < picks.len()
        ==> (#[trigger] crate::text::parse_u64(diffs[picks[k] as int].decompressed_size@)) is Some
}

/// Whether every pick names an item of a list of `n`.
pub open spec fn picks_in(picks: Seq<usize>, n: nat) -> bool {
    forall|k: int| 0 <= k < picks.len() ==> (#[trigger] picks[k]) < n
}

/// The compressed and decompressed totals of the picked full files, or
/// `None` when either does not fit in 64 bits.
pub fn full_totals(files: &Vec<FullGameFile>, picks: &Vec<usize>) -> (r: Option<(u64, u64)>)
    requires
        picks_in(picks@, files@.len()),
    ensures
        r is None <==> (full_total(files@, picks@, true) > u64::MAX || full_total(files@, picks@, false) > u64::MAX),
        r matches Some(t) ==> t.0 == full_total(files@, picks@, true) && t.1 == full_total(files@, picks@, false),
{
    let mut down: u64 = 0;
    let mut inst: u64 = 0;
    let mut down_ok = true;
    let mut inst_ok = true;
    let mut k: usize = 0;
    while k < picks.len()
        invariant
            k <= picks@.len(),
            picks_in(picks@, files@.len()),
            down_ok ==> down == full_total(files@, picks@.take(k as int), true),
            !down_ok ==> full_total(files@, picks@.take(k as int), true) > u64::MAX,
            inst_ok ==> inst == full_total(files@, picks@.take(k as int), false),
            !inst_ok ==> full_total(files@, picks@.take(k as int), false) > u64::MAX,
        decreases picks.len() - k,
    {
        assert(picks@.take(k + 1).drop_last() =~= picks@.take(k as int));
        assert(picks@[k as int] < files@.len());
        let f = &files[picks[k]];
        let c = crate::text::parse_u64_or_exec(chars_of(f.compressed_size.as_str()).as_slice(), 0);
        let d = crate::text::parse_u64_or_exec(chars_of(f.decompressed_size.as_str()).as_slice(), 0);
        if down_ok {
            match down.checked_add(c) {
                Some(v) => { down = v; },
                None => { down_ok = false; },
            }
        }
        if inst_ok {
            match inst.checked_add(d) {
                Some(v) => { inst = v; },
                None => { inst_ok = false; },
            }
        }
        k = k + 1;
    }
    assert(picks@.take(picks@.len() as int) =~= picks@);
    if down_ok && inst_ok {
        Some((down, inst))
    } else {
        None
    }
}

/// The compressed and decompressed totals of the picked patches, or `None`
/// when either does not fit in 64 bits.
pub fn diff_totals(diffs: &Vec<DiffGameFile>, picks: &Vec<usize>) -> (r: Option<(u64, u64)>)
    requires
        picks_in(picks@, diffs@.len()),
    ensures
        r is None <==> (diff_total(diffs@, picks@, true) > u64::MAX || diff_total(diffs@, picks@, false) > u64::MAX),
        r matches Some(t) ==> t.0 == diff_total(diffs@, picks@, true) && t.1 == diff_total(diffs@, picks@, false),
{
    let mut down: u64 = 0;
    let mut inst: u64 = 0;
    let mut down_ok = true;
    let mut inst_ok = true;
    let mut k: usize = 0;
    while k < picks.len()
        invariant
            k <= picks@.len(),
            picks_in(picks@, diffs@.len()),
            down_ok ==> down == diff_total(diffs@, picks@.take(k as int), true),
            !down_ok ==> diff_total(diffs@, picks@.take(k as int), true) > u64::MAX,
            inst_ok ==> inst == diff_total(diffs@, picks@.take(k as int), false),
            !inst_ok ==> diff_total(diffs@, picks@.take(k as int), false) > u64::MAX,
        decreases picks.len() - k,
    {
        assert(picks@.take(k + 1).drop_last() =~= picks@.take(k as int));
        assert(picks@[k as int] < diffs@.len());
        let d = &diffs[picks[k]];
        let c = crate::text::parse_u64_or_exec(chars_of(d.compressed_size.as_str()).as_slice(), 0);
        let u = crate::text::parse_u64_or_exec(chars_of(d.decompressed_size.as_str()).as_slice(), 0);
        if down_ok {
            match down.checked_add(c) {
                Some(v) => { down = v; },
                None => { down_ok = false; },
            }
        }
        if inst_ok {
            match inst.checked_add(u) {
                Some(v) => { inst = v; },
                None => { inst_ok = false; },
            }
        }
        k = k + 1;
    }
    assert(picks@.take(picks@.len() as int) =~= picks@);
    if down_ok && inst_ok {
        Some((down, inst))
    } else {
        None
    }
}

/// The decompressed total of the picked patches where every one of them gives
/// its size as a number; `None` where one does not, or where the total does
/// not fit in 64 bits.
pub fn strict_patch_size(diffs: &Vec<DiffGameFile>, picks: &Vec<usize>) -> (r: Option<u64>)
    requires
        picks_in(picks@, diffs@.len()),
    ensures
        r is None <==> (!diff_sizes_readable(diffs@, picks@) || diff_total(diffs@, picks@, false) > u64::MAX),
        r matches Some(t) ==> t == diff_total(diffs@, picks@, false),
{
    let mut total: u64 = 0;
    let mut fits = true;
    let mut k: usize = 0;
    while k < picks.len()
        invariant
            k <= picks@.len(),
            picks_in(picks@, diffs@.len()),
            diff_sizes_readable(diffs@, picks@.take(k as int)),
            fits ==> total == diff_total(diffs@, picks@.take(k as int), false),
            !fits ==> diff_total(diffs@, picks@.take(k as int), false) > u64::MAX,
        decreases picks.len() - k,
    {
        assert(picks@.take(k + 1).drop_last() =~= picks@.take(k as int));
        assert(picks@[k as int] < diffs@.len());
        let d = &diffs[picks[k]];
        let parsed = crate::text::parse_u64_exec(chars_of(d.decompressed_size.as_str()).as_slice());
        match parsed {
            None => {
                assert(!diff_sizes_readable(diffs@, picks@)) by {
                    assert(picks@[k as int] == picks@.take(k + 1)[k as int]);
                };
                return None;
            },
            Some(u) => {
                if fits {
                    match total.checked_add(u) {
                        Some(v) => { total = v; },
                        None => { fits = false; },
                    }
                }
            },
        }
        k = k + 1;
        assert(diff_sizes_readable(diffs@, picks@.take(k as int))) by {
            assert forall|j: int| 0 <= j < k implies
                (#[trigger] crate::text::parse_u64(diffs@[picks@.take(k as int)[j] as int].decompressed_size@)) is Some by {
                if j < k - 1 {
                    assert(picks@.take(k as int)[j] == picks@.take(k - 1)[j]);
                }
            };
        };
    }
    assert(picks@.take(picks@.len() as int) =~= picks@);
    if fits {
        Some(total)
    } else {
        None
    }
}

// ---------------------------------------------------------------------------
// Downloads
// ---------------------------------------------------------------------------

/// Whether a mode reports combined size totals while it downloads.
pub open spec fn reports_totals(m: DownloadMode) -> bool {
    m is File || m is Chunk || m is MultiFile
}

/// The full files a fresh download fetches: the install's region's for a
/// chunked regional game, none for an unknown mode, all of them otherwise.
pub open spec fn download_picks(v: GameVersion, biz: Seq<char>, region: Option<Seq<char>>) -> Seq<usize> {
    match mode_of(v.metadata.download_mode@) {
        DownloadMode::Chunk => region_files(v.game.full@, biz, region),
        DownloadMode::Unsupported => Seq::empty(),
        _ => all_positions(v.game.full@.len()),
    }
}

/// How a fresh download of a version goes.
pub struct DownloadPlan {
    pub mode: DownloadMode,
    /// Positions, in the version's full file list, of the files fetched.
    pub files: Vec<usize>,
    /// The compressed and decompressed totals, where the mode reports them.
    pub totals: Option<(u64, u64)>,
}

/// Plans a fresh download of `version` for an install of `region` of the game
/// `biz`. There is no plan (`None`) when the totals that the mode reports do
/// not fit in 64 bits.
pub fn plan_download(version: &GameVersion, biz: &str, region: &Option<String>) -> (r: Option<DownloadPlan>)
    ensures
        r is None <==> reports_totals(mode_of(version.metadata.download_mode@)) && (
            full_total(version.game.full@, download_picks(*version, biz@, opt_view(*region)), true) > u64::MAX
            || full_total(version.game.full@, download_picks(*version, biz@, opt_view(*region)), false) > u64::MAX),
        r matches Some(p) ==> p.mode == mode_of(version.metadata.download_mode@)
            && p.files@ == download_picks(*version, biz@, opt_view(*region))
            && (reports_totals(p.mode) ==> p.totals == Some((
                full_total(version.game.full@, p.files@, true) as u64,
                full_total(version.game.full@, p.files@, false) as u64)))
            && (!reports_totals(p.mode) ==> p.totals is None),
{
    let mode = download_mode(version.metadata.download_mode.as_str());
    let files = match mode {
        DownloadMode::Chunk => files_for_region(&version.game.full, biz, region),
        DownloadMode::Unsupported => Vec::new(),
        _ => positions(version.game.full.len()),
    };
    assert(files@ == download_picks(*version, biz@, opt_view(*region)));
    assert(picks_in(files@, version.game.full@.len())) by {
        lemma_picks_in_bounds(version.game.full@, biz@, opt_view(*region));
    };
    if mode == DownloadMode::File || mode == DownloadMode::Chunk || mode == DownloadMode::MultiFile {
        match full_totals(&version.game.full, &files) {
            Some(t) => Some(DownloadPlan { mode, files, totals: Some(t) }),
            None => None,
        }
    } else {
        Some(DownloadPlan { mode, files, totals: None })
    }
}

/// Every position in `region_files` and `all_positions` names a file.
pub proof fn lemma_picks_in_bounds(files: Seq<FullGameFile>, biz: Seq<char>, region: Option<Seq<char>>)
    ensures
        picks_in(region_files(files, biz, region), files.len()),
        files.len() <= usize::MAX ==> picks_in(all_positions(files.len()), files.len()),
    decreases files.len(),
{
    if files.len() > 0 {
        lemma_picks_in_bounds(files.drop_last(), biz, region);
    }
}

/// Every position in `diffs_from` names a patch.
pub proof fn lemma_patches_in_bounds(diffs: Seq<DiffGameFile>, version: Seq<char>)
    ensures
        picks_in(diffs_from(diffs, version), diffs.len()),
        diffs_from(diffs, version).len() <= diffs.len(),
    decreases diffs.len(),
{
    if diffs.len() > 0 {
        lemma_patches_in_bounds(diffs.drop_last(), version);
    }
}

// ---------------------------------------------------------------------------
// Updates
// ---------------------------------------------------------------------------

/// What an update of an install does.
#[derive(Clone, Copy, Debug, PartialEq, Eq, Structural)]
pub enum UpdateRoute {
    /// No patch starts from the installed version: the full files of the new
    /// version are fetched again.
    Reinstall,
    /// The patches that start from the installed version are fetched and applied.
    Patch,
    /// Patches exist, but this mode cannot apply them: the update fails.
    PatchUnsupported,
    /// No patch starts from the installed version and the mode has no other
    /// way: the update fails and the user is told to reinstall.
    NoPath,
    /// The mode does nothing for updates.
    Nothing,
    /// The mode is not known: the update fails.
    Unsupported,
}

/// The business name whose archive mode can apply patches.
pub open spec fn patchable_archive_biz(biz: Seq<char>) -> bool {
    biz == "endfield_global"@
}

/// The route an update takes for a mode, a game and whether patches start
/// from the installed version.
pub open spec fn route_of(m: DownloadMode, biz: Seq<char>, has_patches: bool) -> UpdateRoute {
    match m {
        DownloadMode::File => if !has_patches {
            UpdateRoute::Reinstall
        } else if patchable_archive_biz(biz) {
            UpdateRoute::Patch
        } else {
            UpdateRoute::PatchUnsupported
        },
        DownloadMode::Chunk => if !has_patches {
            UpdateRoute::Reinstall
        } else {
            UpdateRoute::Patch
        },
        DownloadMode::Raw => if !has_patches {
            UpdateRoute::NoPath
        } else {
            UpdateRoute::Patch
        },
        DownloadMode::MultiFile => UpdateRoute::Nothing,
        DownloadMode::Unsupported => UpdateRoute::Unsupported,
    }
}

/// The route an update of an install at version `from` takes.
pub open spec fn update_route(v: GameVersion, biz: Seq<char>, from: Seq<char>) -> UpdateRoute {
    route_of(mode_of(v.metadata.download_mode@), biz, diffs_from(v.game.diff@, from).len() > 0)
}

/// The files an update fetches: positions in the full file list for a
/// reinstall (the install's region's for a chunked regional game), positions
/// in the patch list for a patch, none otherwise.
pub open spec fn update_picks(v: GameVersion, biz: Seq<char>, region: Option<Seq<char>>, from: Seq<char>) -> Seq<usize> {
    match update_route(v, biz, from) {
        UpdateRoute::Reinstall => if mode_of(v.metadata.download_mode@) is Chunk {
            region_files(v.game.full@, biz, region)
        } else {
            all_positions(v.game.full@.len())
        },
        UpdateRoute::Patch => diffs_from(v.game.diff@, from),
        _ => Seq::empty(),
    }
}

/// Whether an update sums the sizes of what it fetches, and of which list.
pub open spec fn update_sums_full(v: GameVersion, biz: Seq<char>, from: Seq<char>) -> bool {
    update_route(v, biz, from) is Reinstall
}

pub open spec fn update_sums_patches(v: GameVersion, biz: Seq<char>, from: Seq<char>) -> bool {
    update_route(v, biz, from) is Patch && !(mode_of(v.metadata.download_mode@) is Raw)
}

/// Whether an update checks for free space before patching, and with which size.
pub open spec fn update_checks_space(v: GameVersion, biz: Seq<char>, from: Seq<char>) -> bool {
    update_route(v, biz, from) is Patch && (mode_of(v.metadata.download_mode@) is Chunk
        || mode_of(v.metadata.download_mode@) is Raw)
}

/// Whether an update has a plan: the sums it makes fit in 64 bits, and a raw
/// patch gives every decompressed size as a number.
pub open spec fn update_plannable(v: GameVersion, biz: Seq<char>, region: Option<Seq<char>>, from: Seq<char>) -> bool {
    let picks = update_picks(v, biz, region, from);
    &&& update_sums_full(v, biz, from) ==> full_total(v.game.full@, picks, true) <= u64::MAX
        && full_total(v.game.full@, picks, false) <= u64::MAX
    &&& update_sums_patches(v, biz, from) ==> diff_total(v.game.diff@, picks, true) <= u64::MAX
        && diff_total(v.game.diff@, picks, false) <= u64::MAX
    &&& (update_route(v, biz, from) is Patch && mode_of(v.metadata.download_mode@) is Raw)
        ==> diff_sizes_readable(v.game.diff@, picks) && diff_total(v.game.diff@, picks, false) <= u64::MAX
}

/// How an update of an install goes.
pub struct UpdatePlan {
    pub route: UpdateRoute,
    /// Positions of the fetched files: in the full file list for a
    /// reinstall, in the patch list for a patch.
    pub files: Vec<usize>,
    /// The compressed and decompressed totals, where the update sums them.
    pub totals: Option<(u64, u64)>,
    /// The free space the update needs before it starts, where it checks.
    pub space_needed: Option<u64>,
}

/// Plans the update to `version` of an install of `region` of the game `biz`
/// that is at version `from`.
pub fn plan_update(version: &GameVersion, biz: &str, region: &Option<String>, from: &str) -> (r: Option<UpdatePlan>)
    ensures
        r is Some <==> update_plannable(*version, biz@, opt_view(*region), from@),
        r matches Some(p) ==> {
            &&& p.route == update_route(*version, biz@, from@)
            &&& p.files@ == update_picks(*version, biz@, opt_view(*region), from@)
            &&& update_sums_full(*version, biz@, from@) ==> p.totals == Some((
                full_total(version.game.full@, p.files@, true) as u64,
                full_total(version.game.full@, p.files@, false) as u64))
            &&& update_sums_patches(*version, biz@, from@) ==> p.totals == Some((
                diff_total(version.game.diff@, p.files@, true) as u64,
                diff_total(version.game.diff@, p.files@, false) as u64))
            &&& !update_sums_full(*version, biz@, from@) && !update_sums_patches(*version, biz@, from@)
                ==> p.totals is None
            &&& (p.route is Patch && mode_of(version.metadata.download_mode@) is Chunk) ==>
                p.space_needed == Some(diff_total(version.game.diff@, p.files@, true) as u64)
            &&& (p.route is Patch && mode_of(version.metadata.download_mode@) is Raw) ==>
                p.space_needed == Some(diff_total(version.game.diff@, p.files@, false) as u64)
            &&& !update_checks_space(*version, biz@, from@) ==> p.space_needed is None
        },
{
    let mode = download_mode(version.metadata.download_mode.as_str());
    let patches = patches_from(&version.game.diff, from);
    proof {
        lemma_patches_in_bounds(version.game.diff@, from@);
        lemma_picks_in_bounds(version.game.full@, biz@, opt_view(*region));
    }
    let has_patches = patches.len() > 0;
    let route = match mode {
        DownloadMode::File => if !has_patches {
            UpdateRoute::Reinstall
        } else if str_eq(biz, "endfield_global") {
            UpdateRoute::Patch
        } else {
            UpdateRoute::PatchUnsupported
        },
        DownloadMode::Chunk => if !has_patches {
            UpdateRoute::Reinstall
        } else {
            UpdateRoute::Patch
        },
        DownloadMode::Raw => if !has_patches {
            UpdateRoute::NoPath
        } else {
            UpdateRoute::Patch
        },
        DownloadMode::MultiFile => UpdateRoute::Nothing,
        DownloadMode::Unsupported => UpdateRoute::Unsupported,
    };
    assert(route == update_route(*version, biz@, from@));
    match route {
        UpdateRoute::Reinstall => {
            let files = if mode == DownloadMode::Chunk {
                files_for_region(&version.game.full, biz, region)
            } else {
                positions(version.game.full.len())
            };
            match full_totals(&version.game.full, &files) {
                Some(t) => Some(UpdatePlan { route, files, totals: Some(t), space_needed: None }),
                None => None,
            }
        },
        UpdateRoute::Patch => {
            if mode == DownloadMode::Raw {
                match strict_patch_size(&version.game.diff, &patches) {
                    Some(size) => Some(UpdatePlan { route, files: patches, totals: None, space_needed: Some(size) }),
                    None => None,
                }
            } else {
                match diff_totals(&version.game.diff, &patches) {
                    Some(t) => {
                        let space_needed = if mode == DownloadMode::Chunk { Some(t.0) } else { None };
                        Some(UpdatePlan { route, files: patches, totals: Some(t), space_needed })
                    },
                    None => None,
                }
            }
        },
        _ => Some(UpdatePlan { route, files: Vec::new(), totals: None, space_needed: None }),
    }
}

// ---------------------------------------------------------------------------
// Predownloads and repairs
// ---------------------------------------------------------------------------

/// What a predownload does.
#[derive(Clone, Copy, Debug, PartialEq, Eq, Structural)]
pub enum PreloadRoute {
    /// Nothing is fetched and the predownload is reported complete.
    Done,
    /// The patches from the installed version are fetched ahead of time.
    Patch,
    /// The mode does nothing and reports nothing.
    Nothing,
}

/// The patches a predownload fetches, with the space it needs.
pub struct PreloadPlan {
    pub route: PreloadRoute,
    /// Positions, in the patch list, of the patches fetched.
    pub files: Vec<usize>,
    /// The free space needed before the predownload starts.
    pub space_needed: Option<u64>,
}

/// Whether a predownload in mode `m` reads the version's files.
pub open spec fn preload_reads_files(m: DownloadMode) -> bool {
    m is Chunk || m is Raw
}

/// Whether a predownload has a plan: a mode that reads the files has them, a
/// raw predownload has a patch to start from, and the patches it fetches give
/// their decompressed sizes as numbers that sum within 64 bits.
pub open spec fn preload_plannable(mode: Seq<char>, game: Option<crate::models::VersionGameFiles>, from: Seq<char>) -> bool {
    let m = mode_of(mode);
    preload_reads_files(m) ==> match game {
        None => false,
        Some(g) => {
            let picks = diffs_from(g.diff@, from);
            &&& m is Raw ==> picks.len() > 0
            &&& picks.len() > 0 ==> diff_sizes_readable(g.diff@, picks) && diff_total(g.diff@, picks, false) <= u64::MAX
        },
    }
}

/// Plans the predownload, in mode `mode`, of the files `game` for an install
/// at version `from`.
pub fn plan_preload(mode: &str, game: &Option<crate::models::VersionGameFiles>, from: &str) -> (r: Option<PreloadPlan>)
    ensures
        r is Some <==> preload_plannable(mode@, *game, from@),
        r matches Some(p) ==> match mode_of(mode@) {
            DownloadMode::File => p.route is Done && p.files@.len() == 0 && p.space_needed is None,
            DownloadMode::Chunk | DownloadMode::Raw => {
                let g = game.unwrap();
                let picks = diffs_from(g.diff@, from@);
                &&& p.files@ == picks
                &&& picks.len() == 0 ==> p.route is Done && p.space_needed is None
                &&& picks.len() > 0 ==> p.route is Patch
                    && p.space_needed == Some(diff_total(g.diff@, picks, false) as u64)
            },
            _ => p.route is Nothing && p.files@.len() == 0 && p.space_needed is None,
        },
{
    let m = download_mode(mode);
    match m {
        DownloadMode::File => Some(PreloadPlan { route: PreloadRoute::Done, files: Vec::new(), space_needed: None }),
        DownloadMode::Chunk | DownloadMode::Raw => {
            match game {
                None => None,
                Some(g) => {
                    let patches = patches_from(&g.diff, from);
                    proof {
                        lemma_patches_in_bounds(g.diff@, from@);
                    }
                    if patches.len() == 0 {
                        if m == DownloadMode::Raw {
                            None
                        } else {
                            Some(PreloadPlan { route: PreloadRoute::Done, files: patches, space_needed: None })
                        }
                    } else {
                        match strict_patch_size(&g.diff, &patches) {
                            Some(size) => Some(PreloadPlan { route: PreloadRoute::Patch, files: patches, space_needed: Some(size) }),
                            None => None,
                        }
                    }
                },
            }
        },
        _ => Some(PreloadPlan { route: PreloadRoute::Nothing, files: Vec::new(), space_needed: None }),
    }
}

/// Whether every full file names its region.
pub open spec fn all_have_region(files: Seq<FullGameFile>) -> bool {
    forall|i: int| 0 <= i < files.len() ==> (#[trigger] files[i]).region_code is Some
}

/// The full files a chunked repair checks for an install of `region`: those
/// of its region for a regional game, all of them otherwise. A regional game
/// whose files do not all name their region has no answer (`None`).
pub fn repair_files(files: &Vec<FullGameFile>, biz: &str, region: &str) -> (r: Option<Vec<usize>>)
    ensures
        r is None <==> regional_biz(biz@) && !all_have_region(files@),
        r matches Some(picks) ==> picks@ == region_files(files@, biz@, Some(region@)),
{
    let regional = str_eq(biz, "bh3_global");
    if regional {
        let mut i: usize = 0;
        while i < files.len()
            invariant
                i <= files@.len(),
                regional == regional_biz(biz@),
                regional,
                forall|j: int| 0 <= j < i ==> (#[trigger] files@[j]).region_code is Some,
            decreases files.len() - i,
        {
            if files[i].region_code.is_none() {
                assert(files@[i as int].region_code is None);
                return None;
            }
            i = i + 1;
        }
    }
    let wanted: Option<String> = Some(crate::text::owned(region));
    let picks = files_for_region(files, biz, &wanted);
    assert(opt_view(wanted) == Some(region@));
    Some(picks)
}

/// The name shown for a predownload: the install's name with its version
/// replaced by the version being predownloaded.
pub fn preload_name(name: &str, installed: &str, next: &str) -> (r: String)
    ensures
        r@ == crate::text::replaced(name@, installed@, next@),
{
    let n = chars_of(name);
    let a = chars_of(installed);
    let b = chars_of(next);
    let out = crate::text::replace_all(n.as_slice(), a.as_slice(), b.as_slice());
    string_from(out.as_slice())
}

// ---------------------------------------------------------------------------
// Sizes shown before an install, and interrupted work
// ---------------------------------------------------------------------------

/// Whether every picked full file gives its decompressed size as a number.
pub open spec fn full_sizes_readable(files: Seq<FullGameFile>, picks: Seq<usize>) -> bool {
    forall|k: int| 0 <= k < picks.len()
        ==> (#[trigger] crate::text::parse_u64(files[picks[k] as int].decompressed_size@)) is Some
}

/// The decompressed total of the picked full files where each gives its size
/// as a number; `None` where one does not or the total does not fit in 64 bits.
pub fn strict_full_size(files: &Vec<FullGameFile>, picks: &Vec<usize>) -> (r: Option<u64>)
    requires
        picks_in(picks@, files@.len()),
    ensures
        r is None <==> (!full_sizes_readable(files@, picks@) || full_total(files@, picks@, false) > u64::MAX),
        r matches Some(t) ==> t == full_total(files@, picks@, false),
{
    let mut total: u64 = 0;
    let mut fits = true;
    let mut k: usize = 0;
    while k < picks.len()
        invariant
            k <= picks@.len(),
            picks_in(picks@, files@.len()),
            full_sizes_readable(files@, picks@.take(k as int)),
            fits ==> total == full_total(files@, picks@.take(k as int), false),
            !fits ==> full_total(files@, picks@.take(k as int), false) > u64::MAX,
        decreases picks.len() - k,
    {
        assert(picks@.take(k + 1).drop_last() =~= picks@.take(k as int));
        assert(picks@[k as int] < files@.len());
        let f = &files[picks[k]];
        let parsed = crate::text::parse_u64_exec(chars_of(f.decompressed_size.as_str()).as_slice());
        match parsed {
            None => {
                assert(!full_sizes_readable(files@, picks@)) by {
                    assert(picks@[k as int] == picks@.take(k + 1)[k as int]);
                };
                return None;
            },
            Some(u) => {
                if fits {
                    match total.checked_add(u) {
                        Some(v) => { total = v; },
                        None => { fits = false; },
                    }
                }
            },
        }
        k = k + 1;
        assert(full_sizes_readable(files@, picks@.take(k as int))) by {
            assert forall|j: int| 0 <= j < k implies
                (#[trigger] crate::text::parse_u64(files@[picks@.take(k as int)[j] as int].decompressed_size@)) is Some by {
                if j < k - 1 {
                    assert(picks@.take(k as int)[j] == picks@.take(k - 1)[j]);
                }
            };
        };
    }
    assert(picks@.take(picks@.len() as int) =~= picks@);
    if fits {
        Some(total)
    } else {
        None
    }
}

/// The region a regional game's size is shown for when the install names
/// none.
pub open spec fn shown_region(region: Option<Seq<char>>) -> Seq<char> {
    match region {
        Some(r) => r,
        None => "glb_official"@,
    }
}

/// The first audio pack in `lang`.
pub open spec fn audio_for(audio: Seq<crate::models::FullAudioFile>, lang: Seq<char>) -> Option<int> {
    if exists|i: int| 0 <= i < audio.len() && audio[i].language@ == lang {
        Some(choose|i: int| 0 <= i < audio.len() && audio[i].language@ == lang
            && forall|j: int| 0 <= j < i ==> audio[j].language@ != lang)
    } else {
        None
    }
}

/// The size a version takes on disk once installed, as the install dialog
/// shows it: the decompressed sizes of its full files (those of the shown
/// region for a regional game), plus the first audio pack in the chosen
/// language where the version has audio packs. There is no size (`None`)
/// where a size is no number, the language has no pack, or the sum does not
/// fit in 64 bits.
pub open spec fn install_size_of(v: GameVersion, biz: Seq<char>, region: Option<Seq<char>>, lang: Seq<char>) -> Option<nat> {
    let picks = region_files(v.game.full@, biz, Some(shown_region(region)));
    if !full_sizes_readable(v.game.full@, picks) || full_total(v.game.full@, picks, false) > u64::MAX {
        None
    } else if v.audio.full@.len() == 0 {
        Some(full_total(v.game.full@, picks, false))
    } else {
        match audio_for(v.audio.full@, lang) {
            None => None,
            Some(i) => match crate::text::parse_u64(v.audio.full@[i].decompressed_size@) {
                None => None,
                Some(a) => if full_total(v.game.full@, picks, false) + a > u64::MAX {
                    None
                } else {
                    Some(full_total(v.game.full@, picks, false) + (a as nat))
                },
            },
        }
    }
}

/// Works out the size a version takes on disk once installed.
pub fn install_size(version: &GameVersion, biz: &str, region: &Option<String>, lang: &str) -> (r: Option<u64>)
    ensures
        match r {
            Some(n) => install_size_of(*version, biz@, opt_view(*region), lang@) == Some(n as nat),
            None => install_size_of(*version, biz@, opt_view(*region), lang@) is None,
        },
{
    let shown = match region {
        Some(r) => Some(r.clone()),
        None => Some(crate::text::owned("glb_official")),
    };
    assert(opt_view(shown) == Some(shown_region(opt_view(*region))));
    let picks = files_for_region(&version.game.full, biz, &shown);
    proof {
        lemma_picks_in_bounds(version.game.full@, biz@, opt_view(shown));
    }
    let game = match strict_full_size(&version.game.full, &picks) {
        Some(g) => g,
        None => return None,
    };
    if version.audio.full.len() == 0 {
        return Some(game);
    }
    let audio = &version.audio.full;
    let mut i: usize = 0;
    while i < audio.len()
        invariant
            i <= audio@.len(),
            audio@ == version.audio.full@,
            audio@.len() > 0,
            picks@ == region_files(version.game.full@, biz@, Some(shown_region(opt_view(*region)))),
            full_sizes_readable(version.game.full@, picks@),
            game == full_total(version.game.full@, picks@, false),
            forall|j: int| 0 <= j < i ==> audio@[j].language@ != lang@,
        decreases audio.len() - i,
    {
        if str_eq(audio[i].language.as_str(), lang) {
            assert(audio_for(audio@, lang@) == Some(i as int)) by {
                let w = choose|k: int| 0 <= k < audio@.len() && audio@[k].language@ == lang@
                    && forall|j: int| 0 <= j < k ==> audio@[j].language@ != lang@;
                assert(0 <= i < audio@.len() && audio@[i as int].language@ == lang@
                    && forall|j: int| 0 <= j < i ==> audio@[j].language@ != lang@);
                if w < i {
                    assert(audio@[w].language@ != lang@);
                } else if w > i {
                    assert(audio@[i as int].language@ != lang@);
                }
            };
            let a = crate::text::parse_u64_exec(chars_of(audio[i].decompressed_size.as_str()).as_slice());
            return match a {
                None => None,
                Some(a) => game.checked_add(a),
            };
        }
        i = i + 1;
    }
    None
}

/// The work an install was doing when the launcher last stopped.
pub struct ResumeStatesRsp {
    pub downloading: bool,
    pub updating: bool,
    pub preloading: bool,
    pub repairing: bool,
}

/// Tells from the marker folders an install holds what it was doing: it
/// resumes one kind of work only where that kind's marker is the only one.
pub fn resume_states(downloading: bool, patching: bool, preload: bool, repairing: bool) -> (r: ResumeStatesRsp)
    ensures
        r.downloading == (downloading && !repairing && !patching && !preload),
        r.updating == (patching && !repairing && !preload && !downloading),
        r.preloading == (preload && !downloading && !patching && !repairing),
        r.repairing == (repairing && !downloading && !patching && !preload),
{
    if downloading && !repairing && !patching && !preload {
        ResumeStatesRsp { downloading: true, updating: false, preloading: false, repairing: false }
    } else if patching && !repairing && !preload && !downloading {
        ResumeStatesRsp { downloading: false, updating: true, preloading: false, repairing: false }
    } else if preload && !downloading && !patching && !repairing {
        ResumeStatesRsp { downloading: false, updating: false, preloading: true, repairing: false }
    } else if repairing && !downloading && !patching && !preload {
        ResumeStatesRsp { downloading: false, updating: false, preloading: false, repairing: true }
    } else {
        ResumeStatesRsp { downloading: false, updating: false, preloading: false, repairing: false }
    }
}

} // verus!
