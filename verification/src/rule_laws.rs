//! Properties of the rules the launcher applies to one install: which
//! injectors get their loader fixed, what a game's environment turns on,
//! which files a reinstall fetches and which gacha link is read first.

use vstd::prelude::*;
use crate::ini::{managed_keys, settings_after};
use crate::launch::{flag, game_env_of, user_env, LaunchContext, RunnerSwitches};
use crate::models::{FullGameFile, GameVersion, XXMISettings};
use crate::plan::{mode_of, opt_view, region_files, regional_biz, update_picks, update_route, DownloadMode, UpdateRoute};
use crate::scan::{authkey_links_from, gacha_hint, gacha_links};
use crate::text::{contains, decimal, lower};

verus! {

/// The loader fixes apply exactly to the `gimi` and `zzmi` injectors: for a
/// package folder that names either, the install's settings run the loader
/// without administrator rights, with a 500 ms DLL start delay and a 20 ms
/// close delay, the other settings kept, and the launcher writes three more
/// settings (`Loader` `require_admin`, `Loader` `delay`, `System`
/// `dll_initialization_delay`) after the three common ones; for any other
/// folder the settings stay as they are and only the three common ones are
/// written.
pub proof fn law_loader_fixed_for_gimi_and_zzmi(package: Seq<char>, s: XXMISettings)
    ensures
        contains(package, "gimi"@) || contains(package, "zzmi"@) ==> {
            let d = settings_after(package, s);
            let m = managed_keys(package, s);
            &&& !d.require_admin
            &&& d.dll_init_delay == 500
            &&& d.close_delay == 20
            &&& d.hunting_mode == s.hunting_mode
            &&& d.show_warnings == s.show_warnings
            &&& d.dump_shaders == s.dump_shaders
            &&& m.len() == 6
            &&& m[3] == ("Loader"@, "require_admin"@, "false"@)
            &&& m[4] == ("Loader"@, "delay"@, decimal(20))
            &&& m[5] == ("System"@, "dll_initialization_delay"@, decimal(500))
        },
        !(contains(package, "gimi"@) || contains(package, "zzmi"@)) ==> settings_after(package, s) == s
            && managed_keys(package, s).len() == 3,
{
}


proof fn lemma_gacha_links_reversed(links: Seq<Seq<char>>, p: spec_fn(Seq<char>) -> bool)
    requires
        forall|l: Seq<char>| #[trigger] p(l) == contains(lower(l), gacha_hint()),
    ensures
        gacha_links(links) == links.filter(p).reverse(),
    decreases links.len(),
{
    reveal(Seq::filter);
    if links.len() == 0 {
        assert(links.filter(p) =~= Seq::<Seq<char>>::empty());
        assert(links.filter(p).reverse() =~= Seq::<Seq<char>>::empty());
    } else {
        let d = links.drop_last();
        lemma_gacha_links_reversed(d, p);
        let f = d.filter(p);
        if p(links.last()) {
            assert(links.filter(p) == f.push(links.last()));
            assert(f.push(links.last()).reverse() =~= seq![links.last()] + f.reverse());
        } else {
            assert(links.filter(p) == f);
        }
    }
}

/// The links read for an authkey are the content's gacha history links
/// (its authkey links whose lower-cased text mentions the gacha web view),
/// most recent first: the order in which they appear in the content,
/// reversed, so that the newest authkey is tried first.
pub proof fn law_gacha_links_newest_first(content: Seq<char>)
    ensures
        ({
            let links = authkey_links_from(content, 0);
            gacha_links(links) == links.filter(|l: Seq<char>| contains(lower(l), gacha_hint())).reverse()
        }),
{
    let p = |l: Seq<char>| contains(lower(l), gacha_hint());
    lemma_gacha_links_reversed(authkey_links_from(content, 0), p);
}


/// MangoHud is turned on exactly by its switch: with the switch on, the
/// game's environment holds `MANGOHUD=1`; and the environment with the
/// switch on is the one with it off with `MANGOHUD=1`, then the MangoHud
/// config file where one is set, put in right before the user's own
/// variables.
pub proof fn law_mangohud_switch(
    biz: Seq<char>,
    c: LaunchContext,
    sw: RunnerSwitches,
    compat_config: Seq<char>,
    mangohud_config: Seq<char>,
    env_text: Seq<char>,
)
    ensures
        game_env_of(biz, c, sw, compat_config, true, mangohud_config, env_text).contains(("MANGOHUD"@, "1"@)),
        ({
            let off = game_env_of(biz, c, sw, compat_config, false, mangohud_config, env_text);
            let on = game_env_of(biz, c, sw, compat_config, true, mangohud_config, env_text);
            let k = off.len() - user_env(env_text).len();
            on == off.take(k) + seq![("MANGOHUD"@, "1"@)] + flag(
                mangohud_config.len() > 0,
                "MANGOHUD_CONFIGFILE"@,
                mangohud_config,
            ) + off.skip(k)
        }),
{
    let off = game_env_of(biz, c, sw, compat_config, false, mangohud_config, env_text);
    let on = game_env_of(biz, c, sw, compat_config, true, mangohud_config, env_text);
    let u = user_env(env_text);
    let k = off.len() - u.len();
    let pre = off.take(k);
    assert(off =~= pre + u);
    assert(off.skip(k) =~= u);
    let x = ("MANGOHUD"@, "1"@);
    let fc = flag(mangohud_config.len() > 0, "MANGOHUD_CONFIGFILE"@, mangohud_config);
    assert(on =~= pre + seq![x] + fc + u);
    assert(on[pre.len() as int] == x);
}


proof fn lemma_region_files(files: Seq<FullGameFile>, biz: Seq<char>, region: Option<Seq<char>>)
    requires
        regional_biz(biz),
        files.len() <= usize::MAX + 1,
    ensures
        ({
            let p = region_files(files, biz, region);
            &&& forall|k: int| 0 <= k < p.len() ==> (#[trigger] p[k]) < files.len()
                && opt_view(files[p[k] as int].region_code) == region
            &&& forall|a: int, b: int| 0 <= a < b < p.len() ==> #[trigger] p[a] < #[trigger] p[b]
            &&& forall|j: int| 0 <= j < files.len() && opt_view(#[trigger] files[j].region_code) == region
                ==> p.contains(j as usize)
        }),
    decreases files.len(),
{
    if files.len() > 0 {
        let d = files.drop_last();
        lemma_region_files(d, biz, region);
        let r = region_files(d, biz, region);
        let p = region_files(files, biz, region);
        let n = files.len() - 1;
        assert forall|k: int| 0 <= k < r.len() implies (#[trigger] r[k]) < files.len()
            && opt_view(files[r[k] as int].region_code) == region by {
            assert(files[r[k] as int] == d[r[k] as int]);
        }
        assert forall|j: int| 0 <= j < files.len() && opt_view(#[trigger] files[j].region_code) == region
            implies p.contains(j as usize) by {
            if j < n {
                assert(d[j] == files[j]);
                assert(r.contains(j as usize));
                let w = choose|w: int| 0 <= w < r.len() && r[w] == j as usize;
                assert(p[w] == r[w]);
            } else {
                assert(files.last() == files[j]);
                assert(p[r.len() as int] == n as usize);
            }
        }
    }
}

/// A reinstall of a chunked regional game fetches exactly its region's full
/// files, in list order, as a fresh download does: every picked file has the
/// install's region, and every full file of that region is picked.
pub proof fn law_regional_reinstall_fetches_own_region(
    v: GameVersion,
    biz: Seq<char>,
    region: Option<Seq<char>>,
    from: Seq<char>,
)
    requires
        biz == "bh3_global"@,
        update_route(v, biz, from) == UpdateRoute::Reinstall,
        mode_of(v.metadata.download_mode@) == DownloadMode::Chunk,
    ensures
        ({
            let full = v.game.full@;
            let p = update_picks(v, biz, region, from);
            &&& forall|k: int| 0 <= k < p.len() ==> (#[trigger] p[k]) < full.len()
                && opt_view(full[p[k] as int].region_code) == region
            &&& forall|a: int, b: int| 0 <= a < b < p.len() ==> #[trigger] p[a] < #[trigger] p[b]
            &&& forall|j: int| 0 <= j < full.len() && opt_view(#[trigger] full[j].region_code) == region
                ==> p.contains(j as usize)
        }),
{
    assert(v.game.full@.len() == v.game.full.len());
    lemma_region_files(v.game.full@, biz, region);
}

} // verus!
