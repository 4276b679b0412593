//! Setting up the launcher's own process: the workaround its window needs
//! on NVIDIA graphics, and the limit on open files it raises.

use vstd::prelude::*;
use crate::text::{ascii_lower, chars_of, contains, contains_exec, lower, owned};

verus! {

/// The kind of a graphics adapter, as the system reports it.
#[derive(Clone, Copy, Debug, PartialEq, Eq, Structural)]
pub enum AdapterKind {
    IntegratedGpu,
    DiscreteGpu,
    VirtualGpu,
    Cpu,
    Other,
}

/// An adapter calls for the workaround: it is a GPU (integrated, discrete
/// or virtual) whose name contains `nvidia`, ignoring ASCII case.
pub open spec fn calls_for_workaround(kind: AdapterKind, name: Seq<char>) -> bool {
    (kind == AdapterKind::IntegratedGpu || kind == AdapterKind::DiscreteGpu || kind == AdapterKind::VirtualGpu)
        && contains(lower(name), "nvidia"@)
}

/// Some adapter among `adapters` calls for the workaround.
pub open spec fn needs_workaround(adapters: Seq<(AdapterKind, String)>) -> bool {
    exists|i: int| 0 <= i < adapters.len() && #[trigger] calls_for_workaround(adapters[i].0, adapters[i].1@)
}

/// Checks whether some adapter calls for the workaround.
pub fn needs_dmabuf_workaround(adapters: &Vec<(AdapterKind, String)>) -> (r: bool)
    ensures
        r == needs_workaround(adapters@),
{
    let nvidia = chars_of("nvidia");
    let mut i: usize = 0;
    while i < adapters.len()
        invariant
            i <= adapters@.len(),
            nvidia@ == "nvidia"@,
            forall|j: int| 0 <= j < i ==> !#[trigger] calls_for_workaround(adapters@[j].0, adapters@[j].1@),
        decreases adapters.len() - i,
    {
        let kind = adapters[i].0;
        let gpu = match kind {
            AdapterKind::IntegratedGpu => true,
            AdapterKind::DiscreteGpu => true,
            AdapterKind::VirtualGpu => true,
            _ => false,
        };
        if gpu {
            let name = ascii_lower(chars_of(adapters[i].1.as_str()).as_slice());
            if contains_exec(name.as_slice(), nvidia.as_slice()) {
                assert(calls_for_workaround(adapters@[i as int].0, adapters@[i as int].1@));
                return true;
            }
        }
        i = i + 1;
    }
    false
}

/// The environment the workaround sets, in order.
pub open spec fn workaround_env() -> Seq<(Seq<char>, Seq<char>)> {
    seq![
        ("WEBKIT_DISABLE_DMABUF_RENDERER"@, "1"@),
        ("__GL_THREADED_OPTIMIZATIONS"@, "0"@),
        ("__NV_DISABLE_EXPLICIT_SYNC"@, "1"@),
        ("WEBKIT_DISABLE_COMPOSITING_MODE"@, "1"@),
    ]
}

/// Lists the environment the workaround sets.
pub fn dmabuf_workaround_env() -> (r: Vec<(String, String)>)
    ensures
        r@.len() == workaround_env().len(),
        forall|i: int| 0 <= i < r@.len() ==> (#[trigger] r@[i]).0@ == workaround_env()[i].0 && r@[i].1@
            == workaround_env()[i].1,
{
    let mut r: Vec<(String, String)> = Vec::new();
    r.push((owned("WEBKIT_DISABLE_DMABUF_RENDERER"), owned("1")));
    r.push((owned("__GL_THREADED_OPTIMIZATIONS"), owned("0")));
    r.push((owned("__NV_DISABLE_EXPLICIT_SYNC"), owned("1")));
    r.push((owned("WEBKIT_DISABLE_COMPOSITING_MODE"), owned("1")));
    r
}

/// The value a request for the open-files limit asks for that means "as
/// high as allowed".
pub const FD_LIMIT_MAX_REQUEST: i32 = 999999;

/// The open-files limit to set, from the current soft and hard limits and
/// the requested value: none where the soft limit already reaches the hard
/// one; else the hard limit for the "as high as allowed" request, and the
/// requested value (as the platform's unsigned limit type reads it)
/// otherwise.
pub open spec fn fd_limit_of(soft: u64, hard: u64, requested: i32) -> Option<u64> {
    if soft >= hard {
        None
    } else if requested == FD_LIMIT_MAX_REQUEST {
        Some(hard)
    } else {
        Some(requested as u64)
    }
}

/// Works out the open-files limit to set.
pub fn fd_limit_target(soft: u64, hard: u64, requested: i32) -> (r: Option<u64>)
    ensures
        r == fd_limit_of(soft, hard, requested),
{
    if soft >= hard {
        None
    } else if requested == FD_LIMIT_MAX_REQUEST {
        Some(hard)
    } else {
        Some(requested as u64)
    }
}

/// The desktops that draw window decorations themselves, in lower case.
pub open spec fn server_decorated(desktop: Seq<char>) -> bool {
    desktop == "hyprland"@ || desktop == "i3"@ || desktop == "sway"@ || desktop == "bspwm"@ || desktop
        == "awesome"@ || desktop == "dwm"@ || desktop == "xmonad"@ || desktop == "qtile"@ || desktop == "niri"@
        || desktop == "mango"@ || desktop == "mangowc"@
}

/// Whether the launcher's window draws its own decorations, from the
/// session's desktop name (`XDG_SESSION_DESKTOP`): not on the desktops that
/// draw them (compared ignoring ASCII case), yes on the others; left as it
/// is when no desktop is named.
pub fn window_decorations(session_desktop: Option<&str>) -> (r: Option<bool>)
    ensures
        match session_desktop {
            Some(d) => r == Some(!server_decorated(lower(d@))),
            None => r is None,
        },
{
    match session_desktop {
        None => None,
        Some(d) => {
            let low = ascii_lower(chars_of(d).as_slice());
            let is = |name: &str| -> (b: bool)
                ensures
                    b == (low@ == name@),
                { crate::text::chars_eq(low.as_slice(), chars_of(name).as_slice()) };
            let ssd = is("hyprland") || is("i3") || is("sway") || is("bspwm") || is("awesome") || is("dwm")
                || is("xmonad") || is("qtile") || is("niri") || is("mango") || is("mangowc");
            Some(!ssd)
        },
    }
}

} // verus!
