//! Properties that hold across the library's operations: how versions are
//! ordered, what the ordered map gives back, which patches an update takes,
//! how the connection monitor pauses and resumes, and what text rewriting
//! leaves alone.

use vstd::prelude::*;
use std::cmp::Ordering;
use crate::linked_map::{key_index, lemma_key_index, LinkedHashMap, MapKey};
use crate::models::DiffGameFile;
use crate::network::{
    best_latency, connection_of, fast, first_fast, monitor_next, usable, Connection, MonitorAction,
    MonitorState, Probe, FAILURES_BEFORE_PAUSE, FAST_MS,
};
use crate::plan::diffs_from;
use crate::text::{
    contains, find, find_from, lemma_split_char_nonempty, lower, lower_char, occurs_at, replaced, split_char, upper,
    upper_char,
};
use crate::games::mi_path_for;
use crate::versions::{parts_newer, version_lt, version_order};
use crate::ini::{first_key_from, flush_upto, ini_run, rewritten_ini, setting_name, IniKey};
use crate::launch::{adjusted_args, dx11_flag, env_pairs};

verus! {

// ---------------------------------------------------------------------------
// Versions
// ---------------------------------------------------------------------------

/// Comparing two versions one way round gives the opposite of comparing
/// them the other way round, and a version is equal to itself.
pub proof fn law_version_order_flips(a: Seq<char>, b: Seq<char>)
    ensures
        version_order(a, b) == Ordering::Less <==> version_order(b, a) == Ordering::Greater,
        version_order(a, b) == Ordering::Equal <==> version_order(b, a) == Ordering::Equal,
        version_order(a, a) == Ordering::Equal,
{
}

/// "Older than" between versions is transitive.
pub proof fn law_version_lt_transitive(a: Seq<char>, b: Seq<char>, c: Seq<char>)
    requires
        version_lt(a, b),
        version_lt(b, c),
    ensures
        version_lt(a, c),
{
}

/// No runtime version is newer than itself.
pub proof fn law_steamrt_newer_irreflexive(p: Seq<u64>)
    ensures
        !parts_newer(p, p),
    decreases p.len(),
{
    if p.len() > 0 {
        law_steamrt_newer_irreflexive(p.drop_first());
    }
}

/// Of two runtime versions, at most one is newer than the other.
pub proof fn law_steamrt_newer_asymmetric(a: Seq<u64>, b: Seq<u64>)
    requires
        parts_newer(a, b),
    ensures
        !parts_newer(b, a),
    decreases a.len(),
{
    if a.len() > 0 && b.len() > 0 && a[0] == b[0] {
        law_steamrt_newer_asymmetric(a.drop_first(), b.drop_first());
    }
}

// ---------------------------------------------------------------------------
// The ordered map
// ---------------------------------------------------------------------------

/// After a value is set for a key, reading that key gives the value.
pub proof fn law_read_after_insert<K: MapKey, V>(m: LinkedHashMap<K, V>, k: K, v: V)
    requires
        m.wf(),
    ensures
        ({
            let ks = m.keys_after_insert(k);
            let vs = m.vals_after_insert(k, v);
            let i = key_index(ks, k.denoted());
            i >= 0 && vs[i] == v
        }),
{
    lemma_key_index(m.keys(), k.denoted());
    let ks = m.keys_after_insert(k);
    lemma_key_index(ks, k.denoted());
    if key_index(m.keys(), k.denoted()) < 0 {
        assert(ks[ks.len() - 1] == k);
    }
}

/// Setting a value for one key leaves what every other key reads unchanged.
pub proof fn law_insert_keeps_other_keys<K: MapKey, V>(m: LinkedHashMap<K, V>, k: K, v: V, other: K::Denoted)
    requires
        m.wf(),
        other != k.denoted(),
    ensures
        ({
            let ks = m.keys_after_insert(k);
            let vs = m.vals_after_insert(k, v);
            let i = key_index(ks, other);
            let j = key_index(m.keys(), other);
            &&& (i >= 0) == (j >= 0)
            &&& j >= 0 ==> vs[i] == m.vals()[j]
        }),
{
    lemma_key_index(m.keys(), k.denoted());
    lemma_key_index(m.keys(), other);
    let ks = m.keys_after_insert(k);
    lemma_key_index(ks, other);
    let j = key_index(m.keys(), other);
    if key_index(m.keys(), k.denoted()) < 0 {
        if j >= 0 {
            assert(ks[j] == m.keys()[j]);
        }
        if key_index(ks, other) >= 0 {
            let i = key_index(ks, other);
            if i < m.keys().len() {
                assert(ks[i] == m.keys()[i]);
            }
        }
    }
}

/// A new key makes the map one entry longer; a known key leaves its length.
pub proof fn law_insert_length<K: MapKey, V>(m: LinkedHashMap<K, V>, k: K, v: V)
    requires
        m.wf(),
    ensures
        m.lookup(k.denoted()) is None ==> m.keys_after_insert(k).len() == m.keys().len() + 1,
        m.lookup(k.denoted()) is Some ==> m.keys_after_insert(k).len() == m.keys().len(),
{
}

// ---------------------------------------------------------------------------
// Updates
// ---------------------------------------------------------------------------

/// An update takes exactly the patches that start from the installed
/// version: every patch it takes starts there, and every patch that starts
/// there is taken, each once and in list order.
pub proof fn law_patches_start_from_installed(diffs: Seq<DiffGameFile>, from: Seq<char>)
    requires
        diffs.len() <= usize::MAX,
    ensures
        forall|k: int| 0 <= k < diffs_from(diffs, from).len() ==>
            diffs[diffs_from(diffs, from)[k] as int].original_version@ == from,
        forall|k: int, l: int| 0 <= k < l < diffs_from(diffs, from).len() ==>
            diffs_from(diffs, from)[k] < diffs_from(diffs, from)[l],
        forall|i: int| 0 <= i < diffs.len() && diffs[i].original_version@ == from ==>
            exists|k: int| 0 <= k < diffs_from(diffs, from).len() && diffs_from(diffs, from)[k] as int == i,
    decreases diffs.len(),
{
    if diffs.len() > 0 {
        let rest = diffs.drop_last();
        law_patches_start_from_installed(rest, from);
        crate::plan::lemma_patches_in_bounds(rest, from);
        let d = diffs_from(diffs, from);
        let r = diffs_from(rest, from);
        assert forall|k: int| 0 <= k < d.len() implies diffs[d[k] as int].original_version@ == from by {
            if k < r.len() {
                assert(d[k] == r[k]);
                assert(rest[r[k] as int] == diffs[r[k] as int]);
            } else {
                assert(d[k] as int == diffs.len() - 1);
            }
        };
        assert forall|k: int, l: int| 0 <= k < l < d.len() implies d[k] < d[l] by {
            if l < r.len() {
                assert(d[k] == r[k] && d[l] == r[l]);
            } else {
                assert(d[k] == r[k]);
                assert(d[l] as int == diffs.len() - 1);
            }
        };
        assert forall|i: int| 0 <= i < diffs.len() && diffs[i].original_version@ == from
            implies exists|k: int| 0 <= k < d.len() && d[k] as int == i by {
            if i < diffs.len() - 1 {
                assert(rest[i] == diffs[i]);
                let k = choose|k: int| 0 <= k < r.len() && r[k] as int == i;
                assert(d[k] == r[k]);
            } else {
                assert(d[d.len() - 1] as int == i);
            }
        };
    }
}

// ---------------------------------------------------------------------------
// The connection monitor and the network status
// ---------------------------------------------------------------------------

/// The monitor pauses the queue only on a failed check that makes three or
/// more failures in a row, and only when it has not paused already.
pub proof fn law_pause_needs_three_failures(s: MonitorState, online: bool, queue_auto_paused: bool)
    ensures
        monitor_next(s, online, queue_auto_paused).1 == MonitorAction::AutoPause ==> {
            &&& !online
            &&& !s.was_offline
            &&& monitor_next(s, online, queue_auto_paused).0.consecutive_failures >= FAILURES_BEFORE_PAUSE
            &&& monitor_next(s, online, queue_auto_paused).0.was_offline
        },
{
}

/// The monitor resumes the queue only on a good check after it paused it,
/// and only while the queue is still under its own pause.
pub proof fn law_resume_only_after_own_pause(s: MonitorState, online: bool, queue_auto_paused: bool)
    ensures
        monitor_next(s, online, queue_auto_paused).1 == MonitorAction::AutoResume ==> online && s.was_offline
            && queue_auto_paused,
        online ==> monitor_next(s, online, queue_auto_paused).0 == (MonitorState {
            was_offline: false,
            consecutive_failures: 0,
        }),
{
}

/// From a fresh monitor, three failed checks in a row pause the queue on the
/// third and not before, and further failures do not pause it again.
pub proof fn law_third_failure_pauses(q1: bool, q2: bool, q3: bool, q4: bool)
    ensures
        ({
            let s0 = MonitorState { was_offline: false, consecutive_failures: 0 };
            let (s1, a1) = monitor_next(s0, false, q1);
            let (s2, a2) = monitor_next(s1, false, q2);
            let (s3, a3) = monitor_next(s2, false, q3);
            let (s4, a4) = monitor_next(s3, false, q4);
            &&& a1 == MonitorAction::Nothing
            &&& a2 == MonitorAction::Nothing
            &&& a3 == MonitorAction::AutoPause
            &&& a4 == MonitorAction::Nothing
        }),
{
}

/// The quickest usable answer is one of the answers, and usable.
proof fn lemma_best_latency(probes: Seq<Probe>)
    ensures
        best_latency(probes) matches Some(l) ==> exists|i: int| 0 <= i < probes.len() && usable(#[trigger] probes[i])
            && probes[i].latency_ms == l,
    decreases probes.len(),
{
    if probes.len() > 0 {
        lemma_best_latency(probes.drop_last());
        if let Some(l) = best_latency(probes) {
            if best_latency(probes) != best_latency(probes.drop_last()) {
                assert(usable(probes[probes.len() - 1]) && probes[probes.len() - 1].latency_ms == l);
            } else {
                let i = choose|i: int| 0 <= i < probes.len() - 1 && usable(#[trigger] probes.drop_last()[i])
                    && probes.drop_last()[i].latency_ms == l;
                assert(probes[i] == probes.drop_last()[i]);
            }
        }
    }
}

/// Among answers with a fast one, there is a first fast one.
proof fn lemma_least_fast(probes: Seq<Probe>, i: int)
    requires
        0 <= i < probes.len(),
        fast(probes[i]),
    ensures
        exists|k: int| 0 <= k <= i && fast(probes[k]) && forall|j: int| 0 <= j < k ==> !fast(#[trigger] probes[j]),
    decreases i,
{
    if exists|j: int| 0 <= j < i && fast(#[trigger] probes[j]) {
        let j = choose|j: int| 0 <= j < i && fast(#[trigger] probes[j]);
        lemma_least_fast(probes, j);
    } else {
        assert(forall|j: int| 0 <= j < i ==> !fast(#[trigger] probes[j]));
    }
}

/// An online status always reports an answer quicker than the limit, a
/// slow one an answer at or over it, and an offline one none.
pub proof fn law_status_latency(probes: Seq<Probe>)
    ensures
        connection_of(probes).0 == Connection::Online ==> (connection_of(probes).1 matches Some(l) && l < FAST_MS),
        connection_of(probes).0 == Connection::Slow ==> (connection_of(probes).1 matches Some(l) && l >= FAST_MS),
        connection_of(probes).0 == Connection::Offline ==> connection_of(probes).1 is None,
{
    lemma_best_latency(probes);
    if exists|i: int| 0 <= i < probes.len() && fast(#[trigger] probes[i]) {
        let w = choose|i: int| 0 <= i < probes.len() && fast(#[trigger] probes[i]);
        lemma_least_fast(probes, w);
        let f = first_fast(probes).unwrap();
        assert(fast(probes[f]));
    } else {
        if let Some(l) = best_latency(probes) {
            let i = choose|i: int| 0 <= i < probes.len() && usable(#[trigger] probes[i]) && probes[i].latency_ms == l;
            assert(!fast(probes[i]));
        }
    }
}

// ---------------------------------------------------------------------------
// Text
// ---------------------------------------------------------------------------

/// Replacing a text that does not occur leaves the text as it is: a
/// template without placeholders is passed through untouched.
pub proof fn law_replace_absent(s: Seq<char>, from: Seq<char>, to: Seq<char>)
    requires
        from.len() > 0,
        !contains(s, from),
    ensures
        replaced(s, from, to) == s,
    decreases s.len(),
{
    if s.len() > 0 {
        if occurs_at(s, from, 0) {
            crate::text::lemma_find_from(s, from, 0);
            assert(find_from(s, from, 0) == Some(0int));
        }
        assert(!contains(s.drop_first(), from)) by {
            if contains(s.drop_first(), from) {
                let t = s.drop_first();
                crate::text::lemma_find_from(t, from, 0);
                let j = find(t, from).unwrap();
                assert(occurs_at(s, from, j + 1)) by {
                    assert(s.subrange(j + 1, j + 1 + from.len()) =~= t.subrange(j, j + from.len()));
                };
                lemma_occurs_found(s, from, j + 1);
            }
        };
        law_replace_absent(s.drop_first(), from, to);
        assert(seq![s[0]] + s.drop_first() =~= s);
    }
}

/// Where a text occurs, a search from any earlier start finds something.
proof fn lemma_occurs_found(h: Seq<char>, n: Seq<char>, i: int)
    requires
        occurs_at(h, n, i),
    ensures
        find(h, n) is Some,
{
    lemma_occurs_found_from(h, n, 0, i);
}

proof fn lemma_occurs_found_from(h: Seq<char>, n: Seq<char>, start: int, i: int)
    requires
        0 <= start <= i,
        occurs_at(h, n, i),
    ensures
        find_from(h, n, start) is Some,
    decreases i - start,
{
    if start < i && !occurs_at(h, n, start) {
        lemma_occurs_found_from(h, n, start + 1, i);
    }
}

// ---------------------------------------------------------------------------
// Configuration files and launch arguments
// ---------------------------------------------------------------------------

/// With no settings to manage, handling the lines of a file keeps each line
/// as it is.
proof fn lemma_run_without_settings(lines: Seq<Seq<char>>)
    ensures
        ini_run(Seq::<IniKey>::empty(), lines).2 == lines,
        ini_run(Seq::<IniKey>::empty(), lines).1.len() == 0,
    decreases lines.len(),
{
    if lines.len() > 0 {
        lemma_run_without_settings(lines.drop_last());
        let st = ini_run(Seq::<IniKey>::empty(), lines.drop_last());
        let tr = crate::text::trim(lines.last());
        assert(first_key_from(Seq::<IniKey>::empty(), st.0, setting_name(tr), 0) is None);
        assert(flush_upto(Seq::<IniKey>::empty(), st.0, st.1, st.2, 0) == (st.1, st.2));
        assert(lines.drop_last().push(lines.last()) =~= lines);
    }
}

/// A `d3dx.ini` rewritten with no settings to manage keeps all its lines:
/// only line endings are normalised to `\n`.
pub proof fn law_rewrite_without_settings_keeps_lines(content: Seq<char>)
    ensures
        rewritten_ini(content, Seq::<IniKey>::empty()) == crate::text::joined(crate::text::text_lines(content), '\n'),
{
    lemma_run_without_settings(crate::text::text_lines(content));
}

/// Taking every `"` out of a text leaves none in it.
proof fn lemma_unquoted(s: Seq<char>)
    ensures
        forall|i: int| 0 <= i < replaced(s, seq!['"'], Seq::empty()).len() ==>
            replaced(s, seq!['"'], Seq::empty())[i] != '"',
    decreases s.len(),
{
    if s.len() > 0 {
        if occurs_at(s, seq!['"'], 0) {
            lemma_unquoted(s.subrange(1, s.len() as int));
            assert(replaced(s, seq!['"'], Seq::empty()) =~= replaced(s.subrange(1, s.len() as int), seq!['"'], Seq::empty()));
        } else {
            lemma_unquoted(s.drop_first());
            assert(s.subrange(0, 1) =~= seq![s[0]]);
            assert(s[0] != '"');
        }
    }
}

/// No value that an install's environment text sets holds a `"`.
pub proof fn law_env_values_unquoted(pieces: Seq<Seq<char>>)
    ensures
        env_pairs(pieces) matches Some(v) ==> forall|k: int, i: int| 0 <= k < v.len() && 0 <= i < v[k].1.len()
            ==> v[k].1[i] != '"',
    decreases pieces.len(),
{
    if pieces.len() > 0 {
        law_env_values_unquoted(pieces.drop_last());
        let piece = pieces.last();
        if let Some(j) = find(piece, seq!['=']) {
            lemma_unquoted(piece.skip(j + 1));
        }
    }
}

/// With the model injector on a game that needs DirectX 11, the game's
/// DirectX 11 flag is the last argument.
pub proof fn law_forced_dx11_flag_last(
    args: Seq<char>,
    biz: Seq<char>,
    options: Seq<String>,
    api_switch: bool,
    graphics_api: Seq<char>,
)
    requires
        dx11_flag(biz) is Some,
    ensures
        crate::text::ends_with(adjusted_args(args, true, biz, options, api_switch, graphics_api), dx11_flag(biz).unwrap()),
{
    let r = adjusted_args(args, true, biz, options, api_switch, graphics_api);
    let f = dx11_flag(biz).unwrap();
    assert(r.subrange(r.len() - f.len(), r.len() as int) =~= f);
}

// ---------------------------------------------------------------------------
// XXMI packages
// ---------------------------------------------------------------------------

proof fn lemma_case_chars(c: char)
    ensures
        lower_char(lower_char(c)) == lower_char(c),
        lower_char(upper_char(c)) == lower_char(c),
        (lower_char(c) == '/') == (c == '/'),
        (upper_char(c) == '/') == (c == '/'),
{
}

proof fn lemma_lower_twice(s: Seq<char>)
    ensures
        lower(lower(s)) == lower(s),
        lower(upper(s)) == lower(s),
{
    assert forall|i: int| 0 <= i < s.len() implies lower(lower(s))[i] == lower(s)[i] && lower(upper(s))[i]
        == lower(s)[i] by {
        lemma_case_chars(s[i]);
    }
    assert(lower(lower(s)) =~= lower(s));
    assert(lower(upper(s)) =~= lower(s));
}

/// Splitting at `/` commutes with a character map that sends `/`, and only
/// `/`, to `/`: the pieces keep their number and the last piece is mapped.
proof fn lemma_split_mapped(s: Seq<char>, f: spec_fn(char) -> char)
    requires
        forall|c: char| (#[trigger] f(c) == '/') == (c == '/'),
    ensures
        split_char(s.map_values(f), '/').len() == split_char(s, '/').len(),
        split_char(s.map_values(f), '/').last() == split_char(s, '/').last().map_values(f),
    decreases s.len(),
{
    lemma_split_char_nonempty(s, '/');
    lemma_split_char_nonempty(s.map_values(f), '/');
    if s.len() == 0 {
        assert(s.map_values(f) =~= Seq::<char>::empty());
        assert(Seq::<char>::empty().map_values(f) =~= Seq::<char>::empty());
    } else {
        let d = s.drop_last();
        lemma_split_mapped(d, f);
        lemma_split_char_nonempty(d, '/');
        let m = s.map_values(f);
        assert(m.drop_last() =~= d.map_values(f));
        assert(m.last() == f(s.last()));
        lemma_split_char_nonempty(d.map_values(f), '/');
        if s.last() == '/' {
            assert(Seq::<char>::empty().map_values(f) =~= Seq::<char>::empty());
        } else {
            let p = split_char(d, '/');
            assert(p.last().push(s.last()).map_values(f) =~= p.last().map_values(f).push(f(s.last())));
        }
    }
}

/// Which injector package serves a game does not depend on the case of its
/// executable's path: the path, its ASCII lower-case form and its ASCII
/// upper-case form give the same package.
pub proof fn law_mi_path_ignores_case(s: Seq<char>)
    ensures
        mi_path_for(lower(s)) == mi_path_for(s),
        mi_path_for(upper(s)) == mi_path_for(s),
{
    let fl = |c: char| lower_char(c);
    let fu = |c: char| upper_char(c);
    assert forall|c: char| (#[trigger] fl(c) == '/') == (c == '/') by {
        lemma_case_chars(c);
    }
    assert forall|c: char| (#[trigger] fu(c) == '/') == (c == '/') by {
        lemma_case_chars(c);
    }
    lemma_split_mapped(s, fl);
    lemma_split_mapped(s, fu);
    assert(lower(s) =~= s.map_values(fl));
    assert(upper(s) =~= s.map_values(fu));
    let last = split_char(s, '/').last();
    assert(last.map_values(fl) =~= lower(last));
    assert(last.map_values(fu) =~= upper(last));
    lemma_lower_twice(last);
}

} // verus!
