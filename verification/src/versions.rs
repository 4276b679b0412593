//! Version numbers: launcher and package versions, Steam Linux Runtime
//! versions, and the runner versions that games require.

use vstd::prelude::*;
use std::cmp::Ordering;
use crate::text::{
    chars_of, chars_eq, ends_with, find, find_exec, parse_u64_or, parse_u64_or_exec,
    rfind, rfind_exec, split_char, split_char_exec, lemma_split_char_nonempty,
};

verus! {

/// `s` with every `-` turned into `.`.
pub open spec fn dashes_to_dots(s: Seq<char>) -> Seq<char>
    decreases s.len(),
{
    if s.len() == 0 {
        s
    } else {
        dashes_to_dots(s.drop_last()).push(if s.last() == '-' { '.' } else { s.last() })
    }
}

/// The (major, minor, patch) triple of a version string: `-` counts as `.`,
/// a missing or unreadable major is 1, a missing or unreadable minor or patch is 0.
pub open spec fn version_triple(s: Seq<char>) -> (u64, u64, u64) {
    let p = split_char(dashes_to_dots(s), '.');
    (
        parse_u64_or(p[0], 1),
        if p.len() > 1 { parse_u64_or(p[1], 0) } else { 0 },
        if p.len() > 2 { parse_u64_or(p[2], 0) } else { 0 },
    )
}

/// The order of two version strings: their triples compared field by field.
pub open spec fn version_order(a: Seq<char>, b: Seq<char>) -> Ordering {
    let (a1, a2, a3) = version_triple(a);
    let (b1, b2, b3) = version_triple(b);
    if a1 < b1 {
        Ordering::Less
    } else if a1 > b1 {
        Ordering::Greater
    } else if a2 < b2 {
        Ordering::Less
    } else if a2 > b2 {
        Ordering::Greater
    } else if a3 < b3 {
        Ordering::Less
    } else if a3 > b3 {
        Ordering::Greater
    } else {
        Ordering::Equal
    }
}

/// Version `a` is older than version `b`.
pub open spec fn version_lt(a: Seq<char>, b: Seq<char>) -> bool {
    version_order(a, b) == Ordering::Less
}

fn dashes_to_dots_exec(v: &[char]) -> (r: Vec<char>)
    ensures
        r@ == dashes_to_dots(v@),
{
    let mut r: Vec<char> = Vec::new();
    let mut i: usize = 0;
    while i < v.len()
        invariant
            i <= v.len(),
            r@ == dashes_to_dots(v@.take(i as int)),
        decreases v.len() - i,
    {
        proof {
            assert(v@.take(i + 1).drop_last() =~= v@.take(i as int));
        }
        let c = if v[i] == '-' { '.' } else { v[i] };
        r.push(c);
        i = i + 1;
    }
    assert(v@.take(v.len() as int) =~= v@);
    r
}

fn version_triple_exec(s: &str) -> (r: (u64, u64, u64))
    ensures
        r == version_triple(s@),
{
    let v = chars_of(s);
    let d = dashes_to_dots_exec(v.as_slice());
    let p = split_char_exec(d.as_slice(), '.');
    proof {
        lemma_split_char_nonempty(d@, '.');
    }
    let major = parse_u64_or_exec(p[0].as_slice(), 1);
    let minor = if p.len() > 1 { parse_u64_or_exec(p[1].as_slice(), 0) } else { 0 };
    let patch = if p.len() > 2 { parse_u64_or_exec(p[2].as_slice(), 0) } else { 0 };
    (major, minor, patch)
}

/// Compares two versions of the form `major.minor.patch` (a `-` counts as
/// `.`); missing or unreadable parts count as 1 for the major and 0 for the rest.
pub fn compare_version(a: &str, b: &str) -> (r: Ordering)
    ensures
        r == version_order(a@, b@),
{
    let (a1, a2, a3) = version_triple_exec(a);
    let (b1, b2, b3) = version_triple_exec(b);
    if a1 < b1 {
        Ordering::Less
    } else if a1 > b1 {
        Ordering::Greater
    } else if a2 < b2 {
        Ordering::Less
    } else if a2 > b2 {
        Ordering::Greater
    } else if a3 < b3 {
        Ordering::Less
    } else if a3 > b3 {
        Ordering::Greater
    } else {
        Ordering::Equal
    }
}

// ---------------------------------------------------------------------------
// Steam Linux Runtime versions
// ---------------------------------------------------------------------------

/// The numbers of the dot-separated parts, unreadable parts counting as 0.
pub open spec fn parse_parts(p: Seq<Seq<char>>) -> Seq<u64>
    decreases p.len(),
{
    if p.len() == 0 {
        Seq::empty()
    } else {
        parse_parts(p.drop_last()).push(parse_u64_or(p.last(), 0))
    }
}

/// The numeric parts of a dotted version.
pub open spec fn numeric_parts(s: Seq<char>) -> Seq<u64> {
    parse_parts(split_char(s, '.'))
}

/// Whether parts `a` make a newer version than parts `b`: the first
/// differing part decides; when one is a prefix of the other, the longer is newer.
pub open spec fn parts_newer(a: Seq<u64>, b: Seq<u64>) -> bool
    decreases a.len(),
{
    if a.len() == 0 || b.len() == 0 {
        a.len() > b.len()
    } else if a[0] > b[0] {
        true
    } else if a[0] < b[0] {
        false
    } else {
        parts_newer(a.drop_first(), b.drop_first())
    }
}

proof fn lemma_parse_parts(p: Seq<Seq<char>>)
    ensures
        parse_parts(p).len() == p.len(),
        forall|i: int| 0 <= i < p.len() ==> #[trigger] parse_parts(p)[i] == parse_u64_or(p[i], 0),
    decreases p.len(),
{
    if p.len() > 0 {
        lemma_parse_parts(p.drop_last());
        assert forall|i: int| 0 <= i < p.len() implies #[trigger] parse_parts(p)[i] == parse_u64_or(p[i], 0) by {
            if i < p.len() - 1 {
                assert(p.drop_last()[i] == p[i]);
            }
        }
    }
}

fn numeric_parts_exec(s: &str) -> (r: Vec<u64>)
    ensures
        r@ == numeric_parts(s@),
{
    let v = chars_of(s);
    let p = split_char_exec(v.as_slice(), '.');
    let ghost sp = split_char(v@, '.');
    let mut r: Vec<u64> = Vec::new();
    let mut i: usize = 0;
    proof {
        lemma_parse_parts(sp);
    }
    while i < p.len()
        invariant
            i <= p.len(),
            p@.len() == sp.len(),
            forall|k: int| 0 <= k < p@.len() ==> #[trigger] p@[k]@ == sp[k],
            parse_parts(sp).len() == sp.len(),
            forall|k: int| 0 <= k < sp.len() ==> #[trigger] parse_parts(sp)[k] == parse_u64_or(sp[k], 0),
            r@ == parse_parts(sp).take(i as int),
        decreases p.len() - i,
    {
        let x = parse_u64_or_exec(p[i].as_slice(), 0);
        r.push(x);
        i = i + 1;
        assert(r@ =~= parse_parts(sp).take(i as int));
    }
    assert(parse_parts(sp).take(sp.len() as int) =~= parse_parts(sp));
    r
}

/// Whether Steam Linux Runtime version `v1` is newer than `v2`: their
/// dot-separated numbers (unreadable ones counting as 0) are compared in
/// turn; when one list is a prefix of the other, the longer is newer.
pub fn compare_steamrt_versions(v1: &str, v2: &str) -> (r: bool)
    ensures
        r == parts_newer(numeric_parts(v1@), numeric_parts(v2@)),
{
    let p1 = numeric_parts_exec(v1);
    let p2 = numeric_parts_exec(v2);
    let mut i: usize = 0;
    assert(p1@.skip(0) =~= p1@);
    assert(p2@.skip(0) =~= p2@);
    while i < p1.len() && i < p2.len()
        invariant
            i <= p1@.len(),
            i <= p2@.len(),
            p1@ == numeric_parts(v1@),
            p2@ == numeric_parts(v2@),
            parts_newer(p1@, p2@) == parts_newer(p1@.skip(i as int), p2@.skip(i as int)),
        decreases p1.len() - i,
    {
        let ghost a = p1@.skip(i as int);
        let ghost b = p2@.skip(i as int);
        assert(a[0] == p1@[i as int]);
        assert(b[0] == p2@[i as int]);
        if p1[i] > p2[i] {
            return true;
        } else if p1[i] < p2[i] {
            return false;
        }
        assert(a.drop_first() =~= p1@.skip(i + 1));
        assert(b.drop_first() =~= p2@.skip(i + 1));
        i = i + 1;
    }
    p1.len() > p2.len()
}

// ---------------------------------------------------------------------------
// Runner versions
// ---------------------------------------------------------------------------

/// The version part of the text before a runner's family name: without one
/// trailing `-`, with the other `-` turned into `.`.
pub open spec fn runner_version_part(l: Seq<char>) -> Seq<char> {
    dashes_to_dots(if ends_with(l, seq!['-']) { l.drop_last() } else { l })
}

/// A runner version `<version>-proton-<family>` split at the first
/// `proton-`: its version part and the family part from `proton-` on.
pub open spec fn runner_split(s: Seq<char>) -> Option<(Seq<char>, Seq<char>)> {
    match find(s, "proton-"@) {
        Some(i) => Some((runner_version_part(s.take(i)), s.skip(i))),
        None => None,
    }
}

/// Whether `min_version`, a required minimum, is of family `family` and
/// newer than version part `cand`.
pub open spec fn below_minimum(cand: Seq<char>, family: Seq<char>, min_version: Seq<char>) -> bool {
    match runner_split(min_version) {
        Some((ver, fam)) => fam == family && version_lt(cand, ver),
        None => false,
    }
}

/// Whether `runner` is lower than some minimum of its own family in `mins`.
pub open spec fn runner_is_lower(mins: Seq<String>, runner: Seq<char>) -> bool {
    match runner_split(runner) {
        Some((cand, family)) => exists|k: int| 0 <= k < mins.len() && below_minimum(cand, family, #[trigger] mins[k]@),
        None => false,
    }
}

fn runner_split_exec(s: &str) -> (r: Option<(Vec<char>, Vec<char>)>)
    ensures
        match r {
            Some((a, b)) => runner_split(s@) == Some((a@, b@)),
            None => runner_split(s@) is None,
        },
{
    let v = chars_of(s);
    let needle = chars_of("proton-");
    match find_exec(v.as_slice(), needle.as_slice()) {
        None => None,
        Some(i) => {
            let left = crate::text::slice_chars(v.as_slice(), 0, i);
            let right = crate::text::slice_chars(v.as_slice(), i, v.len());
            assert(left@ =~= v@.take(i as int));
            assert(right@ =~= v@.skip(i as int));
            let dash: Vec<char> = vec!['-'];
            let trimmed = if crate::text::ends_with_exec(left.as_slice(), dash.as_slice()) {
                crate::text::slice_chars(left.as_slice(), 0, left.len() - 1)
            } else {
                left
            };
            assert(dash@ =~= seq!['-']);
            let ver = dashes_to_dots_exec(trimmed.as_slice());
            Some((ver, right))
        },
    }
}

/// Whether version `a` is older than version `b`.
fn version_is_less(a: &str, b: &str) -> (r: bool)
    ensures
        r == version_lt(a@, b@),
{
    match compare_version(a, b) {
        Ordering::Less => true,
        _ => false,
    }
}

/// Whether the runner version `runner_version` (`<version>-proton-<family>`)
/// is older than one of the minimum versions of the same family in
/// `min_runner_versions`; false when it has no `proton-` family.
pub fn is_runner_lower(min_runner_versions: Vec<String>, runner_version: String) -> (r: bool)
    ensures
        r == runner_is_lower(min_runner_versions@, runner_version@),
{
    let (cand, family) = match runner_split_exec(runner_version.as_str()) {
        None => {
            return false;
        },
        Some(x) => x,
    };
    let cand_s = crate::text::string_from(cand.as_slice());
    let mut k: usize = 0;
    while k < min_runner_versions.len()
        invariant
            k <= min_runner_versions@.len(),
            runner_split(runner_version@) == Some((cand@, family@)),
            cand_s@ == cand@,
            forall|j: int| 0 <= j < k ==> !below_minimum(cand@, family@, #[trigger] min_runner_versions@[j]@),
        decreases min_runner_versions.len() - k,
    {
        match runner_split_exec(min_runner_versions[k].as_str()) {
            None => {},
            Some((ver, fam)) => {
                if chars_eq(fam.as_slice(), family.as_slice()) {
                    let ver_s = crate::text::string_from(ver.as_slice());
                    if version_is_less(cand_s.as_str(), ver_s.as_str()) {
                        assert(below_minimum(cand@, family@, min_runner_versions@[k as int]@));
                        return true;
                    }
                }
            },
        }
        k = k + 1;
    }
    false
}

/// The family part of a runner version: from its last `proton-` on.
pub open spec fn family_suffix(s: Seq<char>) -> Option<Seq<char>> {
    match rfind(s, "proton-"@) {
        Some(i) => Some(s.skip(i)),
        None => None,
    }
}

fn family_suffix_exec(s: &str) -> (r: Option<Vec<char>>)
    ensures
        match r {
            Some(a) => family_suffix(s@) == Some(a@),
            None => family_suffix(s@) is None,
        },
{
    let v = chars_of(s);
    let needle = chars_of("proton-");
    match rfind_exec(v.as_slice(), needle.as_slice()) {
        None => None,
        Some(i) => {
            let tail = crate::text::slice_chars(v.as_slice(), i, v.len());
            assert(tail@ =~= v@.skip(i as int));
            Some(tail)
        },
    }
}

/// Whether the installed runner is of the family that the override
/// requires: both have a `proton-` family and the families are equal.
pub fn is_using_overriden_runner(installed_runner: String, override_runner: String) -> (r: bool)
    ensures
        r == match (family_suffix(override_runner@), family_suffix(installed_runner@)) {
            (Some(o), Some(i)) => o == i,
            _ => false,
        },
{
    let override_family = match family_suffix_exec(override_runner.as_str()) {
        Some(f) => f,
        None => {
            return false;
        },
    };
    let installed_family = match family_suffix_exec(installed_runner.as_str()) {
        Some(f) => f,
        None => {
            return false;
        },
    };
    chars_eq(installed_family.as_slice(), override_family.as_slice())
}

// ---------------------------------------------------------------------------
// The launcher's own releases
// ---------------------------------------------------------------------------

/// How the running launcher stands against its newest release.
#[derive(Clone, Copy, Debug, PartialEq, Eq, Structural)]
pub enum UpdateNotice {
    /// A newer release exists: the user is told to update.
    Outdated,
    /// The running launcher is the newest release.
    Current,
    /// The running launcher is newer than any release (a development build).
    Newer,
}

/// The notice for running version `current` when the newest release is
/// tagged `tag` (`ttl-v` before the version).
pub open spec fn update_notice_of(current: Seq<char>, tag: Seq<char>) -> UpdateNotice {
    match version_order(current, crate::text::replaced(tag, "ttl-v"@, Seq::empty())) {
        Ordering::Less => UpdateNotice::Outdated,
        Ordering::Equal => UpdateNotice::Current,
        Ordering::Greater => UpdateNotice::Newer,
    }
}

/// Works out how the running launcher stands against its newest release.
pub fn update_notice(current: &str, tag: &str) -> (r: UpdateNotice)
    ensures
        r == update_notice_of(current@, tag@),
{
    let empty: Vec<char> = Vec::new();
    let marker = chars_of("ttl-v");
    let released = crate::text::replace_all(chars_of(tag).as_slice(), marker.as_slice(), empty.as_slice());
    assert(empty@ =~= Seq::<char>::empty());
    let released = crate::text::string_from(released.as_slice());
    match compare_version(current, released.as_str()) {
        Ordering::Less => UpdateNotice::Outdated,
        Ordering::Equal => UpdateNotice::Current,
        Ordering::Greater => UpdateNotice::Newer,
    }
}

} // verus!
