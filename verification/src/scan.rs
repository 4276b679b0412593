//! Scanning text that other programs wrote: game logs (for the gacha
//! history link and its authkey), `VERSION.txt` files of extra packages and
//! the `VERSIONS.txt` of the Steam Linux Runtime.

use vstd::prelude::*;
use crate::text::{
    ascii_lower, ascii_upper, chars_eq, chars_of, contains, contains_exec,
    count_char, count_char_exec, find_exec, find_from, find_from_exec, is_digit, is_ws,
    is_ws_exec, lemma_find_from, lower, slice_chars, starts_with, starts_with_exec,
    string_from, trim, trim_exec, upper, words, words_exec,
};

verus! {

// ---------------------------------------------------------------------------
// Links with an authkey
// ---------------------------------------------------------------------------

/// The text every link starts with.
pub open spec fn https_prefix() -> Seq<char> {
    seq!['h', 't', 't', 'p', 's', ':', '/', '/']
}

/// The text that marks a link as carrying an authkey.
pub open spec fn authkey_marker() -> Seq<char> {
    seq!['a', 'u', 't', 'h', 'k', 'e', 'y', '=']
}

/// A character that ends a link in a log line.
pub open spec fn ends_link(c: char) -> bool {
    is_ws(c) || c == '"' || c == '\'' || c == '<' || c == '>'
}

/// The length of the link at the start of `s`: up to the first character
/// that ends a link, or all of `s`.
pub open spec fn link_len(s: Seq<char>) -> int
    decreases s.len(),
{
    if s.len() == 0 {
        0
    } else if ends_link(s[0]) {
        0
    } else {
        1 + link_len(s.drop_first())
    }
}

proof fn lemma_link_len(s: Seq<char>)
    ensures
        0 <= link_len(s) <= s.len(),
        forall|j: int| 0 <= j < link_len(s) ==> !ends_link(#[trigger] s[j]),
        link_len(s) < s.len() ==> ends_link(s[link_len(s)]),
    decreases s.len(),
{
    if s.len() > 0 && !ends_link(s[0]) {
        let t = s.drop_first();
        lemma_link_len(t);
        assert forall|j: int| 0 <= j < link_len(s) implies !ends_link(#[trigger] s[j]) by {
            if j > 0 {
                assert(s[j] == t[j - 1]);
            }
        }
        if link_len(s) < s.len() {
            assert(s[link_len(s)] == t[link_len(t)]);
        }
    }
}

/// The links in `c` found from position `offset` on that carry an authkey,
/// in order: each starts at an `https://`, runs to the first character that
/// ends a link, and the search goes on right after that `https://`.
pub open spec fn authkey_links_from(c: Seq<char>, offset: int) -> Seq<Seq<char>>
    decreases c.len() - offset,
{
    if offset < 0 {
        Seq::empty()
    } else {
        match find_from(c, https_prefix(), offset) {
            None => Seq::empty(),
            Some(start) => {
                proof {
                    lemma_find_from(c, https_prefix(), offset);
                }
                let rest_text = c.subrange(start, c.len() as int);
                let url = rest_text.take(link_len(rest_text));
                let later = authkey_links_from(c, start + 8);
                if contains(url, authkey_marker()) {
                    seq![url] + later
                } else {
                    later
                }
            },
        }
    }
}

/// The links in `content` that carry an authkey, in the order they appear.
pub fn collect_authkey_urls(content: &str) -> (r: Vec<String>)
    ensures
        r@.len() == authkey_links_from(content@, 0).len(),
        forall|k: int| 0 <= k < r@.len() ==> #[trigger] r@[k]@ == authkey_links_from(content@, 0)[k],
{
    let v = chars_of(content);
    let prefix: Vec<char> = vec!['h', 't', 't', 'p', 's', ':', '/', '/'];
    let marker: Vec<char> = vec!['a', 'u', 't', 'h', 'k', 'e', 'y', '='];
    assert(prefix@ =~= https_prefix());
    assert(marker@ =~= authkey_marker());
    let mut found: Vec<String> = Vec::new();
    let mut offset: usize = 0;
    let ghost all = authkey_links_from(v@, 0);
    loop
        invariant
            offset <= v@.len() + 8,
            prefix@ == https_prefix(),
            marker@ == authkey_marker(),
            v@ == content@,
            all == authkey_links_from(v@, 0),
            all.len() == found@.len() + authkey_links_from(v@, offset as int).len(),
            forall|k: int| 0 <= k < found@.len() ==> #[trigger] found@[k]@ == all[k],
            forall|k: int|
                0 <= k < authkey_links_from(v@, offset as int).len() ==> #[trigger] authkey_links_from(
                    v@,
                    offset as int,
                )[k] == all[found@.len() + k],
        decreases v@.len() + 8 - offset,
    {
        let start = match find_from_exec(v.as_slice(), prefix.as_slice(), offset) {
            None => {
                return found;
            },
            Some(s) => s,
        };
        let ghost rest_text = v@.subrange(start as int, v@.len() as int);
        proof {
            lemma_link_len(rest_text);
        }
        let mut end: usize = start;
        while end < v.len() && !(is_ws_exec(v[end]) || v[end] == '"' || v[end] == '\'' || v[end] == '<' || v[end] == '>')
            invariant
                start <= end <= v@.len(),
                rest_text == v@.subrange(start as int, v@.len() as int),
                forall|j: int| start <= j < end ==> !ends_link(#[trigger] v@[j]),
                0 <= link_len(rest_text) <= rest_text.len(),
                forall|j: int| 0 <= j < link_len(rest_text) ==> !ends_link(#[trigger] rest_text[j]),
                link_len(rest_text) < rest_text.len() ==> ends_link(rest_text[link_len(rest_text)]),
            decreases v@.len() - end,
        {
            end = end + 1;
        }
        proof {
            let l = link_len(rest_text);
            if l < end - start {
                assert(rest_text[l] == v@[start + l]);
            }
            if end - start < l {
                assert(rest_text[end - start] == v@[end as int]);
            }
            assert(l == end - start);
        }
        let url = slice_chars(v.as_slice(), start, end);
        assert(url@ =~= rest_text.take(link_len(rest_text)));
        let ghost later = authkey_links_from(v@, start + 8);
        if contains_exec(url.as_slice(), marker.as_slice()) {
            assert(authkey_links_from(v@, offset as int) =~= seq![url@] + later);
            assert(authkey_links_from(v@, offset as int)[0] == url@);
            assert(all[found@.len() + 0int] == url@);
            found.push(string_from(url.as_slice()));
            proof {
                assert forall|k: int| 0 <= k < later.len() implies #[trigger] later[k] == all[found@.len() + k] by {
                    assert(authkey_links_from(v@, offset as int)[k + 1] == later[k]);
                }
            }
        } else {
            assert(authkey_links_from(v@, offset as int) == later);
        }
        offset = start + 8;
    }
}

/// The hint that marks a gacha history link.
pub open spec fn gacha_hint() -> Seq<char> {
    "webview_gacha"@
}

/// The authkey links of `content` worth reading, most recent first: those
/// whose lower-cased text mentions the gacha web view.
pub open spec fn gacha_links(links: Seq<Seq<char>>) -> Seq<Seq<char>>
    decreases links.len(),
{
    if links.len() == 0 {
        links
    } else {
        let rest = gacha_links(links.drop_last());
        if contains(lower(links.last()), gacha_hint()) {
            seq![links.last()] + rest
        } else {
            rest
        }
    }
}

/// The links of `content` in which to look for an authkey, last first:
/// the authkey links that lead to the gacha history.
pub fn authkey_link_candidates(content: &str) -> (r: Vec<String>)
    ensures
        r@.len() == gacha_links(authkey_links_from(content@, 0)).len(),
        forall|k: int| 0 <= k < r@.len() ==> #[trigger] r@[k]@ == gacha_links(authkey_links_from(content@, 0))[k],
{
    let links = collect_authkey_urls(content);
    let ghost ls = authkey_links_from(content@, 0);
    let hint = chars_of("webview_gacha");
    let mut r: Vec<String> = Vec::new();
    let mut i: usize = 0;
    while i < links.len()
        invariant
            i <= links@.len(),
            links@.len() == ls.len(),
            hint@ == gacha_hint(),
            forall|k: int| 0 <= k < links@.len() ==> #[trigger] links@[k]@ == ls[k],
            r@.len() == gacha_links(ls.take(i as int)).len(),
            forall|k: int| 0 <= k < r@.len() ==> #[trigger] r@[k]@ == gacha_links(ls.take(i as int))[k],
        decreases links.len() - i,
    {
        proof {
            assert(ls.take(i + 1).drop_last() =~= ls.take(i as int));
            assert(ls.take(i + 1).last() == ls[i as int]);
        }
        let lowered = ascii_lower(chars_of(links[i].as_str()).as_slice());
        if contains_exec(lowered.as_slice(), hint.as_slice()) {
            let ghost old_r = r@;
            r.insert(0, links[i].clone());
            proof {
                let g = gacha_links(ls.take(i + 1));
                assert forall|k: int| 0 <= k < r@.len() implies #[trigger] r@[k]@ == g[k] by {
                    if k > 0 {
                        assert(r@[k] == old_r[k - 1]);
                    }
                }
            }
        }
        i = i + 1;
    }
    assert(ls.take(ls.len() as int) =~= ls);
    r
}

/// The number of bytes that `c` takes in UTF-8.
pub open spec fn utf8_len(c: char) -> nat {
    if (c as u32) < 0x80 {
        1
    } else if (c as u32) < 0x800 {
        2
    } else if (c as u32) < 0x10000 {
        3
    } else {
        4
    }
}

/// The number of bytes that `s` takes in UTF-8 (`str::len`).
pub open spec fn utf8_size(s: Seq<char>) -> nat
    decreases s.len(),
{
    if s.len() == 0 {
        0
    } else {
        utf8_size(s.drop_last()) + utf8_len(s.last())
    }
}

pub(crate) fn utf8_size_over(v: &[char], limit: usize) -> (r: bool)
    ensures
        r == (utf8_size(v@) > limit),
{
    let mut n: usize = 0;
    let mut i: usize = 0;
    while i < v.len()
        invariant
            i <= v.len(),
            n == utf8_size(v@.take(i as int)),
            n <= limit,
        decreases v.len() - i,
    {
        proof {
            assert(v@.take(i + 1).drop_last() =~= v@.take(i as int));
        }
        let c = v[i];
        let w: usize = if (c as u32) < 0x80 {
            1
        } else if (c as u32) < 0x800 {
            2
        } else if (c as u32) < 0x10000 {
            3
        } else {
            4
        };
        if w > limit - n {
            proof {
                lemma_utf8_size_prefix(v@, i + 1);
            }
            return true;
        }
        n = n + w;
        i = i + 1;
    }
    assert(v@.take(v.len() as int) =~= v@);
    false
}

proof fn lemma_utf8_size_prefix(s: Seq<char>, k: int)
    requires
        0 <= k <= s.len(),
    ensures
        utf8_size(s.take(k)) <= utf8_size(s),
    decreases s.len() - k,
{
    if k < s.len() {
        lemma_utf8_size_prefix(s, k + 1);
        assert(s.take(k + 1).drop_last() =~= s.take(k));
    } else {
        assert(s.take(k) =~= s);
    }
}

/// The first authkey among the query pairs of a link: the value of the
/// first key equal to `authkey` ignoring ASCII case whose value is longer
/// than ten bytes.
pub open spec fn authkey_in(pairs: Seq<(String, String)>) -> Option<Seq<char>>
    decreases pairs.len(),
{
    if pairs.len() == 0 {
        None
    } else if lower(pairs[0].0@) == "authkey"@ && utf8_size(pairs[0].1@) > 10 {
        Some(pairs[0].1@)
    } else {
        authkey_in(pairs.drop_first())
    }
}

/// The authkey among the decoded query pairs of a link, if any.
pub fn authkey_from_query_pairs(pairs: &Vec<(String, String)>) -> (r: Option<String>)
    ensures
        match r {
            Some(s) => authkey_in(pairs@) == Some(s@),
            None => authkey_in(pairs@) is None,
        },
{
    let key = chars_of("authkey");
    let mut i: usize = 0;
    assert(pairs@.skip(0) =~= pairs@);
    while i < pairs.len()
        invariant
            i <= pairs@.len(),
            key@ == "authkey"@,
            authkey_in(pairs@) == authkey_in(pairs@.skip(i as int)),
        decreases pairs.len() - i,
    {
        let ghost rest = pairs@.skip(i as int);
        assert(rest[0] == pairs@[i as int]);
        let k = ascii_lower(chars_of(pairs[i].0.as_str()).as_slice());
        let val = chars_of(pairs[i].1.as_str());
        if chars_eq(k.as_slice(), key.as_slice()) && utf8_size_over(val.as_slice(), 10) {
            return Some(pairs[i].1.clone());
        }
        assert(rest.drop_first() =~= pairs@.skip(i + 1));
        i = i + 1;
    }
    None
}

// ---------------------------------------------------------------------------
// Version files
// ---------------------------------------------------------------------------

/// The value of `KEY=value` on one line for package `name`, keys compared
/// trimmed and ignoring ASCII case, values trimmed.
pub open spec fn package_line_value(line: Seq<char>, name: Seq<char>) -> Option<Seq<char>> {
    match crate::text::find(line, seq!['=']) {
        Some(i) => if upper(trim(line.take(i))) == upper(name) {
            Some(trim(line.skip(i + 1)))
        } else {
            None
        },
        None => None,
    }
}

/// The version that the first line for package `name` gives.
pub open spec fn package_version_in(lines: Seq<String>, name: Seq<char>) -> Option<Seq<char>>
    decreases lines.len(),
{
    if lines.len() == 0 {
        None
    } else {
        match package_line_value(lines[0]@, name) {
            Some(v) => Some(v),
            None => package_version_in(lines.drop_first(), name),
        }
    }
}

/// The version of package `package_name` that the lines of a version file
/// give (`NAME=version`), if any line names it.
pub fn find_package_version(lines: &Vec<String>, package_name: &str) -> (r: Option<String>)
    ensures
        match r {
            Some(s) => package_version_in(lines@, package_name@) == Some(s@),
            None => package_version_in(lines@, package_name@) is None,
        },
{
    let want = ascii_upper(chars_of(package_name).as_slice());
    let eq: Vec<char> = vec!['='];
    assert(eq@ =~= seq!['=']);
    let mut i: usize = 0;
    assert(lines@.skip(0) =~= lines@);
    while i < lines.len()
        invariant
            i <= lines@.len(),
            want@ == upper(package_name@),
            eq@ == seq!['='],
            package_version_in(lines@, package_name@) == package_version_in(lines@.skip(i as int), package_name@),
        decreases lines.len() - i,
    {
        let ghost rest = lines@.skip(i as int);
        assert(rest[0] == lines@[i as int]);
        let line = chars_of(lines[i].as_str());
        let found_eq = find_exec(line.as_slice(), eq.as_slice());
        match found_eq {
            Some(k) => {
                assert(eq@.len() == 1);
                assert(k + eq@.len() <= line@.len());
                assert(line@.len() == line.len());
                assert(k + 1 <= line.len());
                let key = slice_chars(line.as_slice(), 0, k);
                let value = slice_chars(line.as_slice(), k + 1, line.len());
                assert(key@ =~= line@.take(k as int));
                assert(value@ =~= line@.skip(k + 1));
                let key_up = ascii_upper(trim_exec(key.as_slice()).as_slice());
                if chars_eq(key_up.as_slice(), want.as_slice()) {
                    return Some(string_from(trim_exec(value.as_slice()).as_slice()));
                }
            },
            None => {},
        }
        assert(rest.drop_first() =~= lines@.skip(i + 1));
        i = i + 1;
    }
    None
}

/// A word of `VERSIONS.txt` that reads as a runtime version: it starts with
/// `3.`, or it starts with `4.`, has at least three dots and holds only
/// digits and dots.
pub open spec fn is_runtime_version(w: Seq<char>) -> bool {
    starts_with(w, seq!['3', '.']) || (starts_with(w, seq!['4', '.']) && count_char(w, '.') >= 3
        && forall|i: int| 0 <= i < w.len() ==> is_digit(#[trigger] w[i]) || w[i] == '.')
}

/// The first runtime version among the words of `ws`.
pub open spec fn first_runtime_version(ws: Seq<Seq<char>>) -> Option<Seq<char>>
    decreases ws.len(),
{
    if ws.len() == 0 {
        None
    } else if is_runtime_version(ws[0]) {
        Some(ws[0])
    } else {
        first_runtime_version(ws.drop_first())
    }
}

/// The Steam Linux Runtime version named in the lines of `VERSIONS.txt`.
pub open spec fn steamrt_version_in(lines: Seq<String>) -> Option<Seq<char>>
    decreases lines.len(),
{
    if lines.len() == 0 {
        None
    } else {
        match first_runtime_version(words(lines[0]@)) {
            Some(v) => Some(v),
            None => steamrt_version_in(lines.drop_first()),
        }
    }
}

fn is_runtime_version_exec(w: &[char]) -> (r: bool)
    ensures
        r == is_runtime_version(w@),
{
    let three: Vec<char> = vec!['3', '.'];
    let four: Vec<char> = vec!['4', '.'];
    assert(three@ =~= seq!['3', '.']);
    assert(four@ =~= seq!['4', '.']);
    if starts_with_exec(w, three.as_slice()) {
        return true;
    }
    if !starts_with_exec(w, four.as_slice()) || count_char_exec(w, '.') < 3 {
        return false;
    }
    let mut i: usize = 0;
    while i < w.len()
        invariant
            i <= w.len(),
            !starts_with(w@, seq!['3', '.']),
            starts_with(w@, seq!['4', '.']),
            count_char(w@, '.') >= 3,
            forall|j: int| 0 <= j < i ==> is_digit(#[trigger] w@[j]) || w@[j] == '.',
        decreases w.len() - i,
    {
        let c = w[i];
        if !(('0' <= c && c <= '9') || c == '.') {
            assert(!(is_digit(w@[i as int]) || w@[i as int] == '.'));
            return false;
        }
        i = i + 1;
    }
    true
}

/// The Steam Linux Runtime version named in the lines of its `VERSIONS.txt`:
/// the first word that reads as one, or the empty text.
pub fn find_steamrt_version(lines: &Vec<String>) -> (r: String)
    ensures
        r@ == match steamrt_version_in(lines@) {
            Some(v) => v,
            None => Seq::empty(),
        },
{
    let mut i: usize = 0;
    assert(lines@.skip(0) =~= lines@);
    while i < lines.len()
        invariant
            i <= lines@.len(),
            steamrt_version_in(lines@) == steamrt_version_in(lines@.skip(i as int)),
        decreases lines.len() - i,
    {
        let ghost rest = lines@.skip(i as int);
        assert(rest[0] == lines@[i as int]);
        let line = chars_of(lines[i].as_str());
        let ws = words_exec(line.as_slice());
        let ghost wsv = words(line@);
        let mut k: usize = 0;
        assert(wsv.skip(0) =~= wsv);
        while k < ws.len()
            invariant
                k <= ws@.len(),
                i < lines@.len(),
                rest == lines@.skip(i as int),
                rest[0]@ == line@,
                wsv == words(line@),
                steamrt_version_in(lines@) == steamrt_version_in(rest),
                ws@.len() == wsv.len(),
                forall|m: int| 0 <= m < ws@.len() ==> #[trigger] ws@[m]@ == wsv[m],
                first_runtime_version(wsv) == first_runtime_version(wsv.skip(k as int)),
            decreases ws.len() - k,
        {
            let ghost wrest = wsv.skip(k as int);
            assert(wrest[0] == wsv[k as int]);
            if is_runtime_version_exec(ws[k].as_slice()) {
                return string_from(ws[k].as_slice());
            }
            assert(wrest.drop_first() =~= wsv.skip(k + 1));
            k = k + 1;
        }
        assert(rest.drop_first() =~= lines@.skip(i + 1));
        i = i + 1;
    }
    String::new()
}

} // verus!
