//! Character-level text handling shared by the launcher's parsers: searching,
//! splitting, trimming, case folding and decimal numbers, each with the
//! mathematical definition that the rest of the library states its contracts in.

use vstd::prelude::*;

verus! {

// ---------------------------------------------------------------------------
// Bridges between `str` / `String` and character vectors
// ---------------------------------------------------------------------------

/// The characters of `s`, in order.
pub fn chars_of(s: &str) -> (r: Vec<char>)
    ensures
        r@ == s@,
{
    broadcast use vstd::string::axiom_spec_iter;
    let mut r: Vec<char> = Vec::new();
    for c in it: s.chars()
        invariant
            it.seq() == s@,
            r@ == s@.take(it.index()),
    {
        r.push(c);
        assert(r@ =~= s@.take(it.index() + 1));
    }
    assert(r@ =~= s@);
    r
}

/// A string made of the characters of `v` (`FromIterator<&char>` for `String`).
/// Claimed: the string holds exactly the characters of `v`, in order.
#[verifier::external_body]
pub(crate) fn string_from(v: &[char]) -> (r: String)
    ensures
        r@ == v@,
{
    v.iter().collect()
}

/// A copy of a string slice as an owned string.
pub fn owned(s: &str) -> (r: String)
    ensures
        r@ == s@,
{
    s.to_owned()
}

/// Equality of two string slices: true exactly when both hold the same
/// characters.
pub(crate) fn str_eq(a: &str, b: &str) -> (r: bool)
    ensures
        r == (a@ == b@),
{
    let x: String = a.to_owned();
    let y: String = b.to_owned();
    x == y
}

/// A copy of a character vector, element by element.
pub fn copy_chars(v: &[char]) -> (r: Vec<char>)
    ensures
        r@ == v@,
{
    let mut r: Vec<char> = Vec::new();
    let mut i: usize = 0;
    while i < v.len()
        invariant
            i <= v.len(),
            r@ == v@.take(i as int),
        decreases v.len() - i,
    {
        r.push(v[i]);
        i = i + 1;
        assert(r@ =~= v@.take(i as int));
    }
    assert(v@.take(v.len() as int) =~= v@);
    r
}

/// The characters `v[from..to]` as a new vector.
pub fn slice_chars(v: &[char], from: usize, to: usize) -> (r: Vec<char>)
    requires
        from <= to <= v.len(),
    ensures
        r@ == v@.subrange(from as int, to as int),
{
    let mut r: Vec<char> = Vec::new();
    let mut i: usize = from;
    while i < to
        invariant
            from <= i <= to <= v.len(),
            r@ == v@.subrange(from as int, i as int),
        decreases to - i,
    {
        r.push(v[i]);
        i = i + 1;
        assert(r@ =~= v@.subrange(from as int, i as int));
    }
    r
}

/// `a` followed by `b`, as a new vector.
pub fn concat_chars(a: &[char], b: &[char]) -> (r: Vec<char>)
    ensures
        r@ == a@ + b@,
{
    let mut r = copy_chars(a);
    let mut i: usize = 0;
    while i < b.len()
        invariant
            i <= b.len(),
            r@ == a@ + b@.take(i as int),
        decreases b.len() - i,
    {
        r.push(b[i]);
        i = i + 1;
        assert(r@ =~= a@ + b@.take(i as int));
    }
    assert(b@.take(b.len() as int) =~= b@);
    r
}

/// Equality of two character slices.
pub fn chars_eq(a: &[char], b: &[char]) -> (r: bool)
    ensures
        r == (a@ == b@),
{
    if a.len() != b.len() {
        return false;
    }
    let mut i: usize = 0;
    while i < a.len()
        invariant
            a.len() == b.len(),
            i <= a.len(),
            forall|j: int| 0 <= j < i ==> a@[j] == b@[j],
        decreases a.len() - i,
    {
        if a[i] != b[i] {
            return false;
        }
        i = i + 1;
    }
    assert(a@ =~= b@);
    true
}

// ---------------------------------------------------------------------------
// ASCII case folding
// ---------------------------------------------------------------------------

/// ASCII lower-casing of one character: `A`..`Z` become `a`..`z`, everything
/// else is kept.
pub open spec fn lower_char(c: char) -> char {
    if 'A' <= c && c <= 'Z' {
        ((c as u32) + 32) as char
    } else {
        c
    }
}

/// ASCII lower-casing of a character sequence.
pub open spec fn lower(s: Seq<char>) -> Seq<char> {
    s.map_values(|c: char| lower_char(c))
}

/// One character folded to ASCII lower case (as `char::to_ascii_lowercase`).
pub(crate) fn ascii_lower_char(c: char) -> (r: char)
    ensures
        r == lower_char(c),
{
    if 'A' <= c && c <= 'Z' {
        let b: u8 = c as u8;
        (b + 32) as char
    } else {
        c
    }
}

/// The ASCII lower-case form of a character slice.
pub fn ascii_lower(v: &[char]) -> (r: Vec<char>)
    ensures
        r@ == lower(v@),
{
    let mut r: Vec<char> = Vec::new();
    let mut i: usize = 0;
    while i < v.len()
        invariant
            i <= v.len(),
            r@ == lower(v@.take(i as int)),
        decreases v.len() - i,
    {
        let c = ascii_lower_char(v[i]);
        r.push(c);
        i = i + 1;
        assert(r@ =~= lower(v@.take(i as int)));
    }
    assert(v@.take(v.len() as int) =~= v@);
    r
}

/// ASCII upper-casing of one character: `a`..`z` become `A`..`Z`, everything
/// else is kept.
pub open spec fn upper_char(c: char) -> char {
    if 'a' <= c && c <= 'z' {
        ((c as u32) - 32) as char
    } else {
        c
    }
}

/// ASCII upper-casing of a character sequence.
pub open spec fn upper(s: Seq<char>) -> Seq<char> {
    s.map_values(|c: char| upper_char(c))
}

/// One character folded to ASCII upper case (as `char::to_ascii_uppercase`).
pub(crate) fn ascii_upper_char(c: char) -> (r: char)
    ensures
        r == upper_char(c),
{
    if 'a' <= c && c <= 'z' {
        let b: u8 = c as u8;
        (b - 32) as char
    } else {
        c
    }
}

/// The ASCII upper-case form of a character slice.
pub fn ascii_upper(v: &[char]) -> (r: Vec<char>)
    ensures
        r@ == upper(v@),
{
    let mut r: Vec<char> = Vec::new();
    let mut i: usize = 0;
    while i < v.len()
        invariant
            i <= v.len(),
            r@ == upper(v@.take(i as int)),
        decreases v.len() - i,
    {
        let c = ascii_upper_char(v[i]);
        r.push(c);
        i = i + 1;
        assert(r@ =~= upper(v@.take(i as int)));
    }
    assert(v@.take(v.len() as int) =~= v@);
    r
}

// ---------------------------------------------------------------------------
// Searching
// ---------------------------------------------------------------------------

/// `n` occurs in `h` starting at index `i`.
pub open spec fn occurs_at(h: Seq<char>, n: Seq<char>, i: int) -> bool {
    0 <= i && i + n.len() <= h.len() && h.subrange(i, i + n.len()) == n
}

/// The first index at or after `start` at which `n` occurs in `h`.
pub open spec fn find_from(h: Seq<char>, n: Seq<char>, start: int) -> Option<int>
    decreases h.len() + 1 - start,
{
    if start < 0 || start + n.len() > h.len() {
        None
    } else if occurs_at(h, n, start) {
        Some(start)
    } else {
        find_from(h, n, start + 1)
    }
}

/// The first index at which `n` occurs in `h` (`str::find`).
pub open spec fn find(h: Seq<char>, n: Seq<char>) -> Option<int> {
    find_from(h, n, 0)
}

/// `n` occurs somewhere in `h` (`str::contains`).
pub open spec fn contains(h: Seq<char>, n: Seq<char>) -> bool {
    find(h, n) is Some
}

/// The last index below `end` (exclusive) at which `n` occurs in `h`,
/// looking at start positions `end - 1`, `end - 2`, ... down to 0.
pub open spec fn rfind_below(h: Seq<char>, n: Seq<char>, end: int) -> Option<int>
    decreases end,
{
    if end <= 0 {
        None
    } else if occurs_at(h, n, end - 1) {
        Some(end - 1)
    } else {
        rfind_below(h, n, end - 1)
    }
}

/// The last index at which `n` occurs in `h` (`str::rfind`).
pub open spec fn rfind(h: Seq<char>, n: Seq<char>) -> Option<int> {
    rfind_below(h, n, h.len() + 1int)
}

/// `h` begins with `p`.
pub open spec fn starts_with(h: Seq<char>, p: Seq<char>) -> bool {
    p.len() <= h.len() && h.subrange(0, p.len() as int) == p
}

/// `h` ends with `p`.
pub open spec fn ends_with(h: Seq<char>, p: Seq<char>) -> bool {
    p.len() <= h.len() && h.subrange(h.len() - p.len(), h.len() as int) == p
}

/// A found position is one at which `n` occurs, at or after `start`.
pub proof fn lemma_find_from(h: Seq<char>, n: Seq<char>, start: int)
    ensures
        find_from(h, n, start) matches Some(i) ==> start <= i && occurs_at(h, n, i),
    decreases h.len() + 1 - start,
{
    if !(start < 0 || start + n.len() > h.len()) && !occurs_at(h, n, start) {
        lemma_find_from(h, n, start + 1);
    }
}

/// A position found from the back is one at which `n` occurs, below `end`.
pub proof fn lemma_rfind_below(h: Seq<char>, n: Seq<char>, end: int)
    ensures
        rfind_below(h, n, end) matches Some(i) ==> 0 <= i < end && occurs_at(h, n, i),
    decreases end,
{
    if end > 0 && !occurs_at(h, n, end - 1) {
        lemma_rfind_below(h, n, end - 1);
    }
}

/// `s` with each occurrence of `from`, found left to right without overlap,
/// replaced by `to`; an empty `from` puts `to` before every character and at
/// the end (`str::replace`).
pub open spec fn replaced(s: Seq<char>, from: Seq<char>, to: Seq<char>) -> Seq<char>
    decreases s.len(),
{
    if from.len() == 0 {
        if s.len() == 0 {
            to
        } else {
            to + seq![s[0]] + replaced(s.drop_first(), from, to)
        }
    } else if occurs_at(s, from, 0) {
        to + replaced(s.subrange(from.len() as int, s.len() as int), from, to)
    } else if s.len() == 0 {
        s
    } else {
        seq![s[0]] + replaced(s.drop_first(), from, to)
    }
}

/// Whether `n` occurs in `h` at index `i`.
pub fn occurs_at_exec(h: &[char], n: &[char], i: usize) -> (r: bool)
    ensures
        r == occurs_at(h@, n@, i as int),
{
    if i > h.len() || n.len() > h.len() - i {
        return false;
    }
    let mut k: usize = 0;
    while k < n.len()
        invariant
            i + n.len() <= h.len(),
            k <= n.len(),
            forall|j: int| 0 <= j < k ==> h@[i + j] == n@[j],
        decreases n.len() - k,
    {
        if h[i + k] != n[k] {
            assert(h@.subrange(i as int, i + n.len())[k as int] != n@[k as int]);
            return false;
        }
        k = k + 1;
    }
    assert(h@.subrange(i as int, i + n.len()) =~= n@);
    true
}

/// The first occurrence of `n` in `h` at or after `start`.
pub fn find_from_exec(h: &[char], n: &[char], start: usize) -> (r: Option<usize>)
    ensures
        r matches Some(i) ==> find_from(h@, n@, start as int) == Some(i as int),
        r matches Some(i) ==> start <= i && i + n@.len() <= h@.len() && occurs_at(h@, n@, i as int),
        r is None ==> find_from(h@, n@, start as int) is None,
{
    proof {
        lemma_find_from(h@, n@, start as int);
    }
    if n.len() > h.len() || start > h.len() - n.len() {
        return None;
    }
    let last: usize = h.len() - n.len();
    let mut i: usize = start;
    while i <= last
        invariant
            start <= i,
            last == h.len() - n.len(),
            find_from(h@, n@, start as int) == find_from(h@, n@, i as int),
        decreases last + 1 - i,
    {
        if occurs_at_exec(h, n, i) {
            return Some(i);
        }
        if i == last {
            assert(find_from(h@, n@, i + 1) is None);
            return None;
        }
        i = i + 1;
    }
    None
}

/// The first occurrence of `n` in `h`.
pub fn find_exec(h: &[char], n: &[char]) -> (r: Option<usize>)
    ensures
        r matches Some(i) ==> find(h@, n@) == Some(i as int),
        r matches Some(i) ==> i + n@.len() <= h@.len() && occurs_at(h@, n@, i as int),
        r is None ==> find(h@, n@) is None,
{
    find_from_exec(h, n, 0)
}

/// Whether `n` occurs in `h`.
pub fn contains_exec(h: &[char], n: &[char]) -> (r: bool)
    ensures
        r == contains(h@, n@),
{
    find_exec(h, n).is_some()
}

/// The last occurrence of `n` in `h`.
pub fn rfind_exec(h: &[char], n: &[char]) -> (r: Option<usize>)
    ensures
        r matches Some(i) ==> rfind(h@, n@) == Some(i as int),
        r matches Some(i) ==> i + n@.len() <= h@.len() && occurs_at(h@, n@, i as int),
        r is None ==> rfind(h@, n@) is None,
{
    proof {
        lemma_rfind_below(h@, n@, h@.len() + 1int);
    }
    if occurs_at_exec(h, n, h.len()) {
        return Some(h.len());
    }
    let mut end: usize = h.len();
    while end > 0
        invariant
            end <= h.len(),
            rfind(h@, n@) == rfind_below(h@, n@, end as int),
        decreases end,
    {
        if occurs_at_exec(h, n, end - 1) {
            return Some(end - 1);
        }
        end = end - 1;
    }
    None
}

/// Whether `h` begins with `p`.
pub fn starts_with_exec(h: &[char], p: &[char]) -> (r: bool)
    ensures
        r == starts_with(h@, p@),
{
    let r = occurs_at_exec(h, p, 0);
    assert(r == starts_with(h@, p@));
    r
}

/// Whether `h` ends with `p`.
pub fn ends_with_exec(h: &[char], p: &[char]) -> (r: bool)
    ensures
        r == ends_with(h@, p@),
{
    if p.len() > h.len() {
        return false;
    }
    occurs_at_exec(h, p, h.len() - p.len())
}

// ---------------------------------------------------------------------------
// Splitting
// ---------------------------------------------------------------------------

/// The pieces of `s` between occurrences of the character `sep`
/// (`str::split` with a character): one more piece than there are
/// separators, empty pieces included.
pub open spec fn split_char(s: Seq<char>, sep: char) -> Seq<Seq<char>>
    decreases s.len(),
{
    if s.len() == 0 {
        seq![Seq::<char>::empty()]
    } else {
        let p = split_char(s.drop_last(), sep);
        if s.last() == sep {
            p.push(Seq::<char>::empty())
        } else {
            p.update(p.len() - 1, p.last().push(s.last()))
        }
    }
}

/// `split_char` never yields an empty list of pieces.
pub proof fn lemma_split_char_nonempty(s: Seq<char>, sep: char)
    ensures
        split_char(s, sep).len() >= 1,
    decreases s.len(),
{
    if s.len() > 0 {
        lemma_split_char_nonempty(s.drop_last(), sep);
    }
}

/// The pieces of `v` between occurrences of `sep`.
pub fn split_char_exec(v: &[char], sep: char) -> (r: Vec<Vec<char>>)
    ensures
        r@.len() == split_char(v@, sep).len(),
        forall|k: int| 0 <= k < r@.len() ==> #[trigger] r@[k]@ == split_char(v@, sep)[k],
{
    let mut pieces: Vec<Vec<char>> = Vec::new();
    let mut cur: Vec<char> = Vec::new();
    let mut i: usize = 0;
    proof {
        assert(v@.take(0) =~= Seq::<char>::empty());
    }
    while i < v.len()
        invariant
            i <= v.len(),
            split_char(v@.take(i as int), sep).len() == pieces@.len() + 1,
            forall|k: int| 0 <= k < pieces@.len() ==> #[trigger] pieces@[k]@ == split_char(
                v@.take(i as int),
                sep,
            )[k],
            cur@ == split_char(v@.take(i as int), sep).last(),
        decreases v.len() - i,
    {
        let ghost prev = v@.take(i as int);
        let c = v[i];
        proof {
            assert(v@.take(i + 1).drop_last() =~= prev);
            assert(v@.take(i + 1).last() == c);
            lemma_split_char_nonempty(prev, sep);
        }
        if c == sep {
            pieces.push(cur);
            cur = Vec::new();
        } else {
            cur.push(c);
        }
        i = i + 1;
    }
    pieces.push(cur);
    assert(v@.take(v.len() as int) =~= v@);
    pieces
}

// ---------------------------------------------------------------------------
// Trimming
// ---------------------------------------------------------------------------

/// Unicode `White_Space` characters, as `char::is_whitespace` defines them.
pub open spec fn is_ws(c: char) -> bool {
    ||| c == '\t'
    ||| c == '\n'
    ||| c == '\u{0B}'
    ||| c == '\u{0C}'
    ||| c == '\r'
    ||| c == ' '
    ||| c == '\u{85}'
    ||| c == '\u{A0}'
    ||| c == '\u{1680}'
    ||| ('\u{2000}' <= c && c <= '\u{200A}')
    ||| c == '\u{2028}'
    ||| c == '\u{2029}'
    ||| c == '\u{202F}'
    ||| c == '\u{205F}'
    ||| c == '\u{3000}'
}

/// Whether `c` is a whitespace character.
pub fn is_ws_exec(c: char) -> (r: bool)
    ensures
        r == is_ws(c),
{
    c == '\t' || c == '\n' || c == '\u{0B}' || c == '\u{0C}' || c == '\r' || c == ' ' || c
        == '\u{85}' || c == '\u{A0}' || c == '\u{1680}' || ('\u{2000}' <= c && c <= '\u{200A}')
        || c == '\u{2028}' || c == '\u{2029}' || c == '\u{202F}' || c == '\u{205F}' || c
        == '\u{3000}'
}

/// The number of leading whitespace characters of `s`.
pub open spec fn lead_ws(s: Seq<char>) -> int
    decreases s.len(),
{
    if s.len() > 0 && is_ws(s[0]) {
        1 + lead_ws(s.drop_first())
    } else {
        0
    }
}

/// The number of trailing whitespace characters of `s`.
pub open spec fn trail_ws(s: Seq<char>) -> int
    decreases s.len(),
{
    if s.len() > 0 && is_ws(s.last()) {
        1 + trail_ws(s.drop_last())
    } else {
        0
    }
}

/// `s` without leading and trailing whitespace (`str::trim`).
pub open spec fn trim(s: Seq<char>) -> Seq<char> {
    let t = s.subrange(lead_ws(s), s.len() as int);
    t.subrange(0, t.len() - trail_ws(t))
}

proof fn lemma_lead_ws_bound(s: Seq<char>)
    ensures
        0 <= lead_ws(s) <= s.len(),
    decreases s.len(),
{
    if s.len() > 0 && is_ws(s[0]) {
        lemma_lead_ws_bound(s.drop_first());
    }
}

proof fn lemma_trail_ws_bound(s: Seq<char>)
    ensures
        0 <= trail_ws(s) <= s.len(),
    decreases s.len(),
{
    if s.len() > 0 && is_ws(s.last()) {
        lemma_trail_ws_bound(s.drop_last());
    }
}

/// `s` without leading and trailing whitespace.
pub fn trim_exec(v: &[char]) -> (r: Vec<char>)
    ensures
        r@ == trim(v@),
{
    let mut a: usize = 0;
    proof {
        lemma_lead_ws_bound(v@);
        assert(v@.subrange(0, v.len() as int) =~= v@);
    }
    while a < v.len() && is_ws_exec(v[a])
        invariant
            a <= v.len(),
            lead_ws(v@) == a + lead_ws(v@.subrange(a as int, v.len() as int)),
        decreases v.len() - a,
    {
        proof {
            let t = v@.subrange(a as int, v.len() as int);
            assert(t.drop_first() =~= v@.subrange(a + 1, v.len() as int));
        }
        a = a + 1;
    }
    proof {
        let t = v@.subrange(a as int, v.len() as int);
        if a < v.len() {
            assert(t[0] == v@[a as int]);
        }
        assert(lead_ws(t) == 0);
    }
    let ghost t = v@.subrange(a as int, v.len() as int);
    let mut b: usize = v.len();
    while b > a && is_ws_exec(v[b - 1])
        invariant
            a <= b <= v.len(),
            t == v@.subrange(a as int, v.len() as int),
            trail_ws(t) == (v.len() - b) + trail_ws(v@.subrange(a as int, b as int)),
        decreases b - a,
    {
        proof {
            let u = v@.subrange(a as int, b as int);
            assert(u.drop_last() =~= v@.subrange(a as int, b - 1));
        }
        b = b - 1;
    }
    proof {
        let u = v@.subrange(a as int, b as int);
        if b > a {
            assert(u.last() == v@[b - 1]);
        }
        assert(trail_ws(u) == 0);
        assert(t.subrange(0, t.len() - trail_ws(t)) =~= u);
    }
    slice_chars(v, a, b)
}

/// The pieces of `s` between whitespace characters, empty pieces included.
pub open spec fn split_ws_raw(s: Seq<char>) -> Seq<Seq<char>>
    decreases s.len(),
{
    if s.len() == 0 {
        seq![Seq::<char>::empty()]
    } else {
        let p = split_ws_raw(s.drop_last());
        if is_ws(s.last()) {
            p.push(Seq::<char>::empty())
        } else {
            p.update(p.len() - 1, p.last().push(s.last()))
        }
    }
}

proof fn lemma_split_ws_raw_nonempty(s: Seq<char>)
    ensures
        split_ws_raw(s).len() >= 1,
    decreases s.len(),
{
    if s.len() > 0 {
        lemma_split_ws_raw_nonempty(s.drop_last());
    }
}

/// The non-empty pieces of `p`, in order.
pub open spec fn non_empty(p: Seq<Seq<char>>) -> Seq<Seq<char>>
    decreases p.len(),
{
    if p.len() == 0 {
        p
    } else if p.last().len() == 0 {
        non_empty(p.drop_last())
    } else {
        non_empty(p.drop_last()).push(p.last())
    }
}

/// The whitespace-separated words of `s` (`str::split_whitespace`).
pub open spec fn words(s: Seq<char>) -> Seq<Seq<char>> {
    non_empty(split_ws_raw(s))
}

/// The whitespace-separated words of `v`.
pub fn words_exec(v: &[char]) -> (r: Vec<Vec<char>>)
    ensures
        r@.len() == words(v@).len(),
        forall|k: int| 0 <= k < r@.len() ==> #[trigger] r@[k]@ == words(v@)[k],
{
    let mut pieces: Vec<Vec<char>> = Vec::new();
    let mut cur: Vec<char> = Vec::new();
    let mut i: usize = 0;
    proof {
        assert(v@.take(0) =~= Seq::<char>::empty());
    }
    while i < v.len()
        invariant
            i <= v.len(),
            split_ws_raw(v@.take(i as int)).len() >= 1,
            pieces@.len() == non_empty(split_ws_raw(v@.take(i as int)).drop_last()).len(),
            forall|k: int| 0 <= k < pieces@.len() ==> #[trigger] pieces@[k]@ == non_empty(
                split_ws_raw(v@.take(i as int)).drop_last(),
            )[k],
            cur@ == split_ws_raw(v@.take(i as int)).last(),
        decreases v.len() - i,
    {
        let ghost prev = v@.take(i as int);
        let ghost sp = split_ws_raw(prev);
        let c = v[i];
        proof {
            assert(v@.take(i + 1).drop_last() =~= prev);
            assert(v@.take(i + 1).last() == c);
        }
        if is_ws_exec(c) {
            let ghost ne = non_empty(sp.drop_last());
            let ghost sp2 = sp.push(Seq::<char>::empty());
            assert(sp2.drop_last() =~= sp);
            assert(sp.drop_last().push(sp.last()) =~= sp);
            if cur.len() > 0 {
                pieces.push(cur);
            }
            cur = Vec::new();
        } else {
            let ghost sp2 = sp.update(sp.len() - 1, sp.last().push(c));
            assert(sp2.drop_last() =~= sp.drop_last());
            cur.push(c);
        }
        i = i + 1;
    }
    proof {
        let sp = split_ws_raw(v@.take(i as int));
        assert(sp.drop_last().push(sp.last()) =~= sp);
    }
    if cur.len() > 0 {
        pieces.push(cur);
    }
    assert(v@.take(v.len() as int) =~= v@);
    pieces
}

/// How many times `c` occurs in `s`.
pub open spec fn count_char(s: Seq<char>, c: char) -> nat
    decreases s.len(),
{
    if s.len() == 0 {
        0
    } else {
        count_char(s.drop_last(), c) + if s.last() == c { 1nat } else { 0nat }
    }
}

/// How many times `c` occurs in `v`.
pub fn count_char_exec(v: &[char], c: char) -> (r: usize)
    ensures
        r == count_char(v@, c),
{
    let mut n: usize = 0;
    let mut i: usize = 0;
    while i < v.len()
        invariant
            i <= v.len(),
            n == count_char(v@.take(i as int), c),
            n <= i,
        decreases v.len() - i,
    {
        proof {
            assert(v@.take(i + 1).drop_last() =~= v@.take(i as int));
        }
        if v[i] == c {
            n = n + 1;
        }
        i = i + 1;
    }
    assert(v@.take(v.len() as int) =~= v@);
    n
}

// ---------------------------------------------------------------------------
// Decimal numbers
// ---------------------------------------------------------------------------

/// `c` is an ASCII decimal digit.
pub open spec fn is_digit(c: char) -> bool {
    '0' <= c && c <= '9'
}

/// The value of the ASCII digit `c`.
pub open spec fn digit_value(c: char) -> nat {
    ((c as u32) - ('0' as u32)) as nat
}

/// The number that the decimal digits `d` spell.
pub open spec fn digits_value(d: Seq<char>) -> nat
    decreases d.len(),
{
    if d.len() == 0 {
        0
    } else {
        digits_value(d.drop_last()) * 10 + digit_value(d.last())
    }
}

/// `d` consists of ASCII digits only.
pub open spec fn all_digits(d: Seq<char>) -> bool {
    forall|i: int| 0 <= i < d.len() ==> is_digit(#[trigger] d[i])
}

/// What `str::parse::<u64>` gives: an optional `+`, then one or more ASCII
/// digits whose value fits in 64 bits; anything else is refused.
pub open spec fn parse_u64(s: Seq<char>) -> Option<u64> {
    let d = if s.len() > 0 && s[0] == '+' {
        s.drop_first()
    } else {
        s
    };
    if d.len() == 0 || !all_digits(d) || digits_value(d) > u64::MAX {
        None
    } else {
        Some(digits_value(d) as u64)
    }
}

/// What `s.parse::<u64>().unwrap_or(dflt)` gives.
pub open spec fn parse_u64_or(s: Seq<char>, dflt: u64) -> u64 {
    match parse_u64(s) {
        Some(v) => v,
        None => dflt,
    }
}

/// The value of one ASCII digit.
pub fn digit_of(c: char) -> (r: u64)
    requires
        is_digit(c),
    ensures
        r == digit_value(c),
{
    let r: u64 = (c as u32 - '0' as u32) as u64;
    r
}

/// Decimal parsing of an unsigned 64-bit number, as `str::parse::<u64>` does it.
pub fn parse_u64_exec(s: &[char]) -> (r: Option<u64>)
    ensures
        r == parse_u64(s@),
{
    let start: usize = if s.len() > 0 && s[0] == '+' {
        1
    } else {
        0
    };
    let ghost d = if s@.len() > 0 && s@[0] == '+' {
        s@.drop_first()
    } else {
        s@
    };
    assert(d =~= s@.subrange(start as int, s.len() as int));
    if start == s.len() {
        return None;
    }
    let mut acc: u64 = 0;
    let mut i: usize = start;
    while i < s.len()
        invariant
            start <= i <= s.len(),
            start < s.len(),
            d == s@.subrange(start as int, s.len() as int),
            d == (if s@.len() > 0 && s@[0] == '+' {
                s@.drop_first()
            } else {
                s@
            }),
            all_digits(s@.subrange(start as int, i as int)),
            acc == digits_value(s@.subrange(start as int, i as int)),
        decreases s.len() - i,
    {
        let ghost pre = s@.subrange(start as int, i as int);
        let ghost nxt = s@.subrange(start as int, i + 1);
        assert(nxt.drop_last() =~= pre);
        let c = s[i];
        if !('0' <= c && c <= '9') {
            assert(d[i - start] == c);
            assert(!is_digit(d[i - start]));
            return None;
        }
        assert(nxt.last() == c);
        assert(nxt == d.take(i + 1 - start));
        let v = digit_of(c);
        match acc.checked_mul(10) {
            Some(m) => match m.checked_add(v) {
                Some(t) => {
                    acc = t;
                },
                None => {
                    proof {
                        lemma_digits_value_prefix_le(d, (i + 1 - start) as int);
                        assert(m == acc * 10);
                        assert(digits_value(nxt) == acc * 10 + v);
                    }
                    return None;
                },
            },
            None => {
                proof {
                    lemma_digits_value_prefix_le(d, (i + 1 - start) as int);
                    assert(digits_value(nxt) == acc * 10 + v);
                    assert(acc * 10 > u64::MAX);
                    assert(digits_value(nxt) >= acc * 10);
                }
                return None;
            },
        }
        i = i + 1;
        assert(all_digits(s@.subrange(start as int, i as int)));
    }
    assert(s@.subrange(start as int, s.len() as int) == d);
    Some(acc)
}

/// The value of a prefix of a digit string never exceeds the value of the whole.
pub proof fn lemma_digits_value_prefix_le(d: Seq<char>, k: int)
    requires
        0 <= k <= d.len(),
    ensures
        digits_value(d.take(k)) <= digits_value(d),
    decreases d.len() - k,
{
    if k < d.len() {
        lemma_digits_value_prefix_le(d, k + 1);
        assert(d.take(k + 1).drop_last() =~= d.take(k));
    } else {
        assert(d.take(k) =~= d);
    }
}

/// `s.parse::<u64>().unwrap_or(dflt)`.
pub fn parse_u64_or_exec(s: &[char], dflt: u64) -> (r: u64)
    ensures
        r == parse_u64_or(s@, dflt),
{
    match parse_u64_exec(s) {
        Some(v) => v,
        None => dflt,
    }
}

/// The character of a decimal digit value below ten.
pub open spec fn digit_char(d: nat) -> char {
    if d == 0 {
        '0'
    } else if d == 1 {
        '1'
    } else if d == 2 {
        '2'
    } else if d == 3 {
        '3'
    } else if d == 4 {
        '4'
    } else if d == 5 {
        '5'
    } else if d == 6 {
        '6'
    } else if d == 7 {
        '7'
    } else if d == 8 {
        '8'
    } else {
        '9'
    }
}

/// The decimal spelling of `n`, without leading zeros (`"0"` for zero).
pub open spec fn decimal(n: nat) -> Seq<char>
    decreases n,
{
    if n < 10 {
        seq![digit_char(n)]
    } else {
        decimal(n / 10).push(digit_char(n % 10))
    }
}

fn digit_char_exec(d: u64) -> (r: char)
    requires
        d < 10,
    ensures
        r == digit_char(d as nat),
{
    if d == 0 {
        '0'
    } else if d == 1 {
        '1'
    } else if d == 2 {
        '2'
    } else if d == 3 {
        '3'
    } else if d == 4 {
        '4'
    } else if d == 5 {
        '5'
    } else if d == 6 {
        '6'
    } else if d == 7 {
        '7'
    } else if d == 8 {
        '8'
    } else {
        '9'
    }
}

/// Appends the decimal spelling of `n` to `out`.
pub fn push_decimal(n: u64, out: &mut Vec<char>)
    ensures
        final(out)@ == old(out)@ + decimal(n as nat),
    decreases n,
{
    if n >= 10 {
        push_decimal(n / 10, out);
    }
    out.push(digit_char_exec(n % 10));
    proof {
        if n < 10 {
            assert(n % 10 == n);
        }
    }
    assert(out@ =~= old(out)@ + decimal(n as nat));
}

/// Replaces, in `s`, each occurrence of `from` by `to`, as `str::replace` does.
pub fn replace_all(s: &[char], from: &[char], to: &[char]) -> (r: Vec<char>)
    ensures
        r@ == replaced(s@, from@, to@),
{
    let mut out: Vec<char> = Vec::new();
    let mut i: usize = 0;
    assert(s@.subrange(0, s@.len() as int) =~= s@);
    assert(out@ + s@ =~= s@);
    while i < s.len()
        invariant
            i <= s@.len(),
            replaced(s@, from@, to@) == out@ + replaced(s@.subrange(i as int, s@.len() as int), from@, to@),
        decreases s.len() - i,
    {
        let ghost rest = s@.subrange(i as int, s@.len() as int);
        if from.len() == 0 {
            assert(rest.drop_first() =~= s@.subrange(i + 1, s@.len() as int));
            let ghost before = out@;
            extend(&mut out, to);
            out.push(s[i]);
            assert(out@ =~= before + to@ + seq![rest[0]]);
            i = i + 1;
            assert(before + (to@ + seq![rest[0]] + replaced(rest.drop_first(), from@, to@))
                =~= out@ + replaced(s@.subrange(i as int, s@.len() as int), from@, to@));
        } else if occurs_at_exec(s, from, i) {
            assert(rest.subrange(0, from@.len() as int) =~= s@.subrange(i as int, i + from@.len()));
            assert(rest.subrange(from@.len() as int, rest.len() as int)
                =~= s@.subrange(i + from@.len(), s@.len() as int));
            let ghost before = out@;
            extend(&mut out, to);
            i = i + from.len();
            assert(before + (to@ + replaced(s@.subrange(i as int, s@.len() as int), from@, to@))
                =~= out@ + replaced(s@.subrange(i as int, s@.len() as int), from@, to@));
        } else {
            assert(!occurs_at(rest, from@, 0)) by {
                if occurs_at(rest, from@, 0) {
                    assert(rest.subrange(0, from@.len() as int) =~= s@.subrange(i as int, i + from@.len()));
                }
            };
            assert(rest.drop_first() =~= s@.subrange(i + 1, s@.len() as int));
            let ghost before = out@;
            out.push(s[i]);
            i = i + 1;
            assert(before + (seq![rest[0]] + replaced(rest.drop_first(), from@, to@))
                =~= out@ + replaced(s@.subrange(i as int, s@.len() as int), from@, to@));
        }
    }
    assert(s@.subrange(i as int, s@.len() as int) =~= Seq::<char>::empty());
    if from.len() == 0 {
        let ghost before = out@;
        extend(&mut out, to);
        assert(out@ =~= before + to@);
    } else {
        assert(out@ + Seq::<char>::empty() =~= out@);
    }
    out
}

/// Appends the characters of `t` to `out`.
pub fn extend(out: &mut Vec<char>, t: &[char])
    ensures
        final(out)@ == old(out)@ + t@,
{
    let mut j: usize = 0;
    while j < t.len()
        invariant
            j <= t@.len(),
            out@ == old(out)@ + t@.subrange(0, j as int),
        decreases t.len() - j,
    {
        out.push(t[j]);
        j = j + 1;
        assert(out@ =~= old(out)@ + t@.subrange(0, j as int));
    }
    assert(t@.subrange(0, t@.len() as int) =~= t@);
}

/// The character views of a list of character vectors.
pub open spec fn char_views(p: Seq<Vec<char>>) -> Seq<Seq<char>> {
    p.map_values(|v: Vec<char>| v@)
}

/// The parts put together with `sep` between each two (`join`).
pub open spec fn joined(parts: Seq<Seq<char>>, sep: char) -> Seq<char>
    decreases parts.len(),
{
    if parts.len() == 0 {
        Seq::empty()
    } else if parts.len() == 1 {
        parts[0]
    } else {
        joined(parts.drop_last(), sep) + seq![sep] + parts.last()
    }
}

/// Puts the parts together with `sep` between each two.
pub fn join_exec(parts: &Vec<Vec<char>>, sep: char) -> (r: Vec<char>)
    ensures
        r@ == joined(char_views(parts@), sep),
{
    let mut out: Vec<char> = Vec::new();
    let mut i: usize = 0;
    while i < parts.len()
        invariant
            i <= parts@.len(),
            out@ == joined(char_views(parts@).take(i as int), sep),
        decreases parts.len() - i,
    {
        let ghost before = out@;
        assert(char_views(parts@).take(i + 1).drop_last() =~= char_views(parts@).take(i as int));
        assert(char_views(parts@).take(i + 1).last() == parts@[i as int]@);
        if i > 0 {
            out.push(sep);
        }
        extend(&mut out, parts[i].as_slice());
        i = i + 1;
        if i == 1 {
            assert(out@ =~= joined(char_views(parts@).take(i as int), sep));
        } else {
            assert(out@ =~= before + seq![sep] + parts@[i - 1]@);
        }
    }
    assert(char_views(parts@).take(parts@.len() as int) =~= char_views(parts@));
    out
}

/// A line without the `\r` of a `\r\n` ending.
pub open spec fn strip_cr(p: Seq<char>) -> Seq<char> {
    if p.len() > 0 && p.last() == '\r' {
        p.drop_last()
    } else {
        p
    }
}

/// The lines of `s` (`str::lines`): the pieces between `\n`s, each that a
/// `\n` ends without a `\r` just before it; a last piece that no `\n` ends
/// is a line where it is not empty.
pub open spec fn text_lines(s: Seq<char>) -> Seq<Seq<char>> {
    let pieces = split_char(s, '\n');
    let ended = pieces.drop_last().map_values(|p: Seq<char>| strip_cr(p));
    if pieces.last().len() == 0 {
        ended
    } else {
        ended.push(pieces.last())
    }
}

/// The lines of `v`.
pub fn lines_exec(v: &[char]) -> (r: Vec<Vec<char>>)
    ensures
        char_views(r@) == text_lines(v@),
{
    let pieces = split_char_exec(v, '\n');
    proof {
        lemma_split_char_nonempty(v@, '\n');
    }
    let ghost sp = split_char(v@, '\n');
    assert(char_views(pieces@) =~= sp);
    let mut out: Vec<Vec<char>> = Vec::new();
    let n = pieces.len();
    let mut i: usize = 0;
    while i + 1 < n
        invariant
            n == pieces@.len(),
            n >= 1,
            i + 1 <= n,
            char_views(pieces@) == sp,
            char_views(out@) == sp.drop_last().take(i as int).map_values(|p: Seq<char>| strip_cr(p)),
        decreases n - i,
    {
        let p = &pieces[i];
        let ghost before = out@;
        if p.len() > 0 && p[p.len() - 1] == '\r' {
            out.push(slice_chars(p.as_slice(), 0, p.len() - 1));
        } else {
            out.push(copy_chars(p.as_slice()));
        }
        assert(sp[i as int] == p@);
        assert(char_views(out@) =~= char_views(before).push(strip_cr(p@)));
        i = i + 1;
        assert(sp.drop_last().take(i as int).map_values(|q: Seq<char>| strip_cr(q)) =~= sp.drop_last().take(
            i - 1,
        ).map_values(|q: Seq<char>| strip_cr(q)).push(strip_cr(sp[i - 1])));
    }
    assert(sp.drop_last().take(i as int) =~= sp.drop_last());
    let last = &pieces[n - 1];
    assert(last@ == sp.last());
    if last.len() > 0 {
        let ghost before = out@;
        out.push(copy_chars(last.as_slice()));
        assert(char_views(out@) =~= char_views(before).push(last@));
    }
    out
}

} // verus!
