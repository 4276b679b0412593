//! Steam compatibility settings: the `STEAM_COMPAT_CONFIG` list that Proton
//! reads, and the Steam app id that Steam's environment reveals.

use vstd::prelude::*;
use crate::text::{
    chars_of, concat_chars, ends_with, ends_with_exec, find, find_exec, lemma_find_from,
    lemma_split_char_nonempty, parse_u64, parse_u64_exec, slice_chars, split_char,
    split_char_exec, starts_with, starts_with_exec, string_from, trim, trim_exec,
};

verus! {

// ---------------------------------------------------------------------------
// STEAM_COMPAT_CONFIG
// ---------------------------------------------------------------------------

/// The prefix of an item that appends to the game's command line.
pub open spec fn cmd_prefix() -> Seq<char> {
    seq!['c', 'm', 'd', 'l', 'i', 'n', 'e', 'a', 'p', 'p', 'e', 'n', 'd', ':']
}

/// `s` split at its first comma: the text before it and the text after it
/// (`str::split_once(',')`), or all of `s` and nothing.
pub open spec fn split_comma(s: Seq<char>) -> (Seq<char>, Seq<char>) {
    match find(s, seq![',']) {
        Some(i) => (s.take(i), s.skip(i + 1)),
        None => (s, Seq::empty()),
    }
}

pub proof fn lemma_split_comma(s: Seq<char>)
    requires
        s.len() > 0,
    ensures
        split_comma(s).1.len() < s.len(),
        split_comma(s).0.len() <= s.len(),
{
    crate::text::lemma_find_from(s, seq![','], 0);
}

/// An item that ends in a backslash continues with the next piece of the
/// list: the backslash is dropped and the next piece appended, for as long
/// as pieces remain.
pub open spec fn join_continued(full: Seq<char>, remaining: Seq<char>) -> Seq<char>
    decreases remaining.len(),
{
    if ends_with(full, seq!['\\']) && remaining.len() > 0 {
        proof {
            lemma_split_comma(remaining);
        }
        let (next, rest) = split_comma(remaining);
        join_continued(full.drop_last() + next, rest)
    } else {
        full
    }
}

/// `s` with every pair of backslashes, taken from the left, made one.
pub open spec fn unescape(s: Seq<char>) -> Seq<char>
    decreases s.len(),
{
    if s.len() == 0 {
        s
    } else if s.len() >= 2 && s[0] == '\\' && s[1] == '\\' {
        seq!['\\'] + unescape(s.skip(2))
    } else {
        seq![s[0]] + unescape(s.skip(1))
    }
}

/// `s` with each backslash doubled and each comma preceded by a backslash.
pub open spec fn escape(s: Seq<char>) -> Seq<char>
    decreases s.len(),
{
    if s.len() == 0 {
        s
    } else {
        escape(s.drop_last()) + if s.last() == '\\' {
            seq!['\\', '\\']
        } else if s.last() == ',' {
            seq!['\\', ',']
        } else {
            seq![s.last()]
        }
    }
}

/// The plain flags and the command-line arguments of a `STEAM_COMPAT_CONFIG`
/// value: comma-separated items; `cmdlineappend:` items (continued past
/// escaped commas) are arguments, unescaped; other items that are not blank
/// are flags.
pub open spec fn parse_config(config: Seq<char>) -> (Seq<Seq<char>>, Seq<Seq<char>>)
    decreases config.len(),
{
    if config.len() == 0 {
        (Seq::empty(), Seq::empty())
    } else {
        proof {
            lemma_split_comma(config);
        }
        let (cur, rem) = split_comma(config);
        let (flags, args) = parse_config(rem);
        if starts_with(cur, cmd_prefix()) {
            (flags, seq![unescape(join_continued(cur, rem).skip(14))] + args)
        } else if trim(cur).len() > 0 {
            (seq![cur] + flags, args)
        } else {
            (flags, args)
        }
    }
}

/// The flags and arguments that the items to append add, in order.
pub open spec fn parse_items(items: Seq<Seq<char>>) -> (Seq<Seq<char>>, Seq<Seq<char>>)
    decreases items.len(),
{
    if items.len() == 0 {
        (Seq::empty(), Seq::empty())
    } else {
        let (flags, args) = parse_items(items.drop_last());
        let it = items.last();
        if starts_with(it, cmd_prefix()) {
            (flags, args.push(unescape(it.skip(14))))
        } else {
            (flags.push(it), args)
        }
    }
}

/// The pieces of `parts` joined by commas.
pub open spec fn join_commas(parts: Seq<Seq<char>>) -> Seq<char>
    decreases parts.len(),
{
    if parts.len() == 0 {
        Seq::empty()
    } else if parts.len() == 1 {
        parts[0]
    } else {
        join_commas(parts.drop_last()) + seq![','] + parts.last()
    }
}

/// Each argument written back as a `cmdlineappend:` item.
pub open spec fn arg_items(args: Seq<Seq<char>>) -> Seq<Seq<char>>
    decreases args.len(),
{
    if args.len() == 0 {
        args
    } else {
        arg_items(args.drop_last()).push(cmd_prefix() + escape(args.last()))
    }
}

/// The new `STEAM_COMPAT_CONFIG` value: the existing flags, then the new
/// flags, then the existing arguments and the new ones, written back.
pub open spec fn compat_config_after(existing: Seq<char>, items: Seq<Seq<char>>) -> Seq<char> {
    let (f1, a1) = parse_config(existing);
    let (f2, a2) = parse_items(items);
    join_commas((f1 + f2) + arg_items(a1 + a2))
}

fn split_comma_exec(s: &[char]) -> (r: (Vec<char>, Vec<char>))
    ensures
        r.0@ == split_comma(s@).0,
        r.1@ == split_comma(s@).1,
{
    let comma: Vec<char> = vec![','];
    assert(comma@ =~= seq![',']);
    match find_exec(s, comma.as_slice()) {
        Some(i) => {
            assert(comma@.len() == 1);
            assert(i + 1 <= s@.len());
            assert(s@.len() == s.len());
            let a = slice_chars(s, 0, i);
            let b = slice_chars(s, i + 1, s.len());
            assert(a@ =~= s@.take(i as int));
            assert(b@ =~= s@.skip(i + 1));
            (a, b)
        },
        None => {
            let a = crate::text::copy_chars(s);
            (a, Vec::new())
        },
    }
}

fn unescape_exec(s: &[char]) -> (r: Vec<char>)
    ensures
        r@ == unescape(s@),
{
    let mut r: Vec<char> = Vec::new();
    let mut i: usize = 0;
    assert(s@.skip(0) =~= s@);
    while i < s.len()
        invariant
            i <= s.len(),
            unescape(s@) == r@ + unescape(s@.skip(i as int)),
        decreases s.len() - i,
    {
        let ghost t = s@.skip(i as int);
        if i + 1 < s.len() && s[i] == '\\' && s[i + 1] == '\\' {
            assert(t[0] == s@[i as int] && t[1] == s@[i + 1]);
            assert(t.skip(2) =~= s@.skip(i + 2));
            r.push('\\');
            i = i + 2;
        } else {
            assert(t[0] == s@[i as int]);
            assert(t.len() >= 2 ==> t[1] == s@[i + 1]);
            assert(t.skip(1) =~= s@.skip(i + 1));
            r.push(s[i]);
            i = i + 1;
        }
    }
    assert(s@.skip(i as int) =~= Seq::<char>::empty());
    assert(r@ + Seq::<char>::empty() =~= r@);
    r
}

fn escape_exec(s: &[char]) -> (r: Vec<char>)
    ensures
        r@ == escape(s@),
{
    let mut r: Vec<char> = Vec::new();
    let mut i: usize = 0;
    while i < s.len()
        invariant
            i <= s.len(),
            r@ == escape(s@.take(i as int)),
        decreases s.len() - i,
    {
        proof {
            assert(s@.take(i + 1).drop_last() =~= s@.take(i as int));
        }
        let c = s[i];
        if c == '\\' {
            r.push('\\');
            r.push('\\');
        } else if c == ',' {
            r.push('\\');
            r.push(',');
        } else {
            r.push(c);
        }
        i = i + 1;
        assert(r@ =~= escape(s@.take(i as int)));
    }
    assert(s@.take(s.len() as int) =~= s@);
    r
}

fn join_continued_exec(full: Vec<char>, remaining: Vec<char>) -> (r: Vec<char>)
    ensures
        r@ == join_continued(full@, remaining@),
    decreases remaining@.len(),
{
    let backslash: Vec<char> = vec!['\\'];
    assert(backslash@ =~= seq!['\\']);
    if ends_with_exec(full.as_slice(), backslash.as_slice()) && remaining.len() > 0 {
        proof {
            lemma_split_comma(remaining@);
        }
        let (next, rest) = split_comma_exec(remaining.as_slice());
        let head = slice_chars(full.as_slice(), 0, full.len() - 1);
        assert(head@ =~= full@.drop_last());
        let joined = concat_chars(head.as_slice(), next.as_slice());
        join_continued_exec(joined, rest)
    } else {
        full
    }
}

fn parse_config_exec(config: &[char]) -> (r: (Vec<Vec<char>>, Vec<Vec<char>>))
    ensures
        r.0@.len() == parse_config(config@).0.len(),
        forall|k: int| 0 <= k < r.0@.len() ==> #[trigger] r.0@[k]@ == parse_config(config@).0[k],
        r.1@.len() == parse_config(config@).1.len(),
        forall|k: int| 0 <= k < r.1@.len() ==> #[trigger] r.1@[k]@ == parse_config(config@).1[k],
    decreases config@.len(),
{
    if config.len() == 0 {
        return (Vec::new(), Vec::new());
    }
    proof {
        lemma_split_comma(config@);
    }
    let (cur, rem) = split_comma_exec(config);
    let (mut flags, mut args) = parse_config_exec(rem.as_slice());
    let prefix: Vec<char> = vec!['c', 'm', 'd', 'l', 'i', 'n', 'e', 'a', 'p', 'p', 'e', 'n', 'd', ':'];
    assert(prefix@ =~= cmd_prefix());
    if starts_with_exec(cur.as_slice(), prefix.as_slice()) {
        let rem2 = crate::text::copy_chars(rem.as_slice());
        let full = join_continued_exec(cur, rem2);
        let ghost j = join_continued(split_comma(config@).0, split_comma(config@).1);
        proof {
            lemma_join_continued_keeps_prefix(split_comma(config@).0, split_comma(config@).1);
        }
        let tail = slice_chars(full.as_slice(), 14, full.len());
        assert(tail@ =~= j.skip(14));
        let arg = unescape_exec(tail.as_slice());
        let ghost old_args = args@;
        args.insert(0, arg);
        proof {
            let expect = parse_config(config@).1;
            assert forall|k: int| 0 <= k < args@.len() implies #[trigger] args@[k]@ == expect[k] by {
                if k > 0 {
                    assert(args@[k] == old_args[k - 1]);
                }
            }
        }
        (flags, args)
    } else {
        let t = trim_exec(cur.as_slice());
        if t.len() > 0 {
            let ghost old_flags = flags@;
            flags.insert(0, cur);
            proof {
                let expect = parse_config(config@).0;
                assert forall|k: int| 0 <= k < flags@.len() implies #[trigger] flags@[k]@ == expect[k] by {
                    if k > 0 {
                        assert(flags@[k] == old_flags[k - 1]);
                    }
                }
            }
        }
        (flags, args)
    }
}

/// Continuing an item keeps what it started with, and an item that starts
/// with the prefix stays at least as long as the prefix.
proof fn lemma_join_continued_keeps_prefix(full: Seq<char>, remaining: Seq<char>)
    requires
        starts_with(full, cmd_prefix()),
    ensures
        starts_with(join_continued(full, remaining), cmd_prefix()),
        join_continued(full, remaining).len() >= 14,
    decreases remaining.len(),
{
    if ends_with(full, seq!['\\']) && remaining.len() > 0 {
        lemma_split_comma(remaining);
        let (next, rest) = split_comma(remaining);
        let f2 = full.drop_last() + next;
        assert(full.len() >= 15) by {
            assert(full.subrange(full.len() - 1, full.len() as int)[0] == full[full.len() - 1]);
            assert(full[full.len() - 1] == '\\');
            assert(cmd_prefix()[13] == ':');
            assert(full.subrange(0, 14)[13] == full[13]);
        }
        assert(f2.subrange(0, 14) =~= full.subrange(0, 14));
        lemma_join_continued_keeps_prefix(f2, rest);
    }
}

/// The new `STEAM_COMPAT_CONFIG` value after appending `append_items` to the
/// `existing` one: existing flags, new flags, then every command-line
/// argument, existing ones first, written back as escaped `cmdlineappend:`
/// items, all joined by commas.
pub fn update_steam_compat_config(existing: &str, append_items: Vec<&str>) -> (r: String)
    ensures
        r@ == compat_config_after(existing@, append_items@.map_values(|s: &str| s@)),
{
    let ghost items = append_items@.map_values(|s: &str| s@);
    let cfg = chars_of(existing);
    let (mut flags, mut args) = parse_config_exec(cfg.as_slice());
    let ghost pc = parse_config(cfg@);
    let prefix: Vec<char> = vec!['c', 'm', 'd', 'l', 'i', 'n', 'e', 'a', 'p', 'p', 'e', 'n', 'd', ':'];
    assert(prefix@ =~= cmd_prefix());
    let mut i: usize = 0;
    assert(items.take(0) =~= Seq::<Seq<char>>::empty());
    while i < append_items.len()
        invariant
            i <= append_items@.len(),
            items == append_items@.map_values(|s: &str| s@),
            prefix@ == cmd_prefix(),
            flags@.len() == pc.0.len() + parse_items(items.take(i as int)).0.len(),
            forall|k: int| 0 <= k < flags@.len() ==> #[trigger] flags@[k]@ == (pc.0 + parse_items(items.take(i as int)).0)[k],
            args@.len() == pc.1.len() + parse_items(items.take(i as int)).1.len(),
            forall|k: int| 0 <= k < args@.len() ==> #[trigger] args@[k]@ == (pc.1 + parse_items(items.take(i as int)).1)[k],
        decreases append_items.len() - i,
    {
        proof {
            assert(items.take(i + 1).drop_last() =~= items.take(i as int));
            assert(items.take(i + 1).last() == append_items@[i as int]@);
        }
        let it = chars_of(append_items[i]);
        let ghost pf = pc.0 + parse_items(items.take(i as int)).0;
        let ghost pa = pc.1 + parse_items(items.take(i as int)).1;
        if starts_with_exec(it.as_slice(), prefix.as_slice()) {
            let tail = slice_chars(it.as_slice(), 14, it.len());
            assert(tail@ =~= it@.skip(14));
            args.push(unescape_exec(tail.as_slice()));
            proof {
                let na = pc.1 + parse_items(items.take(i + 1)).1;
                assert(na =~= pa.push(unescape(it@.skip(14))));
                assert forall|k: int| 0 <= k < args@.len() implies #[trigger] args@[k]@ == na[k] by {}
                assert(pc.0 + parse_items(items.take(i + 1)).0 =~= pf);
            }
        } else {
            flags.push(it);
            proof {
                let nf = pc.0 + parse_items(items.take(i + 1)).0;
                assert(nf =~= pf.push(append_items@[i as int]@));
                assert forall|k: int| 0 <= k < flags@.len() implies #[trigger] flags@[k]@ == nf[k] by {}
                assert(pc.1 + parse_items(items.take(i + 1)).1 =~= pa);
            }
        }
        i = i + 1;
    }
    assert(items.take(append_items.len() as int) =~= items);
    let ghost all_flags = pc.0 + parse_items(items).0;
    let ghost all_args = pc.1 + parse_items(items).1;
    // Flags first, then the arguments written back.
    let mut parts: Vec<Vec<char>> = flags;
    let mut k: usize = 0;
    let ghost nflags = parts@.len();
    while k < args.len()
        invariant
            k <= args@.len(),
            nflags == all_flags.len(),
            prefix@ == cmd_prefix(),
            args@.len() == all_args.len(),
            forall|m: int| 0 <= m < args@.len() ==> #[trigger] args@[m]@ == all_args[m],
            parts@.len() == nflags + k,
            forall|m: int| 0 <= m < parts@.len() ==> #[trigger] parts@[m]@ == (all_flags + arg_items(all_args.take(k as int)))[m],
            arg_items(all_args.take(k as int)).len() == k,
        decreases args.len() - k,
    {
        let esc = escape_exec(args[k].as_slice());
        let item = concat_chars(prefix.as_slice(), esc.as_slice());
        let ghost before = all_flags + arg_items(all_args.take(k as int));
        parts.push(item);
        proof {
            assert(all_args.take(k + 1).drop_last() =~= all_args.take(k as int));
            assert(all_args.take(k + 1).last() == all_args[k as int]);
            let after = all_flags + arg_items(all_args.take(k + 1));
            assert(after =~= before.push(cmd_prefix() + escape(all_args[k as int])));
            assert forall|m: int| 0 <= m < parts@.len() implies #[trigger] parts@[m]@ == after[m] by {}
        }
        k = k + 1;
    }
    assert(all_args.take(args.len() as int) =~= all_args);
    let ghost ps = all_flags + arg_items(all_args);
    // Joined by commas.
    let mut out: Vec<char> = Vec::new();
    let mut m: usize = 0;
    while m < parts.len()
        invariant
            m <= parts@.len(),
            parts@.len() == ps.len(),
            forall|j: int| 0 <= j < parts@.len() ==> #[trigger] parts@[j]@ == ps[j],
            out@ == join_commas(ps.take(m as int)),
        decreases parts.len() - m,
    {
        proof {
            assert(ps.take(m + 1).drop_last() =~= ps.take(m as int));
            assert(ps.take(m + 1).last() == ps[m as int]);
        }
        if m > 0 {
            out.push(',');
        }
        let joined = concat_chars(out.as_slice(), parts[m].as_slice());
        out = joined;
        m = m + 1;
        proof {
            if m == 1 {
                assert(ps.take(1) =~= seq![ps[0]]);
            }
        }
    }
    assert(ps.take(parts.len() as int) =~= ps);
    string_from(out.as_slice())
}

// ---------------------------------------------------------------------------
// Steam app id
// ---------------------------------------------------------------------------

/// The pieces of a path other than empty ones and `.`.
pub open spec fn clean_pieces(p: Seq<Seq<char>>) -> Seq<Seq<char>>
    decreases p.len(),
{
    if p.len() == 0 {
        p
    } else {
        let rest = clean_pieces(p.drop_last());
        if p.last().len() == 0 || p.last() == seq!['.'] {
            rest
        } else {
            rest.push(p.last())
        }
    }
}

/// The components of a Unix path as `Path::components` gives them, each as
/// its text: `/` for the root, `.` for a leading current directory, then
/// the names between slashes, empty ones and inner `.` left out.
pub open spec fn path_components(s: Seq<char>) -> Seq<Seq<char>> {
    let pieces = split_char(s, '/');
    if s.len() > 0 && s[0] == '/' {
        seq![seq!['/']] + clean_pieces(pieces)
    } else if pieces[0] == seq!['.'] {
        seq![seq!['.']] + clean_pieces(pieces.drop_first())
    } else {
        clean_pieces(pieces)
    }
}

/// `str::parse::<u32>`.
pub open spec fn parse_u32(s: Seq<char>) -> Option<u32> {
    match parse_u64(s) {
        Some(v) => if v <= u32::MAX {
            Some(v as u32)
        } else {
            None
        },
        None => None,
    }
}

/// The app id in the component `back` places from the end of a path
/// (1 for the last), if it is there and reads as a number.
pub open spec fn appid_at(path: Option<Seq<char>>, back: int) -> Option<u32> {
    match path {
        Some(p) => {
            let c = path_components(p);
            if c.len() >= back {
                parse_u32(c[c.len() - back])
            } else {
                None
            }
        },
        None => None,
    }
}

/// The Steam app id found in Steam's environment: the last component of
/// `STEAM_COMPAT_TRANSCODED_MEDIA_PATH`, the second to last of
/// `STEAM_COMPAT_MEDIA_PATH`, the third to last of `STEAM_FOSSILIZE_DUMP_PATH`,
/// the second to last of `DXVK_STATE_CACHE_PATH`, or the upper half of
/// `SteamGameId`, whichever first gives a number; else 0.
pub open spec fn steam_appid_from(
    transcoded: Option<Seq<char>>,
    media: Option<Seq<char>>,
    fossilize: Option<Seq<char>>,
    dxvk_cache: Option<Seq<char>>,
    game_id: Option<Seq<char>>,
) -> u32 {
    if let Some(v) = appid_at(transcoded, 1) {
        v
    } else if let Some(v) = appid_at(media, 2) {
        v
    } else if let Some(v) = appid_at(fossilize, 3) {
        v
    } else if let Some(v) = appid_at(dxvk_cache, 2) {
        v
    } else {
        match game_id {
            Some(g) => match parse_u64(g) {
                Some(id) => (id / 0x1_0000_0000) as u32,
                None => 0,
            },
            None => 0,
        }
    }
}

fn clean_pieces_exec(p: &Vec<Vec<char>>, from: usize) -> (r: Vec<Vec<char>>)
    requires
        from <= p@.len(),
    ensures
        r@.len() == clean_pieces(p@.map_values(|x: Vec<char>| x@).skip(from as int)).len(),
        forall|k: int| 0 <= k < r@.len() ==> #[trigger] r@[k]@ == clean_pieces(p@.map_values(|x: Vec<char>| x@).skip(from as int))[k],
{
    let ghost pv = p@.map_values(|x: Vec<char>| x@).skip(from as int);
    let mut r: Vec<Vec<char>> = Vec::new();
    let mut i: usize = from;
    let dot: Vec<char> = vec!['.'];
    assert(dot@ =~= seq!['.']);
    while i < p.len()
        invariant
            from <= i <= p@.len(),
            dot@ == seq!['.'],
            pv == p@.map_values(|x: Vec<char>| x@).skip(from as int),
            r@.len() == clean_pieces(pv.take(i - from)).len(),
            forall|k: int| 0 <= k < r@.len() ==> #[trigger] r@[k]@ == clean_pieces(pv.take(i - from))[k],
        decreases p.len() - i,
    {
        proof {
            assert(pv.take(i - from + 1).drop_last() =~= pv.take(i - from));
            assert(pv.take(i - from + 1).last() == p@[i as int]@);
        }
        if !(p[i].len() == 0 || crate::text::chars_eq(p[i].as_slice(), dot.as_slice())) {
            let ghost before = clean_pieces(pv.take(i - from));
            r.push(crate::text::copy_chars(p[i].as_slice()));
            proof {
                assert forall|k: int| 0 <= k < r@.len() implies #[trigger] r@[k]@ == clean_pieces(pv.take(i - from + 1))[k] by {
                    if k < r@.len() - 1 {
                        assert(before[k] == clean_pieces(pv.take(i - from + 1))[k]);
                    }
                }
            }
        }
        i = i + 1;
    }
    assert(pv.take(p.len() - from) =~= pv);
    r
}

fn path_components_exec(s: &str) -> (r: Vec<Vec<char>>)
    ensures
        r@.len() == path_components(s@).len(),
        forall|k: int| 0 <= k < r@.len() ==> #[trigger] r@[k]@ == path_components(s@)[k],
{
    let v = chars_of(s);
    let pieces = split_char_exec(v.as_slice(), '/');
    let ghost sp = split_char(v@, '/');
    proof {
        lemma_split_char_nonempty(v@, '/');
        assert(pieces@.map_values(|x: Vec<char>| x@) =~= sp);
    }
    let dot: Vec<char> = vec!['.'];
    assert(dot@ =~= seq!['.']);
    if v.len() > 0 && v[0] == '/' {
        let rest = clean_pieces_exec(&pieces, 0);
        assert(sp.skip(0) =~= sp);
        let mut r: Vec<Vec<char>> = vec![vec!['/']];
        let ghost want = path_components(s@);
        let mut k: usize = 0;
        while k < rest.len()
            invariant
                k <= rest@.len(),
                want == seq![seq!['/']] + clean_pieces(sp),
                rest@.len() == clean_pieces(sp).len(),
                forall|j: int| 0 <= j < rest@.len() ==> #[trigger] rest@[j]@ == clean_pieces(sp)[j],
                r@.len() == 1 + k,
                forall|j: int| 0 <= j < r@.len() ==> #[trigger] r@[j]@ == want[j],
            decreases rest.len() - k,
        {
            r.push(crate::text::copy_chars(rest[k].as_slice()));
            k = k + 1;
        }
        r
    } else if crate::text::chars_eq(pieces[0].as_slice(), dot.as_slice()) {
        let rest = clean_pieces_exec(&pieces, 1);
        assert(sp.skip(1) =~= sp.drop_first());
        let mut r: Vec<Vec<char>> = vec![vec!['.']];
        let ghost want = path_components(s@);
        let mut k: usize = 0;
        while k < rest.len()
            invariant
                k <= rest@.len(),
                want == seq![seq!['.']] + clean_pieces(sp.drop_first()),
                rest@.len() == clean_pieces(sp.drop_first()).len(),
                forall|j: int| 0 <= j < rest@.len() ==> #[trigger] rest@[j]@ == clean_pieces(sp.drop_first())[j],
                r@.len() == 1 + k,
                forall|j: int| 0 <= j < r@.len() ==> #[trigger] r@[j]@ == want[j],
            decreases rest.len() - k,
        {
            r.push(crate::text::copy_chars(rest[k].as_slice()));
            k = k + 1;
        }
        r
    } else {
        assert(sp.skip(0) =~= sp);
        clean_pieces_exec(&pieces, 0)
    }
}

fn parse_u32_exec(s: &[char]) -> (r: Option<u32>)
    ensures
        r == parse_u32(s@),
{
    match parse_u64_exec(s) {
        Some(v) => if v <= 0xFFFF_FFFF {
            Some(v as u32)
        } else {
            None
        },
        None => None,
    }
}

fn appid_at_exec(path: &Option<String>, back: usize) -> (r: Option<u32>)
    requires
        back >= 1,
    ensures
        r == appid_at(
            match path {
                Some(p) => Some(p@),
                None => None,
            },
            back as int,
        ),
{
    match path {
        Some(p) => {
            let c = path_components_exec(p.as_str());
            if c.len() >= back {
                parse_u32_exec(c[c.len() - back].as_slice())
            } else {
                None
            }
        },
        None => None,
    }
}

/// The Steam app id that Steam's environment reveals, from the values of
/// `STEAM_COMPAT_TRANSCODED_MEDIA_PATH`, `STEAM_COMPAT_MEDIA_PATH`,
/// `STEAM_FOSSILIZE_DUMP_PATH`, `DXVK_STATE_CACHE_PATH` and `SteamGameId`
/// (each nothing where unset); 0 when none gives one.
pub fn get_steam_appid(
    transcoded: Option<String>,
    media: Option<String>,
    fossilize: Option<String>,
    dxvk_cache: Option<String>,
    game_id: Option<String>,
) -> (r: u32)
    ensures
        r == steam_appid_from(
            match transcoded { Some(p) => Some(p@), None => None },
            match media { Some(p) => Some(p@), None => None },
            match fossilize { Some(p) => Some(p@), None => None },
            match dxvk_cache { Some(p) => Some(p@), None => None },
            match game_id { Some(p) => Some(p@), None => None },
        ),
{
    if let Some(v) = appid_at_exec(&transcoded, 1) {
        return v;
    }
    if let Some(v) = appid_at_exec(&media, 2) {
        return v;
    }
    if let Some(v) = appid_at_exec(&fossilize, 3) {
        return v;
    }
    if let Some(v) = appid_at_exec(&dxvk_cache, 2) {
        return v;
    }
    match game_id {
        Some(g) => {
            let gv = chars_of(g.as_str());
            match parse_u64_exec(gv.as_slice()) {
                Some(id) => {
                    let hi = id >> 32;
                    assert(hi == id / 0x1_0000_0000) by (bit_vector)
                        requires
                            hi == id >> 32,
                    ;
                    assert(hi <= 0xFFFF_FFFF) by (bit_vector)
                        requires
                            hi == id >> 32,
                    ;
                    hi as u32
                },
                None => 0,
            }
        },
        None => 0,
    }
}

} // verus!
