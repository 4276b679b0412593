//! What reading back a rewritten `STEAM_COMPAT_CONFIG` gives: the rewrite
//! loses and duplicates nothing, so that a value it wrote is written again
//! unchanged.

use vstd::prelude::*;
use crate::compat::{
    arg_items, cmd_prefix, compat_config_after, escape, join_commas, join_continued, parse_config, parse_items,
    split_comma, unescape, lemma_split_comma,
};
use crate::text::{ends_with, find, find_from, occurs_at, starts_with, trim};

verus! {

/// The character `c` does not occur in `s`.
pub open spec fn lacks(s: Seq<char>, c: char) -> bool {
    forall|i: int| 0 <= i < s.len() ==> s[i] != c
}

/// A piece that reads back as itself: it holds no comma, and an argument
/// item does not end in a backslash.
pub open spec fn readable_part(p: Seq<char>) -> bool {
    lacks(p, ',') && (starts_with(p, cmd_prefix()) ==> !ends_with(p, seq!['\\']))
}

/// How a list of comma-free pieces is read: argument items give their
/// unescaped text, other pieces that are not blank are flags.
pub open spec fn classify(p: Seq<Seq<char>>) -> (Seq<Seq<char>>, Seq<Seq<char>>)
    decreases p.len(),
{
    if p.len() == 0 {
        (Seq::empty(), Seq::empty())
    } else {
        let (f, a) = classify(p.drop_first());
        if starts_with(p[0], cmd_prefix()) {
            (f, seq![unescape(p[0].skip(14))] + a)
        } else if trim(p[0]).len() > 0 {
            (seq![p[0]] + f, a)
        } else {
            (f, a)
        }
    }
}

proof fn lemma_find_comma_none(h: Seq<char>, j: int)
    requires
        lacks(h, ','),
        0 <= j,
    ensures
        find_from(h, seq![','], j) is None,
    decreases h.len() + 1 - j,
{
    if j + 1 <= h.len() {
        assert(h.subrange(j, j + 1)[0] == h[j]);
        lemma_find_comma_none(h, j + 1);
    }
}

proof fn lemma_find_comma_at(h: Seq<char>, p: int, j: int)
    requires
        0 <= j <= p < h.len(),
        h[p] == ',',
        forall|k: int| j <= k < p ==> h[k] != ',',
    ensures
        find_from(h, seq![','], j) == Some(p),
    decreases p - j,
{
    if j < p {
        assert(h.subrange(j, j + 1)[0] == h[j]);
        lemma_find_comma_at(h, p, j + 1);
    } else {
        assert(h.subrange(j, j + 1) =~= seq![',']);
    }
}

/// What `find_from` finds is the first occurrence at or after `start`.
proof fn lemma_find_first(h: Seq<char>, start: int)
    requires
        0 <= start,
    ensures
        find_from(h, seq![','], start) matches Some(i) ==> start <= i < h.len() && h[i] == ',' && forall|k: int|
            start <= k < i ==> h[k] != ',',
        find_from(h, seq![','], start) is None ==> forall|k: int| start <= k < h.len() ==> h[k] != ',',
    decreases h.len() + 1 - start,
{
    if start + 1 <= h.len() {
        assert(h.subrange(start, start + 1)[0] == h[start]);
        if !occurs_at(h, seq![','], start) {
            lemma_find_first(h, start + 1);
            if h[start] == ',' {
                assert(h.subrange(start, start + 1) =~= seq![',']);
            }
        }
    }
}


proof fn lemma_split_joined(p: Seq<char>, x: Seq<char>)
    requires
        lacks(p, ','),
    ensures
        split_comma(p + seq![','] + x) == (p, x),
{
    let h = p + seq![','] + x;
    assert forall|k: int| 0 <= k < p.len() implies h[k] != ',' by {
        assert(h[k] == p[k]);
    }
    lemma_find_comma_at(h, p.len() as int, 0);
    assert(h.take(p.len() as int) =~= p);
    assert(h.skip(p.len() + 1int) =~= x);
}

proof fn lemma_join_front(p: Seq<Seq<char>>)
    requires
        p.len() >= 2,
    ensures
        join_commas(p) == p[0] + seq![','] + join_commas(p.drop_first()),
    decreases p.len(),
{
    if p.len() == 2 {
        assert(p.drop_last().len() == 1);
        assert(p.drop_first().len() == 1);
        assert(join_commas(p.drop_last()) == p[0]);
        assert(join_commas(p.drop_first()) == p[1]);
    } else {
        lemma_join_front(p.drop_last());
        assert(p.drop_last().drop_first() =~= p.drop_first().drop_last());
        assert(p.drop_first().last() == p.last());
        assert(p.drop_last()[0] == p[0]);
    }
}

proof fn lemma_empty_blank()
    ensures
        trim(Seq::<char>::empty()).len() == 0,
{
    assert(crate::text::lead_ws(Seq::<char>::empty()) == 0);
}

/// Reading back pieces joined by commas gives their classification.
proof fn lemma_parse_joined(p: Seq<Seq<char>>)
    requires
        forall|i: int| 0 <= i < p.len() ==> readable_part(#[trigger] p[i]),
    ensures
        parse_config(join_commas(p)) == classify(p),
    decreases p.len(),
{
    lemma_empty_blank();
    if p.len() == 1 {
        let x = p[0];
        assert(p.drop_first() =~= Seq::<Seq<char>>::empty());
        assert(classify(p.drop_first()) == (Seq::<Seq<char>>::empty(), Seq::<Seq<char>>::empty()));
        assert(join_commas(p) == x);
        if x.len() > 0 {
            assert(readable_part(p[0]));
            lemma_find_comma_none(x, 0);
            assert(split_comma(x) == (x, Seq::<char>::empty()));
            assert(join_continued(x, Seq::<char>::empty()) == x);
            assert(parse_config(Seq::<char>::empty()) == (Seq::<Seq<char>>::empty(), Seq::<Seq<char>>::empty()));
            assert(seq![unescape(x.skip(14))] + Seq::<Seq<char>>::empty() =~= seq![unescape(x.skip(14))]);
            assert(seq![x] + Seq::<Seq<char>>::empty() =~= seq![x]);
        } else {
            assert(!starts_with(x, cmd_prefix()));
            assert(x =~= Seq::<char>::empty());
        }
    } else if p.len() >= 2 {
        let rest = p.drop_first();
        assert forall|i: int| 0 <= i < rest.len() implies readable_part(#[trigger] rest[i]) by {
            assert(rest[i] == p[i + 1]);
        }
        lemma_parse_joined(rest);
        lemma_join_front(p);
        assert(readable_part(p[0]));
        lemma_split_joined(p[0], join_commas(rest));
        let config = p[0] + seq![','] + join_commas(rest);
        assert(config.len() > 0);
        assert(join_commas(p) == config);
        assert(split_comma(config) == (p[0], join_commas(rest)));
        if starts_with(p[0], cmd_prefix()) {
            assert(!ends_with(p[0], seq!['\\']));
            assert(join_continued(p[0], join_commas(rest)) == p[0]);
        }
    }
}

proof fn lemma_classify_concat(f: Seq<Seq<char>>, g: Seq<Seq<char>>)
    ensures
        classify(f + g) == (classify(f).0 + classify(g).0, classify(f).1 + classify(g).1),
    decreases f.len(),
{
    if f.len() == 0 {
        assert(f + g =~= g);
        assert(classify(f).0 + classify(g).0 =~= classify(g).0);
        assert(classify(f).1 + classify(g).1 =~= classify(g).1);
    } else {
        lemma_classify_concat(f.drop_first(), g);
        assert((f + g).drop_first() =~= f.drop_first() + g);
        assert((f + g)[0] == f[0]);
        let (f1, a1) = classify(f.drop_first());
        assert(seq![f[0]] + (f1 + classify(g).0) =~= (seq![f[0]] + f1) + classify(g).0);
        assert(seq![unescape(f[0].skip(14))] + (a1 + classify(g).1) =~= (seq![unescape(f[0].skip(14))] + a1)
            + classify(g).1);
    }
}

/// Flags read back as flags.
proof fn lemma_classify_flags(f: Seq<Seq<char>>)
    requires
        forall|i: int| 0 <= i < f.len() ==> !starts_with(#[trigger] f[i], cmd_prefix()) && trim(f[i]).len() > 0,
    ensures
        classify(f) == (f, Seq::<Seq<char>>::empty()),
    decreases f.len(),
{
    if f.len() > 0 {
        let rest = f.drop_first();
        assert forall|i: int| 0 <= i < rest.len() implies !starts_with(#[trigger] rest[i], cmd_prefix()) && trim(
            rest[i],
        ).len() > 0 by {
            assert(rest[i] == f[i + 1]);
        }
        lemma_classify_flags(rest);
        assert(!starts_with(f[0], cmd_prefix()) && trim(f[0]).len() > 0);
        assert(seq![f[0]] + rest =~= f);
    }
}

proof fn lemma_unescape_plain(s: Seq<char>)
    requires
        lacks(s, '\\'),
    ensures
        unescape(s) == s,
    decreases s.len(),
{
    if s.len() > 0 {
        let t = s.skip(1);
        assert forall|i: int| 0 <= i < t.len() implies t[i] != '\\' by {
            assert(t[i] == s[i + 1]);
        }
        lemma_unescape_plain(t);
        assert(seq![s[0]] + t =~= s);
    }
}

proof fn lemma_escape_plain(s: Seq<char>)
    requires
        lacks(s, '\\'),
        lacks(s, ','),
    ensures
        escape(s) == s,
    decreases s.len(),
{
    if s.len() > 0 {
        let t = s.drop_last();
        assert forall|i: int| 0 <= i < t.len() implies t[i] != '\\' && t[i] != ',' by {
            assert(t[i] == s[i]);
        }
        lemma_escape_plain(t);
        assert(s.last() == s[s.len() - 1]);
        assert(t + seq![s.last()] =~= s);
    }
}

/// Plain texts, free of commas and backslashes.
pub open spec fn plain(s: Seq<char>) -> bool {
    lacks(s, ',') && lacks(s, '\\')
}

proof fn lemma_prefix_facts()
    ensures
        cmd_prefix().len() == 14,
        lacks(cmd_prefix(), ','),
        lacks(cmd_prefix(), '\\'),
        cmd_prefix()[13] == ':',
{
}

proof fn lemma_arg_item(a: Seq<char>)
    requires
        plain(a),
    ensures
        readable_part(cmd_prefix() + escape(a)),
        starts_with(cmd_prefix() + escape(a), cmd_prefix()),
        unescape((cmd_prefix() + escape(a)).skip(14)) == a,
{
    lemma_prefix_facts();
    lemma_escape_plain(a);
    lemma_unescape_plain(a);
    let x = cmd_prefix() + a;
    assert(x.subrange(0, 14) =~= cmd_prefix());
    assert(x.skip(14) =~= a);
    assert forall|i: int| 0 <= i < x.len() implies x[i] != ',' by {
        if i < 14 {
            assert(x[i] == cmd_prefix()[i]);
        } else {
            assert(x[i] == a[i - 14]);
        }
    }
    if ends_with(x, seq!['\\']) {
        assert(x.subrange(x.len() - 1, x.len() as int)[0] == x[x.len() - 1]);
        if a.len() > 0 {
            assert(x[x.len() - 1] == a[a.len() - 1]);
        } else {
            assert(x[x.len() - 1] == cmd_prefix()[13]);
        }
    }
}

/// Arguments written back as items read back as the same arguments.
proof fn lemma_classify_args(a: Seq<Seq<char>>)
    requires
        forall|i: int| 0 <= i < a.len() ==> plain(#[trigger] a[i]),
    ensures
        classify(arg_items(a)) == (Seq::<Seq<char>>::empty(), a),
        forall|i: int| 0 <= i < arg_items(a).len() ==> readable_part(#[trigger] arg_items(a)[i]),
        arg_items(a).len() == a.len(),
    decreases a.len(),
{
    if a.len() > 0 {
        let d = a.drop_last();
        assert forall|i: int| 0 <= i < d.len() implies plain(#[trigger] d[i]) by {
            assert(d[i] == a[i]);
        }
        lemma_classify_args(d);
        let x = cmd_prefix() + escape(a.last());
        assert(plain(a[a.len() - 1]));
        lemma_arg_item(a.last());
        assert(arg_items(a) =~= arg_items(d) + seq![x]);
        lemma_classify_concat(arg_items(d), seq![x]);
        assert(seq![x].drop_first() =~= Seq::<Seq<char>>::empty());
        assert(seq![x][0] == x);
        assert(classify(seq![x].drop_first()) == (Seq::<Seq<char>>::empty(), Seq::<Seq<char>>::empty()));
        assert(seq![a.last()] + Seq::<Seq<char>>::empty() =~= seq![a.last()]);
        assert(classify(seq![x]) == (Seq::<Seq<char>>::empty(), seq![a.last()]));
        assert(Seq::<Seq<char>>::empty() + Seq::<Seq<char>>::empty() =~= Seq::<Seq<char>>::empty());
        assert(d + seq![a.last()] =~= a);
        assert forall|i: int| 0 <= i < arg_items(a).len() implies readable_part(#[trigger] arg_items(a)[i]) by {
            if i < d.len() {
                assert(arg_items(a)[i] == arg_items(d)[i]);
            } else {
                assert(arg_items(a)[i] == x);
            }
        }
    }
}

/// What a config without backslashes reads as: flags that are comma-free,
/// not argument items and not blank, and plain arguments.
proof fn lemma_parse_plain(e: Seq<char>)
    requires
        lacks(e, '\\'),
    ensures
        forall|i: int| 0 <= i < parse_config(e).0.len() ==> lacks(#[trigger] parse_config(e).0[i], ',') && !starts_with(
            parse_config(e).0[i],
            cmd_prefix(),
        ) && trim(parse_config(e).0[i]).len() > 0,
        forall|i: int| 0 <= i < parse_config(e).1.len() ==> plain(#[trigger] parse_config(e).1[i]),
    decreases e.len(),
{
    if e.len() > 0 {
        lemma_split_comma(e);
        lemma_find_first(e, 0);
        let (cur, rem) = split_comma(e);
        match find(e, seq![',']) {
            Some(i) => {
                assert(cur =~= e.take(i));
                assert(rem =~= e.skip(i + 1));
            },
            None => {
                assert(cur == e);
            },
        }
        assert forall|k: int| 0 <= k < rem.len() implies rem[k] != '\\' by {
            let i = find(e, seq![',']).unwrap();
            assert(rem[k] == e[i + 1 + k]);
        }
        assert forall|k: int| 0 <= k < cur.len() implies cur[k] != '\\' && cur[k] != ',' by {
            assert(cur[k] == e[k]);
            assert(0 <= k < e.len());
        }
        lemma_parse_plain(rem);
        let (flags, args) = parse_config(rem);
        if starts_with(cur, cmd_prefix()) {
            if ends_with(cur, seq!['\\']) {
                assert(cur.subrange(cur.len() - 1, cur.len() as int)[0] == cur[cur.len() - 1]);
            }
            assert(join_continued(cur, rem) == cur);
            let a = cur.skip(14);
            assert forall|k: int| 0 <= k < a.len() implies a[k] != '\\' && a[k] != ',' by {
                assert(a[k] == cur[k + 14]);
            }
            lemma_unescape_plain(a);
            let out = seq![a] + args;
            assert forall|i: int| 0 <= i < out.len() implies plain(#[trigger] out[i]) by {
                if i > 0 {
                    assert(out[i] == args[i - 1]);
                }
            }
        } else if trim(cur).len() > 0 {
            let out = seq![cur] + flags;
            assert forall|i: int| 0 <= i < out.len() implies lacks(#[trigger] out[i], ',') && !starts_with(
                out[i],
                cmd_prefix(),
            ) && trim(out[i]).len() > 0 by {
                if i > 0 {
                    assert(out[i] == flags[i - 1]);
                }
            }
        }
    }
}

/// What the items to append read as, when none holds a comma or a
/// backslash and none is blank.
proof fn lemma_items_plain(xs: Seq<Seq<char>>)
    requires
        forall|i: int| 0 <= i < xs.len() ==> plain(#[trigger] xs[i]) && trim(xs[i]).len() > 0,
    ensures
        forall|i: int| 0 <= i < parse_items(xs).0.len() ==> lacks(#[trigger] parse_items(xs).0[i], ',') && !starts_with(
            parse_items(xs).0[i],
            cmd_prefix(),
        ) && trim(parse_items(xs).0[i]).len() > 0,
        forall|i: int| 0 <= i < parse_items(xs).1.len() ==> plain(#[trigger] parse_items(xs).1[i]),
    decreases xs.len(),
{
    if xs.len() > 0 {
        let d = xs.drop_last();
        assert forall|i: int| 0 <= i < d.len() implies plain(#[trigger] d[i]) && trim(d[i]).len() > 0 by {
            assert(d[i] == xs[i]);
        }
        lemma_items_plain(d);
        let it = xs.last();
        assert(plain(xs[xs.len() - 1]) && trim(xs[xs.len() - 1]).len() > 0);
        let (flags, args) = parse_items(d);
        if starts_with(it, cmd_prefix()) {
            let a = it.skip(14);
            assert forall|k: int| 0 <= k < a.len() implies a[k] != '\\' && a[k] != ',' by {
                assert(a[k] == it[k + 14]);
            }
            lemma_unescape_plain(a);
            let out = args.push(a);
            assert forall|i: int| 0 <= i < out.len() implies plain(#[trigger] out[i]) by {
                if i < args.len() {
                    assert(out[i] == args[i]);
                }
            }
        } else {
            let out = flags.push(it);
            assert forall|i: int| 0 <= i < out.len() implies lacks(#[trigger] out[i], ',') && !starts_with(
                out[i],
                cmd_prefix(),
            ) && trim(out[i]).len() > 0 by {
                if i < flags.len() {
                    assert(out[i] == flags[i]);
                }
            }
        }
    }
}

/// Feeding the rewritten `STEAM_COMPAT_CONFIG` back in, with nothing to
/// append, gives it back unchanged: reading and writing again loses and
/// duplicates nothing. This holds when neither the existing value nor any
/// item to append holds a backslash, and no item holds a comma or is blank.
pub proof fn law_compat_config_fixed_point(e: Seq<char>, xs: Seq<Seq<char>>)
    requires
        lacks(e, '\\'),
        forall|i: int| 0 <= i < xs.len() ==> plain(#[trigger] xs[i]) && trim(xs[i]).len() > 0,
    ensures
        compat_config_after(compat_config_after(e, xs), Seq::empty()) == compat_config_after(e, xs),
{
    lemma_parse_plain(e);
    lemma_items_plain(xs);
    let (f1, a1) = parse_config(e);
    let (f2, a2) = parse_items(xs);
    let flags = f1 + f2;
    let args = a1 + a2;
    assert forall|i: int| 0 <= i < flags.len() implies !starts_with(#[trigger] flags[i], cmd_prefix()) && trim(
        flags[i],
    ).len() > 0 && lacks(flags[i], ',') by {
        if i < f1.len() {
            assert(flags[i] == f1[i]);
        } else {
            assert(flags[i] == f2[i - f1.len()]);
        }
    }
    assert forall|i: int| 0 <= i < args.len() implies plain(#[trigger] args[i]) by {
        if i < a1.len() {
            assert(args[i] == a1[i]);
        } else {
            assert(args[i] == a2[i - a1.len()]);
        }
    }
    lemma_classify_flags(flags);
    lemma_classify_args(args);
    let parts = flags + arg_items(args);
    assert forall|i: int| 0 <= i < parts.len() implies readable_part(#[trigger] parts[i]) by {
        if i < flags.len() {
            assert(parts[i] == flags[i]);
        } else {
            assert(parts[i] == arg_items(args)[i - flags.len()]);
        }
    }
    lemma_parse_joined(parts);
    lemma_classify_concat(flags, arg_items(args));
    assert(flags + Seq::<Seq<char>>::empty() =~= flags);
    assert(Seq::<Seq<char>>::empty() + args =~= args);
    assert(parse_items(Seq::<Seq<char>>::empty()) == (Seq::<Seq<char>>::empty(), Seq::<Seq<char>>::empty()));
    assert(parse_config(join_commas(parts)) == (flags, args));
}


/// What an escaped argument stands for, read from the left: a backslash
/// followed by a backslash or a comma stands for that second character;
/// every other character stands for itself.
pub open spec fn read_escaped(s: Seq<char>) -> Seq<char>
    decreases s.len(),
{
    if s.len() == 0 {
        s
    } else if s.len() >= 2 && s[0] == '\\' && (s[1] == '\\' || s[1] == ',') {
        seq![s[1]] + read_escaped(s.skip(2))
    } else {
        seq![s[0]] + read_escaped(s.skip(1))
    }
}

/// How many backslashes stand in `s` right before position `i`.
pub open spec fn backslashes_before(s: Seq<char>, i: int) -> nat
    decreases i,
{
    if 0 < i <= s.len() && s[i - 1] == '\\' {
        1 + backslashes_before(s, i - 1)
    } else {
        0
    }
}

proof fn lemma_escape_concat(s: Seq<char>, t: Seq<char>)
    ensures
        escape(s + t) == escape(s) + escape(t),
    decreases t.len(),
{
    if t.len() == 0 {
        assert(s + t =~= s);
        assert(escape(s) + escape(t) =~= escape(s));
    } else {
        lemma_escape_concat(s, t.drop_last());
        assert((s + t).drop_last() =~= s + t.drop_last());
        assert((s + t).last() == t.last());
        assert(escape(s + t) =~= escape(s) + escape(t));
    }
}

proof fn lemma_read_escape(a: Seq<char>)
    ensures
        read_escaped(escape(a)) == a,
    decreases a.len(),
{
    if a.len() > 0 {
        let c = a[0];
        let rest = a.skip(1);
        assert(a =~= seq![c] + rest);
        lemma_escape_concat(seq![c], rest);
        assert(seq![c].drop_last() =~= Seq::<char>::empty());
        assert(seq![c].last() == c);
        assert(escape(Seq::<char>::empty()) =~= Seq::<char>::empty());
        assert(escape(seq![c].drop_last()) =~= Seq::<char>::empty());
        lemma_read_escape(rest);
        let e = escape(seq![c]) + escape(rest);
        if c == '\\' || c == ',' {
            assert(escape(seq![c]) =~= seq!['\\', c]);
            assert(e.skip(2) =~= escape(rest));
            assert(read_escaped(e) =~= seq![c] + read_escaped(escape(rest)));
        } else {
            assert(escape(seq![c]) =~= seq![c]);
            assert(e.skip(1) =~= escape(rest));
            assert(read_escaped(e) =~= seq![c] + read_escaped(escape(rest)));
        }
    }
}

proof fn lemma_backslashes_prefix(s: Seq<char>, t: Seq<char>, i: int)
    requires
        0 <= i <= s.len(),
    ensures
        backslashes_before(s + t, i) == backslashes_before(s, i),
    decreases i,
{
    if i > 0 {
        assert((s + t)[i - 1] == s[i - 1]);
        lemma_backslashes_prefix(s, t, i - 1);
    }
}

/// Every comma of `escape(a)` has an odd run of backslashes right before it
/// (so it is escaped), and `escape(a)` ends in an even run of backslashes.
proof fn lemma_escape_commas(a: Seq<char>)
    ensures
        forall|i: int|
            0 <= i < escape(a).len() && #[trigger] escape(a)[i] == ',' ==> backslashes_before(escape(a), i) % 2
                == 1,
        backslashes_before(escape(a), escape(a).len() as int) % 2 == 0,
    decreases a.len(),
{
    if a.len() > 0 {
        let p = a.drop_last();
        lemma_escape_commas(p);
        let e = escape(p);
        let n = e.len() as int;
        let t = if a.last() == '\\' {
            seq!['\\', '\\']
        } else if a.last() == ',' {
            seq!['\\', ',']
        } else {
            seq![a.last()]
        };
        let f = escape(a);
        assert(f == e + t);
        assert forall|i: int| 0 <= i < f.len() && #[trigger] f[i] == ',' implies backslashes_before(f, i) % 2
            == 1 by {
            if i < n {
                assert(f[i] == e[i]);
                lemma_backslashes_prefix(e, t, i);
            } else {
                lemma_backslashes_prefix(e, t, n);
                assert(a.last() == ',');
                assert(i == n + 1);
                assert(f[n] == '\\');
                assert(backslashes_before(f, n + 1) == 1 + backslashes_before(f, n));
            }
        }
        lemma_backslashes_prefix(e, t, n);
        let m = f.len() as int;
        if a.last() == '\\' {
            assert(f[m - 1] == '\\' && f[m - 2] == '\\');
            assert(m - 2 == n);
            assert(backslashes_before(f, m - 1) == 1 + backslashes_before(f, n));
            assert(backslashes_before(f, m) == 2 + backslashes_before(f, n));
        } else {
            assert(f[m - 1] != '\\');
        }
    }
}

/// An argument written into `STEAM_COMPAT_CONFIG` is escaped so that it
/// reads back whole: every comma of the escaped text has an odd run of
/// backslashes right before it, so no comma in it separates items; the text
/// ends in an even run of backslashes, so the comma that follows the item
/// does separate it; and reading the escaped text (a backslash before a
/// backslash or a comma standing for that character) gives back exactly the
/// argument, commas included.
pub proof fn law_escaped_argument_reads_back(a: Seq<char>)
    ensures
        read_escaped(escape(a)) == a,
        forall|i: int|
            0 <= i < escape(a).len() && #[trigger] escape(a)[i] == ',' ==> backslashes_before(escape(a), i) % 2
                == 1,
        backslashes_before(escape(a), escape(a).len() as int) % 2 == 0,
{
    lemma_read_escape(a);
    lemma_escape_commas(a);
}

} // verus!
