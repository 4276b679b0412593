//! The interface languages the launcher offers: the codes of the locale
//! files it ships, in order.

use vstd::prelude::*;
use vstd::relations::{sorted_by, total_ordering};
use crate::games::text_le;
use crate::text::{chars_of, ends_with, ends_with_exec, slice_chars, string_from};

verus! {

broadcast use vstd::seq_lib::group_to_multiset_ensures;

/// The order locale codes are listed in: character order, as `str` orders.
pub open spec fn name_order() -> spec_fn(Seq<char>, Seq<char>) -> bool {
    |a: Seq<char>, b: Seq<char>| text_le(a, b)
}

proof fn lemma_text_le_reflexive(a: Seq<char>)
    ensures
        text_le(a, a),
    decreases a.len(),
{
    if a.len() > 0 {
        lemma_text_le_reflexive(a.drop_first());
    }
}

proof fn lemma_text_le_antisymmetric(a: Seq<char>, b: Seq<char>)
    requires
        text_le(a, b),
        text_le(b, a),
    ensures
        a == b,
    decreases a.len(),
{
    if a.len() > 0 && b.len() > 0 {
        lemma_text_le_antisymmetric(a.drop_first(), b.drop_first());
        assert(a =~= seq![a[0]] + a.drop_first());
        assert(b =~= seq![b[0]] + b.drop_first());
    }
}

proof fn lemma_text_le_transitive(a: Seq<char>, b: Seq<char>, c: Seq<char>)
    requires
        text_le(a, b),
        text_le(b, c),
    ensures
        text_le(a, c),
    decreases a.len(),
{
    if a.len() > 0 && b.len() > 0 && c.len() > 0 && a[0] == b[0] && b[0] == c[0] {
        lemma_text_le_transitive(a.drop_first(), b.drop_first(), c.drop_first());
    }
}

proof fn lemma_text_le_total(a: Seq<char>, b: Seq<char>)
    ensures
        text_le(a, b) || text_le(b, a),
    decreases a.len(),
{
    if a.len() > 0 && b.len() > 0 && a[0] == b[0] {
        lemma_text_le_total(a.drop_first(), b.drop_first());
    }
}

/// Character order is a total order.
pub proof fn lemma_name_order_total()
    ensures
        total_ordering(name_order()),
{
    let r = name_order();
    assert forall|x: Seq<char>| #[trigger] r(x, x) by {
        lemma_text_le_reflexive(x);
    }
    assert forall|x: Seq<char>, y: Seq<char>| #[trigger] r(x, y) && #[trigger] r(y, x) implies x == y by {
        lemma_text_le_antisymmetric(x, y);
    }
    assert forall|x: Seq<char>, y: Seq<char>, z: Seq<char>| #[trigger] r(x, y) && #[trigger] r(y, z) implies r(x, z) by {
        lemma_text_le_transitive(x, y, z);
    }
    assert forall|x: Seq<char>, y: Seq<char>| #[trigger] r(x, y) || #[trigger] r(y, x) by {
        lemma_text_le_total(x, y);
    }
}

/// A file name with every trailing `.json` taken off.
pub open spec fn trim_json(s: Seq<char>) -> Seq<char>
    decreases s.len(),
{
    if ends_with(s, ".json"@) && ".json"@.len() > 0 {
        trim_json(s.take(s.len() - ".json"@.len()))
    } else {
        s
    }
}

/// The locale codes among file names: the names that end in `.json`, in
/// their order, each with its trailing `.json`s taken off.
pub open spec fn locale_codes_of(names: Seq<Seq<char>>) -> Seq<Seq<char>>
    decreases names.len(),
{
    if names.len() == 0 {
        Seq::empty()
    } else {
        let rest = locale_codes_of(names.drop_last());
        if ends_with(names.last(), ".json"@) {
            rest.push(trim_json(names.last()))
        } else {
            rest
        }
    }
}

/// The views of a list of texts.
pub open spec fn views(v: Seq<String>) -> Seq<Seq<char>> {
    v.map_values(|s: String| s@)
}

fn trim_json_exec(s: &str) -> (r: String)
    ensures
        r@ == trim_json(s@),
{
    let suffix = chars_of(".json");
    proof {
        reveal_strlit(".json");
    }
    let mut cur = chars_of(s);
    while ends_with_exec(cur.as_slice(), suffix.as_slice())
        invariant
            suffix@ == ".json"@,
            suffix@.len() == 5,
            trim_json(cur@) == trim_json(s@),
        decreases cur@.len(),
    {
        cur = slice_chars(cur.as_slice(), 0, cur.len() - 5);
    }
    string_from(cur.as_slice())
}

/// Lists the locale codes among the file names of the locales' folder,
/// in character order.
pub fn list_locale_codes(names: &Vec<String>) -> (r: Vec<String>)
    ensures
        views(r@) == locale_codes_of(views(names@)).sort_by(name_order()),
{
    let suffix = chars_of(".json");
    let mut codes: Vec<String> = Vec::new();
    let mut i: usize = 0;
    while i < names.len()
        invariant
            i <= names@.len(),
            suffix@ == ".json"@,
            views(codes@) == locale_codes_of(views(names@.take(i as int))),
        decreases names.len() - i,
    {
        assert(views(names@.take(i + 1)).drop_last() =~= views(names@.take(i as int)));
        assert(views(names@.take(i + 1)).last() == names@[i as int]@);
        if ends_with_exec(chars_of(names[i].as_str()).as_slice(), suffix.as_slice()) {
            let ghost before = codes@;
            codes.push(trim_json_exec(names[i].as_str()));
            assert(views(codes@) =~= views(before).push(trim_json(names@[i as int]@)));
        }
        i = i + 1;
    }
    assert(names@.take(names@.len() as int) =~= names@);
    let ghost all = views(codes@);
    proof {
        lemma_name_order_total();
    }
    let mut out: Vec<String> = Vec::new();
    let mut k: usize = 0;
    while k < codes.len()
        invariant
            k <= codes@.len(),
            all == views(codes@),
            total_ordering(name_order()),
            sorted_by(views(out@), name_order()),
            views(out@).to_multiset() == all.take(k as int).to_multiset(),
        decreases codes.len() - k,
    {
        let x = codes[k].clone();
        let xc = chars_of(x.as_str());
        let mut p: usize = 0;
        while p < out.len()
            invariant
                p <= out@.len(),
                xc@ == x@,
                forall|m: int| 0 <= m < p ==> text_le(#[trigger] out@[m]@, x@),
            ensures
                p <= out@.len(),
                forall|m: int| 0 <= m < p ==> text_le(#[trigger] out@[m]@, x@),
                p < out@.len() ==> !text_le(out@[p as int]@, x@),
            decreases out.len() - p,
        {
            let oc = chars_of(out[p].as_str());
            if !crate::games::text_le_exec(oc.as_slice(), xc.as_slice()) {
                break;
            }
            p = p + 1;
        }
        let ghost before = views(out@);
        proof {
            if p < out@.len() {
                lemma_text_le_total(out@[p as int]@, x@);
            }
        }
        out.insert(p, x);
        proof {
            assert(views(out@) =~= before.insert(p as int, x@));
            assert(all.take(k + 1) =~= all.take(k as int).push(x@));
            let n = views(out@);
            assert forall|a: int, b: int| 0 <= a < b < n.len() implies #[trigger] (name_order())(n[a], n[b]) by {
                if b < p {
                    assert(n[a] == before[a] && n[b] == before[b]);
                } else if a > p {
                    assert(n[a] == before[a - 1] && n[b] == before[b - 1]);
                } else if a == p {
                    assert(n[a] == x@);
                    assert(n[b] == before[b - 1]);
                    if b - 1 > p {
                        assert((name_order())(before[p as int], before[b - 1]));
                        lemma_text_le_transitive(x@, before[p as int], before[b - 1]);
                    }
                } else if b == p {
                    assert(n[b] == x@);
                    assert(n[a] == before[a]);
                    assert(text_le(out@[a]@, x@)) by {
                        assert(out@[a]@ == n[a]);
                    };
                } else {
                    assert(a < p < b);
                    assert(n[a] == before[a] && n[b] == before[b - 1]);
                }
            }
        }
        k = k + 1;
    }
    proof {
        assert(all.take(all.len() as int) =~= all);
        all.lemma_sort_by_ensures(name_order());
        vstd::seq_lib::lemma_sorted_unique(views(out@), all.sort_by(name_order()), name_order());
    }
    out
}

} // verus!
