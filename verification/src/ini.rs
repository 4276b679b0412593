//! The model injector's `d3dx.ini`: which settings the launcher manages for
//! an install, and how the file's text is rewritten so that they hold.

use vstd::prelude::*;
use crate::models::XXMISettings;
use crate::text::{
    char_views, chars_eq, chars_of, contains, contains_exec, copy_chars, decimal, extend, find,
    find_exec, join_exec, joined, lines_exec, owned, push_decimal, slice_chars, string_from, text_lines,
    trim, trim_exec,
};

verus! {

/// A setting the launcher writes into a section of the file.
pub struct IniKey {
    pub section: String,
    pub key: String,
    pub value: String,
}

/// The line a managed setting is written as.
pub open spec fn key_line(k: IniKey) -> Seq<char> {
    k.key@ + " = "@ + k.value@
}

/// The views of a list of managed settings.
pub open spec fn key_views(m: Seq<IniKey>) -> Seq<(Seq<char>, Seq<char>, Seq<char>)> {
    m.map_values(|k: IniKey| (k.section@, k.key@, k.value@))
}

/// The text of a `bool` (`bool::to_string`).
pub open spec fn bool_text(b: bool) -> Seq<char> {
    if b {
        "true"@
    } else {
        "false"@
    }
}

/// Whether the injector in folder `package` is one whose loader settings the
/// launcher fixes (`gimi` or `zzmi`).
pub open spec fn fixes_loader(package: Seq<char>) -> bool {
    contains(package, "gimi"@) || contains(package, "zzmi"@)
}

/// The settings after the launcher's fixes: an injector that needs them runs
/// without administrator rights, with a 500 ms DLL start delay and a 20 ms
/// close delay; the others keep theirs.
pub open spec fn settings_after(package: Seq<char>, s: XXMISettings) -> XXMISettings {
    if fixes_loader(package) {
        XXMISettings { require_admin: false, dll_init_delay: 500, close_delay: 20, ..s }
    } else {
        s
    }
}

/// The marking actions the hunting overlay offers: shader dumps add the
/// HLSL, assembly and regex actions to the clipboard.
pub open spec fn marking_actions(dump_shaders: bool) -> Seq<char> {
    if dump_shaders {
        "clipboard hlsl asm regex"@
    } else {
        "clipboard"@
    }
}

/// The settings the launcher writes for an install, in order: hunting mode,
/// marking actions and warnings, then, for an injector whose loader it
/// fixes, the loader's administrator switch, its delay and the DLL start
/// delay.
pub open spec fn managed_keys(package: Seq<char>, s: XXMISettings) -> Seq<(Seq<char>, Seq<char>, Seq<char>)> {
    let d = settings_after(package, s);
    let common = seq![
        ("Hunting"@, "hunting"@, decimal(d.hunting_mode as nat)),
        ("Hunting"@, "marking_actions"@, marking_actions(d.dump_shaders)),
        ("Logging"@, "show_warnings"@, decimal(d.show_warnings as nat))
    ];
    if fixes_loader(package) {
        common + seq![
            ("Loader"@, "require_admin"@, bool_text(d.require_admin)),
            ("Loader"@, "delay"@, decimal(d.close_delay as nat)),
            ("System"@, "dll_initialization_delay"@, decimal(d.dll_init_delay as nat))
        ]
    } else {
        common
    }
}

fn key_of(section: &str, key: &str, value: Vec<char>) -> (r: IniKey)
    ensures
        r.section@ == section@,
        r.key@ == key@,
        r.value@ == value@,
{
    IniKey { section: owned(section), key: owned(key), value: string_from(value.as_slice()) }
}

fn decimal_chars(n: u64) -> (r: Vec<char>)
    ensures
        r@ == decimal(n as nat),
{
    let mut v: Vec<char> = Vec::new();
    push_decimal(n, &mut v);
    assert(v@ =~= decimal(n as nat));
    v
}

/// An install's injector settings after the user changes some of them:
/// the hunting mode, shader dumps and warnings (shown as 1, hidden as 0)
/// where given, the rest as they were.
pub open spec fn settings_edited(
    current: XXMISettings,
    hunting: Option<u64>,
    dump_shaders: Option<bool>,
    show_warnings: Option<bool>,
) -> XXMISettings {
    XXMISettings {
        hunting_mode: match hunting {
            Some(h) => h,
            None => current.hunting_mode,
        },
        require_admin: current.require_admin,
        dll_init_delay: current.dll_init_delay,
        close_delay: current.close_delay,
        show_warnings: match show_warnings {
            Some(w) => if w {
                1
            } else {
                0
            },
            None => current.show_warnings,
        },
        dump_shaders: match dump_shaders {
            Some(d) => d,
            None => current.dump_shaders,
        },
    }
}

/// Applies the user's changes to an install's injector settings.
pub fn edit_xxmi_settings(
    current: &XXMISettings,
    hunting: Option<u64>,
    dump_shaders: Option<bool>,
    show_warnings: Option<bool>,
) -> (r: XXMISettings)
    ensures
        r == settings_edited(*current, hunting, dump_shaders, show_warnings),
{
    XXMISettings {
        hunting_mode: match hunting {
            Some(h) => h,
            None => current.hunting_mode,
        },
        require_admin: current.require_admin,
        dll_init_delay: current.dll_init_delay,
        close_delay: current.close_delay,
        show_warnings: match show_warnings {
            Some(w) => if w {
                1
            } else {
                0
            },
            None => current.show_warnings,
        },
        dump_shaders: match dump_shaders {
            Some(d) => d,
            None => current.dump_shaders,
        },
    }
}

/// Works out, for the injector in folder `package`, the settings an install
/// keeps and the lines the launcher writes into the file.
pub fn xxmi_tweaks(package: &str, settings: &XXMISettings) -> (r: (XXMISettings, Vec<IniKey>))
    ensures
        r.0 == settings_after(package@, *settings),
        key_views(r.1@) == managed_keys(package@, *settings),
{
    let p = chars_of(package);
    let fix = contains_exec(p.as_slice(), chars_of("gimi").as_slice())
        || contains_exec(p.as_slice(), chars_of("zzmi").as_slice());
    let d = if fix {
        XXMISettings {
            hunting_mode: settings.hunting_mode,
            require_admin: false,
            dll_init_delay: 500,
            close_delay: 20,
            show_warnings: settings.show_warnings,
            dump_shaders: settings.dump_shaders,
        }
    } else {
        XXMISettings {
            hunting_mode: settings.hunting_mode,
            require_admin: settings.require_admin,
            dll_init_delay: settings.dll_init_delay,
            close_delay: settings.close_delay,
            show_warnings: settings.show_warnings,
            dump_shaders: settings.dump_shaders,
        }
    };
    let actions = if d.dump_shaders {
        chars_of("clipboard hlsl asm regex")
    } else {
        chars_of("clipboard")
    };
    let mut keys: Vec<IniKey> = Vec::new();
    keys.push(key_of("Hunting", "hunting", decimal_chars(d.hunting_mode)));
    keys.push(key_of("Hunting", "marking_actions", actions));
    keys.push(key_of("Logging", "show_warnings", decimal_chars(d.show_warnings)));
    if fix {
        let admin = if d.require_admin {
            chars_of("true")
        } else {
            chars_of("false")
        };
        keys.push(key_of("Loader", "require_admin", admin));
        keys.push(key_of("Loader", "delay", decimal_chars(d.close_delay)));
        keys.push(key_of("System", "dll_initialization_delay", decimal_chars(d.dll_init_delay)));
    }
    assert(key_views(keys@) =~= managed_keys(package@, *settings));
    (d, keys)
}

// ---------------------------------------------------------------------------
// Rewriting the file
// ---------------------------------------------------------------------------

/// The rewriting state after some lines: the current section, which managed
/// settings are written, and the lines written so far.
pub type IniState = (Seq<char>, Seq<bool>, Seq<Seq<char>>);

/// Writes, in order, each managed setting of section `cur` not written yet.
pub open spec fn flush_upto(m: Seq<IniKey>, cur: Seq<char>, written: Seq<bool>, out: Seq<Seq<char>>, n: int) -> (Seq<bool>, Seq<Seq<char>>)
    decreases n,
{
    if n <= 0 {
        (written, out)
    } else {
        let (w, o) = flush_upto(m, cur, written, out, n - 1);
        if !w[n - 1] && m[n - 1].section@ == cur {
            (w.update(n - 1, true), o.push(key_line(m[n - 1])))
        } else {
            (w, o)
        }
    }
}

/// The first managed setting at or after `i` of section `cur` named `key`.
pub open spec fn first_key_from(m: Seq<IniKey>, cur: Seq<char>, key: Seq<char>, i: int) -> Option<int>
    decreases m.len() - i,
{
    if i < 0 || i >= m.len() {
        None
    } else if m[i].section@ == cur && m[i].key@ == key {
        Some(i)
    } else {
        first_key_from(m, cur, key, i + 1)
    }
}

/// Whether a trimmed line opens a section (`[name]`).
pub open spec fn is_header(tr: Seq<char>) -> bool {
    tr.len() > 0 && tr[0] == '[' && tr.last() == ']'
}

/// Whether a trimmed line sets a value: no comment, and an `=` in it.
pub open spec fn is_setting(tr: Seq<char>) -> bool {
    !(tr.len() > 0 && tr[0] == ';') && !(tr.len() > 0 && tr[0] == '#') && contains(tr, seq!['='])
}

/// The name a setting line sets: what comes before its first `=`, trimmed.
pub open spec fn setting_name(tr: Seq<char>) -> Seq<char> {
    match find(tr, seq!['=']) {
        Some(i) => trim(tr.take(i)),
        None => trim(tr),
    }
}

/// The state after one more line. A section header first writes the
/// settings of the section it ends that are not written yet; a line that
/// sets a managed setting of the current section is replaced by the
/// setting's line; every other line is kept.
pub open spec fn ini_step(m: Seq<IniKey>, st: IniState, line: Seq<char>) -> IniState {
    let tr = trim(line);
    if is_header(tr) {
        let (w, o) = flush_upto(m, st.0, st.1, st.2, m.len() as int);
        (tr.subrange(1, tr.len() - 1), w, o.push(line))
    } else if is_setting(tr) {
        match first_key_from(m, st.0, setting_name(tr), 0) {
            Some(i) => (st.0, st.1.update(i, true), st.2.push(key_line(m[i]))),
            None => (st.0, st.1, st.2.push(line)),
        }
    } else {
        (st.0, st.1, st.2.push(line))
    }
}

/// The state after the lines `lines`, from no section and nothing written.
pub open spec fn ini_run(m: Seq<IniKey>, lines: Seq<Seq<char>>) -> IniState
    decreases lines.len(),
{
    if lines.len() == 0 {
        (Seq::empty(), Seq::new(m.len(), |i: int| false), Seq::empty())
    } else {
        ini_step(m, ini_run(m, lines.drop_last()), lines.last())
    }
}

/// The file's text after the rewrite: every line handled in turn, then the
/// settings of the last section that are not written yet, the lines joined
/// with `\n`.
pub open spec fn rewritten_ini(content: Seq<char>, m: Seq<IniKey>) -> Seq<char> {
    let st = ini_run(m, text_lines(content));
    let (w, o) = flush_upto(m, st.0, st.1, st.2, m.len() as int);
    joined(o, '\n')
}

fn flush(m: &Vec<IniKey>, cur: &Vec<char>, written: &mut Vec<bool>, out: &mut Vec<Vec<char>>)
    requires
        old(written)@.len() == m@.len(),
    ensures
        final(written)@.len() == m@.len(),
        (final(written)@, char_views(final(out)@)) == flush_upto(
            m@,
            cur@,
            old(written)@,
            char_views(old(out)@),
            m@.len() as int,
        ),
{
    let mut j: usize = 0;
    while j < m.len()
        invariant
            j <= m@.len(),
            written@.len() == m@.len(),
            (written@, char_views(out@)) == flush_upto(m@, cur@, old(written)@, char_views(old(out)@), j as int),
        decreases m.len() - j,
    {
        if !written[j] && chars_eq(chars_of(m[j].section.as_str()).as_slice(), cur.as_slice()) {
            let ghost before = out@;
            let mut line = chars_of(m[j].key.as_str());
            extend(&mut line, chars_of(" = ").as_slice());
            extend(&mut line, chars_of(m[j].value.as_str()).as_slice());
            out.push(line);
            written.set(j, true);
            assert(char_views(out@) =~= char_views(before).push(key_line(m@[j as int])));
        }
        j = j + 1;
    }
}

fn first_key(m: &Vec<IniKey>, cur: &Vec<char>, key: &Vec<char>) -> (r: Option<usize>)
    ensures
        r matches Some(i) ==> first_key_from(m@, cur@, key@, 0) == Some(i as int) && i < m@.len(),
        r is None ==> first_key_from(m@, cur@, key@, 0) is None,
{
    let mut i: usize = m.len();
    let mut found: Option<usize> = None;
    while i > 0
        invariant
            i <= m@.len(),
            found matches Some(f) ==> f < m@.len() && first_key_from(m@, cur@, key@, i as int) == Some(f as int),
            found is None ==> first_key_from(m@, cur@, key@, i as int) is None,
        decreases i,
    {
        i = i - 1;
        if chars_eq(chars_of(m[i].section.as_str()).as_slice(), cur.as_slice())
            && chars_eq(chars_of(m[i].key.as_str()).as_slice(), key.as_slice()) {
            found = Some(i);
        }
    }
    found
}

/// Rewrites the text of a `d3dx.ini` so that the managed settings `m` hold.
pub fn rewrite_ini(content: &str, m: &Vec<IniKey>) -> (r: String)
    ensures
        r@ == rewritten_ini(content@, m@),
{
    let lines = lines_exec(chars_of(content).as_slice());
    let ghost ls = text_lines(content@);
    let mut cur: Vec<char> = Vec::new();
    let mut written: Vec<bool> = Vec::new();
    let mut k: usize = 0;
    while k < m.len()
        invariant
            k <= m@.len(),
            written@ == Seq::new(k as nat, |i: int| false),
        decreases m.len() - k,
    {
        written.push(false);
        k = k + 1;
        assert(written@ =~= Seq::new(k as nat, |i: int| false));
    }
    let mut out: Vec<Vec<char>> = Vec::new();
    let mut i: usize = 0;
    assert(ls.take(0) =~= Seq::<Seq<char>>::empty());
    while i < lines.len()
        invariant
            i <= lines@.len(),
            char_views(lines@) == ls,
            ls == text_lines(content@),
            written@.len() == m@.len(),
            (cur@, written@, char_views(out@)) == ini_run(m@, ls.take(i as int)),
        decreases lines.len() - i,
    {
        assert(ls.take(i + 1).drop_last() =~= ls.take(i as int));
        assert(ls[i as int] == lines@[i as int]@);
        let line = &lines[i];
        let tr = trim_exec(line.as_slice());
        let n = tr.len();
        if n > 0 && tr[0] == '[' && tr[n - 1] == ']' {
            assert(n >= 2);
            flush(m, &cur, &mut written, &mut out);
            cur = slice_chars(tr.as_slice(), 1, n - 1);
            let ghost before = out@;
            out.push(copy_chars(line.as_slice()));
            assert(char_views(out@) =~= char_views(before).push(line@));
        } else {
            let comment = n > 0 && (tr[0] == ';' || tr[0] == '#');
            let eq: [char; 1] = ['='];
            assert(eq@ == seq!['=']);
            if !comment && contains_exec(tr.as_slice(), eq.as_slice()) {
                let name = match find_exec(tr.as_slice(), eq.as_slice()) {
                    Some(e) => trim_exec(slice_chars(tr.as_slice(), 0, e).as_slice()),
                    None => trim_exec(tr.as_slice()),
                };
                proof {
                    if let Some(e) = find(tr@, seq!['=']) {
                        assert(tr@.subrange(0, e) =~= tr@.take(e));
                    }
                }
                assert(name@ == setting_name(tr@));
                match first_key(m, &cur, &name) {
                    Some(j) => {
                        let ghost before = out@;
                        let mut kl = chars_of(m[j].key.as_str());
                        extend(&mut kl, chars_of(" = ").as_slice());
                        extend(&mut kl, chars_of(m[j].value.as_str()).as_slice());
                        out.push(kl);
                        written.set(j, true);
                        assert(char_views(out@) =~= char_views(before).push(key_line(m@[j as int])));
                    },
                    None => {
                        let ghost before = out@;
                        out.push(copy_chars(line.as_slice()));
                        assert(char_views(out@) =~= char_views(before).push(line@));
                    },
                }
            } else {
                let ghost before = out@;
                out.push(copy_chars(line.as_slice()));
                assert(char_views(out@) =~= char_views(before).push(line@));
            }
        }
        i = i + 1;
    }
    assert(ls.take(lines@.len() as int) =~= ls);
    flush(m, &cur, &mut written, &mut out);
    string_from(join_exec(&out, '\n').as_slice())
}

} // verus!
