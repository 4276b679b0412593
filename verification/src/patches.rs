//! The small game patches the launcher applies and takes back: a channel
//! marker rewritten in one game's SDK resource file, and a proxy library
//! placed next to another game's executable.

use vstd::prelude::*;
use crate::text::{chars_of, str_eq};

verus! {

/// What applying or taking back a patch does.
#[derive(Clone, Copy, Debug, PartialEq, Eq, Structural)]
pub enum PatchWork {
    /// Rewrite the channel marker in the SDK resource file: to the patched
    /// channel when `add`, back to the stock one otherwise.
    Channel { add: bool },
    /// Remove the old `dbghelp.dll`, then copy the proxy library in as
    /// `jsproxy.dll` when `add`, or remove `jsproxy.dll` when `remove`.
    Proxy { add: bool, remove: bool },
    /// Nothing to do.
    Nothing,
}

/// The work for a patch type (`aki` or `sparkle`) and a mode (`add` or
/// `remove`).
pub open spec fn patch_work_of(patch_type: Seq<char>, mode: Seq<char>) -> PatchWork {
    if patch_type == "aki"@ {
        if mode == "add"@ {
            PatchWork::Channel { add: true }
        } else if mode == "remove"@ {
            PatchWork::Channel { add: false }
        } else {
            PatchWork::Nothing
        }
    } else if patch_type == "sparkle"@ {
        PatchWork::Proxy { add: mode == "add"@, remove: mode == "remove"@ }
    } else {
        PatchWork::Nothing
    }
}

/// Works out what applying or taking back a patch does.
pub fn patch_work(patch_type: &str, mode: &str) -> (r: PatchWork)
    ensures
        r == patch_work_of(patch_type@, mode@),
{
    if str_eq(patch_type, "aki") {
        if str_eq(mode, "add") {
            PatchWork::Channel { add: true }
        } else if str_eq(mode, "remove") {
            PatchWork::Channel { add: false }
        } else {
            PatchWork::Nothing
        }
    } else if str_eq(patch_type, "sparkle") {
        PatchWork::Proxy { add: str_eq(mode, "add"), remove: str_eq(mode, "remove") }
    } else {
        PatchWork::Nothing
    }
}

/// The SDK resource file whose channel marker is rewritten, relative to the
/// game's folder.
pub fn channel_file() -> (r: &'static str)
    ensures
        r@ == "Client/Binaries/Win64/ThirdParty/KrPcSdk_Global/KRSDKRes/KRSDK.bin"@,
{
    "Client/Binaries/Win64/ThirdParty/KrPcSdk_Global/KRSDKRes/KRSDK.bin"
}

/// The bytes of an ASCII text, one per character.
pub open spec fn ascii_bytes(s: Seq<char>) -> Seq<u8> {
    s.map_values(|c: char| c as u8)
}

/// The channel marker in the stock resource file.
pub open spec fn stock_marker() -> Seq<u8> {
    ascii_bytes("KR_ChannelID=240"@)
}

/// The channel marker in the patched resource file.
pub open spec fn patched_marker() -> Seq<u8> {
    ascii_bytes("KR_ChannelID=205"@)
}

/// `p` occurs in `d` at `i`.
pub open spec fn bytes_at(d: Seq<u8>, p: Seq<u8>, i: int) -> bool {
    0 <= i && i + p.len() <= d.len() && d.subrange(i, i + p.len()) == p
}

/// The first place at or after `i` where `p` occurs in `d`.
pub open spec fn first_bytes_from(d: Seq<u8>, p: Seq<u8>, i: int) -> Option<int>
    decreases d.len() + 1 - i,
{
    if i < 0 || i + p.len() > d.len() {
        None
    } else if bytes_at(d, p, i) {
        Some(i)
    } else {
        first_bytes_from(d, p, i + 1)
    }
}

/// `d` with its first `from` replaced by `to` (of the same length); nothing
/// where `from` does not occur.
pub open spec fn swapped_first(d: Seq<u8>, from: Seq<u8>, to: Seq<u8>) -> Option<Seq<u8>> {
    match first_bytes_from(d, from, 0) {
        Some(i) => Some(d.take(i) + to + d.skip(i + from.len())),
        None => None,
    }
}

/// The resource file's contents after the channel rewrite: toward the
/// patched channel when `add`, back to the stock one otherwise; nothing
/// (and the file is left alone) where the marker to replace is absent.
pub open spec fn channel_patched_of(d: Seq<u8>, add: bool) -> Option<Seq<u8>> {
    if add {
        swapped_first(d, stock_marker(), patched_marker())
    } else {
        swapped_first(d, patched_marker(), stock_marker())
    }
}

fn ascii_bytes_exec(s: &str) -> (r: Vec<u8>)
    ensures
        r@ == ascii_bytes(s@),
{
    let v = chars_of(s);
    let mut out: Vec<u8> = Vec::new();
    let mut i: usize = 0;
    while i < v.len()
        invariant
            i <= v@.len(),
            v@ == s@,
            out@ == ascii_bytes(v@.take(i as int)),
        decreases v.len() - i,
    {
        let c = v[i];
        out.push(c as u8);
        i = i + 1;
        assert(ascii_bytes(v@.take(i as int)) =~= ascii_bytes(v@.take(i - 1)).push(c as u8));
    }
    assert(v@.take(v@.len() as int) =~= v@);
    out
}

fn bytes_at_exec(d: &[u8], p: &[u8], i: usize) -> (r: bool)
    ensures
        r == bytes_at(d@, p@, i as int),
{
    if p.len() > d.len() || i > d.len() - p.len() {
        return false;
    }
    let mut k: usize = 0;
    while k < p.len()
        invariant
            k <= p@.len(),
            i + p@.len() <= d@.len(),
            forall|j: int| 0 <= j < k ==> d@[i + j] == p@[j],
        decreases p.len() - k,
    {
        assert(i + k < d.len());
        let at: usize = i + k;
        if d[at] != p[k] {
            assert(d@.subrange(i as int, i + p@.len())[k as int] != p@[k as int]);
            return false;
        }
        k = k + 1;
    }
    assert(d@.subrange(i as int, i + p@.len()) =~= p@);
    true
}

proof fn lemma_first_bytes_from(d: Seq<u8>, p: Seq<u8>, i: int)
    ensures
        first_bytes_from(d, p, i) matches Some(j) ==> bytes_at(d, p, j) && i <= j,
    decreases d.len() + 1 - i,
{
    if !(i < 0 || i + p.len() > d.len()) && !bytes_at(d, p, i) {
        lemma_first_bytes_from(d, p, i + 1);
    }
}

fn first_bytes(d: &[u8], p: &[u8]) -> (r: Option<usize>)
    ensures
        match r {
            Some(i) => first_bytes_from(d@, p@, 0) == Some(i as int),
            None => first_bytes_from(d@, p@, 0) is None,
        },
{
    if p.len() > d.len() {
        return None;
    }
    let limit = d.len() - p.len();
    let mut i: usize = 0;
    while i < limit
        invariant
            p@.len() <= d@.len(),
            limit == d@.len() - p@.len(),
            i <= limit,
            first_bytes_from(d@, p@, 0) == first_bytes_from(d@, p@, i as int),
        decreases limit - i,
    {
        if bytes_at_exec(d, p, i) {
            return Some(i);
        }
        i = i + 1;
    }
    if bytes_at_exec(d, p, limit) {
        Some(limit)
    } else {
        assert(first_bytes_from(d@, p@, limit + 1) is None);
        None
    }
}

/// Rewrites the channel marker in the resource file's contents.
pub fn channel_patched(data: &[u8], add: bool) -> (r: Option<Vec<u8>>)
    ensures
        match r {
            Some(o) => channel_patched_of(data@, add) == Some(o@),
            None => channel_patched_of(data@, add) is None,
        },
{
    let stock = ascii_bytes_exec("KR_ChannelID=240");
    let patched = ascii_bytes_exec("KR_ChannelID=205");
    proof {
        reveal_strlit("KR_ChannelID=240");
        reveal_strlit("KR_ChannelID=205");
    }
    let (from, to) = if add {
        (stock, patched)
    } else {
        (patched, stock)
    };
    assert(from@.len() == to@.len());
    match first_bytes(data, from.as_slice()) {
        Some(i) => {
            proof {
                lemma_first_bytes_from(data@, from@, 0);
            }
            let mut out: Vec<u8> = Vec::new();
            let mut k: usize = 0;
            while k < data.len()
                invariant
                    k <= data@.len(),
                    i + from@.len() <= data@.len(),
                    from@.len() == to@.len(),
                    out@.len() == k,
                    forall|j: int|
                        0 <= j < k ==> out@[j] == (if i <= j < i + to@.len() {
                            to@[j - i]
                        } else {
                            data@[j]
                        }),
                decreases data.len() - k,
            {
                if i <= k && k < i + to.len() {
                    out.push(to[k - i]);
                } else {
                    out.push(data[k]);
                }
                k = k + 1;
            }
            proof {
                assert(out@ =~= data@.take(i as int) + to@ + data@.skip(i + from@.len()));
            }
            Some(out)
        },
        None => None,
    }
}

proof fn lemma_first_none(d: Seq<u8>, p: Seq<u8>, s: int, j: int)
    requires
        first_bytes_from(d, p, s) is None,
        0 <= s <= j,
    ensures
        !bytes_at(d, p, j),
    decreases j - s,
{
    if s + p.len() <= d.len() && !bytes_at(d, p, s) && s < j {
        lemma_first_none(d, p, s + 1, j);
    }
}

proof fn lemma_first_at(d: Seq<u8>, p: Seq<u8>, s: int, i: int)
    requires
        0 <= s <= i,
        bytes_at(d, p, i),
        forall|j: int| s <= j < i ==> !#[trigger] bytes_at(d, p, j),
    ensures
        first_bytes_from(d, p, s) == Some(i),
    decreases i - s,
{
    if s < i {
        lemma_first_at(d, p, s + 1, i);
    }
}

proof fn lemma_markers()
    ensures
        stock_marker().len() == 16,
        patched_marker().len() == 16,
        patched_marker()[0] == 75u8,
        forall|k: int| 1 <= k < 16 ==> patched_marker()[k] != 75u8,
{
    reveal_strlit("KR_ChannelID=240");
    reveal_strlit("KR_ChannelID=205");
    let p = patched_marker();
    assert(p[0] == 75u8);
    assert forall|k: int| 1 <= k < 16 implies p[k] != 75u8 by {
        assert(p[k] == ("KR_ChannelID=205"@[k] as u8));
    }
}

/// Taking the channel patch back restores the file exactly: for a resource
/// file that does not hold the patched marker, rewriting toward the patched
/// channel and then back gives back the contents it had.
pub proof fn law_channel_patch_undone(d: Seq<u8>)
    requires
        first_bytes_from(d, patched_marker(), 0) is None,
        channel_patched_of(d, true) is Some,
    ensures
        channel_patched_of(channel_patched_of(d, true)->0, false) == Some(d),
{
    lemma_markers();
    let stock = stock_marker();
    let patched = patched_marker();
    lemma_first_bytes_from(d, stock, 0);
    let i = first_bytes_from(d, stock, 0)->0;
    assert(bytes_at(d, stock, i));
    let d2 = d.take(i) + patched + d.skip(i + 16);
    assert(d2.len() == d.len());
    assert(channel_patched_of(d, true)->0 == d2);
    assert(d2.subrange(i, i + 16) =~= patched);
    assert forall|j: int| 0 <= j < i implies !#[trigger] bytes_at(d2, patched, j) by {
        if j + 16 <= i {
            assert(d2.subrange(j, j + 16) =~= d.subrange(j, j + 16));
            lemma_first_none(d, patched, 0, j);
        } else {
            assert(d2[i] == 75u8);
            if bytes_at(d2, patched, j) {
                assert(d2.subrange(j, j + 16)[i - j] == d2[i]);
                assert(patched[i - j] != 75u8);
            }
        }
    }
    lemma_first_at(d2, patched, 0, i);
    assert(d2.take(i) + stock + d2.skip(i + 16) =~= d) by {
        assert(d.subrange(i, i + 16) =~= stock);
        assert forall|k: int| 0 <= k < d.len() implies (d2.take(i) + stock + d2.skip(i + 16))[k] == d[k] by {
            if i <= k < i + 16 {
                assert(d.subrange(i, i + 16)[k - i] == d[k]);
            }
        }
    }
}

} // verus!
