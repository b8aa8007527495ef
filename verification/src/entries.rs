//! Per-window records kept as a sequence of `(handle, value)` entries in
//! which every handle occurs at most once: a map whose walking order is the
//! order in which handles were first recorded.

use vstd::prelude::*;
use crate::geometry::WindowHandle;

verus! {

/// The position of the first entry for `h` at or after `i`, or -1.
pub open spec fn pos_from<V>(s: Seq<(WindowHandle, V)>, h: WindowHandle, i: int) -> int
    decreases s.len() - i,
{
    if i < 0 || i >= s.len() {
        -1
    } else if s[i].0 == h {
        i
    } else {
        pos_from(s, h, i + 1)
    }
}

pub open spec fn entry_pos<V>(s: Seq<(WindowHandle, V)>, h: WindowHandle) -> int {
    pos_from(s, h, 0)
}

pub open spec fn has_key<V>(s: Seq<(WindowHandle, V)>, h: WindowHandle) -> bool {
    entry_pos(s, h) >= 0
}

pub open spec fn lookup<V>(s: Seq<(WindowHandle, V)>, h: WindowHandle) -> Option<V> {
    let p = entry_pos(s, h);
    if p >= 0 {
        Some(s[p].1)
    } else {
        None
    }
}

/// Records `v` for `h`: in place when `h` has an entry, else at the end.
pub open spec fn upsert<V>(s: Seq<(WindowHandle, V)>, h: WindowHandle, v: V) -> Seq<(WindowHandle, V)> {
    let p = entry_pos(s, h);
    if p >= 0 {
        s.update(p, (h, v))
    } else {
        s.push((h, v))
    }
}

/// Drops the entry for `h`, keeping the order of the others.
pub open spec fn erase<V>(s: Seq<(WindowHandle, V)>, h: WindowHandle) -> Seq<(WindowHandle, V)> {
    let p = entry_pos(s, h);
    if p >= 0 {
        s.remove(p)
    } else {
        s
    }
}

pub open spec fn keys_unique<V>(s: Seq<(WindowHandle, V)>) -> bool {
    forall|i: int, j: int| 0 <= i < j < s.len() ==> s[i].0 != s[j].0
}

pub proof fn lemma_pos_from<V>(s: Seq<(WindowHandle, V)>, h: WindowHandle, i: int)
    requires
        0 <= i,
    ensures
        pos_from(s, h, i) == -1 || (i <= pos_from(s, h, i) < s.len() && s[pos_from(s, h, i)].0
            == h),
        pos_from(s, h, i) == -1 ==> forall|j: int| i <= j < s.len() ==> s[j].0 != h,
        pos_from(s, h, i) >= 0 ==> forall|j: int| i <= j < pos_from(s, h, i) ==> s[j].0 != h,
    decreases s.len() - i,
{
    if i < s.len() && s[i].0 != h {
        lemma_pos_from(s, h, i + 1);
    }
}

pub proof fn lemma_entry_pos<V>(s: Seq<(WindowHandle, V)>, h: WindowHandle)
    ensures
        entry_pos(s, h) == -1 || (0 <= entry_pos(s, h) < s.len() && s[entry_pos(s, h)].0 == h),
        entry_pos(s, h) == -1 <==> forall|j: int| 0 <= j < s.len() ==> s[j].0 != h,
        entry_pos(s, h) >= 0 ==> forall|j: int| 0 <= j < entry_pos(s, h) ==> s[j].0 != h,
{
    lemma_pos_from(s, h, 0);
}

/// With unique handles, the entry at any position holding `h` is the one
/// found for `h`.
pub proof fn lemma_unique_pos<V>(s: Seq<(WindowHandle, V)>, h: WindowHandle, k: int)
    requires
        keys_unique(s),
        0 <= k < s.len(),
        s[k].0 == h,
    ensures
        entry_pos(s, h) == k,
        lookup(s, h) == Some(s[k].1),
{
    lemma_entry_pos(s, h);
}

pub proof fn lemma_upsert_unique<V>(s: Seq<(WindowHandle, V)>, h: WindowHandle, v: V)
    requires
        keys_unique(s),
    ensures
        keys_unique(upsert(s, h, v)),
        lookup(upsert(s, h, v), h) == Some(v),
        forall|g: WindowHandle| g != h ==> lookup(#[trigger] upsert(s, h, v), g) == lookup(s, g),
{
    lemma_entry_pos(s, h);
    let t = upsert(s, h, v);
    assert(keys_unique(t));
    lemma_entry_pos(t, h);
    if entry_pos(s, h) >= 0 {
        lemma_unique_pos(t, h, entry_pos(s, h));
    } else {
        lemma_unique_pos(t, h, s.len() as int);
    }
    assert forall|g: WindowHandle| g != h implies lookup(#[trigger] upsert(s, h, v), g) == lookup(
        s,
        g,
    ) by {
        lemma_entry_pos(s, g);
        lemma_entry_pos(t, g);
        if entry_pos(s, g) >= 0 {
            lemma_unique_pos(t, g, entry_pos(s, g));
        }
    }
}

pub proof fn lemma_erase_unique<V>(s: Seq<(WindowHandle, V)>, h: WindowHandle)
    requires
        keys_unique(s),
    ensures
        keys_unique(erase(s, h)),
        lookup(erase(s, h), h) is None,
        forall|g: WindowHandle| g != h ==> lookup(#[trigger] erase(s, h), g) == lookup(s, g),
{
    lemma_entry_pos(s, h);
    let t = erase(s, h);
    let p = entry_pos(s, h);
    assert(keys_unique(t)) by {
        if p >= 0 {
            assert forall|i: int, j: int| 0 <= i < j < t.len() implies t[i].0 != t[j].0 by {
                let ii = if i < p { i } else { i + 1 };
                let jj = if j < p { j } else { j + 1 };
                assert(t[i] == s[ii]);
                assert(t[j] == s[jj]);
            }
        }
    }
    lemma_entry_pos(t, h);
    if p >= 0 {
        assert forall|j: int| 0 <= j < t.len() implies t[j].0 != h by {
            let jj = if j < p { j } else { j + 1 };
            assert(t[j] == s[jj]);
        }
    }
    assert forall|g: WindowHandle| g != h implies lookup(#[trigger] erase(s, h), g) == lookup(
        s,
        g,
    ) by {
        lemma_entry_pos(s, g);
        lemma_entry_pos(t, g);
        let q = entry_pos(s, g);
        if q >= 0 {
            let qq = if q < p || p < 0 { q } else { q - 1 };
            assert(t[qq] == s[q]);
            lemma_unique_pos(t, g, qq);
        } else {
            assert forall|j: int| 0 <= j < t.len() implies t[j].0 != g by {
                let jj = if j < p || p < 0 { j } else { j + 1 };
                assert(t[j] == s[jj]);
            }
        }
    }
}

/// Every key of `t` is a key of `s`.
pub open spec fn keys_from<V, W>(t: Seq<(WindowHandle, V)>, s: Seq<(WindowHandle, W)>) -> bool {
    forall|i: int| 0 <= i < t.len() ==> has_key(s, #[trigger] t[i].0)
}

/// Keeping or dropping the last entry of `s` after a table built from the
/// others keeps the keys unique and drawn from `s`.
pub proof fn lemma_extend_from<V, W>(p: Seq<(WindowHandle, V)>, s: Seq<(WindowHandle, W)>, x: Option<V>)
    requires
        s.len() > 0,
        keys_unique(s),
        keys_unique(p),
        keys_from(p, s.drop_last()),
    ensures
        x is None ==> keys_from(p, s),
        x matches Some(v) ==> keys_unique(p.push((s.last().0, v))),
        x matches Some(v) ==> keys_from(p.push((s.last().0, v)), s),
{
    let d = s.drop_last();
    let last = s.len() - 1;
    assert forall|i: int| 0 <= i < p.len() implies #[trigger] p[i].0 != s[last].0 && has_key(s, p[i].0) by {
        let k = p[i].0;
        lemma_entry_pos(d, k);
        lemma_entry_pos(s, k);
        let j = entry_pos(d, k);
        assert(s[j] == d[j]);
    }
    if let Some(v) = x {
        let t = p.push((s[last].0, v));
        assert forall|a: int, b: int| 0 <= a < b < t.len() implies t[a].0 != t[b].0 by {
            assert(t[a] == p[a]);
            if b < p.len() {
                assert(t[b] == p[b]);
            }
        }
        assert forall|i: int| 0 <= i < t.len() implies has_key(s, #[trigger] t[i].0) by {
            if i == p.len() {
                lemma_entry_pos(s, t[i].0);
                assert(s[last].0 == t[i].0);
            } else {
                assert(t[i] == p[i]);
                assert(p[i].0 != s[last].0);
            }
        }
    }
}

pub fn find_entry<V>(v: &Vec<(WindowHandle, V)>, h: WindowHandle) -> (r: Option<usize>)
    ensures
        match r {
            Some(p) => entry_pos(v@, h) == p as int && p < v@.len(),
            None => entry_pos(v@, h) == -1,
        },
{
    let mut i: usize = 0;
    while i < v.len()
        invariant
            i <= v@.len(),
            entry_pos(v@, h) == pos_from(v@, h, i as int),
        decreases v@.len() - i,
    {
        if v[i].0 == h {
            return Some(i);
        }
        i += 1;
    }
    None
}

pub fn lookup_entry<V: Copy>(v: &Vec<(WindowHandle, V)>, h: WindowHandle) -> (r: Option<V>)
    ensures
        r == lookup(v@, h),
{
    proof {
        lemma_entry_pos(v@, h);
    }
    match find_entry(v, h) {
        Some(p) => Some(v[p].1),
        None => None,
    }
}

pub fn contains_entry<V>(v: &Vec<(WindowHandle, V)>, h: WindowHandle) -> (r: bool)
    ensures
        r == has_key(v@, h),
{
    find_entry(v, h).is_some()
}

pub fn upsert_entry<V>(v: &mut Vec<(WindowHandle, V)>, h: WindowHandle, val: V)
    ensures
        final(v)@ == upsert(old(v)@, h, val),
{
    match find_entry(v, h) {
        Some(p) => {
            v.set(p, (h, val));
        },
        None => {
            v.push((h, val));
        },
    }
}

pub fn erase_entry<V>(v: &mut Vec<(WindowHandle, V)>, h: WindowHandle)
    ensures
        final(v)@ == erase(old(v)@, h),
{
    match find_entry(v, h) {
        Some(p) => {
            v.remove(p);
        },
        None => {},
    }
}

} // verus!
