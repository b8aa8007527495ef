//! What normalized gesture templates satisfy, and why normalizing them again
//! changes nothing.

use vstd::prelude::*;
use crate::config::{ActionKind, ActionView, BuiltinGesture, GestureView};
use crate::config_laws::{lemma_action_idempotent, lemma_variants_idempotent};
use crate::config_normalize::{modifier_actions_spec, normalize_action_spec};
use crate::gesture_config::{
    admits, builtin_id, builtin_mode, builtin_of, builtin_order, builtin_view, cleaned, clip,
    custom_gestures, first_builtin, ids_of, index_with_id, kept_gestures, lemma_index_prefix, migrate_circle_spec,
    normalize_gestures_spec, placed, BUILTIN_GESTURE_COUNT, MAX_GESTURE_ID_CHARS,
    MAX_GESTURE_NAME_CHARS, MAX_GESTURE_SAMPLES, MAX_GESTURE_TEMPLATES,
};
use crate::text::{lemma_trim_idempotent, trim_spec};

verus! {

/// A template as normalization leaves it, apart from surrounding white space
/// in its id and name.
pub open spec fn clean_gesture(g: GestureView) -> bool {
    &&& 0 < g.id.len() <= MAX_GESTURE_ID_CHARS
    &&& 0 < g.name.len() <= MAX_GESTURE_NAME_CHARS
    &&& normalize_action_spec(g.action) == g.action
    &&& modifier_actions_spec(g.modifier_actions) == g.modifier_actions
    &&& 0 < g.samples.len() <= MAX_GESTURE_SAMPLES
}

/// Id and name carry no surrounding white space.
pub open spec fn trimmed_gesture(g: GestureView) -> bool {
    trim_spec(g.id) == g.id && trim_spec(g.name) == g.name
}

pub open spec fn distinct_ids(v: Seq<GestureView>) -> bool {
    forall|i: int, j: int| 0 <= i < j < v.len() ==> (#[trigger] v[i]).id != (#[trigger] v[j]).id
}

/// A template list as normalization leaves it: the built-in templates first
/// and in their order, then templates with other ids, every id once, at most
/// 64 in all.
pub open spec fn settled_gestures(r: Seq<GestureView>) -> bool {
    &&& BUILTIN_GESTURE_COUNT <= r.len() <= MAX_GESTURE_TEMPLATES
    &&& forall|i: int| 0 <= i < r.len() ==> clean_gesture(#[trigger] r[i]) && trimmed_gesture(r[i])
    &&& distinct_ids(r)
    &&& forall|j: int|
        0 <= j < BUILTIN_GESTURE_COUNT ==> (#[trigger] r[j]).id == builtin_id(builtin_order()[j])
            && r[j].builtin && r[j].mode == builtin_mode(builtin_order()[j])
    &&& forall|j: int| BUILTIN_GESTURE_COUNT <= j < r.len() ==> builtin_of((#[trigger] r[j]).id) is None
}

/// The built-in templates are clean and name themselves.
proof fn lemma_builtin_facts(b: BuiltinGesture)
    ensures
        builtin_of(builtin_id(b)) == Some(b),
        clean_gesture(builtin_view(b)),
        trimmed_gesture(builtin_view(b)),
{
    reveal_strlit("gesture-up");
    reveal_strlit("gesture-down");
    reveal_strlit("gesture-l");
    reveal_strlit("gesture-circle");
    reveal_strlit("gesture-rectangle");
    reveal_strlit("向上 · 复制");
    reveal_strlit("向下 · 粘贴");
    reveal_strlit("L 型 · 关闭窗口");
    reveal_strlit("圆圈 · 切换窗口置顶");
    reveal_strlit("矩形截图");
    reveal_strlit("Ctrl+C");
    reveal_strlit("Ctrl+V");
    reveal_strlit("Alt+F4");
    reveal_strlit("VolumeUp");
    reveal_strlit("VolumeDown");
    let g = builtin_view(b);
    assert(modifier_actions_spec(Seq::<crate::config::ModifierActionView>::empty()) =~= seq![]);
    assert(g.modifier_actions =~= Seq::<crate::config::ModifierActionView>::empty());
    match g.action.value {
        Some(t) => {
            assert(trim_spec(t) == t);
        },
        None => {},
    }
    assert(trim_spec(g.id) == g.id);
    assert(trim_spec(g.name) == g.name);
}

proof fn lemma_cleaned_fixed(g: GestureView)
    requires
        clean_gesture(g),
        trimmed_gesture(g),
    ensures
        cleaned(g) == g,
{
    assert(cleaned(g).samples =~= g.samples);
}

/// Keeping templates of a settled list keeps all of them as they are.
proof fn lemma_kept_settled(r: Seq<GestureView>, n: int)
    requires
        settled_gestures(r),
        0 <= n <= r.len(),
    ensures
        kept_gestures(r.take(n)) == r.take(n),
    decreases n,
{
    if n > 0 {
        lemma_kept_settled(r, n - 1);
        let p = r.take(n - 1);
        assert(r.take(n).drop_last() =~= p);
        let g = r[n - 1];
        lemma_cleaned_fixed(g);
        if ids_of(p).contains(g.id) {
            let k = choose|k: int| 0 <= k < ids_of(p).len() && ids_of(p)[k] == g.id;
            assert(r[k].id == r[n - 1].id);
        }
        assert(admits(p, g));
        assert(p.push(g) =~= r.take(n));
    }
}

proof fn lemma_first_builtin_settled(r: Seq<GestureView>, j: int, n: int)
    requires
        settled_gestures(r),
        0 <= j < BUILTIN_GESTURE_COUNT,
        0 <= n <= r.len(),
    ensures
        first_builtin(r.take(n), builtin_order()[j]) == if n <= j {
            None
        } else {
            Some(r[j])
        },
    decreases n,
{
    if n > 0 {
        lemma_first_builtin_settled(r, j, n - 1);
        assert(r.take(n).drop_last() =~= r.take(n - 1));
        let m = n - 1;
        if m < BUILTIN_GESTURE_COUNT {
            lemma_builtin_facts(builtin_order()[m]);
            assert(r[m].id == builtin_id(builtin_order()[m]));
        } else {
            assert(builtin_of(r[m].id) is None);
        }
    }
}

proof fn lemma_custom_settled(r: Seq<GestureView>, n: int)
    requires
        settled_gestures(r),
        0 <= n <= r.len(),
    ensures
        custom_gestures(r.take(n)) == if n <= BUILTIN_GESTURE_COUNT {
            Seq::<GestureView>::empty()
        } else {
            r.subrange(BUILTIN_GESTURE_COUNT as int, n)
        },
    decreases n,
{
    if n > 0 {
        lemma_custom_settled(r, n - 1);
        assert(r.take(n).drop_last() =~= r.take(n - 1));
        let m = n - 1;
        if m < BUILTIN_GESTURE_COUNT {
            lemma_builtin_facts(builtin_order()[m]);
            assert(r[m].id == builtin_id(builtin_order()[m]));
        } else {
            assert(builtin_of(r[m].id) is None);
            if m == BUILTIN_GESTURE_COUNT {
                assert(Seq::<GestureView>::empty().push(r[m]) =~= r.subrange(
                    BUILTIN_GESTURE_COUNT as int,
                    n,
                ));
            } else {
                assert(r.subrange(BUILTIN_GESTURE_COUNT as int, m).push(r[m]) =~= r.subrange(
                    BUILTIN_GESTURE_COUNT as int,
                    n,
                ));
            }
        }
    }
}

/// Normalizing a settled template list changes nothing.
pub proof fn lemma_settled_is_fixed(r: Seq<GestureView>)
    requires
        settled_gestures(r),
    ensures
        normalize_gestures_spec(r) == r,
{
    assert(r.take(r.len() as int) =~= r);
    lemma_kept_settled(r, r.len() as int);
    lemma_custom_settled(r, r.len() as int);
    assert forall|j: int| 0 <= j < BUILTIN_GESTURE_COUNT implies placed(r, builtin_order()[j])
        == r[j] by {
        lemma_first_builtin_settled(r, j, r.len() as int);
    }
    let custom = r.subrange(BUILTIN_GESTURE_COUNT as int, r.len() as int);
    assert(clip(custom, (MAX_GESTURE_TEMPLATES - BUILTIN_GESTURE_COUNT) as int) == custom);
    assert(placed(r, BuiltinGesture::Up) == r[0]);
    assert(placed(r, BuiltinGesture::Down) == r[1]);
    assert(placed(r, BuiltinGesture::L) == r[2]);
    assert(placed(r, BuiltinGesture::Circle) == r[3]);
    assert(placed(r, BuiltinGesture::Rectangle) == r[4]);
    assert(normalize_gestures_spec(r) =~= r);
}

/// Kept templates are clean and carry distinct ids.
proof fn lemma_kept_clean(u: Seq<GestureView>)
    ensures
        forall|i: int|
            0 <= i < kept_gestures(u).len() ==> clean_gesture(#[trigger] kept_gestures(u)[i]),
        distinct_ids(kept_gestures(u)),
    decreases u.len(),
{
    if u.len() > 0 {
        let p = kept_gestures(u.drop_last());
        lemma_kept_clean(u.drop_last());
        let x = u.last();
        let g = cleaned(x);
        if admits(p, g) {
            let k = p.push(g);
            lemma_action_idempotent(x.action);
            lemma_variants_idempotent(x.modifier_actions);
            assert(clean_gesture(g));
            assert forall|i: int, j: int| 0 <= i < j < k.len() implies (#[trigger] k[i]).id != (
            #[trigger] k[j]).id by {
                if j == k.len() - 1 {
                    assert(ids_of(p)[i] == p[i].id);
                }
            }
        }
    }
}

proof fn lemma_first_builtin_member(v: Seq<GestureView>, b: BuiltinGesture)
    ensures
        first_builtin(v, b) matches Some(g) ==> builtin_of(g.id) == Some(b) && exists|i: int|
            0 <= i < v.len() && v[i] == g,
    decreases v.len(),
{
    if v.len() > 0 {
        lemma_first_builtin_member(v.drop_last(), b);
        if let Some(g) = first_builtin(v.drop_last(), b) {
            let i = choose|i: int| 0 <= i < v.drop_last().len() && v.drop_last()[i] == g;
            assert(v[i] == g);
        } else if builtin_of(v.last().id) == Some(b) {
            assert(v[v.len() - 1] == v.last());
        }
    }
}

/// The custom templates come from the list, in its order, name no built-in
/// template, and keep distinct ids distinct.
proof fn lemma_custom_members(v: Seq<GestureView>)
    ensures
        forall|i: int|
            0 <= i < custom_gestures(v).len() ==> builtin_of((#[trigger] custom_gestures(v)[i]).id)
                is None && exists|k: int| 0 <= k < v.len() && v[k] == custom_gestures(v)[i],
        distinct_ids(v) ==> distinct_ids(custom_gestures(v)),
    decreases v.len(),
{
    if v.len() > 0 {
        let d = v.drop_last();
        lemma_custom_members(d);
        let p = custom_gestures(d);
        let c = custom_gestures(v);
        assert forall|i: int| 0 <= i < c.len() implies builtin_of((#[trigger] c[i]).id) is None
            && exists|k: int| 0 <= k < v.len() && v[k] == c[i] by {
            if i < p.len() {
                assert(c[i] == p[i]);
                let k = choose|k: int| 0 <= k < d.len() && d[k] == p[i];
                assert(v[k] == d[k]);
            } else {
                assert(v[v.len() - 1] == c[i]);
            }
        }
        if distinct_ids(v) {
            assert(distinct_ids(d)) by {
                assert forall|i: int, j: int| 0 <= i < j < d.len() implies (#[trigger] d[i]).id != (
                #[trigger] d[j]).id by {
                    assert(d[i] == v[i] && d[j] == v[j]);
                }
            }
            assert forall|i: int, j: int| 0 <= i < j < c.len() implies (#[trigger] c[i]).id != (
            #[trigger] c[j]).id by {
                if j == p.len() {
                    assert(c[i] == p[i]);
                    let k = choose|k: int| 0 <= k < d.len() && d[k] == p[i];
                    assert(v[k] == d[k]);
                    assert(c[j] == v[v.len() - 1]);
                } else {
                    assert(c[i] == p[i] && c[j] == p[j]);
                }
            }
        }
    }
}

proof fn lemma_builtin_ids_distinct(a: BuiltinGesture, b: BuiltinGesture)
    requires
        a != b,
    ensures
        builtin_id(a) != builtin_id(b),
{
    lemma_builtin_facts(a);
    lemma_builtin_facts(b);
}

/// Normalized templates are settled wherever their ids and names carry no
/// surrounding white space.
pub proof fn lemma_normalized_settled(v: Seq<GestureView>)
    requires
        forall|i: int|
            0 <= i < normalize_gestures_spec(v).len() ==> trimmed_gesture(
                #[trigger] normalize_gestures_spec(v)[i],
            ),
    ensures
        settled_gestures(normalize_gestures_spec(v)),
{
    let n = normalize_gestures_spec(v);
    let kept = kept_gestures(clip(v, MAX_GESTURE_TEMPLATES as int));
    lemma_kept_clean(clip(v, MAX_GESTURE_TEMPLATES as int));
    lemma_custom_members(kept);
    let custom = custom_gestures(kept);
    let tail = clip(custom, (MAX_GESTURE_TEMPLATES - BUILTIN_GESTURE_COUNT) as int);
    assert forall|j: int| 0 <= j < BUILTIN_GESTURE_COUNT implies (#[trigger] n[j]).id == builtin_id(
        builtin_order()[j],
    ) && n[j].builtin && n[j].mode == builtin_mode(builtin_order()[j]) && clean_gesture(n[j]) by {
        let b = builtin_order()[j];
        assert(n[j] == placed(kept, b));
        lemma_first_builtin_member(kept, b);
        lemma_builtin_facts(b);
        if let Some(g) = first_builtin(kept, b) {
            let i = choose|i: int| 0 <= i < kept.len() && kept[i] == g;
            assert(clean_gesture(kept[i]));
        }
    }
    assert forall|j: int| BUILTIN_GESTURE_COUNT <= j < n.len() implies builtin_of(
        (#[trigger] n[j]).id,
    ) is None && clean_gesture(n[j]) by {
        let t = j - BUILTIN_GESTURE_COUNT;
        assert(n[j] == tail[t]);
        assert(tail[t] == custom[t]);
        let k = choose|k: int| 0 <= k < kept.len() && kept[k] == custom[t];
        assert(clean_gesture(kept[k]));
    }
    assert forall|i: int, j: int| 0 <= i < j < n.len() implies (#[trigger] n[i]).id != (
    #[trigger] n[j]).id by {
        if j < BUILTIN_GESTURE_COUNT {
            lemma_builtin_ids_distinct(builtin_order()[i], builtin_order()[j]);
        } else if i < BUILTIN_GESTURE_COUNT {
            lemma_builtin_facts(builtin_order()[i]);
        } else {
            let a = i - BUILTIN_GESTURE_COUNT;
            let c = j - BUILTIN_GESTURE_COUNT;
            assert(n[i] == custom[a] && n[j] == custom[c]);
        }
    }
}

proof fn lemma_index_absent(v: Seq<GestureView>, id: Seq<char>)
    requires
        forall|i: int| 0 <= i < v.len() ==> (#[trigger] v[i]).id != id,
    ensures
        index_with_id(v, id) is None,
    decreases v.len(),
{
    if v.len() > 0 {
        let d = v.drop_last();
        assert forall|i: int| 0 <= i < d.len() implies (#[trigger] d[i]).id != id by {
            assert(d[i] == v[i]);
        }
        lemma_index_absent(d, id);
        assert(v[v.len() - 1] == v.last());
    }
}

proof fn lemma_index_settled(r: Seq<GestureView>)
    requires
        settled_gestures(r),
    ensures
        index_with_id(r, builtin_id(BuiltinGesture::Circle)) == Some(3int),
{
    let id = builtin_id(BuiltinGesture::Circle);
    assert(r[3].id == id);
    let p = r.take(3);
    assert forall|i: int| 0 <= i < p.len() implies (#[trigger] p[i]).id != id by {
        assert(p[i] == r[i]);
        lemma_builtin_ids_distinct(builtin_order()[i], BuiltinGesture::Circle);
    }
    lemma_index_absent(p, id);
    lemma_index_prefix(r, id, 3);
}

/// Moving the circle from showing the desktop to toggling topmost keeps a
/// settled list settled.
pub proof fn lemma_migrated_settled(r: Seq<GestureView>)
    requires
        settled_gestures(r),
    ensures
        settled_gestures(migrate_circle_spec(r)),
{
    lemma_index_settled(r);
    let m = migrate_circle_spec(r);
    if r[3].action.kind == ActionKind::ShowDesktop {
        let a = ActionView { kind: ActionKind::ToggleWindowTopmost, value: None };
        assert(normalize_action_spec(a) == a);
        assert forall|i: int| 0 <= i < m.len() implies clean_gesture(#[trigger] m[i])
            && trimmed_gesture(m[i]) by {
            if i != 3 {
                assert(m[i] == r[i]);
            }
        }
        assert forall|i: int, j: int| 0 <= i < j < m.len() implies (#[trigger] m[i]).id != (
        #[trigger] m[j]).id by {
            assert(m[i].id == r[i].id && m[j].id == r[j].id);
        }
        assert forall|j: int| BUILTIN_GESTURE_COUNT <= j < m.len() implies builtin_of(
            (#[trigger] m[j]).id,
        ) is None by {
            assert(m[j] == r[j]);
        }
        assert forall|j: int| 0 <= j < BUILTIN_GESTURE_COUNT implies (#[trigger] m[j]).id
            == builtin_id(builtin_order()[j]) && m[j].builtin && m[j].mode == builtin_mode(
            builtin_order()[j],
        ) by {
            assert(m[j].id == r[j].id);
        }
    }
}

/// Migration changes one template's action at most: ids and names stay.
pub proof fn lemma_normalized_circle_index(v: Seq<GestureView>)
    ensures
        ({
            let n = normalize_gestures_spec(v);
            let m = migrate_circle_spec(n);
            &&& m.len() == n.len()
            &&& forall|i: int| 0 <= i < n.len() ==> (#[trigger] m[i]).id == n[i].id && m[i].name == n[i].name
        }),
{
    let n = normalize_gestures_spec(v);
    let m = migrate_circle_spec(n);
    lemma_index_in_range(n, builtin_id(BuiltinGesture::Circle));
}

proof fn lemma_index_in_range(v: Seq<GestureView>, id: Seq<char>)
    ensures
        index_with_id(v, id) matches Some(i) ==> 0 <= i < v.len(),
    decreases v.len(),
{
    if v.len() > 0 {
        lemma_index_in_range(v.drop_last(), id);
    }
}

/// Id and name fit their lengths once trimmed, so cutting them leaves no
/// white space at their ends.
pub open spec fn short_texts(g: GestureView) -> bool {
    trim_spec(g.id).len() <= MAX_GESTURE_ID_CHARS && trim_spec(g.name).len() <= MAX_GESTURE_NAME_CHARS
}

proof fn lemma_kept_trimmed(u: Seq<GestureView>)
    requires
        forall|i: int| 0 <= i < u.len() ==> short_texts(#[trigger] u[i]),
    ensures
        forall|i: int|
            0 <= i < kept_gestures(u).len() ==> trimmed_gesture(#[trigger] kept_gestures(u)[i]),
    decreases u.len(),
{
    if u.len() > 0 {
        let d = u.drop_last();
        assert forall|i: int| 0 <= i < d.len() implies short_texts(#[trigger] d[i]) by {
            assert(d[i] == u[i]);
        }
        lemma_kept_trimmed(d);
        let x = u.last();
        assert(short_texts(u[u.len() - 1]));
        lemma_trim_idempotent(x.id);
        lemma_trim_idempotent(x.name);
        let g = cleaned(x);
        assert(g.id == trim_spec(x.id));
        assert(g.name == trim_spec(x.name));
        assert(trimmed_gesture(g));
        let p = kept_gestures(d);
        let k = kept_gestures(u);
        assert(u.drop_last() == d);
        assert forall|i: int| 0 <= i < k.len() implies trimmed_gesture(#[trigger] k[i]) by {
            if i < p.len() {
                assert(k[i] == p[i]);
            } else {
                assert(k[i] == g);
            }
        }
    }
}

/// Where every received template's id and name fit their lengths once
/// trimmed, every normalized template's id and name carry no surrounding
/// white space.
pub proof fn lemma_short_texts_trimmed(v: Seq<GestureView>)
    requires
        forall|i: int| 0 <= i < v.len() ==> short_texts(#[trigger] v[i]),
    ensures
        forall|i: int|
            0 <= i < normalize_gestures_spec(v).len() ==> trimmed_gesture(
                #[trigger] normalize_gestures_spec(v)[i],
            ),
{
    let n = normalize_gestures_spec(v);
    let u = clip(v, MAX_GESTURE_TEMPLATES as int);
    assert forall|i: int| 0 <= i < u.len() implies short_texts(#[trigger] u[i]) by {
        assert(u[i] == v[i]);
    }
    lemma_kept_trimmed(u);
    let kept = kept_gestures(u);
    lemma_custom_members(kept);
    let custom = custom_gestures(kept);
    let tail = clip(custom, (MAX_GESTURE_TEMPLATES - BUILTIN_GESTURE_COUNT) as int);
    assert forall|j: int| 0 <= j < n.len() implies trimmed_gesture(#[trigger] n[j]) by {
        if j < BUILTIN_GESTURE_COUNT {
            let b = builtin_order()[j];
            assert(n[j] == placed(kept, b));
            lemma_first_builtin_member(kept, b);
            lemma_builtin_facts(b);
            if let Some(g) = first_builtin(kept, b) {
                let i = choose|i: int| 0 <= i < kept.len() && kept[i] == g;
                assert(trimmed_gesture(kept[i]));
            }
        } else {
            let t = j - BUILTIN_GESTURE_COUNT;
            assert(n[j] == tail[t]);
            assert(tail[t] == custom[t]);
            let k = choose|k: int| 0 <= k < kept.len() && kept[k] == custom[t];
            assert(trimmed_gesture(kept[k]));
        }
    }
}

} // verus!
