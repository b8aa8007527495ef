//! Gesture templates in the settings: the built-in templates, and the
//! normalization of received templates (a bounded number, clean ids and
//! names, one template per id, the built-in templates first).

use vstd::prelude::*;
use crate::config::{
    gestures_view, ActionKind, ActionView, BuiltinGesture, GestureMode, GestureTemplate,
    GestureView, HotzoneAction, SampleRef,
};
use crate::config_normalize::{
    modifier_actions_spec, normalize_action, normalize_action_spec, normalize_modifier_actions,
    texts_of,
};
use crate::text::{push_char, text_eq, trim_spec, trim_to_string};

verus! {

/// Most templates the settings keep.
pub const MAX_GESTURE_TEMPLATES: usize = 64;

/// Most sample paths one template keeps.
pub const MAX_GESTURE_SAMPLES: usize = 8;

/// Longest template id, in characters.
pub const MAX_GESTURE_ID_CHARS: usize = 80;

/// Longest template name, in characters.
pub const MAX_GESTURE_NAME_CHARS: usize = 40;

/// How many templates are built in.
pub const BUILTIN_GESTURE_COUNT: usize = 5;

/// The first `n` items of `s`, or all of them where there are fewer.
pub open spec fn clip<A>(s: Seq<A>, n: int) -> Seq<A> {
    if s.len() <= n {
        s
    } else {
        s.take(n)
    }
}

pub open spec fn builtin_order() -> Seq<BuiltinGesture> {
    seq![
        BuiltinGesture::Up,
        BuiltinGesture::Down,
        BuiltinGesture::L,
        BuiltinGesture::Circle,
        BuiltinGesture::Rectangle,
    ]
}

pub open spec fn builtin_id(k: BuiltinGesture) -> Seq<char> {
    match k {
        BuiltinGesture::Up => "gesture-up"@,
        BuiltinGesture::Down => "gesture-down"@,
        BuiltinGesture::L => "gesture-l"@,
        BuiltinGesture::Circle => "gesture-circle"@,
        BuiltinGesture::Rectangle => "gesture-rectangle"@,
    }
}

pub open spec fn builtin_name(k: BuiltinGesture) -> Seq<char> {
    match k {
        BuiltinGesture::Up => "向上 · 复制"@,
        BuiltinGesture::Down => "向下 · 粘贴"@,
        BuiltinGesture::L => "L 型 · 关闭窗口"@,
        BuiltinGesture::Circle => "圆圈 · 切换窗口置顶"@,
        BuiltinGesture::Rectangle => "矩形截图"@,
    }
}

pub open spec fn builtin_mode(k: BuiltinGesture) -> GestureMode {
    match k {
        BuiltinGesture::Rectangle => GestureMode::RegionScreenshot,
        _ => GestureMode::Action,
    }
}

pub open spec fn builtin_action(k: BuiltinGesture) -> ActionView {
    match k {
        BuiltinGesture::Up => ActionView { kind: ActionKind::Shortcut, value: Some("Ctrl+C"@) },
        BuiltinGesture::Down => ActionView { kind: ActionKind::Shortcut, value: Some("Ctrl+V"@) },
        BuiltinGesture::L => ActionView { kind: ActionKind::Shortcut, value: Some("Alt+F4"@) },
        BuiltinGesture::Circle => ActionView { kind: ActionKind::ToggleWindowTopmost, value: None },
        BuiltinGesture::Rectangle => ActionView { kind: ActionKind::NoAction, value: None },
    }
}

/// A built-in template as the defaults hold it: enabled, no modifier
/// variants, its own sample path.
pub open spec fn builtin_view(k: BuiltinGesture) -> GestureView {
    GestureView {
        id: builtin_id(k),
        name: builtin_name(k),
        enabled: true,
        builtin: true,
        mode: builtin_mode(k),
        action: builtin_action(k),
        modifier_actions: seq![],
        samples: seq![SampleRef::Builtin(k)],
    }
}

pub open spec fn default_gestures_spec() -> Seq<GestureView> {
    seq![
        builtin_view(BuiltinGesture::Up),
        builtin_view(BuiltinGesture::Down),
        builtin_view(BuiltinGesture::L),
        builtin_view(BuiltinGesture::Circle),
        builtin_view(BuiltinGesture::Rectangle),
    ]
}

/// The built-in template an id names, if any.
pub open spec fn builtin_of(id: Seq<char>) -> Option<BuiltinGesture> {
    if id == builtin_id(BuiltinGesture::Up) {
        Some(BuiltinGesture::Up)
    } else if id == builtin_id(BuiltinGesture::Down) {
        Some(BuiltinGesture::Down)
    } else if id == builtin_id(BuiltinGesture::L) {
        Some(BuiltinGesture::L)
    } else if id == builtin_id(BuiltinGesture::Circle) {
        Some(BuiltinGesture::Circle)
    } else if id == builtin_id(BuiltinGesture::Rectangle) {
        Some(BuiltinGesture::Rectangle)
    } else {
        None
    }
}

/// A received template cleaned: id and name trimmed and cut to their
/// lengths, action and modifier variants normalized, at most eight samples.
pub open spec fn cleaned(g: GestureView) -> GestureView {
    GestureView {
        id: clip(trim_spec(g.id), MAX_GESTURE_ID_CHARS as int),
        name: clip(trim_spec(g.name), MAX_GESTURE_NAME_CHARS as int),
        action: normalize_action_spec(g.action),
        modifier_actions: modifier_actions_spec(g.modifier_actions),
        samples: clip(g.samples, MAX_GESTURE_SAMPLES as int),
        ..g
    }
}

pub open spec fn ids_of(v: Seq<GestureView>) -> Seq<Seq<char>> {
    v.map_values(|g: GestureView| g.id)
}

/// A cleaned template is kept after `kept`: it has an id and a name, its id
/// is new, and one of its samples is usable.
pub open spec fn admits(kept: Seq<GestureView>, g: GestureView) -> bool {
    &&& g.id.len() > 0
    &&& g.name.len() > 0
    &&& !ids_of(kept).contains(g.id)
    &&& g.samples.len() > 0
}

/// The templates kept from `v`, cleaned, in their order.
pub open spec fn kept_gestures(v: Seq<GestureView>) -> Seq<GestureView>
    decreases v.len(),
{
    if v.len() == 0 {
        seq![]
    } else {
        let kept = kept_gestures(v.drop_last());
        let g = cleaned(v.last());
        if admits(kept, g) {
            kept.push(g)
        } else {
            kept
        }
    }
}

/// The first template of `v` whose id names built-in template `b`.
pub open spec fn first_builtin(v: Seq<GestureView>, b: BuiltinGesture) -> Option<GestureView>
    decreases v.len(),
{
    if v.len() == 0 {
        None
    } else {
        match first_builtin(v.drop_last(), b) {
            Some(g) => Some(g),
            None => if builtin_of(v.last().id) == Some(b) {
                Some(v.last())
            } else {
                None
            },
        }
    }
}

/// The templates of `v` whose ids name no built-in template.
pub open spec fn custom_gestures(v: Seq<GestureView>) -> Seq<GestureView>
    decreases v.len(),
{
    if v.len() == 0 {
        seq![]
    } else {
        let p = custom_gestures(v.drop_last());
        if builtin_of(v.last().id) is None {
            p.push(v.last())
        } else {
            p
        }
    }
}

/// Built-in template `b` in the output: the received one, marked built in
/// and with the built-in mode, or the default.
pub open spec fn placed(kept: Seq<GestureView>, b: BuiltinGesture) -> GestureView {
    match first_builtin(kept, b) {
        Some(g) => GestureView { builtin: true, mode: builtin_mode(b), ..g },
        None => builtin_view(b),
    }
}

/// The normalized templates: of the first 64 received, those kept; the five
/// built-in templates first, in their order; then the others, up to 64 in
/// all.
pub open spec fn normalize_gestures_spec(v: Seq<GestureView>) -> Seq<GestureView> {
    let kept = kept_gestures(clip(v, MAX_GESTURE_TEMPLATES as int));
    seq![
        placed(kept, BuiltinGesture::Up),
        placed(kept, BuiltinGesture::Down),
        placed(kept, BuiltinGesture::L),
        placed(kept, BuiltinGesture::Circle),
        placed(kept, BuiltinGesture::Rectangle),
    ] + clip(custom_gestures(kept), (MAX_GESTURE_TEMPLATES - BUILTIN_GESTURE_COUNT) as int)
}

/// The index of the first template with id `id`.
pub open spec fn index_with_id(v: Seq<GestureView>, id: Seq<char>) -> Option<int>
    decreases v.len(),
{
    if v.len() == 0 {
        None
    } else {
        match index_with_id(v.drop_last(), id) {
            Some(i) => Some(i),
            None => if v.last().id == id {
                Some(v.len() - 1)
            } else {
                None
            },
        }
    }
}

/// Settings from before version 5 bound the circle to showing the desktop;
/// it now toggles the topmost state of the window.
pub open spec fn migrate_circle_spec(v: Seq<GestureView>) -> Seq<GestureView> {
    match index_with_id(v, builtin_id(BuiltinGesture::Circle)) {
        Some(i) => if v[i].action.kind == ActionKind::ShowDesktop {
            v.update(
                i,
                GestureView {
                    action: ActionView { kind: ActionKind::ToggleWindowTopmost, value: None },
                    ..v[i]
                },
            )
        } else {
            v
        },
        None => v,
    }
}

fn builtin_at(j: usize) -> (b: BuiltinGesture)
    requires
        j < BUILTIN_GESTURE_COUNT,
    ensures
        b == builtin_order()[j as int],
{
    if j == 0 {
        BuiltinGesture::Up
    } else if j == 1 {
        BuiltinGesture::Down
    } else if j == 2 {
        BuiltinGesture::L
    } else if j == 3 {
        BuiltinGesture::Circle
    } else {
        BuiltinGesture::Rectangle
    }
}

fn slot_of(b: BuiltinGesture) -> (j: usize)
    ensures
        j < BUILTIN_GESTURE_COUNT,
        builtin_order()[j as int] == b,
{
    match b {
        BuiltinGesture::Up => 0,
        BuiltinGesture::Down => 1,
        BuiltinGesture::L => 2,
        BuiltinGesture::Circle => 3,
        BuiltinGesture::Rectangle => 4,
    }
}

fn mode_of(b: BuiltinGesture) -> (m: GestureMode)
    ensures
        m == builtin_mode(b),
{
    match b {
        BuiltinGesture::Rectangle => GestureMode::RegionScreenshot,
        _ => GestureMode::Action,
    }
}

fn builtin_named(id: &str) -> (r: Option<BuiltinGesture>)
    ensures
        r == builtin_of(id@),
{
    if text_eq(id, "gesture-up") {
        Some(BuiltinGesture::Up)
    } else if text_eq(id, "gesture-down") {
        Some(BuiltinGesture::Down)
    } else if text_eq(id, "gesture-l") {
        Some(BuiltinGesture::L)
    } else if text_eq(id, "gesture-circle") {
        Some(BuiltinGesture::Circle)
    } else if text_eq(id, "gesture-rectangle") {
        Some(BuiltinGesture::Rectangle)
    } else {
        None
    }
}

/// Built-in template `b` as the defaults hold it.
pub fn builtin_template(b: BuiltinGesture) -> (g: GestureTemplate)
    ensures
        g@ == builtin_view(b),
{
    let (id, name, action) = match b {
        BuiltinGesture::Up => (
            "gesture-up".to_owned(),
            "向上 · 复制".to_owned(),
            HotzoneAction { kind: ActionKind::Shortcut, value: Some("Ctrl+C".to_owned()) },
        ),
        BuiltinGesture::Down => (
            "gesture-down".to_owned(),
            "向下 · 粘贴".to_owned(),
            HotzoneAction { kind: ActionKind::Shortcut, value: Some("Ctrl+V".to_owned()) },
        ),
        BuiltinGesture::L => (
            "gesture-l".to_owned(),
            "L 型 · 关闭窗口".to_owned(),
            HotzoneAction { kind: ActionKind::Shortcut, value: Some("Alt+F4".to_owned()) },
        ),
        BuiltinGesture::Circle => (
            "gesture-circle".to_owned(),
            "圆圈 · 切换窗口置顶".to_owned(),
            HotzoneAction { kind: ActionKind::ToggleWindowTopmost, value: None },
        ),
        BuiltinGesture::Rectangle => (
            "gesture-rectangle".to_owned(),
            "矩形截图".to_owned(),
            HotzoneAction { kind: ActionKind::NoAction, value: None },
        ),
    };
    let g = GestureTemplate {
        id,
        name,
        enabled: true,
        builtin: true,
        mode: mode_of(b),
        action,
        modifier_actions: Vec::new(),
        samples: vec![SampleRef::Builtin(b)],
    };
    assert(g@.modifier_actions =~= seq![]);
    assert(g@.samples =~= seq![SampleRef::Builtin(b)]);
    g
}

/// The built-in templates, in their order.
pub fn default_gestures() -> (r: Vec<GestureTemplate>)
    ensures
        gestures_view(r@) == default_gestures_spec(),
{
    let mut r: Vec<GestureTemplate> = Vec::new();
    r.push(builtin_template(BuiltinGesture::Up));
    r.push(builtin_template(BuiltinGesture::Down));
    r.push(builtin_template(BuiltinGesture::L));
    r.push(builtin_template(BuiltinGesture::Circle));
    r.push(builtin_template(BuiltinGesture::Rectangle));
    assert(gestures_view(r@) =~= default_gestures_spec());
    r
}

/// The first `n` characters of a text.
fn clip_text(s: String, n: usize) -> (r: String)
    ensures
        r@ == clip(s@, n as int),
{
    let len = s.as_str().unicode_len();
    if len <= n {
        return s;
    }
    let mut out = String::new();
    let mut i: usize = 0;
    while i < n
        invariant
            i <= n < len,
            len == s@.len(),
            out@ == s@.take(i as int),
        decreases n - i,
    {
        let c = s.as_str().get_char(i);
        push_char(&mut out, c);
        assert(s@.take(i + 1) =~= s@.take(i as int).push(c));
        i += 1;
    }
    out
}

fn id_listed(ids: &Vec<String>, id: &str) -> (r: bool)
    ensures
        r == texts_of(ids@).contains(id@),
{
    let mut i: usize = 0;
    while i < ids.len()
        invariant
            i <= ids@.len(),
            forall|j: int| 0 <= j < i ==> texts_of(ids@)[j] != id@,
        decreases ids@.len() - i,
    {
        if text_eq(ids[i].as_str(), id) {
            assert(texts_of(ids@)[i as int] == id@);
            return true;
        }
        i += 1;
    }
    false
}

pub open spec fn slot_view(o: Option<GestureTemplate>) -> Option<GestureView> {
    match o {
        Some(g) => Some(g@),
        None => None,
    }
}

/// Normalizes received templates; see `normalize_gestures_spec`.
pub fn normalize_gestures(values: Vec<GestureTemplate>) -> (r: Vec<GestureTemplate>)
    ensures
        gestures_view(r@) == normalize_gestures_spec(gestures_view(values@)),
{
    let mut rest = values;
    rest.truncate(MAX_GESTURE_TEMPLATES);
    let ghost vs = gestures_view(rest@);
    proof {
        assert(vs =~= clip(gestures_view(values@), MAX_GESTURE_TEMPLATES as int));
    }
    let count = rest.len();
    let mut slots: Vec<Option<GestureTemplate>> = Vec::new();
    let mut k: usize = 0;
    while k < BUILTIN_GESTURE_COUNT
        invariant
            k <= BUILTIN_GESTURE_COUNT,
            slots@.len() == k,
            forall|j: int| 0 <= j < k ==> slots@[j] is None,
        decreases BUILTIN_GESTURE_COUNT - k,
    {
        slots.push(None);
        k += 1;
    }
    let mut customs: Vec<GestureTemplate> = Vec::new();
    let mut ids: Vec<String> = Vec::new();
    let mut i: usize = 0;
    while rest.len() > 0
        invariant
            i <= vs.len(),
            vs.len() == count,
            gestures_view(rest@) == vs.skip(i as int),
            texts_of(ids@) == ids_of(kept_gestures(vs.take(i as int))),
            slots@.len() == BUILTIN_GESTURE_COUNT,
            forall|j: int|
                0 <= j < BUILTIN_GESTURE_COUNT ==> slot_view(#[trigger] slots@[j]) == first_builtin(
                    kept_gestures(vs.take(i as int)),
                    builtin_order()[j],
                ),
            gestures_view(customs@) == custom_gestures(kept_gestures(vs.take(i as int))),
        decreases rest@.len(),
    {
        let ghost old_rest = rest@;
        proof {
            assert(gestures_view(rest@).len() == rest@.len());
            assert(vs.skip(i as int)[0] == rest@[0]@);
            assert(vs.take(i + 1).drop_last() =~= vs.take(i as int));
        }
        let mut g = rest.remove(0);
        proof {
            assert forall|j: int| 0 <= j < rest@.len() implies gestures_view(rest@)[j] == vs.skip(
                i + 1,
            )[j] by {
                assert(rest@[j] == old_rest[j + 1]);
                assert(gestures_view(old_rest)[j + 1] == vs.skip(i as int)[j + 1]);
            }
            assert(gestures_view(rest@) =~= vs.skip(i + 1));
        }
        let ghost gv = g@;
        let ghost kept = kept_gestures(vs.take(i as int));
        let ghost cg = cleaned(gv);
        assert(gv == vs[i as int]);
        let id = clip_text(trim_to_string(g.id.as_str()), MAX_GESTURE_ID_CHARS);
        g.id = id;
        let name = clip_text(trim_to_string(g.name.as_str()), MAX_GESTURE_NAME_CHARS);
        g.name = name;
        if g.id.as_str().unicode_len() > 0 && g.name.as_str().unicode_len() > 0 && !id_listed(
            &ids,
            g.id.as_str(),
        ) {
            normalize_action(&mut g.action);
            let variants = normalize_modifier_actions(g.modifier_actions);
            g.modifier_actions = variants;
            g.samples.truncate(MAX_GESTURE_SAMPLES);
            proof {
                assert(g@.samples =~= cg.samples);
                assert(g@.id == cg.id);
                assert(g@.name == cg.name);
                assert(g@.action == cg.action);
                assert(g@.modifier_actions == cg.modifier_actions);
            }
            assert(g@ == cg);
            if g.samples.len() > 0 {
                let ghost before_ids = ids@;
                ids.push(g.id.clone());
                proof {
                    assert(kept.push(cg).drop_last() =~= kept);
                    assert(texts_of(ids@) =~= texts_of(before_ids).push(cg.id));
                    assert(ids_of(kept.push(cg)) =~= ids_of(kept).push(cg.id));
                }
                match builtin_named(g.id.as_str()) {
                    Some(b) => {
                        let j = slot_of(b);
                        if slots[j].is_none() {
                            let ghost before = slots@;
                            slots.set(j, Some(g));
                            proof {
                                assert forall|q: int| 0 <= q < BUILTIN_GESTURE_COUNT implies slot_view(
                                    #[trigger] slots@[q],
                                ) == first_builtin(kept.push(cg), builtin_order()[q]) by {
                                    if q != j {
                                        assert(slots@[q] == before[q]);
                                    }
                                }
                            }
                        } else {
                            proof {
                                assert forall|q: int| 0 <= q < BUILTIN_GESTURE_COUNT implies slot_view(
                                    #[trigger] slots@[q],
                                ) == first_builtin(kept.push(cg), builtin_order()[q]) by {}
                            }
                        }
                    },
                    None => {
                        let ghost before = customs@;
                        customs.push(g);
                        proof {
                            assert(gestures_view(customs@) =~= gestures_view(before).push(cg));
                            assert forall|q: int| 0 <= q < BUILTIN_GESTURE_COUNT implies slot_view(
                                #[trigger] slots@[q],
                            ) == first_builtin(kept.push(cg), builtin_order()[q]) by {}
                        }
                    },
                }
            }
        }
        i += 1;
    }
    proof {
        assert(vs.take(vs.len() as int) =~= vs);
    }
    let ghost kept = kept_gestures(vs);
    let ghost all_slots = slots@;
    let mut out: Vec<GestureTemplate> = Vec::new();
    let mut k: usize = 0;
    while k < BUILTIN_GESTURE_COUNT
        invariant
            k <= BUILTIN_GESTURE_COUNT,
            all_slots.len() == BUILTIN_GESTURE_COUNT,
            slots@ == all_slots.skip(k as int),
            forall|j: int|
                0 <= j < BUILTIN_GESTURE_COUNT ==> slot_view(#[trigger] all_slots[j]) == first_builtin(
                    kept,
                    builtin_order()[j],
                ),
            out@.len() == k,
            forall|j: int| 0 <= j < k ==> (#[trigger] out@[j])@ == placed(kept, builtin_order()[j]),
        decreases BUILTIN_GESTURE_COUNT - k,
    {
        proof {
            assert(slots@[0] == all_slots[k as int]);
        }
        let slot = slots.remove(0);
        proof {
            assert(slots@ =~= all_slots.skip(k + 1));
        }
        let b = builtin_at(k);
        let g = match slot {
            Some(mut g) => {
                g.builtin = true;
                g.mode = mode_of(b);
                g
            },
            None => builtin_template(b),
        };
        out.push(g);
        k += 1;
    }
    customs.truncate(MAX_GESTURE_TEMPLATES - BUILTIN_GESTURE_COUNT);
    let ghost head = out@;
    let ghost tail = customs@;
    out.append(&mut customs);
    proof {
        assert(gestures_view(tail) =~= clip(
            custom_gestures(kept),
            (MAX_GESTURE_TEMPLATES - BUILTIN_GESTURE_COUNT) as int,
        ));
        assert(gestures_view(out@) =~= gestures_view(head) + gestures_view(tail));
        assert(gestures_view(out@) =~= normalize_gestures_spec(gestures_view(values@)));
    }
    out
}

/// Settings from before version 5: the circle template, where it shows the
/// desktop, toggles the topmost state of the window instead.
pub fn migrate_circle_topmost_action(gestures: &mut Vec<GestureTemplate>)
    ensures
        gestures_view(final(gestures)@) == migrate_circle_spec(gestures_view(old(gestures)@)),
{
    let ghost v = gestures_view(gestures@);
    let mut i: usize = 0;
    while i < gestures.len()
        invariant
            i <= gestures@.len(),
            v == gestures_view(gestures@),
            v == gestures_view(old(gestures)@),
            index_with_id(v.take(i as int), builtin_id(BuiltinGesture::Circle)) is None,
        decreases gestures@.len() - i,
    {
        proof {
            assert(v.take(i + 1).drop_last() =~= v.take(i as int));
        }
        if text_eq(gestures[i].id.as_str(), "gesture-circle") {
            proof {
                lemma_index_prefix(v, builtin_id(BuiltinGesture::Circle), i as int);
            }
            if gestures[i].action.kind == ActionKind::ShowDesktop {
                let mut g = gestures.remove(i);
                g.action = HotzoneAction { kind: ActionKind::ToggleWindowTopmost, value: None };
                gestures.insert(i, g);
                proof {
                    assert(gestures_view(gestures@) =~= migrate_circle_spec(v));
                }
            } else {
                assert(v[i as int].action.kind != ActionKind::ShowDesktop);
                assert(migrate_circle_spec(v) == v);
            }
            return;
        }
        i += 1;
    }
    proof {
        assert(v.take(v.len() as int) =~= v);
    }
}

/// Where no earlier template has the id but the one at `i` does, `i` is the
/// first index with it.
pub proof fn lemma_index_prefix(v: Seq<GestureView>, id: Seq<char>, i: int)
    requires
        0 <= i < v.len(),
        index_with_id(v.take(i), id) is None,
        v[i].id == id,
    ensures
        index_with_id(v, id) == Some(i),
    decreases v.len(),
{
    if i < v.len() - 1 {
        assert(v.drop_last().take(i) =~= v.take(i));
        lemma_index_prefix(v.drop_last(), id, i);
    } else {
        assert(v.drop_last() =~= v.take(i));
    }
}

} // verus!
