//! Normalization of received settings: texts trimmed, lists deduplicated,
//! modifier variants canonical, legacy forms migrated.

use vstd::prelude::*;
use crate::config::{
    AppConfig, EdgeHideConfig, EdgeHideMonitorProfile, MonitorProfile, MouseGestureConfig,
    OcrConfig, TopmostPinConfig, WindowDragConfig, SCHEMA_VERSION, all_hotzone_ids,
    gestures_view, modifier_actions_view, settings_view, text_of, trigger_actions_view, ActionKind, ActionView,
    Edge, HotzoneAction, HotzoneId, HotzoneSetting, HotzoneSettingView, ModifierAction,
    ModifierActionView, ModifierKey, TriggerAction, TriggerActionView,
};
use crate::gesture_config::{
    default_gestures_spec, migrate_circle_spec, migrate_circle_topmost_action, normalize_gestures, normalize_gestures_spec,
};
use crate::text::{eq_ignore_ascii_case, eq_ignore_ascii_case_spec, trim_spec, trim_to_string};

verus! {

/// Most modifier variants a trigger keeps.
pub const MAX_MODIFIER_VARIANTS: usize = 15;

/// A text trimmed, or nothing when trimming leaves it empty.
pub open spec fn trimmed_text(v: Option<Seq<char>>) -> Option<Seq<char>> {
    match v {
        Some(s) => if trim_spec(s).len() > 0 {
            Some(trim_spec(s))
        } else {
            None
        },
        None => None,
    }
}

pub fn normalized_optional_string(value: Option<String>) -> (r: Option<String>)
    ensures
        text_of(r) == trimmed_text(text_of(value)),
{
    match value {
        Some(v) => {
            let t = trim_to_string(v.as_str());
            if t.as_str().is_empty() {
                None
            } else {
                Some(t)
            }
        },
        None => None,
    }
}

/// The legacy volume shortcuts become volume adjustments of two percent.
pub open spec fn migrate_spec(a: ActionView) -> ActionView {
    if a.kind == ActionKind::Shortcut && a.value is Some {
        let v = a.value->0;
        if eq_ignore_ascii_case_spec(v, "VolumeUp"@) {
            ActionView { kind: ActionKind::VolumeAdjust, value: Some("0.02"@) }
        } else if eq_ignore_ascii_case_spec(v, "VolumeDown"@) {
            ActionView { kind: ActionKind::VolumeAdjust, value: Some("-0.02"@) }
        } else {
            a
        }
    } else {
        a
    }
}

pub fn migrate_legacy_volume_shortcut(action: &mut HotzoneAction)
    ensures
        final(action)@ == migrate_spec(old(action)@),
{
    broadcast use vstd::string::to_string_from_display_ensures_for_str;

    if action.kind != ActionKind::Shortcut {
        return;
    }
    let is_up;
    let is_down;
    match &action.value {
        Some(v) => {
            is_up = eq_ignore_ascii_case(v.as_str(), "VolumeUp");
            is_down = eq_ignore_ascii_case(v.as_str(), "VolumeDown");
        },
        None => {
            return;
        },
    }
    if is_up {
        action.kind = ActionKind::VolumeAdjust;
        action.value = Some("0.02".to_string());
    } else if is_down {
        action.kind = ActionKind::VolumeAdjust;
        action.value = Some("-0.02".to_string());
    }
}

/// An action's text normalized, then legacy forms migrated.
pub open spec fn normalize_action_spec(a: ActionView) -> ActionView {
    migrate_spec(ActionView { kind: a.kind, value: trimmed_text(a.value) })
}

pub fn normalize_action(action: &mut HotzoneAction)
    ensures
        final(action)@ == normalize_action_spec(old(action)@),
{
    let value = action.value.take();
    action.value = normalized_optional_string(value);
    migrate_legacy_volume_shortcut(action);
}

pub open spec fn key_if(v: Seq<ModifierKey>, k: ModifierKey) -> Seq<ModifierKey> {
    if v.contains(k) {
        seq![k]
    } else {
        Seq::empty()
    }
}

/// The keys present, each once, in the order Ctrl, Alt, Shift, Win.
pub open spec fn normalized_modifiers_spec(v: Seq<ModifierKey>) -> Seq<ModifierKey> {
    key_if(v, ModifierKey::Ctrl) + key_if(v, ModifierKey::Alt) + key_if(v, ModifierKey::Shift)
        + key_if(v, ModifierKey::Win)
}

fn holds_key(v: &Vec<ModifierKey>, k: ModifierKey) -> (r: bool)
    ensures
        r == v@.contains(k),
{
    let mut i: usize = 0;
    while i < v.len()
        invariant
            i <= v@.len(),
            forall|j: int| 0 <= j < i ==> v@[j] != k,
        decreases v@.len() - i,
    {
        if v[i] == k {
            assert(v@[i as int] == k);
            return true;
        }
        i += 1;
    }
    false
}

pub fn normalized_modifiers(values: Vec<ModifierKey>) -> (r: Vec<ModifierKey>)
    ensures
        r@ == normalized_modifiers_spec(values@),
{
    let mut out: Vec<ModifierKey> = Vec::new();
    if holds_key(&values, ModifierKey::Ctrl) {
        out.push(ModifierKey::Ctrl);
    }
    assert(out@ =~= key_if(values@, ModifierKey::Ctrl));
    if holds_key(&values, ModifierKey::Alt) {
        out.push(ModifierKey::Alt);
    }
    assert(out@ =~= key_if(values@, ModifierKey::Ctrl) + key_if(values@, ModifierKey::Alt));
    if holds_key(&values, ModifierKey::Shift) {
        out.push(ModifierKey::Shift);
    }
    assert(out@ =~= key_if(values@, ModifierKey::Ctrl) + key_if(values@, ModifierKey::Alt)
        + key_if(values@, ModifierKey::Shift));
    if holds_key(&values, ModifierKey::Win) {
        out.push(ModifierKey::Win);
    }
    assert(out@ =~= normalized_modifiers_spec(values@));
    out
}

/// The edges in the order first given, each once.
pub open spec fn dedup_edges(s: Seq<Edge>) -> Seq<Edge>
    decreases s.len(),
{
    if s.len() == 0 {
        s
    } else {
        let p = dedup_edges(s.drop_last());
        if p.contains(s.last()) {
            p
        } else {
            p.push(s.last())
        }
    }
}

fn holds_edge(v: &Vec<Edge>, e: Edge) -> (r: bool)
    ensures
        r == v@.contains(e),
{
    let mut i: usize = 0;
    while i < v.len()
        invariant
            i <= v@.len(),
            forall|j: int| 0 <= j < i ==> v@[j] != e,
        decreases v@.len() - i,
    {
        if v[i] == e {
            assert(v@[i as int] == e);
            return true;
        }
        i += 1;
    }
    false
}

pub fn normalized_edges(values: Vec<Edge>) -> (r: Vec<Edge>)
    ensures
        r@ == dedup_edges(values@),
{
    let mut edges: Vec<Edge> = Vec::new();
    let mut i: usize = 0;
    while i < values.len()
        invariant
            i <= values@.len(),
            edges@ == dedup_edges(values@.take(i as int)),
        decreases values@.len() - i,
    {
        proof {
            assert(values@.take(i + 1).drop_last() =~= values@.take(i as int));
        }
        let e = values[i];
        if !holds_edge(&edges, e) {
            edges.push(e);
        }
        i += 1;
    }
    proof {
        assert(values@.take(values@.len() as int) =~= values@);
    }
    edges
}

pub open spec fn texts_of(v: Seq<String>) -> Seq<Seq<char>> {
    v.map_values(|s: String| s@)
}

pub open spec fn has_text_ignoring_case(list: Seq<Seq<char>>, t: Seq<char>) -> bool {
    exists|j: int| 0 <= j < list.len() && eq_ignore_ascii_case_spec(#[trigger] list[j], t)
}

/// The texts trimmed, without empty ones, and each only once when ASCII case
/// is ignored (the first spelling stays).
pub open spec fn string_list_spec(v: Seq<Seq<char>>) -> Seq<Seq<char>>
    decreases v.len(),
{
    if v.len() == 0 {
        Seq::empty()
    } else {
        let p = string_list_spec(v.drop_last());
        let t = trim_spec(v.last());
        if t.len() > 0 && !has_text_ignoring_case(p, t) {
            p.push(t)
        } else {
            p
        }
    }
}

fn listed_ignoring_case(list: &Vec<String>, t: &str) -> (r: bool)
    ensures
        r == has_text_ignoring_case(texts_of(list@), t@),
{
    let ghost texts = texts_of(list@);
    let mut i: usize = 0;
    while i < list.len()
        invariant
            i <= list@.len(),
            texts == texts_of(list@),
            forall|j: int| 0 <= j < i ==> !eq_ignore_ascii_case_spec(#[trigger] texts[j], t@),
        decreases list@.len() - i,
    {
        if eq_ignore_ascii_case(list[i].as_str(), t) {
            assert(eq_ignore_ascii_case_spec(texts[i as int], t@));
            return true;
        }
        i += 1;
    }
    false
}

pub fn normalized_string_list(values: Vec<String>) -> (r: Vec<String>)
    ensures
        texts_of(r@) == string_list_spec(texts_of(values@)),
{
    let ghost vs = texts_of(values@);
    let mut normalized: Vec<String> = Vec::new();
    let mut i: usize = 0;
    while i < values.len()
        invariant
            i <= values@.len(),
            vs == texts_of(values@),
            texts_of(normalized@) == string_list_spec(vs.take(i as int)),
        decreases values@.len() - i,
    {
        proof {
            assert(vs.take(i + 1).drop_last() =~= vs.take(i as int));
            assert(vs.take(i + 1).last() == values@[i as int]@);
        }
        let value = trim_to_string(values[i].as_str());
        if !value.as_str().is_empty() && !listed_ignoring_case(&normalized, value.as_str()) {
            let ghost before = normalized@;
            normalized.push(value);
            proof {
                assert(texts_of(normalized@) =~= texts_of(before).push(value@));
            }
        }
        i += 1;
    }
    proof {
        assert(vs.take(vs.len() as int) =~= vs);
    }
    normalized
}

/// A modifier variant with its keys canonical and its action normalized.
pub open spec fn normalize_variant_spec(m: ModifierActionView) -> ModifierActionView {
    ModifierActionView {
        modifiers: normalized_modifiers_spec(m.modifiers),
        action: normalize_action_spec(m.action),
    }
}

pub open spec fn has_keys(out: Seq<ModifierActionView>, keys: Seq<ModifierKey>) -> bool {
    exists|j: int| 0 <= j < out.len() && (#[trigger] out[j]).modifiers == keys
}

/// The variants normalized; those without keys, or with the keys of an
/// earlier variant, are dropped, and at most fifteen are kept.
pub open spec fn modifier_actions_spec(v: Seq<ModifierActionView>) -> Seq<ModifierActionView>
    decreases v.len(),
{
    if v.len() == 0 {
        Seq::empty()
    } else {
        let p = modifier_actions_spec(v.drop_last());
        let m = normalize_variant_spec(v.last());
        if p.len() >= MAX_MODIFIER_VARIANTS || m.modifiers.len() == 0 || has_keys(p, m.modifiers) {
            p
        } else {
            p.push(m)
        }
    }
}

proof fn lemma_modifier_actions_full(v: Seq<ModifierActionView>, i: int, k: int)
    requires
        0 <= i <= k <= v.len(),
        modifier_actions_spec(v.take(i)).len() >= MAX_MODIFIER_VARIANTS,
    ensures
        modifier_actions_spec(v.take(k)) == modifier_actions_spec(v.take(i)),
    decreases k - i,
{
    if i < k {
        lemma_modifier_actions_full(v, i, k - 1);
        assert(v.take(k).drop_last() =~= v.take(k - 1));
    }
}

fn same_keys(a: &Vec<ModifierKey>, b: &Vec<ModifierKey>) -> (r: bool)
    ensures
        r == (a@ == b@),
{
    if a.len() != b.len() {
        return false;
    }
    let mut i: usize = 0;
    while i < a.len()
        invariant
            a@.len() == b@.len(),
            i <= a@.len(),
            forall|j: int| 0 <= j < i ==> a@[j] == b@[j],
        decreases a@.len() - i,
    {
        if a[i] != b[i] {
            return false;
        }
        i += 1;
    }
    assert(a@ =~= b@);
    true
}

fn keys_taken(out: &Vec<ModifierAction>, keys: &Vec<ModifierKey>) -> (r: bool)
    ensures
        r == has_keys(modifier_actions_view(out@), keys@),
{
    let ghost vs = modifier_actions_view(out@);
    let mut i: usize = 0;
    while i < out.len()
        invariant
            i <= out@.len(),
            vs == modifier_actions_view(out@),
            forall|j: int| 0 <= j < i ==> (#[trigger] vs[j]).modifiers != keys@,
        decreases out@.len() - i,
    {
        if same_keys(&out[i].modifiers, keys) {
            assert(vs[i as int].modifiers == keys@);
            return true;
        }
        i += 1;
    }
    false
}

pub fn normalize_modifier_actions(values: Vec<ModifierAction>) -> (r: Vec<ModifierAction>)
    ensures
        modifier_actions_view(r@) == modifier_actions_spec(modifier_actions_view(values@)),
{
    let ghost vs = modifier_actions_view(values@);
    let count = values.len();
    assert(vs.len() == count);
    let mut rest = values;
    let mut output: Vec<ModifierAction> = Vec::new();
    let mut i: usize = 0;
    while rest.len() > 0 && output.len() < MAX_MODIFIER_VARIANTS
        invariant
            i <= vs.len(),
            vs.len() <= usize::MAX,
            modifier_actions_view(rest@) == vs.skip(i as int),
            modifier_actions_view(output@) == modifier_actions_spec(vs.take(i as int)),
        decreases rest@.len(),
    {
        let ghost old_rest = rest@;
        proof {
            assert(modifier_actions_view(rest@).len() == rest@.len());
            assert(i < vs.len());
            assert(vs.take(i + 1).drop_last() =~= vs.take(i as int));
            assert(vs.skip(i as int)[0] == rest@[0]@);
        }
        let mut variant = rest.remove(0);
        proof {
            assert forall|j: int| 0 <= j < rest@.len() implies modifier_actions_view(rest@)[j]
                == vs.skip(i + 1)[j] by {
                assert(rest@[j] == old_rest[j + 1]);
                assert(modifier_actions_view(old_rest)[j + 1] == vs.skip(i as int)[j + 1]);
            }
            assert(modifier_actions_view(rest@) =~= vs.skip(i + 1));
        }
        let keys = normalized_modifiers(variant.modifiers);
        variant.modifiers = keys;
        if variant.modifiers.len() > 0 && !keys_taken(&output, &variant.modifiers) {
            normalize_action(&mut variant.action);
            let ghost before = output@;
            output.push(variant);
            proof {
                assert(modifier_actions_view(output@) =~= modifier_actions_view(before).push(
                    variant@,
                ));
            }
        }
        i += 1;
    }
    proof {
        if output@.len() >= MAX_MODIFIER_VARIANTS {
            lemma_modifier_actions_full(vs, i as int, vs.len() as int);
        } else {
            assert(vs.skip(i as int).len() == 0);
        }
        assert(vs.take(vs.len() as int) =~= vs);
    }
    output
}


pub open spec fn clamp_u64(v: u64, lo: u64, hi: u64) -> u64 {
    if v < lo {
        lo
    } else if v > hi {
        hi
    } else {
        v
    }
}

pub fn clamp_value(v: u64, lo: u64, hi: u64) -> (r: u64)
    requires
        lo <= hi,
    ensures
        r == clamp_u64(v, lo, hi),
{
    if v < lo {
        lo
    } else if v > hi {
        hi
    } else {
        v
    }
}

pub open spec fn clamp_opt(v: Option<u64>, lo: u64, hi: u64) -> Option<u64> {
    match v {
        Some(x) => Some(clamp_u64(x, lo, hi)),
        None => None,
    }
}

/// A trigger slot normalized: its action and variants normalized, its
/// cooldown kept within 10 to 5000 ms and its hover delay within 3000 ms.
pub open spec fn normalize_trigger_spec(t: TriggerActionView) -> TriggerActionView {
    TriggerActionView {
        trigger: t.trigger,
        action: normalize_action_spec(t.action),
        modifier_actions: modifier_actions_spec(t.modifier_actions),
        cooldown_ms: clamp_opt(t.cooldown_ms, 10, 5000),
        hover_delay_ms: clamp_opt(t.hover_delay_ms, 0, 3000),
    }
}

/// The first slot, from `i` on, for trigger `k`.
pub open spec fn trigger_pos(p: Seq<TriggerActionView>, k: crate::config::TriggerKind, i: int) -> Option<int>
    decreases p.len() - i,
{
    if i < 0 || i >= p.len() {
        None
    } else if p[i].trigger == k {
        Some(i)
    } else {
        trigger_pos(p, k, i + 1)
    }
}

/// The slots normalized, one per trigger: a later slot for the same trigger
/// takes the place of the earlier one.
pub open spec fn merge_triggers(v: Seq<TriggerActionView>) -> Seq<TriggerActionView>
    decreases v.len(),
{
    if v.len() == 0 {
        Seq::empty()
    } else {
        let p = merge_triggers(v.drop_last());
        let x = normalize_trigger_spec(v.last());
        match trigger_pos(p, x.trigger, 0) {
            Some(k) => p.update(k, x),
            None => p.push(x),
        }
    }
}

/// The slots of a zone, with a legacy single trigger and action turned into
/// the only slot when there are none.
pub open spec fn slots_with_legacy(h: HotzoneSettingView) -> Seq<TriggerActionView> {
    if h.actions.len() == 0 && h.trigger is Some && h.action is Some {
        seq![
            TriggerActionView {
                trigger: h.trigger->0,
                action: h.action->0,
                modifier_actions: Seq::empty(),
                cooldown_ms: None,
                hover_delay_ms: None,
            },
        ]
    } else {
        h.actions
    }
}

pub open spec fn normalize_actions_spec(h: HotzoneSettingView) -> HotzoneSettingView {
    HotzoneSettingView {
        id: h.id,
        enabled: h.enabled,
        actions: merge_triggers(slots_with_legacy(h)),
        trigger: None,
        action: None,
    }
}

fn normalize_trigger(item: &mut TriggerAction)
    ensures
        final(item)@ == normalize_trigger_spec(old(item)@),
{
    normalize_action(&mut item.action);
    let mut variants: Vec<ModifierAction> = Vec::new();
    std::mem::swap(&mut variants, &mut item.modifier_actions);
    item.modifier_actions = normalize_modifier_actions(variants);
    item.cooldown_ms = match item.cooldown_ms {
        Some(v) => Some(clamp_value(v, 10, 5000)),
        None => None,
    };
    item.hover_delay_ms = match item.hover_delay_ms {
        Some(v) => Some(clamp_value(v, 0, 3000)),
        None => None,
    };
}

fn find_trigger(p: &Vec<TriggerAction>, k: crate::config::TriggerKind) -> (r: Option<usize>)
    ensures
        match r {
            Some(i) => trigger_pos(trigger_actions_view(p@), k, 0) == Some(i as int) && i
                < p@.len(),
            None => trigger_pos(trigger_actions_view(p@), k, 0) is None,
        },
{
    let ghost vs = trigger_actions_view(p@);
    let mut i: usize = 0;
    while i < p.len()
        invariant
            i <= p@.len(),
            vs == trigger_actions_view(p@),
            trigger_pos(vs, k, 0) == trigger_pos(vs, k, i as int),
        decreases p@.len() - i,
    {
        if p[i].trigger == k {
            assert(vs[i as int].trigger == k);
            return Some(i);
        }
        i += 1;
    }
    None
}

impl HotzoneSetting {
    /// Turns a legacy single trigger into a slot, normalizes every slot and
    /// keeps one slot per trigger.
    pub fn normalize_actions(&mut self)
        ensures
            final(self)@ == normalize_actions_spec(old(self)@),
    {
        let legacy_action = self.action.take();
        let legacy_trigger = self.trigger;
        self.trigger = None;
        let mut rest: Vec<TriggerAction> = Vec::new();
        std::mem::swap(&mut rest, &mut self.actions);
        if rest.len() == 0 {
            if let (Some(trigger), Some(action)) = (legacy_trigger, legacy_action) {
                rest.push(
                    TriggerAction {
                        trigger,
                        action,
                        modifier_actions: Vec::new(),
                        cooldown_ms: None,
                        hover_delay_ms: None,
                    },
                );
                proof {
                    let v = rest@[0];
                    assert(modifier_actions_view(v.modifier_actions@) =~= Seq::empty());
                    assert(v@ == slots_with_legacy(old(self)@)[0]);
                    assert(trigger_actions_view(rest@) =~= slots_with_legacy(old(self)@));
                }
            }
        }
        let ghost slots = trigger_actions_view(rest@);
        proof {
            assert(slots == slots_with_legacy(old(self)@));
        }
        let count = rest.len();
        let mut normalized: Vec<TriggerAction> = Vec::new();
        let mut i: usize = 0;
        while rest.len() > 0
            invariant
                i <= slots.len(),
                slots.len() == count,
                trigger_actions_view(rest@) == slots.skip(i as int),
                trigger_actions_view(normalized@) == merge_triggers(slots.take(i as int)),
            decreases rest@.len(),
        {
            let ghost old_rest = rest@;
            proof {
                assert(trigger_actions_view(rest@).len() == rest@.len());
                assert(slots.take(i + 1).drop_last() =~= slots.take(i as int));
                assert(slots.skip(i as int)[0] == rest@[0]@);
            }
            let mut item = rest.remove(0);
            proof {
                assert forall|j: int| 0 <= j < rest@.len() implies trigger_actions_view(rest@)[j]
                    == slots.skip(i + 1)[j] by {
                    assert(rest@[j] == old_rest[j + 1]);
                    assert(trigger_actions_view(old_rest)[j + 1] == slots.skip(i as int)[j + 1]);
                }
                assert(trigger_actions_view(rest@) =~= slots.skip(i + 1));
            }
            normalize_trigger(&mut item);
            let ghost before = normalized@;
            match find_trigger(&normalized, item.trigger) {
                Some(k) => {
                    normalized.set(k, item);
                    proof {
                        assert(trigger_actions_view(normalized@) =~= trigger_actions_view(
                            before,
                        ).update(k as int, item@));
                    }
                },
                None => {
                    normalized.push(item);
                    proof {
                        assert(trigger_actions_view(normalized@) =~= trigger_actions_view(
                            before,
                        ).push(item@));
                    }
                },
            }
            i += 1;
        }
        proof {
            assert(slots.take(slots.len() as int) =~= slots);
        }
        self.actions = normalized;
    }
}


pub open spec fn min_u64(a: u64, b: u64) -> u64 {
    if a <= b {
        a
    } else {
        b
    }
}

/// A volume slot without its own cooldown repeats at most every
/// `min(fallback, 32)` ms, so that wheel and slide steps keep up.
pub open spec fn with_volume_cooldown(t: TriggerActionView, fallback: u64) -> TriggerActionView {
    if t.action.kind == ActionKind::VolumeAdjust && t.cooldown_ms is None {
        TriggerActionView { cooldown_ms: Some(min_u64(fallback, 32)), ..t }
    } else {
        t
    }
}

pub open spec fn apply_defaults_spec(h: HotzoneSettingView, fallback: u64) -> HotzoneSettingView {
    HotzoneSettingView {
        actions: h.actions.map_values(|t: TriggerActionView| with_volume_cooldown(t, fallback)),
        ..h
    }
}

impl HotzoneSetting {
    pub fn apply_continuous_action_defaults(&mut self, fallback_cooldown_ms: u64)
        ensures
            final(self)@ == apply_defaults_spec(old(self)@, fallback_cooldown_ms),
    {
        let ghost slots = trigger_actions_view(self.actions@);
        let mut rest: Vec<TriggerAction> = Vec::new();
        std::mem::swap(&mut rest, &mut self.actions);
        let count = rest.len();
        let mut out: Vec<TriggerAction> = Vec::new();
        let mut i: usize = 0;
        while rest.len() > 0
            invariant
                i <= slots.len(),
                slots.len() == count,
                trigger_actions_view(rest@) == slots.skip(i as int),
                trigger_actions_view(out@) == slots.take(i as int).map_values(
                    |t: TriggerActionView| with_volume_cooldown(t, fallback_cooldown_ms),
                ),
            decreases rest@.len(),
        {
            let ghost old_rest = rest@;
            proof {
                assert(trigger_actions_view(rest@).len() == rest@.len());
                assert(slots.skip(i as int)[0] == rest@[0]@);
            }
            let mut item = rest.remove(0);
            proof {
                assert forall|j: int| 0 <= j < rest@.len() implies trigger_actions_view(rest@)[j]
                    == slots.skip(i + 1)[j] by {
                    assert(rest@[j] == old_rest[j + 1]);
                    assert(trigger_actions_view(old_rest)[j + 1] == slots.skip(i as int)[j + 1]);
                }
                assert(trigger_actions_view(rest@) =~= slots.skip(i + 1));
            }
            if item.action.kind == ActionKind::VolumeAdjust && item.cooldown_ms.is_none() {
                item.cooldown_ms = Some(
                    if fallback_cooldown_ms <= 32 {
                        fallback_cooldown_ms
                    } else {
                        32
                    },
                );
            }
            let ghost before = out@;
            out.push(item);
            proof {
                assert(trigger_actions_view(out@) =~= trigger_actions_view(before).push(item@));
                assert(slots.take(i + 1) =~= slots.take(i as int).push(slots[i as int]));
                assert(slots.take(i + 1).map_values(
                    |t: TriggerActionView| with_volume_cooldown(t, fallback_cooldown_ms),
                ) =~= slots.take(i as int).map_values(
                    |t: TriggerActionView| with_volume_cooldown(t, fallback_cooldown_ms),
                ).push(with_volume_cooldown(slots[i as int], fallback_cooldown_ms)));
            }
            i += 1;
        }
        proof {
            assert(slots.take(slots.len() as int) =~= slots);
        }
        self.actions = out;
    }
}

/// A zone as it is before any setting: off and without slots.
pub open spec fn default_setting_spec(id: HotzoneId) -> HotzoneSettingView {
    HotzoneSettingView { id, enabled: false, actions: Seq::empty(), trigger: None, action: None }
}

pub fn default_hotzone(id: HotzoneId) -> (h: HotzoneSetting)
    ensures
        h@ == default_setting_spec(id),
{
    let h = HotzoneSetting { id, enabled: false, actions: Vec::new(), trigger: None, action: None };
    assert(trigger_actions_view(h.actions@) =~= Seq::empty());
    h
}

fn hotzone_id_at(k: usize) -> (id: HotzoneId)
    requires
        k < 8,
    ensures
        id == all_hotzone_ids()[k as int],
{
    match k {
        0 => HotzoneId::TopLeft,
        1 => HotzoneId::Top,
        2 => HotzoneId::TopRight,
        3 => HotzoneId::Right,
        4 => HotzoneId::BottomRight,
        5 => HotzoneId::Bottom,
        6 => HotzoneId::BottomLeft,
        _ => HotzoneId::Left,
    }
}

fn hotzone_index(id: HotzoneId) -> (k: usize)
    ensures
        k < 8,
        all_hotzone_ids()[k as int] == id,
{
    match id {
        HotzoneId::TopLeft => 0,
        HotzoneId::Top => 1,
        HotzoneId::TopRight => 2,
        HotzoneId::Right => 3,
        HotzoneId::BottomRight => 4,
        HotzoneId::Bottom => 5,
        HotzoneId::BottomLeft => 6,
        HotzoneId::Left => 7,
    }
}

/// Every zone off and without slots, in the order of `HotzoneId::all`.
pub open spec fn default_hotzones_spec() -> Seq<HotzoneSettingView> {
    Seq::new(8, |k: int| default_setting_spec(all_hotzone_ids()[k]))
}

pub fn default_hotzones() -> (r: Vec<HotzoneSetting>)
    ensures
        settings_view(r@) == default_hotzones_spec(),
{
    let mut out: Vec<HotzoneSetting> = Vec::new();
    let mut k: usize = 0;
    while k < 8
        invariant
            k <= 8,
            out@.len() == k,
            forall|j: int| 0 <= j < k ==> (#[trigger] out@[j])@ == default_setting_spec(all_hotzone_ids()[j]),
        decreases 8 - k,
    {
        out.push(default_hotzone(hotzone_id_at(k)));
        k += 1;
    }
    assert(settings_view(out@) =~= default_hotzones_spec());
    out
}

/// The first setting given for zone `id`.
pub open spec fn first_setting(v: Seq<HotzoneSettingView>, id: HotzoneId) -> Option<HotzoneSettingView>
    decreases v.len(),
{
    if v.len() == 0 {
        None
    } else {
        match first_setting(v.drop_last(), id) {
            Some(x) => Some(x),
            None => if v.last().id == id {
                Some(v.last())
            } else {
                None
            },
        }
    }
}

/// The setting a zone ends up with: the first one given for it, else the
/// default, with its slots normalized.
pub open spec fn chosen_setting(v: Seq<HotzoneSettingView>, id: HotzoneId) -> HotzoneSettingView {
    normalize_actions_spec(
        match first_setting(v, id) {
            Some(x) => x,
            None => default_setting_spec(id),
        },
    )
}

/// Exactly one normalized setting per zone, in the order of `HotzoneId::all`.
pub open spec fn normalize_hotzones_spec(v: Seq<HotzoneSettingView>) -> Seq<HotzoneSettingView> {
    Seq::new(8, |k: int| chosen_setting(v, all_hotzone_ids()[k]))
}

pub open spec fn slot_view(o: Option<HotzoneSetting>) -> Option<HotzoneSettingView> {
    match o {
        Some(h) => Some(h@),
        None => None,
    }
}

pub fn normalize_hotzones(hotzones: Vec<HotzoneSetting>) -> (r: Vec<HotzoneSetting>)
    ensures
        settings_view(r@) == normalize_hotzones_spec(settings_view(hotzones@)),
{
    let ghost vs = settings_view(hotzones@);
    let count = hotzones.len();
    let mut slots: Vec<Option<HotzoneSetting>> = Vec::new();
    let mut k: usize = 0;
    while k < 8
        invariant
            k <= 8,
            slots@.len() == k,
            forall|j: int| 0 <= j < k ==> slots@[j] is None,
        decreases 8 - k,
    {
        slots.push(None);
        k += 1;
    }
    assert(vs.len() == count);
    let mut rest = hotzones;
    let mut i: usize = 0;
    while rest.len() > 0
        invariant
            i <= vs.len(),
            vs.len() == count,
            settings_view(rest@) == vs.skip(i as int),
            slots@.len() == 8,
            forall|j: int|
                0 <= j < 8 ==> slot_view(#[trigger] slots@[j]) == first_setting(
                    vs.take(i as int),
                    all_hotzone_ids()[j],
                ),
        decreases rest@.len(),
    {
        let ghost old_rest = rest@;
        proof {
            assert(settings_view(rest@).len() == rest@.len());
            assert(vs.skip(i as int)[0] == rest@[0]@);
            assert(vs.take(i + 1).drop_last() =~= vs.take(i as int));
        }
        let h = rest.remove(0);
        proof {
            assert forall|j: int| 0 <= j < rest@.len() implies settings_view(rest@)[j] == vs.skip(
                i + 1,
            )[j] by {
                assert(rest@[j] == old_rest[j + 1]);
                assert(settings_view(old_rest)[j + 1] == vs.skip(i as int)[j + 1]);
            }
            assert(settings_view(rest@) =~= vs.skip(i + 1));
        }
        let k = hotzone_index(h.id);
        if slots[k].is_none() {
            let ghost before = slots@;
            slots.set(k, Some(h));
            proof {
                assert forall|j: int| 0 <= j < 8 implies slot_view(#[trigger] slots@[j])
                    == first_setting(vs.take(i + 1), all_hotzone_ids()[j]) by {
                    if j != k {
                        assert(slots@[j] == before[j]);
                    }
                }
            }
        }
        i += 1;
    }
    proof {
        assert(vs.take(vs.len() as int) =~= vs);
    }
    let mut out: Vec<HotzoneSetting> = Vec::new();
    let mut k: usize = 0;
    let ghost all_slots = slots@;
    while k < 8
        invariant
            k <= 8,
            all_slots.len() == 8,
            slots@ == all_slots.skip(k as int),
            forall|j: int|
                0 <= j < 8 ==> slot_view(#[trigger] all_slots[j]) == first_setting(
                    vs,
                    all_hotzone_ids()[j],
                ),
            out@.len() == k,
            forall|j: int| 0 <= j < k ==> (#[trigger] out@[j])@ == chosen_setting(vs, all_hotzone_ids()[j]),
        decreases 8 - k,
    {
        let ghost old_slots = slots@;
        proof {
            assert(old_slots[0] == all_slots[k as int]);
        }
        let slot = slots.remove(0);
        proof {
            assert(slots@ =~= all_slots.skip(k + 1));
        }
        let id = hotzone_id_at(k);
        let mut setting = match slot {
            Some(h) => h,
            None => default_hotzone(id),
        };
        setting.normalize_actions();
        out.push(setting);
        k += 1;
    }
    assert(settings_view(out@) =~= normalize_hotzones_spec(vs));
    out
}


pub open spec fn clamp_i32(v: i32, lo: i32, hi: i32) -> i32 {
    if v < lo {
        lo
    } else if v > hi {
        hi
    } else {
        v
    }
}

pub fn clamp_int(v: i32, lo: i32, hi: i32) -> (r: i32)
    requires
        lo <= hi,
    ensures
        r == clamp_i32(v, lo, hi),
{
    if v < lo {
        lo
    } else if v > hi {
        hi
    } else {
        v
    }
}

/// A display's own hot zones, as the contracts see them.
pub struct ProfileView {
    pub monitor_id: Seq<char>,
    pub hotzones: Seq<HotzoneSettingView>,
}

pub open spec fn profiles_view(v: Seq<MonitorProfile>) -> Seq<ProfileView> {
    v.map_values(
        |p: MonitorProfile| ProfileView { monitor_id: p.monitor_id@, hotzones: settings_view(p.hotzones@) },
    )
}

/// Normalized zones of a display or of the whole desktop, with the volume
/// cooldown default applied.
pub open spec fn zones_spec(v: Seq<HotzoneSettingView>, cooldown: u64) -> Seq<HotzoneSettingView> {
    normalize_hotzones_spec(v).map_values(|h: HotzoneSettingView| apply_defaults_spec(h, cooldown))
}

/// Display profiles with trimmed names; those without a name are dropped.
pub open spec fn profiles_spec(v: Seq<ProfileView>, cooldown: u64) -> Seq<ProfileView>
    decreases v.len(),
{
    if v.len() == 0 {
        Seq::empty()
    } else {
        let p = profiles_spec(v.drop_last(), cooldown);
        let id = trim_spec(v.last().monitor_id);
        if id.len() == 0 {
            p
        } else {
            p.push(ProfileView { monitor_id: id, hotzones: zones_spec(v.last().hotzones, cooldown) })
        }
    }
}

pub struct EdgeProfileView {
    pub monitor_id: Seq<char>,
    pub edges: Seq<Edge>,
}

pub open spec fn edge_profiles_view(v: Seq<EdgeHideMonitorProfile>) -> Seq<EdgeProfileView> {
    v.map_values(|p: EdgeHideMonitorProfile| EdgeProfileView { monitor_id: p.monitor_id@, edges: p.edges@ })
}

/// Edge-hide display profiles with trimmed names and each edge once; those
/// without a name are dropped.
pub open spec fn edge_profiles_spec(v: Seq<EdgeProfileView>) -> Seq<EdgeProfileView>
    decreases v.len(),
{
    if v.len() == 0 {
        Seq::empty()
    } else {
        let p = edge_profiles_spec(v.drop_last());
        let id = trim_spec(v.last().monitor_id);
        if id.len() == 0 {
            p
        } else {
            p.push(EdgeProfileView { monitor_id: id, edges: dedup_edges(v.last().edges) })
        }
    }
}

/// Some zone, global or of a display, is switched on.
pub open spec fn any_zone_enabled(zones: Seq<HotzoneSettingView>, profiles: Seq<ProfileView>) -> bool {
    ||| exists|i: int| 0 <= i < zones.len() && (#[trigger] zones[i]).enabled
    ||| exists|p: int, i: int|
        0 <= p < profiles.len() && 0 <= i < profiles[p].hotzones.len()
            && (#[trigger] profiles[p].hotzones[i]).enabled
}

/// `r` is `c` normalized: the layout version current; every number within
/// its range; lists trimmed and deduplicated; modifiers canonical; zones one
/// per id with normalized slots; display profiles named; everything else as
/// given. Settings from before version 6 switch hot zones on exactly when
/// some zone was on.
pub open spec fn normalized_spec(r: AppConfig, c: AppConfig) -> bool {
    &&& r.schema_version == SCHEMA_VERSION
    &&& r.enabled == c.enabled
    &&& r.hotzones_enabled == if c.schema_version < 6 {
        any_zone_enabled(settings_view(c.hotzones@), profiles_view(c.monitor_profiles@))
    } else {
        c.hotzones_enabled
    }
    &&& r.edge_size == clamp_i32(c.edge_size, 2, 48)
    &&& r.hover_delay_ms == clamp_u64(c.hover_delay_ms, 0, 3000)
    &&& r.poll_interval_ms == clamp_u64(c.poll_interval_ms, 10, 250)
    &&& r.action_cooldown_ms == clamp_u64(c.action_cooldown_ms, 10, 5000)
    &&& texts_of(r.paused_apps@) == string_list_spec(texts_of(c.paused_apps@))
    &&& settings_view(r.hotzones@) == zones_spec(settings_view(c.hotzones@), r.action_cooldown_ms)
    &&& profiles_view(r.monitor_profiles@) == profiles_spec(
        profiles_view(c.monitor_profiles@),
        r.action_cooldown_ms,
    )
    &&& r.edge_hide.enabled == c.edge_hide.enabled
    &&& r.edge_hide.show_preview == c.edge_hide.show_preview
    &&& r.edge_hide.edges@ == dedup_edges(c.edge_hide.edges@)
    &&& edge_profiles_view(r.edge_hide.monitor_profiles@) == edge_profiles_spec(
        edge_profiles_view(c.edge_hide.monitor_profiles@),
    )
    &&& r.edge_hide.strip_size == clamp_i32(c.edge_hide.strip_size, 4, 64)
    &&& r.edge_hide.trigger_distance == clamp_i32(c.edge_hide.trigger_distance, 4, 96)
    &&& r.edge_hide.distance_trigger_enabled == c.edge_hide.distance_trigger_enabled
    &&& r.edge_hide.ratio_trigger_enabled == c.edge_hide.ratio_trigger_enabled
    &&& r.edge_hide.trigger_ratio == clamp_i32(c.edge_hide.trigger_ratio, 1, 100)
    &&& r.edge_hide.collapse_delay_ms == clamp_u64(c.edge_hide.collapse_delay_ms, 0, 5000)
    &&& r.edge_hide.restore_delay_ms == clamp_u64(c.edge_hide.restore_delay_ms, 0, 5000)
    &&& r.edge_hide.keep_expanded_when_foreground == c.edge_hide.keep_expanded_when_foreground
    &&& texts_of(r.edge_hide.excluded_apps@) == string_list_spec(texts_of(c.edge_hide.excluded_apps@))
    &&& r.mouse_gestures.enabled == c.mouse_gestures.enabled
    &&& r.mouse_gestures.trigger_button == c.mouse_gestures.trigger_button
    &&& r.mouse_gestures.min_distance == clamp_i32(c.mouse_gestures.min_distance, 12, 240)
    &&& r.mouse_gestures.sensitivity == clamp_i32(c.mouse_gestures.sensitivity, 35, 95)
    &&& r.mouse_gestures.show_trail == c.mouse_gestures.show_trail
    &&& r.mouse_gestures.fullscreen_pause == c.mouse_gestures.fullscreen_pause
    &&& texts_of(r.mouse_gestures.paused_apps@) == string_list_spec(
        texts_of(c.mouse_gestures.paused_apps@),
    )
    &&& gestures_view(r.mouse_gestures.gestures@) == if c.schema_version < 5 {
        migrate_circle_spec(normalize_gestures_spec(gestures_view(c.mouse_gestures.gestures@)))
    } else {
        normalize_gestures_spec(gestures_view(c.mouse_gestures.gestures@))
    }
    &&& r.window_drag.enabled == c.window_drag.enabled
    &&& r.window_drag.move_modifiers@ == normalized_modifiers_spec(c.window_drag.move_modifiers@)
    &&& r.window_drag.resize_modifiers@ == normalized_modifiers_spec(c.window_drag.resize_modifiers@)
    &&& r.window_drag.move_button == c.window_drag.move_button
    &&& r.window_drag.resize_button == c.window_drag.resize_button
    &&& r.topmost_pin.enabled == c.topmost_pin.enabled
    &&& r.ocr.language == c.ocr.language
    &&& r.ocr.screenshot_result == c.ocr.screenshot_result
}

fn any_enabled(zones: &Vec<HotzoneSetting>) -> (r: bool)
    ensures
        r == exists|i: int| 0 <= i < zones@.len() && (#[trigger] zones@[i]).enabled,
{
    let mut i: usize = 0;
    while i < zones.len()
        invariant
            i <= zones@.len(),
            forall|j: int| 0 <= j < i ==> !(#[trigger] zones@[j]).enabled,
        decreases zones@.len() - i,
    {
        if zones[i].enabled {
            return true;
        }
        i += 1;
    }
    false
}

fn any_zone_on(zones: &Vec<HotzoneSetting>, profiles: &Vec<MonitorProfile>) -> (r: bool)
    ensures
        r == any_zone_enabled(settings_view(zones@), profiles_view(profiles@)),
{
    let ghost zv = settings_view(zones@);
    let ghost pv = profiles_view(profiles@);
    if any_enabled(zones) {
        proof {
            let i = choose|i: int| 0 <= i < zones@.len() && (#[trigger] zones@[i]).enabled;
            assert(zv[i].enabled);
        }
        return true;
    }
    assert forall|i: int| 0 <= i < zv.len() implies !(#[trigger] zv[i]).enabled by {
        assert(!zones@[i].enabled);
    }
    let mut p: usize = 0;
    while p < profiles.len()
        invariant
            p <= profiles@.len(),
            pv == profiles_view(profiles@),
            forall|q: int, i: int|
                0 <= q < p && 0 <= i < pv[q].hotzones.len() ==> !(#[trigger] pv[q].hotzones[i]).enabled,
        decreases profiles@.len() - p,
    {
        if any_enabled(&profiles[p].hotzones) {
            proof {
                let i = choose|i: int|
                    0 <= i < profiles@[p as int].hotzones@.len()
                        && (#[trigger] profiles@[p as int].hotzones@[i]).enabled;
                assert(pv[p as int].hotzones[i].enabled);
            }
            return true;
        }
        assert forall|i: int| 0 <= i < pv[p as int].hotzones.len() implies !(#[trigger] pv[p as int].hotzones[i]).enabled by {
            assert(!profiles@[p as int].hotzones@[i].enabled);
        }
        p += 1;
    }
    false
}

fn zones_with_defaults(zones: Vec<HotzoneSetting>, cooldown: u64) -> (r: Vec<HotzoneSetting>)
    ensures
        settings_view(r@) == zones_spec(settings_view(zones@), cooldown),
{
    let normalized = normalize_hotzones(zones);
    let ghost nv = settings_view(normalized@);
    let count = normalized.len();
    let mut rest = normalized;
    let mut out: Vec<HotzoneSetting> = Vec::new();
    let mut i: usize = 0;
    while rest.len() > 0
        invariant
            i <= nv.len(),
            nv.len() == count,
            settings_view(rest@) == nv.skip(i as int),
            settings_view(out@) == nv.take(i as int).map_values(
                |h: HotzoneSettingView| apply_defaults_spec(h, cooldown),
            ),
        decreases rest@.len(),
    {
        let ghost old_rest = rest@;
        proof {
            assert(settings_view(rest@).len() == rest@.len());
            assert(nv.skip(i as int)[0] == rest@[0]@);
        }
        let mut h = rest.remove(0);
        proof {
            assert forall|j: int| 0 <= j < rest@.len() implies settings_view(rest@)[j] == nv.skip(
                i + 1,
            )[j] by {
                assert(rest@[j] == old_rest[j + 1]);
                assert(settings_view(old_rest)[j + 1] == nv.skip(i as int)[j + 1]);
            }
            assert(settings_view(rest@) =~= nv.skip(i + 1));
        }
        h.apply_continuous_action_defaults(cooldown);
        let ghost before = out@;
        out.push(h);
        proof {
            assert(settings_view(out@) =~= settings_view(before).push(h@));
            assert(nv.take(i + 1) =~= nv.take(i as int).push(nv[i as int]));
            assert(nv.take(i + 1).map_values(|h: HotzoneSettingView| apply_defaults_spec(h, cooldown))
                =~= nv.take(i as int).map_values(
                |h: HotzoneSettingView| apply_defaults_spec(h, cooldown),
            ).push(apply_defaults_spec(nv[i as int], cooldown)));
        }
        i += 1;
    }
    proof {
        assert(nv.take(nv.len() as int) =~= nv);
    }
    out
}

fn normalize_profiles(profiles: Vec<MonitorProfile>, cooldown: u64) -> (r: Vec<MonitorProfile>)
    ensures
        profiles_view(r@) == profiles_spec(profiles_view(profiles@), cooldown),
{
    let ghost pv = profiles_view(profiles@);
    let count = profiles.len();
    let mut rest = profiles;
    let mut out: Vec<MonitorProfile> = Vec::new();
    let mut i: usize = 0;
    while rest.len() > 0
        invariant
            i <= pv.len(),
            pv.len() == count,
            profiles_view(rest@) == pv.skip(i as int),
            profiles_view(out@) == profiles_spec(pv.take(i as int), cooldown),
        decreases rest@.len(),
    {
        let ghost old_rest = rest@;
        proof {
            assert(profiles_view(rest@).len() == rest@.len());
            assert(pv.take(i + 1).drop_last() =~= pv.take(i as int));
        }
        let profile = rest.remove(0);
        proof {
            assert(pv.take(i + 1).last() == pv.skip(i as int)[0]);
            assert forall|j: int| 0 <= j < rest@.len() implies profiles_view(rest@)[j] == pv.skip(
                i + 1,
            )[j] by {
                assert(rest@[j] == old_rest[j + 1]);
                assert(profiles_view(old_rest)[j + 1] == pv.skip(i as int)[j + 1]);
            }
            assert(profiles_view(rest@) =~= pv.skip(i + 1));
        }
        let id = trim_to_string(profile.monitor_id.as_str());
        if !id.as_str().is_empty() {
            let zones = zones_with_defaults(profile.hotzones, cooldown);
            let ghost before = out@;
            let np = MonitorProfile { monitor_id: id, hotzones: zones };
            out.push(np);
            proof {
                assert(profiles_view(out@) =~= profiles_view(before).push(
                    ProfileView { monitor_id: np.monitor_id@, hotzones: settings_view(np.hotzones@) },
                ));
            }
        }
        i += 1;
    }
    proof {
        assert(pv.take(pv.len() as int) =~= pv);
    }
    out
}

fn normalize_edge_profiles(profiles: Vec<EdgeHideMonitorProfile>) -> (r: Vec<EdgeHideMonitorProfile>)
    ensures
        edge_profiles_view(r@) == edge_profiles_spec(edge_profiles_view(profiles@)),
{
    let ghost pv = edge_profiles_view(profiles@);
    let count = profiles.len();
    let mut rest = profiles;
    let mut out: Vec<EdgeHideMonitorProfile> = Vec::new();
    let mut i: usize = 0;
    while rest.len() > 0
        invariant
            i <= pv.len(),
            pv.len() == count,
            edge_profiles_view(rest@) == pv.skip(i as int),
            edge_profiles_view(out@) == edge_profiles_spec(pv.take(i as int)),
        decreases rest@.len(),
    {
        let ghost old_rest = rest@;
        proof {
            assert(edge_profiles_view(rest@).len() == rest@.len());
            assert(pv.take(i + 1).drop_last() =~= pv.take(i as int));
        }
        let profile = rest.remove(0);
        proof {
            assert(pv.take(i + 1).last() == pv.skip(i as int)[0]);
            assert forall|j: int| 0 <= j < rest@.len() implies edge_profiles_view(rest@)[j]
                == pv.skip(i + 1)[j] by {
                assert(rest@[j] == old_rest[j + 1]);
                assert(edge_profiles_view(old_rest)[j + 1] == pv.skip(i as int)[j + 1]);
            }
            assert(edge_profiles_view(rest@) =~= pv.skip(i + 1));
        }
        let id = trim_to_string(profile.monitor_id.as_str());
        if !id.as_str().is_empty() {
            let edges = normalized_edges(profile.edges);
            let ghost before = out@;
            let np = EdgeHideMonitorProfile { monitor_id: id, edges };
            out.push(np);
            proof {
                assert(edge_profiles_view(out@) =~= edge_profiles_view(before).push(
                    EdgeProfileView { monitor_id: np.monitor_id@, edges: np.edges@ },
                ));
            }
        }
        i += 1;
    }
    proof {
        assert(pv.take(pv.len() as int) =~= pv);
    }
    out
}

impl AppConfig {
    /// The settings made consistent; see `normalized_spec`.
    pub fn normalized(self) -> (r: Self)
        ensures
            normalized_spec(r, self),
    {
        let c = self;
        let hotzones_enabled = if c.schema_version < 6 {
            any_zone_on(&c.hotzones, &c.monitor_profiles)
        } else {
            c.hotzones_enabled
        };
        let action_cooldown_ms = clamp_value(c.action_cooldown_ms, 10, 5000);
        let e = c.edge_hide;
        let edge_hide = EdgeHideConfig {
            enabled: e.enabled,
            show_preview: e.show_preview,
            edges: normalized_edges(e.edges),
            monitor_profiles: normalize_edge_profiles(e.monitor_profiles),
            strip_size: clamp_int(e.strip_size, 4, 64),
            trigger_distance: clamp_int(e.trigger_distance, 4, 96),
            distance_trigger_enabled: e.distance_trigger_enabled,
            ratio_trigger_enabled: e.ratio_trigger_enabled,
            trigger_ratio: clamp_int(e.trigger_ratio, 1, 100),
            collapse_delay_ms: clamp_value(e.collapse_delay_ms, 0, 5000),
            restore_delay_ms: clamp_value(e.restore_delay_ms, 0, 5000),
            keep_expanded_when_foreground: e.keep_expanded_when_foreground,
            excluded_apps: normalized_string_list(e.excluded_apps),
        };
        let g = c.mouse_gestures;
        let mut gestures = normalize_gestures(g.gestures);
        if c.schema_version < 5 {
            migrate_circle_topmost_action(&mut gestures);
        }
        let mouse_gestures = MouseGestureConfig {
            enabled: g.enabled,
            trigger_button: g.trigger_button,
            min_distance: clamp_int(g.min_distance, 12, 240),
            sensitivity: clamp_int(g.sensitivity, 35, 95),
            show_trail: g.show_trail,
            fullscreen_pause: g.fullscreen_pause,
            paused_apps: normalized_string_list(g.paused_apps),
            gestures,
        };
        let d = c.window_drag;
        let window_drag = WindowDragConfig {
            enabled: d.enabled,
            move_modifiers: normalized_modifiers(d.move_modifiers),
            resize_modifiers: normalized_modifiers(d.resize_modifiers),
            move_button: d.move_button,
            resize_button: d.resize_button,
        };
        AppConfig {
            schema_version: SCHEMA_VERSION,
            enabled: c.enabled,
            hotzones_enabled,
            edge_size: clamp_int(c.edge_size, 2, 48),
            hover_delay_ms: clamp_value(c.hover_delay_ms, 0, 3000),
            poll_interval_ms: clamp_value(c.poll_interval_ms, 10, 250),
            action_cooldown_ms,
            paused_apps: normalized_string_list(c.paused_apps),
            hotzones: zones_with_defaults(c.hotzones, action_cooldown_ms),
            monitor_profiles: normalize_profiles(c.monitor_profiles, action_cooldown_ms),
            edge_hide,
            mouse_gestures,
            window_drag,
            topmost_pin: c.topmost_pin,
            ocr: c.ocr,
        }
    }
}


impl Default for AppConfig {
    fn default() -> (c: Self)
        ensures
            c.schema_version == SCHEMA_VERSION,
            c.enabled,
            c.hotzones_enabled,
            c.edge_size == 8,
            c.hover_delay_ms == 350,
            c.poll_interval_ms == 33,
            c.action_cooldown_ms == 700,
            c.paused_apps@.len() == 0,
            settings_view(c.hotzones@) == default_hotzones_spec(),
            c.monitor_profiles@.len() == 0,
            c.edge_hide.is_default(),
            !c.mouse_gestures.enabled,
            c.mouse_gestures.min_distance == 36,
            c.mouse_gestures.sensitivity == 72,
            gestures_view(c.mouse_gestures.gestures@) == default_gestures_spec(),
            !c.window_drag.enabled,
            c.window_drag.move_modifiers@ == seq![ModifierKey::Alt],
            c.window_drag.resize_modifiers@ == seq![ModifierKey::Alt],
            c.topmost_pin.enabled,
            c.ocr.language == crate::config::OcrLanguage::Auto,
    {
        AppConfig {
            schema_version: SCHEMA_VERSION,
            enabled: true,
            hotzones_enabled: true,
            edge_size: 8,
            hover_delay_ms: 350,
            poll_interval_ms: 33,
            action_cooldown_ms: 700,
            paused_apps: Vec::new(),
            hotzones: default_hotzones(),
            monitor_profiles: Vec::new(),
            edge_hide: EdgeHideConfig::default(),
            mouse_gestures: MouseGestureConfig::default(),
            window_drag: WindowDragConfig::default(),
            topmost_pin: TopmostPinConfig::default(),
            ocr: OcrConfig::default(),
        }
    }
}

} // verus!
