//! What every normalized configuration satisfies.

use vstd::prelude::*;
use crate::config::{
    all_hotzone_ids, settings_view, AppConfig, HotzoneId, HotzoneSettingView, TriggerActionView,
    SCHEMA_VERSION,
};
use crate::config::{ActionKind, ActionView, Edge, ModifierActionView, ModifierKey};
use crate::config_normalize::{
    apply_defaults_spec, chosen_setting, default_setting_spec, dedup_edges, first_setting,
    has_text_ignoring_case, merge_triggers, migrate_spec, modifier_actions_spec,
    normalize_action_spec, normalize_hotzones_spec, normalize_trigger_spec, normalize_variant_spec,
    normalized_modifiers_spec, normalized_spec, string_list_spec, trigger_pos, trimmed_text,
    with_volume_cooldown, zones_spec, has_keys, key_if, MAX_MODIFIER_VARIANTS, profiles_spec,
    profiles_view, edge_profiles_spec, edge_profiles_view, texts_of, EdgeProfileView, ProfileView,
};
use crate::config::gestures_view;
use crate::gesture_config::normalize_gestures_spec;
use crate::gesture_laws::{
    lemma_migrated_settled, lemma_normalized_circle_index, lemma_normalized_settled,
    lemma_settled_is_fixed, lemma_short_texts_trimmed, short_texts, trimmed_gesture,
};
use crate::text::{eq_ignore_ascii_case_spec, lemma_trim_idempotent, trim_spec};

verus! {

/// Every number of a normalized configuration lies in its range, and the
/// layout version is the current one.
pub proof fn law_normalized_values_in_range(r: AppConfig, c: AppConfig)
    requires
        normalized_spec(r, c),
    ensures
        r.schema_version == SCHEMA_VERSION,
        2 <= r.edge_size <= 48,
        r.hover_delay_ms <= 3000,
        10 <= r.poll_interval_ms <= 250,
        10 <= r.action_cooldown_ms <= 5000,
        4 <= r.edge_hide.strip_size <= 64,
        4 <= r.edge_hide.trigger_distance <= 96,
        1 <= r.edge_hide.trigger_ratio <= 100,
        r.edge_hide.collapse_delay_ms <= 5000,
        r.edge_hide.restore_delay_ms <= 5000,
        12 <= r.mouse_gestures.min_distance <= 240,
        35 <= r.mouse_gestures.sensitivity <= 95,
{
}

/// The slots of a zone trigger on different events.
pub open spec fn triggers_distinct(slots: Seq<TriggerActionView>) -> bool {
    forall|a: int, b: int| 0 <= a < b < slots.len() ==> slots[a].trigger != slots[b].trigger
}

proof fn lemma_trigger_pos(p: Seq<TriggerActionView>, k: crate::config::TriggerKind, i: int)
    requires
        0 <= i,
    ensures
        trigger_pos(p, k, i) matches Some(j) ==> i <= j < p.len() && p[j].trigger == k,
        trigger_pos(p, k, i) is None ==> forall|j: int| i <= j < p.len() ==> p[j].trigger != k,
    decreases p.len() - i,
{
    if i < p.len() && p[i].trigger != k {
        lemma_trigger_pos(p, k, i + 1);
    }
}

proof fn lemma_merge_distinct(v: Seq<TriggerActionView>)
    ensures
        triggers_distinct(merge_triggers(v)),
    decreases v.len(),
{
    if v.len() > 0 {
        let p = merge_triggers(v.drop_last());
        lemma_merge_distinct(v.drop_last());
        let x = normalize_trigger_spec(v.last());
        lemma_trigger_pos(p, x.trigger, 0);
        let t = merge_triggers(v);
        match trigger_pos(p, x.trigger, 0) {
            Some(j) => {
                assert forall|a: int, b: int| 0 <= a < b < t.len() implies t[a].trigger != t[b].trigger by {
                    assert(t[a].trigger == p[a].trigger);
                    assert(t[b].trigger == p[b].trigger);
                }
            },
            None => {
                assert forall|a: int, b: int| 0 <= a < b < t.len() implies t[a].trigger != t[b].trigger by {
                    assert(t[a] == p[a]);
                    if b < p.len() {
                        assert(t[b] == p[b]);
                    }
                }
            },
        }
    }
}

proof fn lemma_first_setting(v: Seq<HotzoneSettingView>, id: HotzoneId)
    ensures
        first_setting(v, id) matches Some(x) ==> x.id == id,
    decreases v.len(),
{
    if v.len() > 0 {
        lemma_first_setting(v.drop_last(), id);
    }
}

/// A normalized configuration holds exactly one zone per id, in the order
/// of `HotzoneId::all`, each without a legacy trigger and with at most one
/// slot per trigger.
pub proof fn law_normalized_zones_one_per_id(r: AppConfig, c: AppConfig)
    requires
        normalized_spec(r, c),
    ensures
        r.hotzones@.len() == 8,
        forall|k: int| 0 <= k < 8 ==> (#[trigger] settings_view(r.hotzones@)[k]).id == all_hotzone_ids()[k],
        forall|k: int|
            0 <= k < 8 ==> (#[trigger] settings_view(r.hotzones@)[k]).trigger is None
                && settings_view(r.hotzones@)[k].action is None,
        forall|k: int| 0 <= k < 8 ==> triggers_distinct((#[trigger] settings_view(r.hotzones@)[k]).actions),
{
    let v = settings_view(c.hotzones@);
    let z = settings_view(r.hotzones@);
    let n = normalize_hotzones_spec(v);
    assert(z == zones_spec(v, r.action_cooldown_ms));
    assert(z.len() == 8);
    assert forall|k: int| 0 <= k < 8 implies (#[trigger] z[k]).id == all_hotzone_ids()[k] && z[k].trigger is None
        && z[k].action is None && triggers_distinct(z[k].actions) by {
        let id = all_hotzone_ids()[k];
        lemma_first_setting(v, id);
        let chosen = chosen_setting(v, id);
        assert(n[k] == chosen);
        assert(z[k] == apply_defaults_spec(chosen, r.action_cooldown_ms));
        let base = match first_setting(v, id) {
            Some(x) => x,
            None => default_setting_spec(id),
        };
        lemma_merge_distinct(crate::config_normalize::slots_with_legacy(base));
        let slots = chosen.actions;
        let out = z[k].actions;
        assert(out == slots.map_values(
            |t: TriggerActionView| with_volume_cooldown(t, r.action_cooldown_ms),
        ));
        assert forall|a: int, b: int| 0 <= a < b < out.len() implies out[a].trigger != out[b].trigger by {
            assert(out[a].trigger == slots[a].trigger);
            assert(out[b].trigger == slots[b].trigger);
        }
    }
    assert(r.hotzones@.len() == z.len());
}


pub open spec fn edges_distinct(s: Seq<Edge>) -> bool {
    forall|a: int, b: int| 0 <= a < b < s.len() ==> s[a] != s[b]
}

proof fn lemma_dedup_distinct(s: Seq<Edge>)
    ensures
        edges_distinct(dedup_edges(s)),
    decreases s.len(),
{
    if s.len() > 0 {
        lemma_dedup_distinct(s.drop_last());
        let p = dedup_edges(s.drop_last());
        if !p.contains(s.last()) {
            let t = p.push(s.last());
            assert forall|a: int, b: int| 0 <= a < b < t.len() implies t[a] != t[b] by {
                assert(t[a] == p[a]);
                if b < p.len() {
                    assert(t[b] == p[b]);
                }
            }
        }
    }
}

proof fn lemma_dedup_noop(s: Seq<Edge>)
    requires
        edges_distinct(s),
    ensures
        dedup_edges(s) == s,
    decreases s.len(),
{
    if s.len() > 0 {
        let d = s.drop_last();
        lemma_dedup_noop(d);
        assert(!d.contains(s.last())) by {
            if d.contains(s.last()) {
                let j = choose|j: int| 0 <= j < d.len() && d[j] == s.last();
                assert(s[j] == s[s.len() - 1]);
            }
        }
        assert(d.push(s.last()) =~= s);
    }
}

/// A list as normalization leaves it: trimmed, non-empty entries that
/// differ from every earlier one even when ASCII case is ignored.
pub open spec fn clean_list(w: Seq<Seq<char>>) -> bool {
    &&& forall|i: int| 0 <= i < w.len() ==> trim_spec(#[trigger] w[i]) == w[i] && w[i].len() > 0
    &&& forall|a: int, b: int| 0 <= a < b < w.len() ==> !eq_ignore_ascii_case_spec(w[a], w[b])
}

proof fn lemma_string_list_clean(v: Seq<Seq<char>>)
    ensures
        clean_list(string_list_spec(v)),
    decreases v.len(),
{
    if v.len() > 0 {
        lemma_string_list_clean(v.drop_last());
        let p = string_list_spec(v.drop_last());
        let t = trim_spec(v.last());
        lemma_trim_idempotent(v.last());
        if t.len() > 0 && !has_text_ignoring_case(p, t) {
            let w = p.push(t);
            assert forall|i: int| 0 <= i < w.len() implies trim_spec(#[trigger] w[i]) == w[i] && w[i].len() > 0 by {
                if i < p.len() {
                    assert(w[i] == p[i]);
                }
            }
            assert forall|a: int, b: int| 0 <= a < b < w.len() implies !eq_ignore_ascii_case_spec(w[a], w[b]) by {
                assert(w[a] == p[a]);
                if b < p.len() {
                    assert(w[b] == p[b]);
                } else {
                    assert(!eq_ignore_ascii_case_spec(p[a], t));
                }
            }
        }
    }
}

proof fn lemma_string_list_noop(w: Seq<Seq<char>>)
    requires
        clean_list(w),
    ensures
        string_list_spec(w) == w,
    decreases w.len(),
{
    if w.len() > 0 {
        let d = w.drop_last();
        assert(clean_list(d)) by {
            assert forall|i: int| 0 <= i < d.len() implies trim_spec(#[trigger] d[i]) == d[i] && d[i].len() > 0 by {
                assert(d[i] == w[i]);
            }
            assert forall|a: int, b: int| 0 <= a < b < d.len() implies !eq_ignore_ascii_case_spec(d[a], d[b]) by {
                assert(d[a] == w[a]);
                assert(d[b] == w[b]);
            }
        }
        lemma_string_list_noop(d);
        let last = w.len() - 1;
        assert(trim_spec(w[last]) == w[last]);
        assert(!has_text_ignoring_case(d, w[last])) by {
            if has_text_ignoring_case(d, w[last]) {
                let j = choose|j: int| 0 <= j < d.len() && eq_ignore_ascii_case_spec(#[trigger] d[j], w[last]);
                assert(d[j] == w[j]);
            }
        }
        assert(d.push(w[last]) =~= w);
    }
}

/// Normalizing a list twice gives what normalizing it once gives.
pub proof fn lemma_string_list_idempotent(v: Seq<Seq<char>>)
    ensures
        string_list_spec(string_list_spec(v)) == string_list_spec(v),
{
    lemma_string_list_clean(v);
    lemma_string_list_noop(string_list_spec(v));
}

/// Normalizing edges twice gives what normalizing them once gives.
pub proof fn lemma_edges_idempotent(s: Seq<Edge>)
    ensures
        dedup_edges(dedup_edges(s)) == dedup_edges(s),
{
    lemma_dedup_distinct(s);
    lemma_dedup_noop(dedup_edges(s));
}

proof fn lemma_key_if_contains(v: Seq<ModifierKey>, k: ModifierKey)
    ensures
        normalized_modifiers_spec(v).contains(k) == v.contains(k),
{
    let a = key_if(v, ModifierKey::Ctrl);
    let b = key_if(v, ModifierKey::Alt);
    let c = key_if(v, ModifierKey::Shift);
    let d = key_if(v, ModifierKey::Win);
    let w = normalized_modifiers_spec(v);
    assert(w == a + b + c + d);
    if v.contains(k) {
        let i: int = match k {
            ModifierKey::Ctrl => 0,
            ModifierKey::Alt => a.len() as int,
            ModifierKey::Shift => (a.len() + b.len()) as int,
            ModifierKey::Win => (a.len() + b.len() + c.len()) as int,
        };
        assert(w[i] == k);
    } else {
        assert forall|i: int| 0 <= i < w.len() implies w[i] != k by {
            if i < a.len() {
                assert(w[i] == a[i]);
            } else if i < a.len() + b.len() {
                assert(w[i] == b[i - a.len()]);
            } else if i < a.len() + b.len() + c.len() {
                assert(w[i] == c[i - a.len() - b.len()]);
            } else {
                assert(w[i] == d[i - a.len() - b.len() - c.len()]);
            }
        }
    }
}

/// Canonical modifier lists stay as they are.
pub proof fn lemma_modifiers_idempotent(v: Seq<ModifierKey>)
    ensures
        normalized_modifiers_spec(normalized_modifiers_spec(v)) == normalized_modifiers_spec(v),
{
    lemma_key_if_contains(v, ModifierKey::Ctrl);
    lemma_key_if_contains(v, ModifierKey::Alt);
    lemma_key_if_contains(v, ModifierKey::Shift);
    lemma_key_if_contains(v, ModifierKey::Win);
}

proof fn lemma_trimmed_text_idempotent(v: Option<Seq<char>>)
    ensures
        trimmed_text(trimmed_text(v)) == trimmed_text(v),
{
    if let Some(s) = v {
        lemma_trim_idempotent(s);
    }
}

/// A normalized action stays as it is.
pub proof fn lemma_action_idempotent(a: ActionView)
    ensures
        normalize_action_spec(normalize_action_spec(a)) == normalize_action_spec(a),
{
    let a1 = ActionView { kind: a.kind, value: trimmed_text(a.value) };
    lemma_trimmed_text_idempotent(a.value);
    let a2 = migrate_spec(a1);
    if a2 != a1 {
        reveal_strlit("0.02");
        reveal_strlit("-0.02");
        assert(a2.kind == ActionKind::VolumeAdjust);
        let t = a2.value->0;
        assert(trim_spec(t) == t);
    }
}


/// Variants as normalization leaves them: each normalized, with keys, with
/// keys no other variant has, and at most fifteen.
pub open spec fn clean_variants(w: Seq<ModifierActionView>) -> bool {
    &&& w.len() <= MAX_MODIFIER_VARIANTS
    &&& forall|i: int| 0 <= i < w.len() ==> normalize_variant_spec(#[trigger] w[i]) == w[i] && w[i].modifiers.len() > 0
    &&& forall|a: int, b: int| 0 <= a < b < w.len() ==> w[a].modifiers != w[b].modifiers
}

proof fn lemma_variant_idempotent(m: ModifierActionView)
    ensures
        normalize_variant_spec(normalize_variant_spec(m)) == normalize_variant_spec(m),
{
    lemma_modifiers_idempotent(m.modifiers);
    lemma_action_idempotent(m.action);
}

proof fn lemma_variants_clean(v: Seq<ModifierActionView>)
    ensures
        clean_variants(modifier_actions_spec(v)),
    decreases v.len(),
{
    if v.len() > 0 {
        lemma_variants_clean(v.drop_last());
        let p = modifier_actions_spec(v.drop_last());
        let m = normalize_variant_spec(v.last());
        lemma_variant_idempotent(v.last());
        if !(p.len() >= MAX_MODIFIER_VARIANTS || m.modifiers.len() == 0 || has_keys(p, m.modifiers)) {
            let w = p.push(m);
            assert forall|i: int| 0 <= i < w.len() implies normalize_variant_spec(#[trigger] w[i]) == w[i] && w[i].modifiers.len() > 0 by {
                if i < p.len() {
                    assert(w[i] == p[i]);
                }
            }
            assert forall|a: int, b: int| 0 <= a < b < w.len() implies w[a].modifiers != w[b].modifiers by {
                assert(w[a] == p[a]);
                if b < p.len() {
                    assert(w[b] == p[b]);
                }
            }
        }
    }
}

proof fn lemma_variants_noop(w: Seq<ModifierActionView>)
    requires
        clean_variants(w),
    ensures
        modifier_actions_spec(w) == w,
    decreases w.len(),
{
    if w.len() > 0 {
        let d = w.drop_last();
        assert(clean_variants(d)) by {
            assert forall|i: int| 0 <= i < d.len() implies normalize_variant_spec(#[trigger] d[i]) == d[i] && d[i].modifiers.len() > 0 by {
                assert(d[i] == w[i]);
            }
            assert forall|a: int, b: int| 0 <= a < b < d.len() implies d[a].modifiers != d[b].modifiers by {
                assert(d[a] == w[a]);
                assert(d[b] == w[b]);
            }
        }
        lemma_variants_noop(d);
        let last = w.len() - 1;
        assert(normalize_variant_spec(w[last]) == w[last]);
        assert(!has_keys(d, w[last].modifiers)) by {
            if has_keys(d, w[last].modifiers) {
                let j = choose|j: int| 0 <= j < d.len() && (#[trigger] d[j]).modifiers == w[last].modifiers;
                assert(d[j] == w[j]);
            }
        }
        assert(d.push(w[last]) =~= w);
    }
}

/// Normalized variants stay as they are.
pub proof fn lemma_variants_idempotent(v: Seq<ModifierActionView>)
    ensures
        modifier_actions_spec(modifier_actions_spec(v)) == modifier_actions_spec(v),
{
    lemma_variants_clean(v);
    lemma_variants_noop(modifier_actions_spec(v));
}

/// A normalized slot stays as it is.
pub proof fn lemma_trigger_idempotent(t: TriggerActionView)
    ensures
        normalize_trigger_spec(normalize_trigger_spec(t)) == normalize_trigger_spec(t),
{
    lemma_action_idempotent(t.action);
    lemma_variants_idempotent(t.modifier_actions);
}

/// Slots as normalization and the volume default leave them.
pub open spec fn clean_slots(w: Seq<TriggerActionView>) -> bool {
    &&& triggers_distinct(w)
    &&& forall|i: int| 0 <= i < w.len() ==> normalize_trigger_spec(#[trigger] w[i]) == w[i]
}

proof fn lemma_merge_normalized(v: Seq<TriggerActionView>)
    ensures
        forall|i: int| 0 <= i < merge_triggers(v).len() ==> normalize_trigger_spec(#[trigger] merge_triggers(v)[i]) == merge_triggers(v)[i],
    decreases v.len(),
{
    if v.len() > 0 {
        lemma_merge_normalized(v.drop_last());
        let p = merge_triggers(v.drop_last());
        let x = normalize_trigger_spec(v.last());
        lemma_trigger_idempotent(v.last());
        lemma_trigger_pos(p, x.trigger, 0);
        let t = merge_triggers(v);
        assert forall|i: int| 0 <= i < t.len() implies normalize_trigger_spec(#[trigger] t[i]) == t[i] by {
            if i < p.len() && t[i] != x {
                assert(t[i] == p[i]);
            }
        }
    }
}

proof fn lemma_merge_noop(w: Seq<TriggerActionView>)
    requires
        clean_slots(w),
    ensures
        merge_triggers(w) == w,
    decreases w.len(),
{
    if w.len() > 0 {
        let d = w.drop_last();
        assert(clean_slots(d)) by {
            assert forall|i: int| 0 <= i < d.len() implies normalize_trigger_spec(#[trigger] d[i]) == d[i] by {
                assert(d[i] == w[i]);
            }
            assert forall|a: int, b: int| 0 <= a < b < d.len() implies d[a].trigger != d[b].trigger by {
                assert(d[a] == w[a]);
                assert(d[b] == w[b]);
            }
        }
        lemma_merge_noop(d);
        let last = w.len() - 1;
        assert(normalize_trigger_spec(w[last]) == w[last]);
        lemma_trigger_pos(d, w[last].trigger, 0);
        assert(trigger_pos(d, w[last].trigger, 0) is None) by {
            if let Some(j) = trigger_pos(d, w[last].trigger, 0) {
                assert(d[j] == w[j]);
            }
        }
        assert(d.push(w[last]) =~= w);
    }
}

proof fn lemma_volume_default_clean(w: Seq<TriggerActionView>, cooldown: u64)
    requires
        clean_slots(w),
        10 <= cooldown <= 5000,
    ensures
        clean_slots(w.map_values(|t: TriggerActionView| with_volume_cooldown(t, cooldown))),
        w.map_values(|t: TriggerActionView| with_volume_cooldown(t, cooldown)).map_values(
            |t: TriggerActionView| with_volume_cooldown(t, cooldown),
        ) == w.map_values(|t: TriggerActionView| with_volume_cooldown(t, cooldown)),
{
    let u = w.map_values(|t: TriggerActionView| with_volume_cooldown(t, cooldown));
    assert forall|i: int| 0 <= i < u.len() implies normalize_trigger_spec(#[trigger] u[i]) == u[i] by {
        assert(u[i] == with_volume_cooldown(w[i], cooldown));
        assert(normalize_trigger_spec(w[i]) == w[i]);
    }
    assert forall|a: int, b: int| 0 <= a < b < u.len() implies u[a].trigger != u[b].trigger by {
        assert(u[a].trigger == w[a].trigger);
        assert(u[b].trigger == w[b].trigger);
    }
    assert(u.map_values(|t: TriggerActionView| with_volume_cooldown(t, cooldown)) =~= u);
}


proof fn lemma_first_setting_found(u: Seq<HotzoneSettingView>, id: HotzoneId, k: int)
    requires
        0 <= k < u.len(),
        u[k].id == id,
        forall|j: int| 0 <= j < k ==> (#[trigger] u[j]).id != id,
    ensures
        first_setting(u, id) == Some(u[k]),
    decreases u.len(),
{
    let d = u.drop_last();
    if k < u.len() - 1 {
        assert forall|j: int| 0 <= j < k implies (#[trigger] d[j]).id != id by {
            assert(d[j] == u[j]);
        }
        assert(d[k] == u[k]);
        lemma_first_setting_found(d, id, k);
    } else {
        lemma_first_setting_absent(d, id);
    }
}

proof fn lemma_first_setting_absent(u: Seq<HotzoneSettingView>, id: HotzoneId)
    requires
        forall|j: int| 0 <= j < u.len() ==> (#[trigger] u[j]).id != id,
    ensures
        first_setting(u, id) is None,
    decreases u.len(),
{
    if u.len() > 0 {
        let d = u.drop_last();
        assert forall|j: int| 0 <= j < d.len() implies (#[trigger] d[j]).id != id by {
            assert(d[j] == u[j]);
        }
        lemma_first_setting_absent(d, id);
        assert(u[u.len() - 1].id != id);
    }
}

/// A zone as normalization leaves it, the volume default applied.
pub open spec fn clean_zone(h: HotzoneSettingView) -> bool {
    &&& h.trigger is None
    &&& h.action is None
    &&& clean_slots(h.actions)
}

proof fn lemma_zones_clean(v: Seq<HotzoneSettingView>, cooldown: u64)
    requires
        10 <= cooldown <= 5000,
    ensures
        zones_spec(v, cooldown).len() == 8,
        forall|k: int| 0 <= k < 8 ==> (#[trigger] zones_spec(v, cooldown)[k]).id == all_hotzone_ids()[k]
            && clean_zone(zones_spec(v, cooldown)[k])
            && apply_defaults_spec(zones_spec(v, cooldown)[k], cooldown) == zones_spec(v, cooldown)[k],
{
    let z = zones_spec(v, cooldown);
    let n = normalize_hotzones_spec(v);
    assert forall|k: int| 0 <= k < 8 implies (#[trigger] z[k]).id == all_hotzone_ids()[k] && clean_zone(z[k])
        && apply_defaults_spec(z[k], cooldown) == z[k] by {
        let id = all_hotzone_ids()[k];
        lemma_first_setting(v, id);
        let base = match first_setting(v, id) {
            Some(x) => x,
            None => default_setting_spec(id),
        };
        let slots = crate::config_normalize::slots_with_legacy(base);
        lemma_merge_distinct(slots);
        lemma_merge_normalized(slots);
        let merged = merge_triggers(slots);
        assert(clean_slots(merged));
        assert(n[k] == chosen_setting(v, id));
        assert(z[k] == apply_defaults_spec(n[k], cooldown));
        lemma_volume_default_clean(merged, cooldown);
    }
}

/// Normalizing zones that are already normalized changes nothing.
pub proof fn lemma_zones_idempotent(v: Seq<HotzoneSettingView>, cooldown: u64)
    requires
        10 <= cooldown <= 5000,
    ensures
        zones_spec(zones_spec(v, cooldown), cooldown) == zones_spec(v, cooldown),
{
    let z = zones_spec(v, cooldown);
    lemma_zones_clean(v, cooldown);
    let z2 = zones_spec(z, cooldown);
    let n2 = normalize_hotzones_spec(z);
    assert forall|k: int| 0 <= k < 8 implies #[trigger] z2[k] == z[k] by {
        let id = all_hotzone_ids()[k];
        assert forall|j: int| 0 <= j < k implies (#[trigger] z[j]).id != id by {
            assert(z[j].id == all_hotzone_ids()[j]);
        }
        lemma_first_setting_found(z, id, k);
        assert(clean_zone(z[k]));
        lemma_merge_noop(z[k].actions);
        assert(n2[k] == chosen_setting(z, id));
        assert(chosen_setting(z, id) == z[k]);
    }
    assert(z2 =~= z);
}


/// Display profiles as normalization leaves them: named with trimmed,
/// non-empty names and holding normalized zones.
pub open spec fn clean_profiles(w: Seq<ProfileView>, cooldown: u64) -> bool {
    forall|i: int|
        0 <= i < w.len() ==> trim_spec((#[trigger] w[i]).monitor_id) == w[i].monitor_id
            && w[i].monitor_id.len() > 0 && zones_spec(w[i].hotzones, cooldown) == w[i].hotzones
}

proof fn lemma_profiles_clean(v: Seq<ProfileView>, cooldown: u64)
    requires
        10 <= cooldown <= 5000,
    ensures
        clean_profiles(profiles_spec(v, cooldown), cooldown),
    decreases v.len(),
{
    if v.len() > 0 {
        lemma_profiles_clean(v.drop_last(), cooldown);
        let p = profiles_spec(v.drop_last(), cooldown);
        lemma_trim_idempotent(v.last().monitor_id);
        lemma_zones_idempotent(v.last().hotzones, cooldown);
        let w = profiles_spec(v, cooldown);
        assert forall|i: int| 0 <= i < w.len() implies trim_spec((#[trigger] w[i]).monitor_id) == w[i].monitor_id
            && w[i].monitor_id.len() > 0 && zones_spec(w[i].hotzones, cooldown) == w[i].hotzones by {
            if i < p.len() {
                assert(w[i] == p[i]);
            }
        }
    }
}

proof fn lemma_profiles_noop(w: Seq<ProfileView>, cooldown: u64)
    requires
        clean_profiles(w, cooldown),
    ensures
        profiles_spec(w, cooldown) == w,
    decreases w.len(),
{
    if w.len() > 0 {
        let d = w.drop_last();
        assert(clean_profiles(d, cooldown)) by {
            assert forall|i: int| 0 <= i < d.len() implies trim_spec((#[trigger] d[i]).monitor_id) == d[i].monitor_id
                && d[i].monitor_id.len() > 0 && zones_spec(d[i].hotzones, cooldown) == d[i].hotzones by {
                assert(d[i] == w[i]);
            }
        }
        lemma_profiles_noop(d, cooldown);
        let last = w.len() - 1;
        assert(trim_spec(w[last].monitor_id) == w[last].monitor_id);
        assert(d.push(w[last]) =~= w);
    }
}

/// Edge-hide display profiles as normalization leaves them.
pub open spec fn clean_edge_profiles(w: Seq<EdgeProfileView>) -> bool {
    forall|i: int|
        0 <= i < w.len() ==> trim_spec((#[trigger] w[i]).monitor_id) == w[i].monitor_id
            && w[i].monitor_id.len() > 0 && dedup_edges(w[i].edges) == w[i].edges
}

proof fn lemma_edge_profiles_clean(v: Seq<EdgeProfileView>)
    ensures
        clean_edge_profiles(edge_profiles_spec(v)),
    decreases v.len(),
{
    if v.len() > 0 {
        lemma_edge_profiles_clean(v.drop_last());
        let p = edge_profiles_spec(v.drop_last());
        lemma_trim_idempotent(v.last().monitor_id);
        lemma_edges_idempotent(v.last().edges);
        let w = edge_profiles_spec(v);
        assert forall|i: int| 0 <= i < w.len() implies trim_spec((#[trigger] w[i]).monitor_id) == w[i].monitor_id
            && w[i].monitor_id.len() > 0 && dedup_edges(w[i].edges) == w[i].edges by {
            if i < p.len() {
                assert(w[i] == p[i]);
            }
        }
    }
}

proof fn lemma_edge_profiles_noop(w: Seq<EdgeProfileView>)
    requires
        clean_edge_profiles(w),
    ensures
        edge_profiles_spec(w) == w,
    decreases w.len(),
{
    if w.len() > 0 {
        let d = w.drop_last();
        assert(clean_edge_profiles(d)) by {
            assert forall|i: int| 0 <= i < d.len() implies trim_spec((#[trigger] d[i]).monitor_id) == d[i].monitor_id
                && d[i].monitor_id.len() > 0 && dedup_edges(d[i].edges) == d[i].edges by {
                assert(d[i] == w[i]);
            }
        }
        lemma_edge_profiles_noop(d);
        let last = w.len() - 1;
        assert(trim_spec(w[last].monitor_id) == w[last].monitor_id);
        assert(d.push(w[last]) =~= w);
    }
}

/// Two configurations hold the same settings.
pub open spec fn same_settings(a: AppConfig, b: AppConfig) -> bool {
    &&& a.schema_version == b.schema_version
    &&& a.enabled == b.enabled
    &&& a.hotzones_enabled == b.hotzones_enabled
    &&& a.edge_size == b.edge_size
    &&& a.hover_delay_ms == b.hover_delay_ms
    &&& a.poll_interval_ms == b.poll_interval_ms
    &&& a.action_cooldown_ms == b.action_cooldown_ms
    &&& texts_of(a.paused_apps@) == texts_of(b.paused_apps@)
    &&& settings_view(a.hotzones@) == settings_view(b.hotzones@)
    &&& profiles_view(a.monitor_profiles@) == profiles_view(b.monitor_profiles@)
    &&& a.edge_hide.enabled == b.edge_hide.enabled
    &&& a.edge_hide.show_preview == b.edge_hide.show_preview
    &&& a.edge_hide.edges@ == b.edge_hide.edges@
    &&& edge_profiles_view(a.edge_hide.monitor_profiles@) == edge_profiles_view(b.edge_hide.monitor_profiles@)
    &&& a.edge_hide.strip_size == b.edge_hide.strip_size
    &&& a.edge_hide.trigger_distance == b.edge_hide.trigger_distance
    &&& a.edge_hide.distance_trigger_enabled == b.edge_hide.distance_trigger_enabled
    &&& a.edge_hide.ratio_trigger_enabled == b.edge_hide.ratio_trigger_enabled
    &&& a.edge_hide.trigger_ratio == b.edge_hide.trigger_ratio
    &&& a.edge_hide.collapse_delay_ms == b.edge_hide.collapse_delay_ms
    &&& a.edge_hide.restore_delay_ms == b.edge_hide.restore_delay_ms
    &&& a.edge_hide.keep_expanded_when_foreground == b.edge_hide.keep_expanded_when_foreground
    &&& texts_of(a.edge_hide.excluded_apps@) == texts_of(b.edge_hide.excluded_apps@)
    &&& a.mouse_gestures.enabled == b.mouse_gestures.enabled
    &&& a.mouse_gestures.trigger_button == b.mouse_gestures.trigger_button
    &&& a.mouse_gestures.min_distance == b.mouse_gestures.min_distance
    &&& a.mouse_gestures.sensitivity == b.mouse_gestures.sensitivity
    &&& a.mouse_gestures.show_trail == b.mouse_gestures.show_trail
    &&& a.mouse_gestures.fullscreen_pause == b.mouse_gestures.fullscreen_pause
    &&& texts_of(a.mouse_gestures.paused_apps@) == texts_of(b.mouse_gestures.paused_apps@)
    &&& gestures_view(a.mouse_gestures.gestures@) == gestures_view(b.mouse_gestures.gestures@)
    &&& a.window_drag.enabled == b.window_drag.enabled
    &&& a.window_drag.move_modifiers@ == b.window_drag.move_modifiers@
    &&& a.window_drag.resize_modifiers@ == b.window_drag.resize_modifiers@
    &&& a.window_drag.move_button == b.window_drag.move_button
    &&& a.window_drag.resize_button == b.window_drag.resize_button
    &&& a.topmost_pin.enabled == b.topmost_pin.enabled
    &&& a.ocr.language == b.ocr.language
    &&& a.ocr.screenshot_result == b.ocr.screenshot_result
}

/// Normalizing normalized settings changes nothing: a configuration the
/// helper sent back is received as it was. This holds wherever the gesture
/// templates' ids and names, as normalization cut them, end in no white
/// space; where one does, the second normalization trims it off.
pub proof fn law_normalization_is_idempotent(c: AppConfig, r: AppConfig, r2: AppConfig)
    requires
        normalized_spec(r, c),
        normalized_spec(r2, r),
        forall|i: int|
            0 <= i < r.mouse_gestures.gestures@.len() ==> trimmed_gesture(
                #[trigger] gestures_view(r.mouse_gestures.gestures@)[i],
            ),
    ensures
        same_settings(r2, r),
{
    let gv = gestures_view(c.mouse_gestures.gestures@);
    let n = normalize_gestures_spec(gv);
    let rg = gestures_view(r.mouse_gestures.gestures@);
    assert forall|i: int| 0 <= i < n.len() implies trimmed_gesture(#[trigger] n[i]) by {
        if c.schema_version < 5 {
            lemma_normalized_circle_index(gv);
            assert(rg[i].id == n[i].id && rg[i].name == n[i].name);
        }
        assert(trimmed_gesture(rg[i]));
    }
    lemma_normalized_settled(gv);
    if c.schema_version < 5 {
        lemma_migrated_settled(n);
    }
    lemma_settled_is_fixed(rg);
    let cd = r.action_cooldown_ms;
    lemma_string_list_idempotent(texts_of(c.paused_apps@));
    lemma_string_list_idempotent(texts_of(c.edge_hide.excluded_apps@));
    lemma_string_list_idempotent(texts_of(c.mouse_gestures.paused_apps@));
    lemma_edges_idempotent(c.edge_hide.edges@);
    lemma_modifiers_idempotent(c.window_drag.move_modifiers@);
    lemma_modifiers_idempotent(c.window_drag.resize_modifiers@);
    lemma_zones_idempotent(settings_view(c.hotzones@), cd);
    lemma_profiles_clean(profiles_view(c.monitor_profiles@), cd);
    lemma_profiles_noop(profiles_view(r.monitor_profiles@), cd);
    lemma_edge_profiles_clean(edge_profiles_view(c.edge_hide.monitor_profiles@));
    lemma_edge_profiles_noop(edge_profiles_view(r.edge_hide.monitor_profiles@));
}

/// Normalizing normalized settings changes nothing wherever every received
/// gesture template's id and name, once trimmed, fit their lengths (80 and
/// 40 characters).
pub proof fn law_normalization_is_idempotent_for_fitting_gesture_texts(
    c: AppConfig,
    r: AppConfig,
    r2: AppConfig,
)
    requires
        normalized_spec(r, c),
        normalized_spec(r2, r),
        forall|i: int|
            0 <= i < c.mouse_gestures.gestures@.len() ==> short_texts(
                #[trigger] gestures_view(c.mouse_gestures.gestures@)[i],
            ),
    ensures
        same_settings(r2, r),
{
    let gv = gestures_view(c.mouse_gestures.gestures@);
    let n = normalize_gestures_spec(gv);
    let rg = gestures_view(r.mouse_gestures.gestures@);
    lemma_short_texts_trimmed(gv);
    if c.schema_version < 5 {
        lemma_normalized_circle_index(gv);
    }
    assert forall|i: int| 0 <= i < r.mouse_gestures.gestures@.len() implies trimmed_gesture(
        #[trigger] gestures_view(r.mouse_gestures.gestures@)[i],
    ) by {
        assert(rg[i].id == n[i].id && rg[i].name == n[i].name);
        assert(trimmed_gesture(n[i]));
    }
    law_normalization_is_idempotent(c, r, r2);
}

} // verus!
