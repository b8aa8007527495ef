//! Whether normalization changed received settings: the answer a settings
//! update reports back as "adjusted".

use vstd::prelude::*;
use crate::config::{
    gestures_view, modifier_actions_view, opt_action_view, settings_view, text_of,
    trigger_actions_view, AppConfig, Edge, EdgeHideMonitorProfile, GestureTemplate, HotzoneAction,
    HotzoneSetting, ModifierAction, ModifierKey, MonitorProfile, SampleRef, TriggerAction,
    TriggerKind,
};
use crate::config_laws::same_settings;
use crate::config_normalize::{edge_profiles_view, profiles_view, texts_of};
use crate::text::text_eq;

verus! {

fn same_text_lists(a: &Vec<String>, b: &Vec<String>) -> (r: bool)
    ensures
        r == (texts_of(a@) == texts_of(b@)),
{
    if a.len() != b.len() {
        return false;
    }
    let mut i: usize = 0;
    while i < a.len()
        invariant
            a@.len() == b@.len(),
            i <= a@.len(),
            forall|j: int| 0 <= j < i ==> a@[j]@ == b@[j]@,
        decreases a@.len() - i,
    {
        if !text_eq(a[i].as_str(), b[i].as_str()) {
            assert(texts_of(a@)[i as int] != texts_of(b@)[i as int]);
            return false;
        }
        i += 1;
    }
    assert(texts_of(a@) =~= texts_of(b@));
    true
}

fn same_keys(a: &Vec<ModifierKey>, b: &Vec<ModifierKey>) -> (r: bool)
    ensures
        r == (a@ == b@),
{
    if a.len() != b.len() {
        return false;
    }
    let mut i: usize = 0;
    while i < a.len()
        invariant
            a@.len() == b@.len(),
            i <= a@.len(),
            forall|j: int| 0 <= j < i ==> a@[j] == b@[j],
        decreases a@.len() - i,
    {
        if a[i] != b[i] {
            return false;
        }
        i += 1;
    }
    assert(a@ =~= b@);
    true
}

fn same_edges(a: &Vec<Edge>, b: &Vec<Edge>) -> (r: bool)
    ensures
        r == (a@ == b@),
{
    if a.len() != b.len() {
        return false;
    }
    let mut i: usize = 0;
    while i < a.len()
        invariant
            a@.len() == b@.len(),
            i <= a@.len(),
            forall|j: int| 0 <= j < i ==> a@[j] == b@[j],
        decreases a@.len() - i,
    {
        if a[i] != b[i] {
            return false;
        }
        i += 1;
    }
    assert(a@ =~= b@);
    true
}

fn same_samples(a: &Vec<SampleRef>, b: &Vec<SampleRef>) -> (r: bool)
    ensures
        r == (a@ == b@),
{
    if a.len() != b.len() {
        return false;
    }
    let mut i: usize = 0;
    while i < a.len()
        invariant
            a@.len() == b@.len(),
            i <= a@.len(),
            forall|j: int| 0 <= j < i ==> a@[j] == b@[j],
        decreases a@.len() - i,
    {
        if a[i] != b[i] {
            return false;
        }
        i += 1;
    }
    assert(a@ =~= b@);
    true
}

fn same_opt_text(a: &Option<String>, b: &Option<String>) -> (r: bool)
    ensures
        r == (text_of(*a) == text_of(*b)),
{
    match (a, b) {
        (Some(x), Some(y)) => text_eq(x.as_str(), y.as_str()),
        (None, None) => true,
        _ => false,
    }
}

fn same_opt_ms(a: Option<u64>, b: Option<u64>) -> (r: bool)
    ensures
        r == (a == b),
{
    match (a, b) {
        (Some(x), Some(y)) => x == y,
        (None, None) => true,
        _ => false,
    }
}

fn same_opt_trigger(a: Option<TriggerKind>, b: Option<TriggerKind>) -> (r: bool)
    ensures
        r == (a == b),
{
    match (a, b) {
        (Some(x), Some(y)) => x == y,
        (None, None) => true,
        _ => false,
    }
}

fn same_action(a: &HotzoneAction, b: &HotzoneAction) -> (r: bool)
    ensures
        r == (a@ == b@),
{
    a.kind == b.kind && same_opt_text(&a.value, &b.value)
}

fn same_opt_action(a: &Option<HotzoneAction>, b: &Option<HotzoneAction>) -> (r: bool)
    ensures
        r == (opt_action_view(*a) == opt_action_view(*b)),
{
    match (a, b) {
        (Some(x), Some(y)) => same_action(x, y),
        (None, None) => true,
        _ => false,
    }
}

fn same_modifier_action(a: &ModifierAction, b: &ModifierAction) -> (r: bool)
    ensures
        r == (a@ == b@),
{
    same_keys(&a.modifiers, &b.modifiers) && same_action(&a.action, &b.action)
}

fn same_modifier_actions(a: &Vec<ModifierAction>, b: &Vec<ModifierAction>) -> (r: bool)
    ensures
        r == (modifier_actions_view(a@) == modifier_actions_view(b@)),
{
    if a.len() != b.len() {
        return false;
    }
    let mut i: usize = 0;
    while i < a.len()
        invariant
            a@.len() == b@.len(),
            i <= a@.len(),
            forall|j: int| 0 <= j < i ==> a@[j]@ == b@[j]@,
        decreases a@.len() - i,
    {
        if !same_modifier_action(&a[i], &b[i]) {
            assert(modifier_actions_view(a@)[i as int] != modifier_actions_view(b@)[i as int]);
            return false;
        }
        i += 1;
    }
    assert(modifier_actions_view(a@) =~= modifier_actions_view(b@));
    true
}

fn same_trigger_action(a: &TriggerAction, b: &TriggerAction) -> (r: bool)
    ensures
        r == (a@ == b@),
{
    a.trigger == b.trigger && same_action(&a.action, &b.action) && same_modifier_actions(
        &a.modifier_actions,
        &b.modifier_actions,
    ) && same_opt_ms(a.cooldown_ms, b.cooldown_ms) && same_opt_ms(
        a.hover_delay_ms,
        b.hover_delay_ms,
    )
}

fn same_trigger_actions(a: &Vec<TriggerAction>, b: &Vec<TriggerAction>) -> (r: bool)
    ensures
        r == (trigger_actions_view(a@) == trigger_actions_view(b@)),
{
    if a.len() != b.len() {
        return false;
    }
    let mut i: usize = 0;
    while i < a.len()
        invariant
            a@.len() == b@.len(),
            i <= a@.len(),
            forall|j: int| 0 <= j < i ==> a@[j]@ == b@[j]@,
        decreases a@.len() - i,
    {
        if !same_trigger_action(&a[i], &b[i]) {
            assert(trigger_actions_view(a@)[i as int] != trigger_actions_view(b@)[i as int]);
            return false;
        }
        i += 1;
    }
    assert(trigger_actions_view(a@) =~= trigger_actions_view(b@));
    true
}

fn same_setting(a: &HotzoneSetting, b: &HotzoneSetting) -> (r: bool)
    ensures
        r == (a@ == b@),
{
    a.id == b.id && a.enabled == b.enabled && same_trigger_actions(&a.actions, &b.actions)
        && same_opt_trigger(a.trigger, b.trigger) && same_opt_action(&a.action, &b.action)
}

fn same_settings_list(a: &Vec<HotzoneSetting>, b: &Vec<HotzoneSetting>) -> (r: bool)
    ensures
        r == (settings_view(a@) == settings_view(b@)),
{
    if a.len() != b.len() {
        return false;
    }
    let mut i: usize = 0;
    while i < a.len()
        invariant
            a@.len() == b@.len(),
            i <= a@.len(),
            forall|j: int| 0 <= j < i ==> a@[j]@ == b@[j]@,
        decreases a@.len() - i,
    {
        if !same_setting(&a[i], &b[i]) {
            assert(settings_view(a@)[i as int] != settings_view(b@)[i as int]);
            return false;
        }
        i += 1;
    }
    assert(settings_view(a@) =~= settings_view(b@));
    true
}

fn same_profiles(a: &Vec<MonitorProfile>, b: &Vec<MonitorProfile>) -> (r: bool)
    ensures
        r == (profiles_view(a@) == profiles_view(b@)),
{
    if a.len() != b.len() {
        return false;
    }
    let mut i: usize = 0;
    while i < a.len()
        invariant
            a@.len() == b@.len(),
            i <= a@.len(),
            forall|j: int|
                0 <= j < i ==> a@[j].monitor_id@ == b@[j].monitor_id@ && settings_view(
                    a@[j].hotzones@,
                ) == settings_view(b@[j].hotzones@),
        decreases a@.len() - i,
    {
        let same = text_eq(a[i].monitor_id.as_str(), b[i].monitor_id.as_str())
            && same_settings_list(&a[i].hotzones, &b[i].hotzones);
        if !same {
            assert(profiles_view(a@)[i as int] != profiles_view(b@)[i as int]);
            return false;
        }
        i += 1;
    }
    assert(profiles_view(a@) =~= profiles_view(b@));
    true
}

fn same_edge_profiles(a: &Vec<EdgeHideMonitorProfile>, b: &Vec<EdgeHideMonitorProfile>) -> (r: bool)
    ensures
        r == (edge_profiles_view(a@) == edge_profiles_view(b@)),
{
    if a.len() != b.len() {
        return false;
    }
    let mut i: usize = 0;
    while i < a.len()
        invariant
            a@.len() == b@.len(),
            i <= a@.len(),
            forall|j: int|
                0 <= j < i ==> a@[j].monitor_id@ == b@[j].monitor_id@ && a@[j].edges@
                    == b@[j].edges@,
        decreases a@.len() - i,
    {
        let same = text_eq(a[i].monitor_id.as_str(), b[i].monitor_id.as_str()) && same_edges(
            &a[i].edges,
            &b[i].edges,
        );
        if !same {
            assert(edge_profiles_view(a@)[i as int] != edge_profiles_view(b@)[i as int]);
            return false;
        }
        i += 1;
    }
    assert(edge_profiles_view(a@) =~= edge_profiles_view(b@));
    true
}

fn same_gesture(a: &GestureTemplate, b: &GestureTemplate) -> (r: bool)
    ensures
        r == (a@ == b@),
{
    text_eq(a.id.as_str(), b.id.as_str()) && text_eq(a.name.as_str(), b.name.as_str())
        && a.enabled == b.enabled && a.builtin == b.builtin && a.mode == b.mode && same_action(
        &a.action,
        &b.action,
    ) && same_modifier_actions(&a.modifier_actions, &b.modifier_actions) && same_samples(
        &a.samples,
        &b.samples,
    )
}

fn same_gestures(a: &Vec<GestureTemplate>, b: &Vec<GestureTemplate>) -> (r: bool)
    ensures
        r == (gestures_view(a@) == gestures_view(b@)),
{
    if a.len() != b.len() {
        return false;
    }
    let mut i: usize = 0;
    while i < a.len()
        invariant
            a@.len() == b@.len(),
            i <= a@.len(),
            forall|j: int| 0 <= j < i ==> a@[j]@ == b@[j]@,
        decreases a@.len() - i,
    {
        if !same_gesture(&a[i], &b[i]) {
            assert(gestures_view(a@)[i as int] != gestures_view(b@)[i as int]);
            return false;
        }
        i += 1;
    }
    assert(gestures_view(a@) =~= gestures_view(b@));
    true
}

/// Whether `normalized` holds other settings than `received`: what a
/// settings update reports as adjusted.
pub fn settings_adjusted(received: &AppConfig, normalized: &AppConfig) -> (r: bool)
    ensures
        r == !same_settings(*normalized, *received),
{
    let a = normalized;
    let b = received;
    let top = a.schema_version == b.schema_version && a.enabled == b.enabled
        && a.hotzones_enabled == b.hotzones_enabled && a.edge_size == b.edge_size
        && a.hover_delay_ms == b.hover_delay_ms && a.poll_interval_ms == b.poll_interval_ms
        && a.action_cooldown_ms == b.action_cooldown_ms && same_text_lists(
        &a.paused_apps,
        &b.paused_apps,
    ) && same_settings_list(&a.hotzones, &b.hotzones) && same_profiles(
        &a.monitor_profiles,
        &b.monitor_profiles,
    );
    let ea = &a.edge_hide;
    let eb = &b.edge_hide;
    let edge = ea.enabled == eb.enabled && ea.show_preview == eb.show_preview && same_edges(
        &ea.edges,
        &eb.edges,
    ) && same_edge_profiles(&ea.monitor_profiles, &eb.monitor_profiles) && ea.strip_size
        == eb.strip_size && ea.trigger_distance == eb.trigger_distance
        && ea.distance_trigger_enabled == eb.distance_trigger_enabled && ea.ratio_trigger_enabled
        == eb.ratio_trigger_enabled && ea.trigger_ratio == eb.trigger_ratio && ea.collapse_delay_ms
        == eb.collapse_delay_ms && ea.restore_delay_ms == eb.restore_delay_ms
        && ea.keep_expanded_when_foreground == eb.keep_expanded_when_foreground && same_text_lists(
        &ea.excluded_apps,
        &eb.excluded_apps,
    );
    let ga = &a.mouse_gestures;
    let gb = &b.mouse_gestures;
    let gestures = ga.enabled == gb.enabled && ga.trigger_button == gb.trigger_button
        && ga.min_distance == gb.min_distance && ga.sensitivity == gb.sensitivity && ga.show_trail
        == gb.show_trail && ga.fullscreen_pause == gb.fullscreen_pause && same_text_lists(
        &ga.paused_apps,
        &gb.paused_apps,
    ) && same_gestures(&ga.gestures, &gb.gestures);
    let rest = a.window_drag.enabled == b.window_drag.enabled && same_keys(
        &a.window_drag.move_modifiers,
        &b.window_drag.move_modifiers,
    ) && same_keys(&a.window_drag.resize_modifiers, &b.window_drag.resize_modifiers)
        && a.window_drag.move_button == b.window_drag.move_button && a.window_drag.resize_button
        == b.window_drag.resize_button && a.topmost_pin.enabled == b.topmost_pin.enabled
        && a.ocr.language == b.ocr.language && a.ocr.screenshot_result
        == b.ocr.screenshot_result;
    !(top && edge && gestures && rest)
}

} // verus!
