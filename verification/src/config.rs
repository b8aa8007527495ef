//! The helper's settings: hot zones with their trigger slots, mouse-gesture
//! switches, window dragging, topmost pins, OCR and edge hiding, and the
//! normalization that turns any received settings into a consistent set.

use vstd::prelude::*;
use crate::gesture_config::{default_gestures, default_gestures_spec};

verus! {

#[derive(Clone, Copy, Debug, PartialEq, Eq, Hash, Structural)]
pub enum HotzoneId {
    TopLeft,
    Top,
    TopRight,
    Right,
    BottomRight,
    Bottom,
    BottomLeft,
    Left,
}

#[derive(Clone, Copy, Debug, PartialEq, Eq, Hash, Structural)]
pub enum TriggerKind {
    Hover,
    LeftClick,
    RightClick,
    WheelUp,
    WheelDown,
    SlideForward,
    SlideBackward,
}

#[derive(Clone, Copy, Debug, PartialEq, Eq, Structural)]
pub enum ActionKind {
    NoAction,
    Shortcut,
    ShowDesktop,
    ToggleWindowTopmost,
    LockScreen,
    VolumeAdjust,
    OpenCommand,
    HostAction,
}

#[derive(Clone, Copy, Debug, PartialEq, Eq, Hash, Structural)]
pub enum ModifierKey {
    Ctrl,
    Alt,
    Shift,
    Win,
}

#[derive(Clone, Copy, Debug, PartialEq, Eq, Structural)]
pub enum MouseButton {
    Left,
    Right,
    Middle,
    X1,
    X2,
}

#[derive(Clone, Copy, Debug, PartialEq, Eq, Structural)]
pub enum GestureTriggerButton {
    Right,
    Middle,
    X1,
    X2,
}

#[derive(Clone, Copy, Debug, PartialEq, Eq, Structural)]
pub enum GestureMode {
    Action,
    RegionScreenshot,
}

#[derive(Clone, Copy, Debug, PartialEq, Eq, Structural)]
pub enum OcrLanguage {
    Auto,
    ZhHans,
    English,
}

#[derive(Clone, Copy, Debug, PartialEq, Eq, Structural)]
pub enum ScreenshotResultMode {
    Pin,
    CopyText,
    PinAndCopy,
}

#[derive(Clone, Copy, Debug, PartialEq, Eq, Structural)]
pub enum Edge {
    Left,
    Top,
    Right,
    Bottom,
}

#[derive(Clone, Debug)]
pub struct HotzoneAction {
    pub kind: ActionKind,
    pub value: Option<String>,
}

#[derive(Clone, Debug)]
pub struct ModifierAction {
    pub modifiers: Vec<ModifierKey>,
    pub action: HotzoneAction,
}

#[derive(Clone, Debug)]
pub struct TriggerAction {
    pub trigger: TriggerKind,
    pub action: HotzoneAction,
    pub modifier_actions: Vec<ModifierAction>,
    pub cooldown_ms: Option<u64>,
    pub hover_delay_ms: Option<u64>,
}

#[derive(Clone, Debug)]
pub struct HotzoneSetting {
    pub id: HotzoneId,
    pub enabled: bool,
    pub actions: Vec<TriggerAction>,
    pub trigger: Option<TriggerKind>,
    pub action: Option<HotzoneAction>,
}

#[derive(Clone, Debug)]
pub struct MonitorProfile {
    pub monitor_id: String,
    pub hotzones: Vec<HotzoneSetting>,
}

#[derive(Clone, Debug)]
pub struct WindowDragConfig {
    pub enabled: bool,
    pub move_modifiers: Vec<ModifierKey>,
    pub resize_modifiers: Vec<ModifierKey>,
    pub move_button: MouseButton,
    pub resize_button: MouseButton,
}

#[derive(Clone, Debug)]
pub struct TopmostPinConfig {
    pub enabled: bool,
}

#[derive(Clone, Debug)]
pub struct OcrConfig {
    pub language: OcrLanguage,
    pub screenshot_result: ScreenshotResultMode,
}

#[derive(Clone, Debug)]
pub struct EdgeHideMonitorProfile {
    pub monitor_id: String,
    pub edges: Vec<Edge>,
}

#[derive(Clone, Debug)]
pub struct EdgeHideConfig {
    pub enabled: bool,
    pub show_preview: bool,
    pub edges: Vec<Edge>,
    pub monitor_profiles: Vec<EdgeHideMonitorProfile>,
    pub strip_size: i32,
    pub trigger_distance: i32,
    pub distance_trigger_enabled: bool,
    pub ratio_trigger_enabled: bool,
    pub trigger_ratio: i32,
    pub collapse_delay_ms: u64,
    pub restore_delay_ms: u64,
    pub keep_expanded_when_foreground: bool,
    pub excluded_apps: Vec<String>,
}

pub open spec fn all_edges() -> Seq<Edge> {
    seq![Edge::Left, Edge::Top, Edge::Right, Edge::Bottom]
}

pub fn default_edges() -> (edges: Vec<Edge>)
    ensures
        edges@ == all_edges(),
{
    let edges = vec![Edge::Left, Edge::Top, Edge::Right, Edge::Bottom];
    assert(edges@ =~= all_edges());
    edges
}

impl EdgeHideConfig {
    pub open spec fn is_default(self) -> bool {
        &&& !self.enabled
        &&& self.show_preview
        &&& self.edges@ == all_edges()
        &&& self.monitor_profiles@.len() == 0
        &&& self.strip_size == 16
        &&& self.trigger_distance == 16
        &&& self.distance_trigger_enabled
        &&& self.ratio_trigger_enabled
        &&& self.trigger_ratio == 33
        &&& self.collapse_delay_ms == 300
        &&& self.restore_delay_ms == 200
        &&& self.keep_expanded_when_foreground
        &&& self.excluded_apps@.len() == 0
    }
}

impl Default for EdgeHideConfig {
    fn default() -> (config: Self)
        ensures
            config.is_default(),
    {
        EdgeHideConfig {
            enabled: false,
            show_preview: true,
            edges: default_edges(),
            monitor_profiles: Vec::new(),
            strip_size: 16,
            trigger_distance: 16,
            distance_trigger_enabled: true,
            ratio_trigger_enabled: true,
            trigger_ratio: 33,
            collapse_delay_ms: 300,
            restore_delay_ms: 200,
            keep_expanded_when_foreground: true,
            excluded_apps: Vec::new(),
        }
    }
}


/// A hot-zone action as the contracts see it: its kind and its text.
pub struct ActionView {
    pub kind: ActionKind,
    pub value: Option<Seq<char>>,
}

pub open spec fn text_of(o: Option<String>) -> Option<Seq<char>> {
    match o {
        Some(s) => Some(s@),
        None => None,
    }
}

impl View for HotzoneAction {
    type V = ActionView;

    open spec fn view(&self) -> ActionView {
        ActionView { kind: self.kind, value: text_of(self.value) }
    }
}

pub struct ModifierActionView {
    pub modifiers: Seq<ModifierKey>,
    pub action: ActionView,
}

impl View for ModifierAction {
    type V = ModifierActionView;

    open spec fn view(&self) -> ModifierActionView {
        ModifierActionView { modifiers: self.modifiers@, action: self.action@ }
    }
}

pub open spec fn modifier_actions_view(v: Seq<ModifierAction>) -> Seq<ModifierActionView> {
    v.map_values(|m: ModifierAction| m@)
}

pub struct TriggerActionView {
    pub trigger: TriggerKind,
    pub action: ActionView,
    pub modifier_actions: Seq<ModifierActionView>,
    pub cooldown_ms: Option<u64>,
    pub hover_delay_ms: Option<u64>,
}

impl View for TriggerAction {
    type V = TriggerActionView;

    open spec fn view(&self) -> TriggerActionView {
        TriggerActionView {
            trigger: self.trigger,
            action: self.action@,
            modifier_actions: modifier_actions_view(self.modifier_actions@),
            cooldown_ms: self.cooldown_ms,
            hover_delay_ms: self.hover_delay_ms,
        }
    }
}

pub open spec fn trigger_actions_view(v: Seq<TriggerAction>) -> Seq<TriggerActionView> {
    v.map_values(|t: TriggerAction| t@)
}

pub struct HotzoneSettingView {
    pub id: HotzoneId,
    pub enabled: bool,
    pub actions: Seq<TriggerActionView>,
    pub trigger: Option<TriggerKind>,
    pub action: Option<ActionView>,
}

pub open spec fn opt_action_view(o: Option<HotzoneAction>) -> Option<ActionView> {
    match o {
        Some(a) => Some(a@),
        None => None,
    }
}

impl View for HotzoneSetting {
    type V = HotzoneSettingView;

    open spec fn view(&self) -> HotzoneSettingView {
        HotzoneSettingView {
            id: self.id,
            enabled: self.enabled,
            actions: trigger_actions_view(self.actions@),
            trigger: self.trigger,
            action: opt_action_view(self.action),
        }
    }
}

pub open spec fn settings_view(v: Seq<HotzoneSetting>) -> Seq<HotzoneSettingView> {
    v.map_values(|h: HotzoneSetting| h@)
}

pub open spec fn all_hotzone_ids() -> Seq<HotzoneId> {
    seq![
        HotzoneId::TopLeft,
        HotzoneId::Top,
        HotzoneId::TopRight,
        HotzoneId::Right,
        HotzoneId::BottomRight,
        HotzoneId::Bottom,
        HotzoneId::BottomLeft,
        HotzoneId::Left,
    ]
}

impl HotzoneId {
    /// Every hot zone, corners and edges clockwise from the top left.
    pub fn all() -> (r: [HotzoneId; 8])
        ensures
            r@ == all_hotzone_ids(),
    {
        let r = [
            HotzoneId::TopLeft,
            HotzoneId::Top,
            HotzoneId::TopRight,
            HotzoneId::Right,
            HotzoneId::BottomRight,
            HotzoneId::Bottom,
            HotzoneId::BottomLeft,
            HotzoneId::Left,
        ];
        assert(r@ =~= all_hotzone_ids());
        r
    }
}

pub open spec fn all_modifier_keys() -> Seq<ModifierKey> {
    seq![ModifierKey::Ctrl, ModifierKey::Alt, ModifierKey::Shift, ModifierKey::Win]
}

pub open spec fn key_bit(k: ModifierKey) -> u8 {
    match k {
        ModifierKey::Ctrl => 1,
        ModifierKey::Alt => 2,
        ModifierKey::Shift => 4,
        ModifierKey::Win => 8,
    }
}

impl ModifierKey {
    /// Every modifier key, in the order masks and lists use.
    pub fn all() -> (r: [ModifierKey; 4])
        ensures
            r@ == all_modifier_keys(),
    {
        let r = [ModifierKey::Ctrl, ModifierKey::Alt, ModifierKey::Shift, ModifierKey::Win];
        assert(r@ =~= all_modifier_keys());
        r
    }

    /// The key's bit in a modifier mask.
    pub fn mask(self) -> (m: u8)
        ensures
            m == key_bit(self),
    {
        match self {
            ModifierKey::Ctrl => 1,
            ModifierKey::Alt => 2,
            ModifierKey::Shift => 4,
            ModifierKey::Win => 8,
        }
    }
}

/// The mask of a list of modifier keys: the bits of all of them.
pub open spec fn mask_of(keys: Seq<ModifierKey>) -> u8
    decreases keys.len(),
{
    if keys.len() == 0 {
        0
    } else {
        mask_of(keys.drop_last()) | key_bit(keys.last())
    }
}

pub fn modifier_mask(modifiers: &[ModifierKey]) -> (m: u8)
    ensures
        m == mask_of(modifiers@),
{
    let mut mask: u8 = 0;
    let mut i: usize = 0;
    while i < modifiers.len()
        invariant
            i <= modifiers@.len(),
            mask == mask_of(modifiers@.take(i as int)),
        decreases modifiers@.len() - i,
    {
        proof {
            assert(modifiers@.take(i + 1).drop_last() =~= modifiers@.take(i as int));
        }
        mask = mask | modifiers[i].mask();
        i += 1;
    }
    proof {
        assert(modifiers@.take(modifiers@.len() as int) =~= modifiers@);
    }
    mask
}

/// The index of the first variant bound to exactly `mask`.
pub open spec fn variant_for_mask(variants: Seq<ModifierActionView>, mask: u8, i: int) -> Option<int>
    decreases variants.len() - i,
{
    if i < 0 || i >= variants.len() {
        None
    } else if mask_of(variants[i].modifiers) == mask {
        Some(i)
    } else {
        variant_for_mask(variants, mask, i + 1)
    }
}

/// The action for a modifier mask: that of the first variant bound to
/// exactly that mask, else the plain action.
pub open spec fn action_for_mask_spec(
    variants: Seq<ModifierActionView>,
    plain: ActionView,
    mask: u8,
) -> ActionView {
    match variant_for_mask(variants, mask, 0) {
        Some(i) => variants[i].action,
        None => plain,
    }
}

/// Picks the action for the modifiers held: the first variant whose keys
/// make exactly `mask`, or `plain`.
pub fn select_modifier_action<'a>(
    variants: &'a Vec<ModifierAction>,
    plain: &'a HotzoneAction,
    mask: u8,
) -> (r: &'a HotzoneAction)
    ensures
        r@ == action_for_mask_spec(modifier_actions_view(variants@), plain@, mask),
{
    let ghost vs = modifier_actions_view(variants@);
    let mut i: usize = 0;
    while i < variants.len()
        invariant
            i <= variants@.len(),
            vs == modifier_actions_view(variants@),
            variant_for_mask(vs, mask, 0) == variant_for_mask(vs, mask, i as int),
        decreases variants@.len() - i,
    {
        if modifier_mask(variants[i].modifiers.as_slice()) == mask {
            return &variants[i].action;
        }
        i += 1;
    }
    plain
}

impl TriggerAction {
    /// The action this trigger runs with the modifiers `mask` held.
    pub fn action_for_modifier_mask(&self, mask: u8) -> (r: &HotzoneAction)
        ensures
            r@ == action_for_mask_spec(self@.modifier_actions, self@.action, mask),
    {
        select_modifier_action(&self.modifier_actions, &self.action, mask)
    }
}

/// A modifier variant of the trigger runs an action.
pub open spec fn variant_runs_action(t: TriggerActionView) -> bool {
    exists|j: int| 0 <= j < t.modifier_actions.len() && t.modifier_actions[j].action.kind != ActionKind::NoAction
}

/// The trigger runs an action, plainly or with modifiers.
pub open spec fn runs_action(t: TriggerActionView) -> bool {
    t.action.kind != ActionKind::NoAction || variant_runs_action(t)
}

/// Some trigger of the zone runs an action.
pub open spec fn has_action_spec(h: HotzoneSettingView) -> bool {
    exists|i: int| 0 <= i < h.actions.len() && runs_action(h.actions[i])
}

impl HotzoneSetting {
    pub fn has_action(&self) -> (r: bool)
        ensures
            r == has_action_spec(self@),
    {
        let ghost v = self@;
        let mut i: usize = 0;
        while i < self.actions.len()
            invariant
                v == self@,
                i <= self.actions@.len(),
                forall|k: int| 0 <= k < i ==> !runs_action(#[trigger] v.actions[k]),
            decreases self.actions@.len() - i,
        {
            let item = &self.actions[i];
            proof {
                assert(v.actions[i as int] == item@);
            }
            if item.action.kind != ActionKind::NoAction {
                return true;
            }
            let mut j: usize = 0;
            while j < item.modifier_actions.len()
                invariant
                    v == self@,
                    i < self.actions@.len(),
                    v.actions[i as int] == item@,
                    j <= item.modifier_actions@.len(),
                    forall|m: int|
                        0 <= m < j ==> item@.modifier_actions[m].action.kind
                            == ActionKind::NoAction,
                decreases item.modifier_actions@.len() - j,
            {
                proof {
                    assert(item@.modifier_actions[j as int] == item.modifier_actions@[j as int]@);
                }
                if item.modifier_actions[j].action.kind != ActionKind::NoAction {
                    assert(runs_action(v.actions[i as int]));
                    return true;
                }
                j += 1;
            }
            i += 1;
        }
        false
    }
}


/// The built-in gesture templates.
#[derive(Clone, Copy, Debug, PartialEq, Eq, Structural)]
pub enum BuiltinGesture {
    Up,
    Down,
    L,
    Circle,
    Rectangle,
}

/// One drawn sample path of a gesture template. The paths themselves are
/// points in fractions of the drawing area, which the library does not
/// hold: a sample is either the path of a built-in template or the `i`-th of
/// the paths its caller keeps.
#[derive(Clone, Copy, Debug, PartialEq, Eq, Structural)]
pub enum SampleRef {
    Builtin(BuiltinGesture),
    Stored(u64),
}

#[derive(Clone, Debug)]
pub struct GestureTemplate {
    pub id: String,
    pub name: String,
    pub enabled: bool,
    pub builtin: bool,
    pub mode: GestureMode,
    pub action: HotzoneAction,
    pub modifier_actions: Vec<ModifierAction>,
    pub samples: Vec<SampleRef>,
}

pub struct GestureView {
    pub id: Seq<char>,
    pub name: Seq<char>,
    pub enabled: bool,
    pub builtin: bool,
    pub mode: GestureMode,
    pub action: ActionView,
    pub modifier_actions: Seq<ModifierActionView>,
    pub samples: Seq<SampleRef>,
}

impl View for GestureTemplate {
    type V = GestureView;

    open spec fn view(&self) -> GestureView {
        GestureView {
            id: self.id@,
            name: self.name@,
            enabled: self.enabled,
            builtin: self.builtin,
            mode: self.mode,
            action: self.action@,
            modifier_actions: modifier_actions_view(self.modifier_actions@),
            samples: self.samples@,
        }
    }
}

pub open spec fn gestures_view(v: Seq<GestureTemplate>) -> Seq<GestureView> {
    v.map_values(|g: GestureTemplate| g@)
}

impl GestureTemplate {
    /// The action this gesture runs with the modifiers `mask` held.
    pub fn action_for_modifier_mask(&self, mask: u8) -> (r: &HotzoneAction)
        ensures
            r@ == action_for_mask_spec(self@.modifier_actions, self@.action, mask),
    {
        select_modifier_action(&self.modifier_actions, &self.action, mask)
    }
}

/// Mouse-gesture switches, limits and templates.
#[derive(Clone, Debug)]
pub struct MouseGestureConfig {
    pub enabled: bool,
    pub trigger_button: GestureTriggerButton,
    pub min_distance: i32,
    pub sensitivity: i32,
    pub show_trail: bool,
    pub fullscreen_pause: bool,
    pub paused_apps: Vec<String>,
    pub gestures: Vec<GestureTemplate>,
}

impl Default for MouseGestureConfig {
    fn default() -> (c: Self)
        ensures
            !c.enabled,
            c.trigger_button == GestureTriggerButton::Right,
            c.min_distance == 36,
            c.sensitivity == 72,
            c.show_trail,
            c.fullscreen_pause,
            c.paused_apps@.len() == 0,
            gestures_view(c.gestures@) == default_gestures_spec(),
    {
        MouseGestureConfig {
            enabled: false,
            trigger_button: GestureTriggerButton::Right,
            min_distance: 36,
            sensitivity: 72,
            show_trail: true,
            fullscreen_pause: true,
            paused_apps: Vec::new(),
            gestures: default_gestures(),
        }
    }
}

impl Default for WindowDragConfig {
    fn default() -> (c: Self)
        ensures
            !c.enabled,
            c.move_modifiers@ == seq![ModifierKey::Alt],
            c.resize_modifiers@ == seq![ModifierKey::Alt],
            c.move_button == MouseButton::Left,
            c.resize_button == MouseButton::Right,
    {
        let c = WindowDragConfig {
            enabled: false,
            move_modifiers: vec![ModifierKey::Alt],
            resize_modifiers: vec![ModifierKey::Alt],
            move_button: MouseButton::Left,
            resize_button: MouseButton::Right,
        };
        assert(c.move_modifiers@ =~= seq![ModifierKey::Alt]);
        assert(c.resize_modifiers@ =~= seq![ModifierKey::Alt]);
        c
    }
}

impl Default for TopmostPinConfig {
    fn default() -> (c: Self)
        ensures
            c.enabled,
    {
        TopmostPinConfig { enabled: true }
    }
}

impl Default for OcrConfig {
    fn default() -> (c: Self)
        ensures
            c.language == OcrLanguage::Auto,
            c.screenshot_result == ScreenshotResultMode::Pin,
    {
        OcrConfig { language: OcrLanguage::Auto, screenshot_result: ScreenshotResultMode::Pin }
    }
}

/// The version of the settings layout this helper writes.
pub const SCHEMA_VERSION: u32 = 7;

/// Everything the helper can be told to do.
#[derive(Clone, Debug)]
pub struct AppConfig {
    pub schema_version: u32,
    pub enabled: bool,
    pub hotzones_enabled: bool,
    pub edge_size: i32,
    pub hover_delay_ms: u64,
    pub poll_interval_ms: u64,
    pub action_cooldown_ms: u64,
    pub paused_apps: Vec<String>,
    pub hotzones: Vec<HotzoneSetting>,
    pub monitor_profiles: Vec<MonitorProfile>,
    pub edge_hide: EdgeHideConfig,
    pub mouse_gestures: MouseGestureConfig,
    pub window_drag: WindowDragConfig,
    pub topmost_pin: TopmostPinConfig,
    pub ocr: OcrConfig,
}

} // verus!
