//! The plugin's state and how it reacts to the host's events: which keys and
//! infobar items are shown, their settings and volume steps, and what each
//! event asks the program to do.
use vstd::prelude::*;
use vstd::string::StringExecFns;

use crate::constants::{
    ACTION_INFOBAR_BATTERY, ACTION_INFOBAR_NEXT_CALENDAR, ACTION_INFOBAR_NOWPLAYING,
    ACTION_INFOBAR_NOWPLAYING_PROGRESS, ACTION_INFOBAR_NOWPLAYING_TIME, ACTION_MUTE, ACTION_NEXT,
    ACTION_PLAYPAUSE, ACTION_PREVIOUS, ACTION_VOLUME_DOWN, ACTION_VOLUME_UP,
};
use crate::context_map::ContextMap;
use crate::settings::{step_spec, volume_step, Settings};
use crate::text::{parse_u8, parse_u8_spec, split, split_spec, str_eq};

verus! {

// ----------------------------------------------------------------------------
// Actions
// ----------------------------------------------------------------------------
/// The volume keys, whose step is a setting.
pub open spec fn volume_step_action(a: Seq<char>) -> bool {
    a == ACTION_VOLUME_UP@ || a == ACTION_VOLUME_DOWN@
}

/// The keys and items whose look follows the machine's state.
pub open spec fn active_sync_action(a: Seq<char>) -> bool {
    ||| a == ACTION_PLAYPAUSE@
    ||| a == ACTION_MUTE@
    ||| a == ACTION_INFOBAR_NOWPLAYING@
    ||| a == ACTION_INFOBAR_NOWPLAYING_PROGRESS@
    ||| a == ACTION_INFOBAR_NOWPLAYING_TIME@
    ||| a == ACTION_INFOBAR_NEXT_CALENDAR@
    ||| a == ACTION_INFOBAR_BATTERY@
}

/// Whether `action` is a volume key.
pub fn is_volume_step_action(action: &str) -> (r: bool)
    ensures
        r == volume_step_action(action@),
{
    str_eq(action, ACTION_VOLUME_UP) || str_eq(action, ACTION_VOLUME_DOWN)
}

/// Whether `action` follows the machine's state.
pub fn is_active_sync_action(action: &str) -> (r: bool)
    ensures
        r == active_sync_action(action@),
{
    str_eq(action, ACTION_PLAYPAUSE) || str_eq(action, ACTION_MUTE) || str_eq(
        action,
        ACTION_INFOBAR_NOWPLAYING,
    ) || str_eq(action, ACTION_INFOBAR_NOWPLAYING_PROGRESS) || str_eq(
        action,
        ACTION_INFOBAR_NOWPLAYING_TIME,
    ) || str_eq(action, ACTION_INFOBAR_NEXT_CALENDAR) || str_eq(action, ACTION_INFOBAR_BATTERY)
}

// ----------------------------------------------------------------------------
// Contexts
// ----------------------------------------------------------------------------
/// The parts of a context that the plugin reads: the device, the controller
/// (`Keypad`, `Infobar`, ...) and the position.
pub struct ParsedActionContext {
    pub device: String,
    pub controller: String,
    pub position: u8,
}

/// A context reads `device.?.controller.position.…`, at least five
/// dot-separated parts, with a position that is a `u8`.
pub open spec fn parse_context_spec(ctx: Seq<char>) -> Option<(Seq<char>, Seq<char>, u8)> {
    let parts = split_spec(ctx, '.');
    if parts.len() < 5 {
        None
    } else {
        match parse_u8_spec(parts[3]) {
            Some(p) => Some((parts[0], parts[2], p)),
            None => None,
        }
    }
}

/// Reads a context.
pub fn parse_action_context(context: &str) -> (r: Option<ParsedActionContext>)
    ensures
        match r {
            Some(p) => parse_context_spec(context@) == Some((p.device@, p.controller@, p.position)),
            None => parse_context_spec(context@) is None,
        },
{
    let segments = split(context, '.');
    if segments.len() < 5 {
        return None;
    }
    match parse_u8(segments[3].as_str()) {
        Some(position) => Some(
            ParsedActionContext {
                device: segments[0].clone(),
                controller: segments[2].clone(),
                position,
            },
        ),
        None => None,
    }
}

/// The context `device.profile.controller.position.rest`, whose first four
/// parts hold no dot.
pub open spec fn context_of(
    device: Seq<char>,
    profile: Seq<char>,
    controller: Seq<char>,
    position: Seq<char>,
    rest: Seq<char>,
) -> Seq<char> {
    device + seq!['.'] + profile + seq!['.'] + controller + seq!['.'] + position + seq!['.'] + rest
}

/// A context reads as its first part (the device), its third part (the
/// controller, whatever the profile in the second part) and its fourth part
/// read as a `u8` (the position); it does not read when the position does not.
pub proof fn law_context_parts(
    device: Seq<char>,
    profile: Seq<char>,
    controller: Seq<char>,
    position: Seq<char>,
    rest: Seq<char>,
)
    requires
        !device.contains('.'),
        !profile.contains('.'),
        !controller.contains('.'),
        !position.contains('.'),
    ensures
        parse_context_spec(context_of(device, profile, controller, position, rest)) == match parse_u8_spec(
            position,
        ) {
            Some(p) => Some((device, controller, p)),
            None => None,
        },
{
    let x1 = device + seq!['.'] + profile;
    let x2 = x1 + seq!['.'] + controller;
    let x3 = x2 + seq!['.'] + position;
    let ctx = x3 + seq!['.'] + rest;
    assert(ctx == context_of(device, profile, controller, position, rest));
    crate::text::lemma_split_single(device, '.');
    crate::text::lemma_split_single(profile, '.');
    crate::text::lemma_split_single(controller, '.');
    crate::text::lemma_split_single(position, '.');
    crate::text::lemma_split_concat(device, profile, '.');
    crate::text::lemma_split_concat(x1, controller, '.');
    crate::text::lemma_split_concat(x2, position, '.');
    crate::text::lemma_split_concat(x3, rest, '.');
    crate::text::lemma_split_nonempty(rest, '.');
    let parts = split_spec(ctx, '.');
    assert(split_spec(x3, '.') =~= seq![device, profile, controller, position]);
    assert(parts.len() >= 5);
    assert(parts[0] == device && parts[2] == controller && parts[3] == position);
}

/// A volume key's overlay goes to an infobar item exactly when the item is
/// on the key's device, whatever the profiles, positions and the rest of the
/// two contexts, as long as both positions read.
pub proof fn law_overlay_same_device(
    device: Seq<char>,
    key_profile: Seq<char>,
    key_controller: Seq<char>,
    key_position: Seq<char>,
    key_rest: Seq<char>,
    item_device: Seq<char>,
    item_profile: Seq<char>,
    item_position: Seq<char>,
    item_rest: Seq<char>,
)
    requires
        !device.contains('.'),
        !key_profile.contains('.'),
        !key_controller.contains('.'),
        !key_position.contains('.'),
        !item_device.contains('.'),
        !item_profile.contains('.'),
        !item_position.contains('.'),
        parse_u8_spec(key_position) is Some,
        parse_u8_spec(item_position) is Some,
    ensures
        overlay_target(
            context_of(device, key_profile, key_controller, key_position, key_rest),
            context_of(item_device, item_profile, "Infobar"@, item_position, item_rest),
        ) == (item_device == device),
{
    reveal_strlit("Infobar");
    assert(!"Infobar"@.contains('.')) by {
        if "Infobar"@.contains('.') {
            let i = choose|i: int| 0 <= i < "Infobar"@.len() && "Infobar"@[i] == '.';
        }
    }
    law_context_parts(device, key_profile, key_controller, key_position, key_rest);
    law_context_parts(item_device, item_profile, "Infobar"@, item_position, item_rest);
}

/// The volume overlay of a volume key goes to the infobar items of the
/// key's device.
pub open spec fn overlay_target(source: Seq<char>, ctx: Seq<char>) -> bool {
    match (parse_context_spec(source), parse_context_spec(ctx)) {
        (Some(s), Some(t)) => t.1 == "Infobar"@ && t.0 == s.0,
        _ => false,
    }
}

// ----------------------------------------------------------------------------
// Events and effects
// ----------------------------------------------------------------------------
/// Settings as the plugin reads them, with the host's own form of them
/// (`raw`), which the library keeps for the renderer without reading it.
#[derive(Clone)]
pub struct StoredSettings<R> {
    pub parsed: Settings,
    pub raw: R,
}

/// An event from the host. `settings` are those of the event's payload (no
/// fields when it has none).
pub struct IncomingMessage<R> {
    pub event: String,
    pub action: Option<String>,
    pub context: Option<String>,
    pub settings: StoredSettings<R>,
}

/// What a key press asks of the machine.
#[derive(Clone, Copy, Debug, PartialEq, Eq, Structural)]
pub enum KeyCommand {
    Previous,
    Next,
    PlayPause,
    /// Change the output volume by this many percent.
    AdjustVolume(i32),
    ToggleMute,
}

/// What the program does after an event.
pub enum Effect {
    /// Ask the host for the settings of the context.
    RequestSettings { context: String },
    /// Refresh the key or item.
    Sync { context: String, action: String },
    /// Act on the machine.
    Key(KeyCommand),
    /// Show the volume on the infobar items of the key's device.
    VolumeOverlay { context: String },
    /// Refresh every shown key and item a moment later.
    SyncAllSoon,
    /// Drop what the program keeps for the context.
    Forget { context: String },
}

/// `Effect` with its texts as character sequences.
pub enum EffectView {
    RequestSettings(Seq<char>),
    Sync(Seq<char>, Seq<char>),
    Key(KeyCommand),
    VolumeOverlay(Seq<char>),
    SyncAllSoon,
    Forget(Seq<char>),
}

impl View for Effect {
    type V = EffectView;

    open spec fn view(&self) -> EffectView {
        match self {
            Effect::RequestSettings { context } => EffectView::RequestSettings(context@),
            Effect::Sync { context, action } => EffectView::Sync(context@, action@),
            Effect::Key(k) => EffectView::Key(*k),
            Effect::VolumeOverlay { context } => EffectView::VolumeOverlay(context@),
            Effect::SyncAllSoon => EffectView::SyncAllSoon,
            Effect::Forget { context } => EffectView::Forget(context@),
        }
    }
}

/// The views of a list of effects.
pub open spec fn effects_view(v: Seq<Effect>) -> Seq<EffectView> {
    v.map_values(|e: Effect| e@)
}

/// What a key press asks: the volume keys change the volume by the key's step.
pub open spec fn key_command_spec(action: Seq<char>, step: i32) -> Option<KeyCommand> {
    if action == ACTION_PREVIOUS@ {
        Some(KeyCommand::Previous)
    } else if action == ACTION_NEXT@ {
        Some(KeyCommand::Next)
    } else if action == ACTION_PLAYPAUSE@ {
        Some(KeyCommand::PlayPause)
    } else if action == ACTION_VOLUME_UP@ {
        Some(KeyCommand::AdjustVolume(step))
    } else if action == ACTION_VOLUME_DOWN@ {
        Some(KeyCommand::AdjustVolume(-step as i32))
    } else if action == ACTION_MUTE@ {
        Some(KeyCommand::ToggleMute)
    } else {
        None
    }
}

/// What pressing the key `action` asks, with the key's volume step.
pub fn key_command(action: &str, step: i32) -> (r: Option<KeyCommand>)
    requires
        step > i32::MIN,
    ensures
        r == key_command_spec(action@, step),
{
    if str_eq(action, ACTION_PREVIOUS) {
        Some(KeyCommand::Previous)
    } else if str_eq(action, ACTION_NEXT) {
        Some(KeyCommand::Next)
    } else if str_eq(action, ACTION_PLAYPAUSE) {
        Some(KeyCommand::PlayPause)
    } else if str_eq(action, ACTION_VOLUME_UP) {
        Some(KeyCommand::AdjustVolume(step))
    } else if str_eq(action, ACTION_VOLUME_DOWN) {
        Some(KeyCommand::AdjustVolume(-step))
    } else if str_eq(action, ACTION_MUTE) {
        Some(KeyCommand::ToggleMute)
    } else {
        None
    }
}

/// The effects of a key or item appearing: its settings are requested when
/// it is a volume key or follows the machine, and it is refreshed at once
/// when it follows the machine (play/pause waits for the next refresh).
pub open spec fn will_appear_effects(ctx: Seq<char>, action: Seq<char>) -> Seq<EffectView> {
    (if volume_step_action(action) || active_sync_action(action) {
        seq![EffectView::RequestSettings(ctx)]
    } else {
        Seq::empty()
    }) + (if active_sync_action(action) && action != ACTION_PLAYPAUSE@ {
        seq![EffectView::Sync(ctx, action)]
    } else {
        Seq::empty()
    })
}

/// When a key or item appears: each volume key and each key or item that
/// follows the machine first asks for its settings; every one of the latter
/// but play/pause is then refreshed at once; any other action does nothing.
pub proof fn law_appearing_requests_settings(ctx: Seq<char>, action: Seq<char>)
    ensures
        action == ACTION_VOLUME_UP@ || action == ACTION_VOLUME_DOWN@ || action == ACTION_PLAYPAUSE@
            ==> will_appear_effects(ctx, action) == seq![EffectView::RequestSettings(ctx)],
        action == ACTION_MUTE@ || action == ACTION_INFOBAR_NOWPLAYING@ || action
            == ACTION_INFOBAR_NOWPLAYING_PROGRESS@ || action == ACTION_INFOBAR_NOWPLAYING_TIME@
            || action == ACTION_INFOBAR_NEXT_CALENDAR@ || action == ACTION_INFOBAR_BATTERY@
            ==> will_appear_effects(ctx, action) == seq![
            EffectView::RequestSettings(ctx),
            EffectView::Sync(ctx, action),
        ],
        !(action == ACTION_VOLUME_UP@ || action == ACTION_VOLUME_DOWN@ || action == ACTION_PLAYPAUSE@
            || action == ACTION_MUTE@ || action == ACTION_INFOBAR_NOWPLAYING@ || action
            == ACTION_INFOBAR_NOWPLAYING_PROGRESS@ || action == ACTION_INFOBAR_NOWPLAYING_TIME@
            || action == ACTION_INFOBAR_NEXT_CALENDAR@ || action == ACTION_INFOBAR_BATTERY@)
            ==> will_appear_effects(ctx, action).len() == 0,
{
    reveal_strlit("com.niklasarnitz.macos-utilities.playpause");
    reveal_strlit("com.niklasarnitz.macos-utilities.mute");
    reveal_strlit("com.niklasarnitz.macos-utilities.volume-up");
    reveal_strlit("com.niklasarnitz.macos-utilities.volume-down");
    reveal_strlit("com.niklasarnitz.macos-utilities.infobar.nowplaying");
    reveal_strlit("com.niklasarnitz.macos-utilities.infobar.nowplaying-progress");
    reveal_strlit("com.niklasarnitz.macos-utilities.infobar.nowplaying-time");
    reveal_strlit("com.niklasarnitz.macos-utilities.infobar.nextcalendar");
    reveal_strlit("com.niklasarnitz.macos-utilities.infobar.battery");
    // The action names share their first 33 characters and differ right after.
    assert(ACTION_PLAYPAUSE@[33] == 'p');
    assert(ACTION_MUTE@[33] == 'm');
    assert(ACTION_VOLUME_UP@[33] == 'v');
    assert(ACTION_VOLUME_DOWN@[33] == 'v');
    assert(ACTION_INFOBAR_NOWPLAYING@[33] == 'i');
    assert(ACTION_INFOBAR_NOWPLAYING_PROGRESS@[33] == 'i');
    assert(ACTION_INFOBAR_NOWPLAYING_TIME@[33] == 'i');
    assert(ACTION_INFOBAR_NEXT_CALENDAR@[33] == 'i');
    assert(ACTION_INFOBAR_BATTERY@[33] == 'i');
    if action == ACTION_VOLUME_UP@ || action == ACTION_VOLUME_DOWN@ {
        assert(!active_sync_action(action));
        assert(will_appear_effects(ctx, action) =~= seq![EffectView::RequestSettings(ctx)]);
    } else if action == ACTION_PLAYPAUSE@ {
        assert(will_appear_effects(ctx, action) =~= seq![EffectView::RequestSettings(ctx)]);
    } else if active_sync_action(action) {
        assert(action != ACTION_PLAYPAUSE@);
        assert(will_appear_effects(ctx, action) =~= seq![
            EffectView::RequestSettings(ctx),
            EffectView::Sync(ctx, action),
        ]);
    } else {
        assert(will_appear_effects(ctx, action) =~= Seq::<EffectView>::empty());
    }
}

/// The effects of a key press: the machine action, the volume overlay for
/// the volume keys, then a refresh of everything shown.
pub open spec fn key_down_effects(ctx: Seq<char>, action: Seq<char>, step: i32) -> Seq<EffectView> {
    (match key_command_spec(action, step) {
        Some(c) => seq![EffectView::Key(c)],
        None => Seq::empty(),
    }) + (if volume_step_action(action) {
        seq![EffectView::VolumeOverlay(ctx)]
    } else {
        Seq::empty()
    }) + seq![EffectView::SyncAllSoon]
}

/// The context of an event (empty when it has none).
pub open spec fn message_context<R>(msg: IncomingMessage<R>) -> Seq<char> {
    match msg.context {
        Some(c) => c@,
        None => Seq::empty(),
    }
}

/// The action of an event (empty when it has none).
pub open spec fn message_action<R>(msg: IncomingMessage<R>) -> Seq<char> {
    match msg.action {
        Some(a) => a@,
        None => Seq::empty(),
    }
}

/// The contexts of `es`, in order, that are overlay targets for `source`.
pub open spec fn overlay_filter(es: Seq<(String, String)>, source: Seq<char>) -> Seq<Seq<char>>
    decreases es.len(),
{
    if es.len() == 0 {
        Seq::empty()
    } else {
        let r = overlay_filter(es.drop_last(), source);
        if overlay_target(source, es.last().0@) {
            r.push(es.last().0@)
        } else {
            r
        }
    }
}

/// The filtered contexts are exactly the targets among the contexts of
/// `es`, each once when `es` has each once.
proof fn lemma_overlay_filter(es: Seq<(String, String)>, source: Seq<char>)
    requires
        crate::context_map::unique_keys(es),
    ensures
        forall|m: int| 0 <= m < overlay_filter(es, source).len() ==> #[trigger] crate::context_map::has_key(es, overlay_filter(es, source)[m])
            && overlay_target(source, overlay_filter(es, source)[m]),
        forall|k: Seq<char>| #[trigger] crate::context_map::has_key(es, k) && overlay_target(source, k)
            ==> exists|m: int| 0 <= m < overlay_filter(es, source).len() && overlay_filter(es, source)[m] == k,
        forall|a: int, b: int| 0 <= a < overlay_filter(es, source).len() && 0 <= b < overlay_filter(es, source).len() && a != b
            ==> overlay_filter(es, source)[a] != overlay_filter(es, source)[b],
    decreases es.len(),
{
    if es.len() > 0 {
        let t = es.drop_last();
        assert(crate::context_map::unique_keys(t)) by {
            assert forall|a: int, b: int| 0 <= a < t.len() && 0 <= b < t.len() && a != b implies #[trigger] t[a].0@ != #[trigger] t[b].0@ by {
                assert(t[a] == es[a] && t[b] == es[b]);
            }
        }
        lemma_overlay_filter(t, source);
        let r = overlay_filter(t, source);
        let f = overlay_filter(es, source);
        let last = es.last().0@;
        assert forall|m: int| 0 <= m < f.len() implies #[trigger] crate::context_map::has_key(es, f[m]) && overlay_target(source, f[m]) by {
            if m < r.len() {
                assert(f[m] == r[m]);
                assert(crate::context_map::has_key(t, r[m]));
                let j = choose|j: int| 0 <= j < t.len() && #[trigger] t[j].0@ == r[m];
                assert(es[j] == t[j]);
            } else {
                assert(es[es.len() - 1].0@ == last);
            }
        }
        assert forall|k: Seq<char>| #[trigger] crate::context_map::has_key(es, k) && overlay_target(source, k)
            implies exists|m: int| 0 <= m < f.len() && f[m] == k by {
            let j = choose|j: int| 0 <= j < es.len() && #[trigger] es[j].0@ == k;
            if j < es.len() - 1 {
                assert(t[j] == es[j]);
                assert(crate::context_map::has_key(t, k));
                let m = choose|m: int| 0 <= m < r.len() && r[m] == k;
                assert(f[m] == r[m]);
            } else {
                assert(f[f.len() - 1] == k);
            }
        }
        assert forall|a: int, b: int| 0 <= a < f.len() && 0 <= b < f.len() && a != b implies f[a] != f[b] by {
            if overlay_target(source, last) {
                if a < r.len() && b < r.len() {
                    assert(f[a] == r[a] && f[b] == r[b]);
                } else if a < r.len() {
                    assert(f[a] == r[a]);
                    assert(crate::context_map::has_key(t, r[a]));
                    let j = choose|j: int| 0 <= j < t.len() && #[trigger] t[j].0@ == r[a];
                    assert(es[j] == t[j]);
                    assert(j != es.len() - 1);
                } else if b < r.len() {
                    assert(f[b] == r[b]);
                    assert(crate::context_map::has_key(t, r[b]));
                    let j = choose|j: int| 0 <= j < t.len() && #[trigger] t[j].0@ == r[b];
                    assert(es[j] == t[j]);
                    assert(j != es.len() - 1);
                }
            }
        }
    }
}

// ----------------------------------------------------------------------------
// State
// ----------------------------------------------------------------------------
/// The keys and items on show, and what is stored for each context.
pub struct PluginState<R> {
    /// The shown keys and items that follow the machine, with their actions.
    pub active: ContextMap<String>,
    /// The volume step of each volume key whose settings arrived.
    pub steps: ContextMap<i32>,
    /// The settings of each context whose settings arrived.
    pub settings: ContextMap<StoredSettings<R>>,
}

impl<R> PluginState<R> {
    /// The maps are well formed, every step lies in 1..=50 and every shown
    /// context has an action that follows the machine.
    pub open spec fn wf(self) -> bool {
        &&& self.active.wf()
        &&& self.steps.wf()
        &&& self.settings.wf()
        &&& forall|k: Seq<char>| #[trigger] self.steps@.contains_key(k) ==> 1 <= self.steps@[k] <= 50
        &&& forall|k: Seq<char>| #[trigger] self.active@.contains_key(k) ==> active_sync_action(
            self.active@[k]@,
        )
    }

    /// The shown contexts and their actions.
    pub open spec fn active_view(self) -> Map<Seq<char>, Seq<char>> {
        self.active@.map_values(|a: String| a@)
    }

    /// The volume step of a context: 10 until its settings arrive.
    pub open spec fn step_for(self, ctx: Seq<char>) -> i32 {
        if self.steps@.contains_key(ctx) {
            self.steps@[ctx]
        } else {
            10
        }
    }

    /// Nothing shown and nothing stored.
    pub fn new() -> (s: Self)
        ensures
            s.wf(),
            s.active@ == Map::<Seq<char>, String>::empty(),
            s.steps@ == Map::<Seq<char>, i32>::empty(),
            s.settings@ == Map::<Seq<char>, StoredSettings<R>>::empty(),
    {
        PluginState { active: ContextMap::new(), steps: ContextMap::new(), settings: ContextMap::new() }
    }

    /// The volume step of `ctx`.
    pub fn step(&self, ctx: &str) -> (step: i32)
        requires
            self.wf(),
        ensures
            step == self.step_for(ctx@),
            1 <= step <= 50,
    {
        match self.steps.get(ctx) {
            Some(s) => *s,
            None => 10,
        }
    }

    /// The settings stored for `ctx`.
    pub fn settings_for(&self, ctx: &str) -> (r: Option<&Settings>)
        requires
            self.wf(),
        ensures
            match r {
                Some(s) => self.settings@.contains_key(ctx@) && *s == self.settings@[ctx@].parsed,
                None => !self.settings@.contains_key(ctx@),
            },
    {
        match self.settings.get(ctx) {
            Some(s) => Some(&s.parsed),
            None => None,
        }
    }

    /// The shown infobar items of the device of the volume key `source`,
    /// each once.
    pub fn volume_overlay_targets(&self, source: &str) -> (r: Vec<String>)
        requires
            self.wf(),
        ensures
            forall|i: int| 0 <= i < r@.len() ==> self.active@.contains_key(#[trigger] r@[i]@)
                && overlay_target(source@, r@[i]@),
            forall|k: Seq<char>| #[trigger] self.active@.contains_key(k) && overlay_target(source@, k)
                ==> exists|i: int| 0 <= i < r@.len() && r@[i]@ == k,
            forall|i: int, j: int| 0 <= i < r@.len() && 0 <= j < r@.len() && i != j ==> r@[i]@
                != r@[j]@,
    {
        let mut targets: Vec<String> = Vec::new();
        let ghost es = self.active.entries_view();
        let src = parse_action_context(source);
        if src.is_none() {
            proof {
                assert forall|k: Seq<char>| #[trigger] self.active@.contains_key(k) && overlay_target(source@, k)
                    implies exists|i: int| 0 <= i < targets@.len() && targets@[i]@ == k by {}
            }
            return targets;
        }
        let s = src.unwrap();
        let n = self.active.len();
        let mut i: usize = 0;
        assert(es.take(0) =~= Seq::<(String, String)>::empty());
        while i < n
            invariant
                n == es.len(),
                i <= n,
                es == self.active.entries_view(),
                parse_context_spec(source@) == Some((s.device@, s.controller@, s.position)),
                arg_views(targets@) == overlay_filter(es.take(i as int), source@),
            decreases n - i,
        {
            let e = self.active.entry(i);
            assert(es.take(i + 1).drop_last() == es.take(i as int));
            assert(es.take(i + 1).last() == es[i as int]);
            let ghost before = targets@;
            match parse_action_context(e.0.as_str()) {
                Some(p) => {
                    if str_eq(p.controller.as_str(), "Infobar") && str_eq(
                        p.device.as_str(),
                        s.device.as_str(),
                    ) {
                        targets.push(e.0.clone());
                        assert(arg_views(targets@) =~= arg_views(before).push(es[i as int].0@));
                    }
                },
                None => {},
            }
            i = i + 1;
        }
        proof {
            assert(es.take(n as int) == es);
            lemma_overlay_filter(es, source@);
            assert forall|m: int| 0 <= m < targets@.len() implies self.active@.contains_key(#[trigger] targets@[m]@)
                && overlay_target(source@, targets@[m]@) by {
                let f = overlay_filter(es, source@);
                assert(arg_views(targets@)[m] == targets@[m]@);
                assert(f[m] == targets@[m]@);
                assert(crate::context_map::has_key(es, f[m]));
                assert(self.active@.dom().contains(f[m]));
            }
            assert forall|k: Seq<char>| #[trigger] self.active@.contains_key(k) && overlay_target(source@, k)
                implies exists|m: int| 0 <= m < targets@.len() && targets@[m]@ == k by {
                assert(crate::context_map::has_key(es, k));
                let m = choose|m: int| 0 <= m < arg_views(targets@).len() && arg_views(targets@)[m] == k;
                assert(targets@[m]@ == k);
            }
            assert forall|a: int, b: int| 0 <= a < targets@.len() && 0 <= b < targets@.len() && a != b
                implies targets@[a]@ != targets@[b]@ by {
                assert(arg_views(targets@)[a] == targets@[a]@);
                assert(arg_views(targets@)[b] == targets@[b]@);
            }
        }
        targets
    }

    /// Updates the state for an event from the host and says what the
    /// program must do about it.
    pub fn handle_message(&mut self, msg: IncomingMessage<R>) -> (effects: Vec<Effect>)
        requires
            old(self).wf(),
        ensures
            final(self).wf(),
            ({
                let ev = msg.event@;
                let ctx = message_context(msg);
                let act = message_action(msg);
                if ev == "willAppear"@ {
                    &&& final(self).active_view() == (if active_sync_action(act) {
                        old(self).active_view().insert(ctx, act)
                    } else {
                        old(self).active_view()
                    })
                    &&& final(self).steps@ == old(self).steps@
                    &&& final(self).settings@ == old(self).settings@
                    &&& effects_view(effects@) == will_appear_effects(ctx, act)
                } else if ev == "willDisappear"@ {
                    &&& final(self).active_view() == old(self).active_view().remove(ctx)
                    &&& final(self).steps@ == old(self).steps@.remove(ctx)
                    &&& final(self).settings@ == old(self).settings@.remove(ctx)
                    &&& effects_view(effects@) == seq![EffectView::Forget(ctx)]
                } else if ev == "didReceiveSettings"@ {
                    &&& final(self).active_view() == old(self).active_view()
                    &&& final(self).steps@ == old(self).steps@.insert(ctx, step_spec(&msg.settings.parsed))
                    &&& final(self).settings@ == old(self).settings@.insert(ctx, msg.settings)
                    &&& effects_view(effects@).len() == 0
                } else if ev == "keyDown"@ {
                    &&& final(self).active_view() == old(self).active_view()
                    &&& final(self).steps@ == old(self).steps@
                    &&& final(self).settings@ == old(self).settings@
                    &&& effects_view(effects@) == key_down_effects(ctx, act, old(self).step_for(ctx))
                } else {
                    &&& final(self).active_view() == old(self).active_view()
                    &&& final(self).steps@ == old(self).steps@
                    &&& final(self).settings@ == old(self).settings@
                    &&& effects_view(effects@).len() == 0
                }
            }),
    {
        let ghost ctx = message_context(msg);
        let ghost act = message_action(msg);
        let ghost stored = msg.settings;
        let IncomingMessage { event, action, context, settings } = msg;
        let action = match action {
            Some(a) => a,
            None => String::new(),
        };
        let context = match context {
            Some(c) => c,
            None => String::new(),
        };
        assert(action@ == act && context@ == ctx);
        let mut effects: Vec<Effect> = Vec::new();
        if str_eq(event.as_str(), "willAppear") {
            let volume = is_volume_step_action(action.as_str());
            let active = is_active_sync_action(action.as_str());
            if volume || active {
                effects.push(Effect::RequestSettings { context: context.clone() });
            }
            if active {
                let ghost before = self.active@;
                let not_playpause = !str_eq(action.as_str(), ACTION_PLAYPAUSE);
                self.active.insert(context.clone(), action.clone());
                proof {
                    assert(self.active_view() =~= old(self).active_view().insert(ctx, act));
                }
                if not_playpause {
                    effects.push(Effect::Sync { context: context.clone(), action: action.clone() });
                }
            }
            assert(effects_view(effects@) =~= will_appear_effects(ctx, act));
        } else if str_eq(event.as_str(), "willDisappear") {
            self.active.remove(context.as_str());
            self.steps.remove(context.as_str());
            self.settings.remove(context.as_str());
            proof {
                assert(self.active_view() =~= old(self).active_view().remove(ctx));
            }
            effects.push(Effect::Forget { context });
            assert(effects_view(effects@) =~= seq![EffectView::Forget(ctx)]);
        } else if str_eq(event.as_str(), "didReceiveSettings") {
            let step = volume_step(&settings.parsed);
            self.steps.insert(context.clone(), step);
            self.settings.insert(context, settings);
        } else if str_eq(event.as_str(), "keyDown") {
            let step = self.step(context.as_str());
            let volume = is_volume_step_action(action.as_str());
            match key_command(action.as_str(), step) {
                Some(c) => effects.push(Effect::Key(c)),
                None => {},
            }
            if volume {
                effects.push(Effect::VolumeOverlay { context });
            }
            effects.push(Effect::SyncAllSoon);
            assert(effects_view(effects@) =~= key_down_effects(ctx, act, old(self).step_for(ctx)));
        }
        effects
    }
}

// ----------------------------------------------------------------------------
// Launch arguments
// ----------------------------------------------------------------------------
/// The arguments the host starts the plugin with.
pub struct LaunchArgs {
    pub port: String,
    pub plugin_uuid: String,
    pub register_event: String,
}

/// `s` without its leading dashes.
pub open spec fn strip_dashes(s: Seq<char>) -> Seq<char>
    decreases s.len(),
{
    if s.len() > 0 && s[0] == '-' {
        strip_dashes(s.drop_first())
    } else {
        s
    }
}

/// The port, plugin id and registration event that the arguments from
/// index `i` on set, starting from `(port, uuid, reg)`: a `port`,
/// `pluginUUID` or `registerEvent` flag (with any number of leading dashes)
/// takes the next argument as its value; a later flag wins; other
/// arguments are skipped.
pub open spec fn scan_args(
    argv: Seq<Seq<char>>,
    i: int,
    port: Seq<char>,
    uuid: Seq<char>,
    reg: Seq<char>,
) -> (Seq<char>, Seq<char>, Seq<char>)
    decreases argv.len() - i,
{
    if i < 0 || i >= argv.len() {
        (port, uuid, reg)
    } else {
        let key = strip_dashes(argv[i]);
        if key == "port"@ && i + 1 < argv.len() {
            scan_args(argv, i + 2, argv[i + 1], uuid, reg)
        } else if key == "pluginUUID"@ && i + 1 < argv.len() {
            scan_args(argv, i + 2, port, argv[i + 1], reg)
        } else if key == "registerEvent"@ && i + 1 < argv.len() {
            scan_args(argv, i + 2, port, uuid, argv[i + 1])
        } else {
            scan_args(argv, i + 1, port, uuid, reg)
        }
    }
}

/// `s` without its leading dashes.
pub fn trim_start_dashes(s: &str) -> (r: String)
    ensures
        r@ == strip_dashes(s@),
{
    let v = crate::text::chars_of(s);
    let mut i: usize = 0;
    assert(v@.skip(0) == v@);
    while i < v.len() && v[i] == '-'
        invariant
            i <= v@.len(),
            strip_dashes(v@.skip(i as int)) == strip_dashes(v@),
        decreases v@.len() - i,
    {
        assert(v@.skip(i as int).drop_first() == v@.skip(i + 1));
        i = i + 1;
    }
    proof {
        if i < v@.len() {
            assert(v@.skip(i as int)[0] == v@[i as int]);
        }
    }
    crate::text::string_from_range(v.as_slice(), i, v.len())
}

/// The views of a list of strings.
pub open spec fn arg_views(v: Seq<String>) -> Seq<Seq<char>> {
    v.map_values(|s: String| s@)
}

/// Reads the launch arguments (`argv[0]` is the program): `None` unless
/// the port, plugin id and registration event are all given and not empty.
pub fn parse_launch_args(argv: &[String]) -> (r: Option<LaunchArgs>)
    ensures
        ({
            let (p, u, g) = scan_args(arg_views(argv@), 1, Seq::empty(), Seq::empty(), Seq::empty());
            match r {
                Some(a) => a.port@ == p && a.plugin_uuid@ == u && a.register_event@ == g && p.len()
                    > 0 && u.len() > 0 && g.len() > 0,
                None => p.len() == 0 || u.len() == 0 || g.len() == 0,
            }
        }),
{
    let ghost av = arg_views(argv@);
    let mut port = String::new();
    let mut uuid = String::new();
    let mut reg = String::new();
    let n = argv.len();
    let mut i: usize = 1;
    while i < n
        invariant
            n == argv@.len() == av.len(),
            av == arg_views(argv@),
            1 <= i <= n + 1,
            scan_args(av, i as int, port@, uuid@, reg@) == scan_args(
                av,
                1,
                Seq::empty(),
                Seq::empty(),
                Seq::empty(),
            ),
        decreases n + 1 - i,
    {
        let key = trim_start_dashes(argv[i].as_str());
        assert(av[i as int] == argv@[i as int]@);
        let has_value = i + 1 < n;
        if has_value {
            assert(av[i + 1] == argv@[i + 1]@);
        }
        if str_eq(key.as_str(), "port") && has_value {
            port = argv[i + 1].clone();
            i = i + 2;
        } else if str_eq(key.as_str(), "pluginUUID") && has_value {
            uuid = argv[i + 1].clone();
            i = i + 2;
        } else if str_eq(key.as_str(), "registerEvent") && has_value {
            reg = argv[i + 1].clone();
            i = i + 2;
        } else {
            i = i + 1;
        }
    }
    if crate::text::chars_of(port.as_str()).len() == 0 || crate::text::chars_of(uuid.as_str()).len()
        == 0 || crate::text::chars_of(reg.as_str()).len() == 0 {
        return None;
    }
    Some(LaunchArgs { port, plugin_uuid: uuid, register_event: reg })
}

} // verus!
