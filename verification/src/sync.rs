//! Which messages refresh a key or infobar item, given what was observed of
//! the machine, and the periodic refresh schedule.
use vstd::prelude::*;

use crate::constants::{
    ACTION_INFOBAR_BATTERY, ACTION_INFOBAR_NEXT_CALENDAR, ACTION_INFOBAR_NOWPLAYING,
    ACTION_INFOBAR_NOWPLAYING_PROGRESS, ACTION_INFOBAR_NOWPLAYING_TIME, ACTION_MUTE,
    ACTION_PLAYPAUSE,
};
use crate::context_map::ContextMap;
use crate::infobar::{is_not_playing, shows_not_playing};
use crate::protocol::{
    make_set_infobar_item_visibility, set_image, set_infobar_component, set_state, Outgoing,
};
use crate::settings::NowPlayingProgressOptions;
use crate::system_media::NowPlaying;
use crate::text::{chars_of, join_pieces, push_char, push_str, str_eq};

verus! {

/// What refreshing a key or item needs.
pub enum SyncKind {
    NowPlaying,
    NowPlayingTime,
    NowPlayingProgress,
    NextCalendar,
    Battery,
    PlayPause,
    Mute,
    Nothing,
}

/// What refreshing the action needs.
pub open spec fn sync_kind_spec(a: Seq<char>) -> SyncKind {
    if a == ACTION_INFOBAR_NOWPLAYING@ {
        SyncKind::NowPlaying
    } else if a == ACTION_INFOBAR_NOWPLAYING_TIME@ {
        SyncKind::NowPlayingTime
    } else if a == ACTION_INFOBAR_NOWPLAYING_PROGRESS@ {
        SyncKind::NowPlayingProgress
    } else if a == ACTION_INFOBAR_NEXT_CALENDAR@ {
        SyncKind::NextCalendar
    } else if a == ACTION_INFOBAR_BATTERY@ {
        SyncKind::Battery
    } else if a == ACTION_PLAYPAUSE@ {
        SyncKind::PlayPause
    } else if a == ACTION_MUTE@ {
        SyncKind::Mute
    } else {
        SyncKind::Nothing
    }
}

/// What refreshing `action` needs.
pub fn sync_kind(action: &str) -> (k: SyncKind)
    ensures
        k == sync_kind_spec(action@),
{
    if str_eq(action, ACTION_INFOBAR_NOWPLAYING) {
        SyncKind::NowPlaying
    } else if str_eq(action, ACTION_INFOBAR_NOWPLAYING_TIME) {
        SyncKind::NowPlayingTime
    } else if str_eq(action, ACTION_INFOBAR_NOWPLAYING_PROGRESS) {
        SyncKind::NowPlayingProgress
    } else if str_eq(action, ACTION_INFOBAR_NEXT_CALENDAR) {
        SyncKind::NextCalendar
    } else if str_eq(action, ACTION_INFOBAR_BATTERY) {
        SyncKind::Battery
    } else if str_eq(action, ACTION_PLAYPAUSE) {
        SyncKind::PlayPause
    } else if str_eq(action, ACTION_MUTE) {
        SyncKind::Mute
    } else {
        SyncKind::Nothing
    }
}

/// A now-playing item has something to show: a track is playing and has a title.
pub open spec fn displaying(info: NowPlaying) -> bool {
    info.state@ == "playing"@ && info.title@.len() > 0
}

/// Whether a now-playing item has something to show.
pub fn is_displaying_data(info: &NowPlaying) -> (r: bool)
    ensures
        r == displaying(*info),
{
    str_eq(info.state.as_str(), "playing") && chars_of(info.title.as_str()).len() > 0
}

/// The messages decided so far, and whether an image must be rendered and
/// sent after them.
pub struct SyncPlan<'a> {
    pub messages: Vec<Outgoing<'a>>,
    pub render: bool,
}

/// `m` shows or hides the item `ctx`.
pub open spec fn is_visibility(m: Outgoing, ctx: &str, visible: bool) -> bool {
    match m {
        Outgoing::Visibility(v) => v.event@ == "setInfobarItemVisibility"@ && v.context == ctx
            && v.payload.visible == visible,
        _ => false,
    }
}

/// `m` gives the item `ctx` the artwork with the track's title and artist.
pub open spec fn is_component(m: Outgoing, ctx: &str, image: String, info: NowPlaying) -> bool {
    match m {
        Outgoing::Component(c) => c.event@ == "setInfobarComponent"@ && c.payload.context@ == ctx@
            && c.payload.component.image == image && c.payload.component.title@ == info.title@
            && c.payload.component.subtitle@ == info.artist@,
        _ => false,
    }
}

/// `m` sets the image of `ctx`.
pub open spec fn is_image(m: Outgoing, ctx: &str, image: String) -> bool {
    match m {
        Outgoing::Image(i) => i.event@ == "setImage"@ && i.context@ == ctx@ && i.payload.image
            == image && i.payload.target == 0,
        _ => false,
    }
}

/// `m` sets the state of the key `ctx`.
pub open spec fn is_state(m: Outgoing, ctx: &str, state: u32) -> bool {
    match m {
        Outgoing::State(s) => s.event@ == "setState"@ && s.context == ctx && s.payload.state
            == state,
        _ => false,
    }
}

/// The now-playing item: shown only while something plays; it gets the
/// artwork as a native component when there is artwork, else a rendered image.
pub fn plan_nowplaying<'a>(ctx: &'a str, info: &NowPlaying, artwork: Option<String>) -> (p: SyncPlan<'a>)
    ensures
        p.messages@.len() >= 1,
        is_visibility(p.messages@[0], ctx, displaying(*info)),
        !displaying(*info) ==> p.messages@.len() == 1 && !p.render,
        displaying(*info) && artwork is Some ==> p.messages@.len() == 2 && !p.render
            && is_component(p.messages@[1], ctx, artwork->0, *info),
        displaying(*info) && artwork is None ==> p.messages@.len() == 1 && p.render,
{
    let shown = is_displaying_data(info);
    let mut messages: Vec<Outgoing<'a>> = Vec::new();
    messages.push(Outgoing::Visibility(make_set_infobar_item_visibility(ctx, shown)));
    if !shown {
        return SyncPlan { messages, render: false };
    }
    match artwork {
        Some(image) => {
            messages.push(
                Outgoing::Component(
                    set_infobar_component(ctx, image, info.title.clone(), info.artist.clone()),
                ),
            );
            SyncPlan { messages, render: false }
        },
        None => SyncPlan { messages, render: true },
    }
}

/// The now-playing item with the time: shown only while something plays,
/// with a rendered image.
pub fn plan_nowplaying_time<'a>(ctx: &'a str, info: &NowPlaying) -> (p: SyncPlan<'a>)
    ensures
        p.messages@.len() == 1,
        is_visibility(p.messages@[0], ctx, displaying(*info)),
        p.render == displaying(*info),
{
    let shown = is_displaying_data(info);
    let mut messages: Vec<Outgoing<'a>> = Vec::new();
    messages.push(Outgoing::Visibility(make_set_infobar_item_visibility(ctx, shown)));
    SyncPlan { messages, render: shown }
}

/// The now-playing item with progress: shown only while something plays,
/// with a rendered image unless the fallback mode keeps the last image and
/// nothing plays.
pub fn plan_nowplaying_progress<'a>(
    ctx: &'a str,
    info: &NowPlaying,
    options: &NowPlayingProgressOptions,
) -> (p: SyncPlan<'a>)
    ensures
        p.messages@.len() == 1,
        is_visibility(p.messages@[0], ctx, displaying(*info)),
        p.render == (displaying(*info) && !(options.fallback_mode@ == "keep_last"@
            && shows_not_playing(*info))),
{
    let shown = is_displaying_data(info);
    let mut messages: Vec<Outgoing<'a>> = Vec::new();
    messages.push(Outgoing::Visibility(make_set_infobar_item_visibility(ctx, shown)));
    if !shown {
        return SyncPlan { messages, render: false };
    }
    if str_eq(options.fallback_mode.as_str(), "keep_last") && is_not_playing(info) {
        return SyncPlan { messages, render: false };
    }
    SyncPlan { messages, render: true }
}

/// The calendar item: shown when an event is coming, always with a rendered
/// image (which tells why there is none when there is none).
pub fn plan_next_calendar<'a>(ctx: &'a str, has_event: bool) -> (p: SyncPlan<'a>)
    ensures
        p.messages@.len() == 1,
        is_visibility(p.messages@[0], ctx, has_event),
        p.render,
{
    let mut messages: Vec<Outgoing<'a>> = Vec::new();
    messages.push(Outgoing::Visibility(make_set_infobar_item_visibility(ctx, has_event)));
    SyncPlan { messages, render: true }
}

/// The battery item: only a rendered image.
pub fn plan_battery<'a>() -> (p: SyncPlan<'a>)
    ensures
        p.messages@.len() == 0,
        p.render,
{
    SyncPlan { messages: Vec::new(), render: true }
}

/// A two-state key (play/pause, mute): state 1 when on, 0 when off.
pub fn plan_state<'a>(ctx: &'a str, on: bool) -> (p: SyncPlan<'a>)
    ensures
        p.messages@.len() == 1,
        is_state(p.messages@[0], ctx, if on { 1 } else { 0 }),
        !p.render,
{
    let state: u32 = if on {
        1
    } else {
        0
    };
    let mut messages: Vec<Outgoing<'a>> = Vec::new();
    messages.push(Outgoing::State(set_state(ctx, state)));
    SyncPlan { messages, render: false }
}

/// A key or item that needs nothing.
pub fn plan_nothing<'a>() -> (p: SyncPlan<'a>)
    ensures
        p.messages@.len() == 0,
        !p.render,
{
    SyncPlan { messages: Vec::new(), render: false }
}

/// The messages of a plan, followed by the rendered image when the plan
/// asked for one and rendering produced it.
pub fn finish_sync<'a>(plan: SyncPlan<'a>, ctx: &str, rendered: Option<String>) -> (msgs: Vec<
    Outgoing<'a>,
>)
    ensures
        plan.render && rendered is Some ==> msgs@.len() == plan.messages@.len() + 1
            && msgs@.take(plan.messages@.len() as int) == plan.messages@ && is_image(
            msgs@.last(),
            ctx,
            rendered->0,
        ),
        !(plan.render && rendered is Some) ==> msgs@ == plan.messages@,
{
    let SyncPlan { mut messages, render } = plan;
    if render {
        match rendered {
            Some(uri) => {
                let ghost before = messages@;
                messages.push(Outgoing::Image(set_image(ctx, uri)));
                assert(messages@.take(before.len() as int) =~= before);
            },
            None => {},
        }
    }
    messages
}

// ----------------------------------------------------------------------------
// Periodic refresh
// ----------------------------------------------------------------------------
/// The text that identifies a batch of messages: the messages joined by the
/// unit separator (U+001F).
pub fn fingerprint(messages: &[String]) -> (f: String)
    ensures
        f@ == join_pieces(messages@.map_values(|m: String| m@), '\u{1f}'),
{
    let ghost views = messages@.map_values(|m: String| m@);
    let mut f = String::new();
    let mut i: usize = 0;
    assert(views.take(0) =~= Seq::<Seq<char>>::empty());
    while i < messages.len()
        invariant
            i <= messages@.len() == views.len(),
            views == messages@.map_values(|m: String| m@),
            f@ == join_pieces(views.take(i as int), '\u{1f}'),
        decreases messages@.len() - i,
    {
        assert(views.take(i + 1).drop_last() == views.take(i as int));
        assert(views.take(i + 1).last() == messages@[i as int]@);
        if i > 0 {
            push_char(&mut f, '\u{1f}');
        }
        push_str(&mut f, messages[i].as_str());
        i = i + 1;
    }
    assert(views.take(messages@.len() as int) == views);
    f
}

/// Whether a batch with fingerprint `fp` for `ctx` must be sent: it differs
/// from the last one sent for `ctx`, or none was sent.
pub open spec fn should_send(last_sent: Map<Seq<char>, Seq<char>>, ctx: Seq<char>, fp: Seq<char>) -> bool {
    !(last_sent.contains_key(ctx) && last_sent[ctx] == fp)
}

/// The last batch sent for each context after recording `fp` for `ctx`.
pub open spec fn after_record(last_sent: Map<Seq<char>, Seq<char>>, ctx: Seq<char>, fp: Seq<char>) -> Map<
    Seq<char>,
    Seq<char>,
> {
    if should_send(last_sent, ctx, fp) {
        last_sent.insert(ctx, fp)
    } else {
        last_sent
    }
}

/// A batch is sent once: recording the same batch again right after does not
/// send it again.
pub proof fn law_unchanged_batch_not_resent(
    last_sent: Map<Seq<char>, Seq<char>>,
    ctx: Seq<char>,
    fp: Seq<char>,
)
    ensures
        !should_send(after_record(last_sent, ctx, fp), ctx, fp),
{
}

/// A batch is sent whenever its fingerprint differs in any way from the last
/// one recorded for its context, or none was recorded; after `fp0` is
/// recorded for `ctx`, it is the one remembered, and the next batch `fp1` is
/// sent exactly when it differs from `fp0`.
pub proof fn law_changed_batch_is_sent(
    last_sent: Map<Seq<char>, Seq<char>>,
    ctx: Seq<char>,
    fp0: Seq<char>,
    fp1: Seq<char>,
)
    ensures
        !last_sent.contains_key(ctx) ==> should_send(last_sent, ctx, fp1),
        last_sent.contains_key(ctx) && last_sent[ctx] != fp1 ==> should_send(last_sent, ctx, fp1),
        after_record(last_sent, ctx, fp0).contains_key(ctx),
        after_record(last_sent, ctx, fp0)[ctx] == fp0,
        should_send(after_record(last_sent, ctx, fp0), ctx, fp1) == (fp1 != fp0),
{
}

/// Recording a batch for one context leaves what is known of the others.
pub proof fn law_record_is_local(
    last_sent: Map<Seq<char>, Seq<char>>,
    ctx: Seq<char>,
    fp: Seq<char>,
    other: Seq<char>,
)
    requires
        other != ctx,
    ensures
        after_record(last_sent, ctx, fp).contains_key(other) == last_sent.contains_key(other),
        last_sent.contains_key(other) ==> after_record(last_sent, ctx, fp)[other]
            == last_sent[other],
{
}

/// When each shown item was last refreshed and what was last sent for it.
pub struct Scheduler {
    /// Fingerprint of the last batch sent for each context.
    pub last_sent: ContextMap<String>,
    /// When each context was last refreshed, in nanoseconds of a monotonic clock.
    pub last_tick: ContextMap<u64>,
}

/// An item is due when it was never refreshed or when at least its interval
/// has passed since its last refresh.
pub open spec fn due_spec(last_tick: Map<Seq<char>, u64>, ctx: Seq<char>, interval_ms: u64, now_ns: u64) -> bool {
    if last_tick.contains_key(ctx) {
        let last = last_tick[ctx];
        (if now_ns >= last {
            now_ns - last
        } else {
            0
        }) >= interval_ms * 1_000_000
    } else {
        true
    }
}

impl Scheduler {
    /// Both maps are well formed.
    pub open spec fn wf(self) -> bool {
        self.last_sent.wf() && self.last_tick.wf()
    }

    /// The fingerprint last sent for each context.
    pub open spec fn sent_view(self) -> Map<Seq<char>, Seq<char>> {
        self.last_sent@.map_values(|s: String| s@)
    }

    /// Nothing refreshed yet.
    pub fn new() -> (s: Scheduler)
        ensures
            s.wf(),
            s.sent_view() == Map::<Seq<char>, Seq<char>>::empty(),
            s.last_tick@ == Map::<Seq<char>, u64>::empty(),
    {
        let s = Scheduler { last_sent: ContextMap::new(), last_tick: ContextMap::new() };
        assert(s.sent_view() =~= Map::<Seq<char>, Seq<char>>::empty());
        s
    }

    /// Whether `ctx` is due at `now_ns` for a refresh every `interval_ms`.
    pub fn is_due(&self, ctx: &str, interval_ms: u64, now_ns: u64) -> (r: bool)
        requires
            self.wf(),
        ensures
            r == due_spec(self.last_tick@, ctx@, interval_ms, now_ns),
    {
        match self.last_tick.get(ctx) {
            Some(last) => {
                let elapsed: u64 = if now_ns >= *last {
                    now_ns - *last
                } else {
                    0
                };
                (elapsed as u128) >= (interval_ms as u128) * 1_000_000
            },
            None => true,
        }
    }

    /// Records a refresh of `ctx` at `now_ns` that produced the batch with
    /// fingerprint `fp`; says whether the batch must be sent.
    pub fn record(&mut self, ctx: &str, fp: String, now_ns: u64) -> (send: bool)
        requires
            old(self).wf(),
        ensures
            final(self).wf(),
            send == should_send(old(self).sent_view(), ctx@, fp@),
            final(self).sent_view() == after_record(old(self).sent_view(), ctx@, fp@),
            final(self).last_tick@ == old(self).last_tick@.insert(ctx@, now_ns),
    {
        let ghost before = self.sent_view();
        let same = match self.last_sent.get(ctx) {
            Some(prev) => str_eq(prev.as_str(), fp.as_str()),
            None => false,
        };
        if !same {
            self.last_sent.insert(crate::text::string_from_chars(chars_of(ctx).as_slice()), fp);
            assert(self.sent_view() =~= before.insert(ctx@, fp@));
        }
        self.last_tick.insert(crate::text::string_from_chars(chars_of(ctx).as_slice()), now_ns);
        !same
    }

    /// Forgets the contexts that are no longer shown.
    pub fn retain_present(&mut self, present: &[String])
        requires
            old(self).wf(),
        ensures
            final(self).wf(),
            forall|k: Seq<char>| #[trigger] final(self).last_tick@.contains_key(k) == (old(self).last_tick@.contains_key(k)
                && exists|i: int| 0 <= i < present@.len() && #[trigger] present@[i]@ == k),
            forall|k: Seq<char>| #[trigger] final(self).last_tick@.contains_key(k) ==> final(self).last_tick@[k]
                == old(self).last_tick@[k],
            forall|k: Seq<char>| #[trigger] final(self).sent_view().contains_key(k) == (old(self).sent_view().contains_key(k)
                && exists|i: int| 0 <= i < present@.len() && #[trigger] present@[i]@ == k),
            forall|k: Seq<char>| #[trigger] final(self).sent_view().contains_key(k) ==> final(self).sent_view()[k]
                == old(self).sent_view()[k],
    {
        self.last_sent.retain_present(present);
        self.last_tick.retain_present(present);
    }
}

} // verus!
