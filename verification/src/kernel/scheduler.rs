//! The decisions of the main loop: what is done in which order, how the
//! display is refreshed, what input does meanwhile, and when to sleep.
//!
//! The display and the card share one bus, so nothing may use the card while
//! the display works.

use vstd::prelude::*;

use crate::board::button::Button;
use crate::bytes::{decimal, push_bytes, push_decimal, text_bytes};
use crate::drivers::input::Event;
use crate::kernel::app::{AppContext, ContextView, Redraw, Transition, Wish};
use crate::kernel::handle::Kernel;
use crate::ui::Region;

verus! {

/// How often the loop turns without input.
pub const TICK_MS: u64 = 10;

/// How far a turn of the main loop has come.
#[derive(Debug, Clone, Copy, PartialEq, Eq, Structural)]
pub enum Phase {
    /// A turn begins.
    Top,
    /// Input was waited for and handled.
    Input,
    /// The apps did their background work.
    Background,
    /// Housekeeping is done.
    Housekeeping,
    /// The screen is up to date.
    Render,
}

/// What the main loop does next.
#[derive(Debug, Clone, Copy, PartialEq, Eq, Structural)]
pub enum Act {
    /// Hand the hardware to the mode that bypasses the apps, then go back to
    /// the app before and draw everything.
    SpecialMode,
    /// Wait for a button or the next tick, and handle the button.
    WaitInput,
    RunBackground,
    Housekeeping,
    Render,
}

impl Act {
    /// May read from and write to the card.
    pub open spec fn uses_card(self) -> bool {
        self == Act::RunBackground || self == Act::Housekeeping
    }

    pub open spec fn uses_display(self) -> bool {
        self == Act::Render
    }
}

/// The beginning of a turn.
pub open spec fn turn_begun(special: bool) -> (Phase, Act) {
    if special {
        (Phase::Top, Act::SpecialMode)
    } else {
        (Phase::Input, Act::WaitInput)
    }
}

/// The step after `phase`: `special` where the active app needs the hardware
/// for itself, `redraw` where the screen is out of date.
pub open spec fn step_after(phase: Phase, special: bool, redraw: bool) -> (Phase, Act) {
    match phase {
        Phase::Top | Phase::Render => turn_begun(special),
        Phase::Input => if special {
            turn_begun(true)
        } else {
            (Phase::Background, Act::RunBackground)
        },
        Phase::Background => (Phase::Housekeeping, Act::Housekeeping),
        Phase::Housekeeping => if redraw {
            (Phase::Render, Act::Render)
        } else {
            turn_begun(special)
        },
    }
}

/// What the main loop does after `phase`.
pub fn next_act(phase: Phase, special: bool, redraw: bool) -> (r: (Phase, Act))
    ensures
        r == step_after(phase, special, redraw),
{
    let again = if special {
        (Phase::Top, Act::SpecialMode)
    } else {
        (Phase::Input, Act::WaitInput)
    };
    match phase {
        Phase::Top | Phase::Render => again,
        Phase::Input => {
            if special {
                again
            } else {
                (Phase::Background, Act::RunBackground)
            }
        },
        Phase::Background => (Phase::Housekeeping, Act::Housekeeping),
        Phase::Housekeeping => {
            if redraw {
                (Phase::Render, Act::Render)
            } else {
                again
            }
        },
    }
}

/// The card and the display take turns: the display is used only after all the
/// work of the turn that uses the card, and after the display nothing uses
/// the card before the loop has waited for input or left for the special
/// mode.
pub proof fn law_card_before_display(phase: Phase, special: bool, redraw: bool)
    ensures
        step_after(phase, special, redraw).1.uses_display() ==> phase == Phase::Housekeeping,
        step_after(phase, special, redraw).0 == Phase::Housekeeping ==> phase == Phase::Background,
        step_after(phase, special, redraw).0 == Phase::Background ==> phase == Phase::Input,
        phase == Phase::Render ==> !step_after(phase, special, redraw).1.uses_card(),
{
}

/// A turn leaves nothing out: background work and housekeeping follow input,
/// and a screen that is out of date is drawn before the next input. An app that
/// needs the hardware for itself gets it at once, and never amid the turn's
/// work.
pub proof fn law_a_turn_is_complete(special: bool, redraw: bool)
    ensures
        step_after(Phase::Input, false, redraw).1 == Act::RunBackground,
        step_after(step_after(Phase::Input, false, redraw).0, special, redraw).1
            == Act::Housekeeping,
        step_after(Phase::Housekeeping, special, true).1 == Act::Render,
        step_after(Phase::Housekeeping, false, false).1 == Act::WaitInput,
        step_after(Phase::Render, false, redraw).1 == Act::WaitInput,
        step_after(Phase::Top, false, redraw).1 == Act::WaitInput,
        forall|phase: Phase|
            phase == Phase::Top || phase == Phase::Input || phase == Phase::Render
                ==> (#[trigger] step_after(phase, true, redraw)).1 == Act::SpecialMode,
{
}

/// A button event that puts the device to sleep before any app sees it.
pub open spec fn sleeps_on(e: Event) -> bool {
    e == Event::LongPress(Button::Power)
}

/// Whether the event puts the device to sleep.
pub fn is_sleep_event(event: Event) -> (r: bool)
    ensures
        r == sleeps_on(event),
{
    match event {
        Event::LongPress(b) => b == Button::Power,
        _ => false,
    }
}

/// The first transition that leads anywhere.
pub open spec fn first_move(ts: Seq<Transition>) -> Option<Transition>
    decreases ts.len(),
{
    if ts.len() == 0 {
        None
    } else if first_move(ts.drop_last()) is Some {
        first_move(ts.drop_last())
    } else if ts.last() != Transition::Stay {
        Some(ts.last())
    } else {
        None
    }
}

/// The transition put off until the display is done, when an event leads to
/// `t` meanwhile. `suppressed` events lead nowhere.
pub open spec fn put_off(held: Option<Transition>, suppressed: bool, t: Transition) -> Option<
    Transition,
> {
    if held is None && !suppressed && t != Transition::Stay {
        Some(t)
    } else {
        held
    }
}

/// Takes note of a transition while the display is busy.
pub fn defer(held: Option<Transition>, suppressed: bool, t: Transition) -> (r: Option<Transition>)
    ensures
        r == put_off(held, suppressed, t),
{
    match held {
        Some(_) => held,
        None => {
            if suppressed || t == Transition::Stay {
                None
            } else {
                Some(t)
            }
        },
    }
}

/// Of all that happens while the display is busy, the first transition is
/// kept.
pub proof fn law_first_transition_is_kept(ts: Seq<Transition>, t: Transition)
    ensures
        put_off(first_move(ts), false, t) == first_move(ts.push(t)),
        put_off(first_move(ts), true, t) == first_move(ts),
{
    assert(ts.push(t).drop_last() =~= ts);
}

/// What the refresh of the display waits for.
#[derive(Debug, Clone, Copy, PartialEq, Eq, Structural)]
pub enum RenderTask {
    Rest,
    /// The region is written to the display.
    Write(Region),
    /// The region is being refreshed.
    Partial(Region),
    /// Is there a first picture to be made?
    Initial,
    /// The region's old picture is brought up to date.
    Sync(Option<Transition>),
    /// The whole screen is being refreshed.
    Full,
    /// The full refresh is wound up.
    Finish(Option<Transition>),
}

/// A step of a refresh.
#[derive(Debug, Clone, Copy, PartialEq, Eq, Structural)]
pub enum RenderAsk {
    Done,
    /// Write the region; with `inverted_red` where the display's old picture
    /// is out of date. Answered by whether it could be done.
    Phase1 { region: Region, inverted_red: bool },
    /// Start the quick refresh and wait for it. Answered by what happened
    /// meanwhile.
    StartPartial,
    /// Does the display lack its first picture?
    NeedsInitial,
    /// Bring the display's old picture up to date, then cut the power.
    Phase3,
    /// Cut the power, write the whole screen, start the full refresh and wait
    /// for it. Answered by what happened meanwhile.
    FullFrame,
    /// Wind up the full refresh.
    FinishFull,
    /// Go where an event led meanwhile.
    Apply(Transition),
}

/// An answer.
#[derive(Debug, Clone, Copy, PartialEq, Eq, Structural)]
pub enum RenderReply {
    Flag(bool),
    /// The display is ready. `redraw` where the screen is out of date again.
    Waited { redraw: bool, deferred: Option<Transition> },
    Ready,
}

/// How the display stands.
#[derive(Debug, Clone, Copy, PartialEq, Eq, Structural)]
pub struct Panel {
    /// Quick refreshes since the last full one.
    pub partial_refreshes: u32,
    /// The old picture that the display compares with is out of date.
    pub red_stale: bool,
    pub task: RenderTask,
}

impl Panel {
    pub open spec fn wf(self) -> bool {
        match self.task {
            RenderTask::Write(_) | RenderTask::Partial(_) => self.partial_refreshes < u32::MAX,
            _ => true,
        }
    }

    pub open spec fn pose(self, task: RenderTask, ask: RenderAsk) -> (Panel, RenderAsk) {
        (Panel { task, ..self }, ask)
    }

    pub open spec fn full(self) -> (Panel, RenderAsk) {
        self.pose(RenderTask::Full, RenderAsk::FullFrame)
    }

    /// A refresh begins. After as many quick ones as there may be, a full one
    /// clears the ghosts.
    pub open spec fn begun(self, redraw: Redraw, ghost_clear_every: u32) -> (Panel, RenderAsk) {
        match redraw {
            Redraw::Nothing => self.pose(RenderTask::Rest, RenderAsk::Done),
            Redraw::Partial(region) => if self.partial_refreshes < ghost_clear_every {
                self.pose(
                    RenderTask::Write(region),
                    RenderAsk::Phase1 { region, inverted_red: self.red_stale },
                )
            } else {
                self.full()
            },
            Redraw::Full => self.full(),
        }
    }

    /// The refresh is over.
    pub open spec fn over(self, deferred: Option<Transition>) -> (Panel, RenderAsk) {
        self.pose(
            RenderTask::Rest,
            match deferred {
                Some(t) => RenderAsk::Apply(t),
                None => RenderAsk::Done,
            },
        )
    }

    /// The panel after one more quick refresh.
    pub open spec fn refreshed(self, stale: bool) -> Panel {
        Panel {
            partial_refreshes: (self.partial_refreshes + 1) as u32,
            red_stale: stale,
            ..self
        }
    }

    pub open spec fn resumed(self, reply: RenderReply) -> (Panel, RenderAsk) {
        match (self.task, reply) {
            (RenderTask::Write(r), RenderReply::Flag(ok)) => if ok {
                self.pose(RenderTask::Partial(r), RenderAsk::StartPartial)
            } else {
                self.pose(RenderTask::Initial, RenderAsk::NeedsInitial)
            },
            (RenderTask::Initial, RenderReply::Flag(needed)) => if needed {
                self.full()
            } else {
                self.over(None)
            },
            (RenderTask::Partial(_), RenderReply::Waited { redraw, deferred }) => if redraw {
                self.refreshed(true).over(deferred)
            } else {
                self.refreshed(false).pose(RenderTask::Sync(deferred), RenderAsk::Phase3)
            },
            (RenderTask::Sync(deferred), RenderReply::Ready) => self.over(deferred),
            (RenderTask::Full, RenderReply::Waited { deferred, .. }) => Panel {
                partial_refreshes: 0,
                red_stale: false,
                ..self
            }.pose(RenderTask::Finish(deferred), RenderAsk::FinishFull),
            (RenderTask::Finish(deferred), RenderReply::Ready) => self.over(deferred),
            _ => self.over(None),
        }
    }

    /// What is marked for the next refresh: the region that changed again
    /// while it was refreshed.
    pub open spec fn marked(self, reply: RenderReply, c: ContextView) -> ContextView {
        match (self.task, reply) {
            (RenderTask::Partial(r), RenderReply::Waited { redraw: true, .. }) => c.dirty(r),
            _ => c,
        }
    }

    /// There are never more quick refreshes in a row than the setting allows:
    /// one begins only below it, each counts, and a full one starts over.
    pub proof fn law_ghosts_are_cleared(self, redraw: Redraw, every: u32, reply: RenderReply)
        requires
            self.wf(),
        ensures
            self.begun(redraw, every).1 is Phase1 ==> self.partial_refreshes < every,
            self.begun(redraw, every).0.partial_refreshes == self.partial_refreshes,
            self.begun(redraw, every).0.wf(),
            self.resumed(reply).0.wf(),
            self.resumed(reply).0.partial_refreshes == (match (self.task, reply) {
                (RenderTask::Partial(_), RenderReply::Waited { .. }) => self.partial_refreshes + 1,
                (RenderTask::Full, RenderReply::Waited { .. }) => 0,
                _ => self.partial_refreshes as int,
            }),
            self.task == RenderTask::Full && reply is Waited ==> !self.resumed(reply).0.red_stale,
    {
    }

    /// A transition that came up while the display was busy is carried out
    /// once the refresh is over, and none is made up.
    pub proof fn law_deferred_transition_is_applied(self, reply: RenderReply, ready: RenderReply)
        requires
            self.wf(),
            ready == RenderReply::Ready,
        ensures
            (self.task is Partial || self.task is Full) && reply is Waited ==> ({
                let (p, ask) = self.resumed(reply);
                let last = if p.task is Rest {
                    ask
                } else {
                    p.resumed(ready).1
                };
                last == match reply->deferred {
                    Some(t) => RenderAsk::Apply(t),
                    None => RenderAsk::Done,
                }
            }),
    {
    }

    /// What is asked for is refreshed: nothing where nothing changed, all of it
    /// where that is asked, and a region as it was asked for, or all of it.
    pub proof fn law_what_changed_is_refreshed(self, region: Region, every: u32)
        ensures
            self.begun(Redraw::Nothing, every).1 == RenderAsk::Done,
            self.begun(Redraw::Full, every).1 == RenderAsk::FullFrame,
            ({
                let (p, ask) = self.begun(Redraw::Partial(region), every);
                let (q, next) = p.resumed(RenderReply::Flag(true));
                ||| ask == RenderAsk::FullFrame
                ||| ask == (RenderAsk::Phase1 { region, inverted_red: self.red_stale }) && next
                    == RenderAsk::StartPartial && q.task == RenderTask::Partial(region)
            }),
            self.partial_refreshes < every ==> self.begun(Redraw::Partial(region), every).1
                != RenderAsk::FullFrame,
    {
    }

    /// A region that changed again while it was refreshed is marked for the next
    /// refresh, and until then the old picture counts as out of date. Else the
    /// old picture is brought up to date before the refresh is over.
    pub proof fn law_changes_meanwhile_are_not_lost(
        self,
        region: Region,
        again: bool,
        deferred: Option<Transition>,
        c: ContextView,
    )
        requires
            self.task == RenderTask::Partial(region),
        ensures
            ({
                let reply = RenderReply::Waited { redraw: again, deferred };
                let (p, ask) = self.resumed(reply);
                &&& p.red_stale == again
                &&& again ==> self.marked(reply, c).wishes == c.wishes.push(
                    Wish::MarkDirty(region),
                )
                &&& !again ==> self.marked(reply, c) == c
                &&& ask == RenderAsk::Phase3 <==> !again
                &&& again ==> p.task == RenderTask::Rest
            }),
    {
    }

    /// Where a region could not be written, the first picture is made if the
    /// display lacks it, and else the refresh is over.
    pub proof fn law_the_first_picture_is_whole(self, region: Region)
        requires
            self.task == RenderTask::Write(region),
        ensures
            ({
                let (p, ask) = self.resumed(RenderReply::Flag(false));
                &&& ask == RenderAsk::NeedsInitial
                &&& p.resumed(RenderReply::Flag(true)).1 == RenderAsk::FullFrame
                &&& p.resumed(RenderReply::Flag(false)).1 == RenderAsk::Done
                &&& p.partial_refreshes == self.partial_refreshes
                &&& p.red_stale == self.red_stale
            }),
    {
    }

    pub fn new() -> (r: Panel)
        ensures
            r.wf(),
            r == (Panel { partial_refreshes: 0, red_stale: false, task: RenderTask::Rest }),
    {
        Panel { partial_refreshes: 0, red_stale: false, task: RenderTask::Rest }
    }

    fn pose_step(&mut self, task: RenderTask, ask: RenderAsk) -> (r: RenderAsk)
        requires
            (Panel { task, ..*old(self) }).wf(),
        ensures
            final(self).wf(),
            (*final(self), r) == old(self).pose(task, ask),
    {
        self.task = task;
        ask
    }

    fn end(&mut self, deferred: Option<Transition>) -> (r: RenderAsk)
        ensures
            final(self).wf(),
            (*final(self), r) == old(self).over(deferred),
    {
        match deferred {
            Some(t) => self.pose_step(RenderTask::Rest, RenderAsk::Apply(t)),
            None => self.pose_step(RenderTask::Rest, RenderAsk::Done),
        }
    }

    /// Begins to bring the screen up to date. The region of a partial redraw is
    /// written, and marked again where it changes meanwhile, as it is handed
    /// in: the caller has aligned it to what the display can address.
    pub fn render(&mut self, redraw: Redraw, ghost_clear_every: u32) -> (r: RenderAsk)
        requires
            old(self).wf(),
        ensures
            final(self).wf(),
            (*final(self), r) == old(self).begun(redraw, ghost_clear_every),
    {
        match redraw {
            Redraw::Nothing => self.pose_step(RenderTask::Rest, RenderAsk::Done),
            Redraw::Partial(region) => {
                let inverted_red = self.red_stale;
                if self.partial_refreshes < ghost_clear_every {
                    self.pose_step(
                        RenderTask::Write(region),
                        RenderAsk::Phase1 { region, inverted_red },
                    )
                } else {
                    self.pose_step(RenderTask::Full, RenderAsk::FullFrame)
                }
            },
            Redraw::Full => self.pose_step(RenderTask::Full, RenderAsk::FullFrame),
        }
    }

    /// Goes on with a refresh.
    pub fn resume(&mut self, reply: RenderReply, ctx: &mut AppContext) -> (r: RenderAsk)
        requires
            old(self).wf(),
        ensures
            final(self).wf(),
            (*final(self), r) == old(self).resumed(reply),
            final(ctx)@ == old(self).marked(reply, old(ctx)@),
    {
        match (self.task, reply) {
            (RenderTask::Write(region), RenderReply::Flag(ok)) => {
                if ok {
                    self.pose_step(RenderTask::Partial(region), RenderAsk::StartPartial)
                } else {
                    self.pose_step(RenderTask::Initial, RenderAsk::NeedsInitial)
                }
            },
            (RenderTask::Initial, RenderReply::Flag(needed)) => {
                if needed {
                    self.pose_step(RenderTask::Full, RenderAsk::FullFrame)
                } else {
                    self.end(None)
                }
            },
            (RenderTask::Partial(region), RenderReply::Waited { redraw, deferred }) => {
                self.partial_refreshes = self.partial_refreshes + 1;
                self.red_stale = redraw;
                if redraw {
                    ctx.mark_dirty(region);
                    self.end(deferred)
                } else {
                    self.pose_step(RenderTask::Sync(deferred), RenderAsk::Phase3)
                }
            },
            (RenderTask::Sync(deferred), RenderReply::Ready) => self.end(deferred),
            (RenderTask::Full, RenderReply::Waited { redraw: _, deferred }) => {
                self.partial_refreshes = 0;
                self.red_stale = false;
                self.pose_step(RenderTask::Finish(deferred), RenderAsk::FinishFull)
            },
            (RenderTask::Finish(deferred), RenderReply::Ready) => self.end(deferred),
            _ => self.end(None),
        }
    }
}

/// What came due since the last turn.
#[derive(Debug, Clone, Copy, PartialEq, Eq, Structural)]
pub struct Signals {
    /// A new reading of the battery.
    pub battery_mv: Option<u16>,
    /// Whether the card answered, where it was time to ask.
    pub card_ok: Option<bool>,
    pub bookmark_flush: bool,
    pub status: bool,
    pub idle_sleep: bool,
}

/// Something to be done in housekeeping.
#[derive(Debug, Clone, Copy, PartialEq, Eq, Structural)]
pub enum Chore {
    FlushBookmarks,
    LogStats,
    /// Sleep after so many minutes without input.
    SetIdleTimeout(u16),
    Sleep,
}

/// Something to be done on the way to sleep.
#[derive(Debug, Clone, Copy, PartialEq, Eq, Structural)]
pub enum SleepStep {
    FlushBookmarks,
    /// Show the sleep screen.
    Screen,
    /// Put the display to sleep.
    Display,
    /// Put the processor to sleep until the power button is pressed.
    Processor,
}

/// A list of one where the condition holds, else an empty one.
pub open spec fn when_due<T>(due: bool, t: T) -> Seq<T> {
    if due {
        seq![t]
    } else {
        Seq::empty()
    }
}

/// Measurements for the status line, sizes in bytes.
#[derive(Debug, Clone, Copy, PartialEq, Eq, Structural)]
pub struct Stats {
    pub heap_used: usize,
    pub heap_size: usize,
    pub heap_peak: usize,
    pub stack_free: usize,
    pub stack_peak: usize,
    pub battery_pct: u8,
    /// Seconds since the device was switched on.
    pub uptime: u32,
}

/// A number below 100 in two digits.
pub open spec fn two_digits(v: nat) -> Seq<u8> {
    if v < 10 {
        seq![48u8] + decimal(v)
    } else {
        decimal(v)
    }
}

/// The words and numbers one after the other.
pub open spec fn stats_line(k: Kernel, s: Stats) -> Seq<u8> {
    text_bytes("stats: heap ") + decimal((s.heap_used / 1024) as nat) + text_bytes("/") + decimal(
        (s.heap_size / 1024) as nat,
    ) + text_bytes("K peak ") + decimal((s.heap_peak / 1024) as nat) + text_bytes("K | stack free ")
        + decimal((s.stack_free / 1024) as nat) + text_bytes("K hwm ") + decimal(
        (s.stack_peak / 1024) as nat,
    ) + text_bytes("K | bat ") + decimal(s.battery_pct as nat) + text_bytes("% ") + decimal(
        (k.cached_battery_mv / 1000) as nat,
    ) + text_bytes(".") + decimal((k.cached_battery_mv % 1000 / 100) as nat) + text_bytes("V | up ")
        + decimal((s.uptime / 3600) as nat) + text_bytes(":") + two_digits(
        (s.uptime / 60 % 60) as nat,
    ) + text_bytes(" | SD:") + text_bytes(
        if k.sd_ok {
            "ok"
        } else {
            "--"
        },
    )
}

fn push_part(out: &mut Vec<u8>, words: &str, v: u64)
    ensures
        final(out)@ == old(out)@ + text_bytes(words) + decimal(v as nat),
{
    push_bytes(out, words.as_bytes());
    push_decimal(out, v);
}

impl Kernel {
    /// What is to be done in housekeeping, in order. `sleep_timeout` is the
    /// setting, once the settings are loaded.
    pub open spec fn chores(self, s: Signals, sleep_timeout: Option<u16>) -> Seq<Chore> {
        when_due(s.bookmark_flush && self.bm_cache@.dirty, Chore::FlushBookmarks) + when_due(
            s.status,
            Chore::LogStats,
        ) + when_due(
            s.status && sleep_timeout is Some,
            Chore::SetIdleTimeout(sleep_timeout.unwrap_or(0)),
        ) + when_due(s.idle_sleep, Chore::Sleep)
    }

    /// Housekeeping does what came due and nothing else: it writes bookmarks
    /// where there are new ones, and goes to sleep last.
    pub proof fn law_what_is_due_is_done(self, s: Signals, sleep_timeout: Option<u16>)
        ensures
            ({
                let all = self.chores(s, sleep_timeout);
                &&& all.contains(Chore::FlushBookmarks) <==> s.bookmark_flush
                    && self.bm_cache@.dirty
                &&& all.contains(Chore::LogStats) <==> s.status
                &&& forall|t: u16|
                    #[trigger] all.contains(Chore::SetIdleTimeout(t)) <==> s.status
                        && sleep_timeout == Some(t)
                &&& all.contains(Chore::Sleep) <==> s.idle_sleep
                &&& s.idle_sleep ==> all.last() == Chore::Sleep
                &&& all.contains(Chore::FlushBookmarks) ==> all[0] == Chore::FlushBookmarks
            }),
    {
        let a = when_due(s.bookmark_flush && self.bm_cache@.dirty, Chore::FlushBookmarks);
        let b = when_due(s.status, Chore::LogStats);
        let c = when_due(
            s.status && sleep_timeout is Some,
            Chore::SetIdleTimeout(sleep_timeout.unwrap_or(0)),
        );
        let d = when_due(s.idle_sleep, Chore::Sleep);
        let all = self.chores(s, sleep_timeout);
        assert(all == a + b + c + d);
        if s.bookmark_flush && self.bm_cache@.dirty {
            assert(all[0] == Chore::FlushBookmarks);
        }
        if s.status {
            assert(all[a.len() as int] == Chore::LogStats);
            if sleep_timeout is Some {
                assert(all[a.len() as int + 1] == Chore::SetIdleTimeout(sleep_timeout->0));
            }
        }
        if s.idle_sleep {
            assert(all.last() == Chore::Sleep);
        }
    }

    /// Takes in what came due, and says what is to be done.
    pub fn poll_housekeeping(&mut self, s: Signals, sleep_timeout: Option<u16>) -> (r: Vec<Chore>)
        ensures
            r@ == old(self).chores(s, sleep_timeout),
            *final(self) == (Kernel {
                cached_battery_mv: (match s.battery_mv {
                    Some(mv) => mv,
                    None => old(self).cached_battery_mv,
                }),
                sd_ok: (match s.card_ok {
                    Some(ok) => ok,
                    None => old(self).sd_ok,
                }),
                ..*old(self)
            }),
    {
        if let Some(mv) = s.battery_mv {
            self.cached_battery_mv = mv;
        }
        if let Some(ok) = s.card_ok {
            self.sd_ok = ok;
        }
        let mut list: Vec<Chore> = Vec::new();
        if s.bookmark_flush && self.bm_cache.is_dirty() {
            list.push(Chore::FlushBookmarks);
        }
        if s.status {
            list.push(Chore::LogStats);
            if let Some(t) = sleep_timeout {
                list.push(Chore::SetIdleTimeout(t));
            }
        }
        if s.idle_sleep {
            list.push(Chore::Sleep);
        }
        assert(list@ =~= old(self).chores(s, sleep_timeout));
        list
    }

    /// What is to be done on the way to sleep, in order.
    pub open spec fn way_to_sleep(self) -> Seq<SleepStep> {
        when_due(self.bm_cache@.dirty, SleepStep::FlushBookmarks) + seq![
            SleepStep::Screen,
            SleepStep::Display,
            SleepStep::Processor,
        ]
    }

    /// On the way to sleep bookmarks that wait to be written are written first,
    /// then the sleep screen is shown, the display put to sleep, and the
    /// processor last.
    pub proof fn law_sleep_loses_nothing(self)
        ensures
            ({
                let way = self.way_to_sleep();
                let n = way.len() as int;
                &&& way.contains(SleepStep::FlushBookmarks) <==> self.bm_cache@.dirty
                &&& self.bm_cache@.dirty ==> way[0] == SleepStep::FlushBookmarks
                &&& n >= 3
                &&& way[n - 3] == SleepStep::Screen
                &&& way[n - 2] == SleepStep::Display
                &&& way[n - 1] == SleepStep::Processor
            }),
    {
        if self.bm_cache@.dirty {
            assert(self.way_to_sleep()[0] == SleepStep::FlushBookmarks);
        }
    }

    /// The way to sleep: no bookmark is lost on it.
    pub fn enter_sleep(&self) -> (r: Vec<SleepStep>)
        ensures
            r@ == when_due(self.bm_cache@.dirty, SleepStep::FlushBookmarks) + seq![
                SleepStep::Screen,
                SleepStep::Display,
                SleepStep::Processor,
            ],
            r@ == self.way_to_sleep(),
    {
        let mut list: Vec<SleepStep> = Vec::new();
        if self.bm_cache.is_dirty() {
            list.push(SleepStep::FlushBookmarks);
        }
        list.push(SleepStep::Screen);
        list.push(SleepStep::Display);
        list.push(SleepStep::Processor);
        assert(list@ =~= when_due(self.bm_cache@.dirty, SleepStep::FlushBookmarks) + seq![
            SleepStep::Screen,
            SleepStep::Display,
            SleepStep::Processor,
        ]);
        list
    }

    /// The status line for the log.
    pub fn log_stats(&self, s: Stats) -> (r: Vec<u8>)
        ensures
            r@ == stats_line(*self, s),
    {
        let mut t: Vec<u8> = Vec::new();
        push_part(&mut t, "stats: heap ", (s.heap_used / 1024) as u64);
        assert(t@ =~= text_bytes("stats: heap ") + decimal((s.heap_used / 1024) as nat));
        push_part(&mut t, "/", (s.heap_size / 1024) as u64);
        push_part(&mut t, "K peak ", (s.heap_peak / 1024) as u64);
        push_part(&mut t, "K | stack free ", (s.stack_free / 1024) as u64);
        push_part(&mut t, "K hwm ", (s.stack_peak / 1024) as u64);
        push_part(&mut t, "K | bat ", s.battery_pct as u64);
        push_part(&mut t, "% ", (self.cached_battery_mv / 1000) as u64);
        push_part(&mut t, ".", (self.cached_battery_mv % 1000 / 100) as u64);
        push_part(&mut t, "V | up ", (s.uptime / 3600) as u64);
        let mins = s.uptime / 60 % 60;
        push_bytes(&mut t, ":".as_bytes());
        let ghost so_far = t@;
        if mins < 10 {
            t.push(48);
        }
        push_decimal(&mut t, mins as u64);
        assert(t@ =~= so_far + two_digits(mins as nat));
        push_bytes(&mut t, " | SD:".as_bytes());
        push_bytes(
            &mut t,
            if self.sd_ok {
                "ok".as_bytes()
            } else {
                "--".as_bytes()
            },
        );
        t
    }
}

} // verus!
