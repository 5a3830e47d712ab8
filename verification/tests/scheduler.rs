use pulp_os::board::button::Button;
use pulp_os::drivers::input::Event;
use pulp_os::kernel::app::{AppContext, AppId, Redraw, Transition, Wish};
use pulp_os::kernel::bookmarks::BookmarkCache;
use pulp_os::kernel::handle::Kernel;
use pulp_os::kernel::scheduler::{
    defer, is_sleep_event, next_act, Act, Chore, Panel, Phase, RenderAsk, RenderReply, Signals,
    SleepStep, Stats,
};
use pulp_os::ui::Region;

const R: Region = Region { x: 8, y: 16, w: 24, h: 32 };

fn kernel() -> Kernel {
    Kernel { bm_cache: BookmarkCache::new(), sd_ok: true, cached_battery_mv: 3987 }
}

const QUIET: Signals = Signals {
    battery_mv: None,
    card_ok: None,
    bookmark_flush: false,
    status: false,
    idle_sleep: false,
};

fn waited(redraw: bool, deferred: Option<Transition>) -> RenderReply {
    RenderReply::Waited { redraw, deferred }
}

#[test]
fn a_turn_uses_the_card_before_the_display() {
    let mut phase = Phase::Top;
    let mut acts: Vec<Act> = Vec::new();
    for _ in 0..6 {
        let (p, a) = next_act(phase, false, true);
        phase = p;
        acts.push(a);
    }
    assert_eq!(
        acts,
        vec![
            Act::WaitInput,
            Act::RunBackground,
            Act::Housekeeping,
            Act::Render,
            Act::WaitInput,
            Act::RunBackground,
        ]
    );
    assert_eq!(next_act(Phase::Housekeeping, false, false), (Phase::Input, Act::WaitInput));
}

#[test]
fn special_mode_comes_before_everything() {
    assert_eq!(next_act(Phase::Top, true, true), (Phase::Top, Act::SpecialMode));
    assert_eq!(next_act(Phase::Input, true, true), (Phase::Top, Act::SpecialMode));
    assert_eq!(next_act(Phase::Render, true, false), (Phase::Top, Act::SpecialMode));
}

#[test]
fn holding_the_power_button_sleeps() {
    assert!(is_sleep_event(Event::LongPress(Button::Power)));
    assert!(!is_sleep_event(Event::Press(Button::Power)));
    assert!(!is_sleep_event(Event::LongPress(Button::Back)));
}

#[test]
fn the_first_transition_is_kept() {
    let mut held: Option<Transition> = None;
    held = defer(held, false, Transition::Stay);
    assert_eq!(held, None);
    held = defer(held, true, Transition::Home);
    assert_eq!(held, None);
    held = defer(held, false, Transition::Pop);
    held = defer(held, false, Transition::Home);
    assert_eq!(held, Some(Transition::Pop));
}

#[test]
fn quick_refresh() {
    let mut p = Panel::new();
    let mut ctx = AppContext::new();
    let ask = p.render(Redraw::Partial(R), 10);
    assert_eq!(ask, RenderAsk::Phase1 { region: R, inverted_red: false });
    assert_eq!(p.resume(RenderReply::Flag(true), &mut ctx), RenderAsk::StartPartial);
    assert_eq!(p.resume(waited(false, None), &mut ctx), RenderAsk::Phase3);
    assert_eq!(p.resume(RenderReply::Ready, &mut ctx), RenderAsk::Done);
    assert_eq!(p.partial_refreshes, 1);
    assert!(!p.red_stale);
    assert!(ctx.wishes.is_empty());
}

#[test]
fn change_during_a_quick_refresh() {
    let mut p = Panel::new();
    let mut ctx = AppContext::new();
    p.render(Redraw::Partial(R), 10);
    p.resume(RenderReply::Flag(true), &mut ctx);
    let push = Transition::Push(AppId::Reader);
    assert_eq!(p.resume(waited(true, Some(push)), &mut ctx), RenderAsk::Apply(push));
    assert!(p.red_stale);
    assert_eq!(p.partial_refreshes, 1);
    assert_eq!(ctx.wishes, vec![Wish::MarkDirty(R)]);
    let ask = p.render(Redraw::Partial(R), 10);
    assert_eq!(ask, RenderAsk::Phase1 { region: R, inverted_red: true });
}

#[test]
fn deferred_transition_after_a_quick_refresh() {
    let mut p = Panel::new();
    let mut ctx = AppContext::new();
    p.render(Redraw::Partial(R), 10);
    p.resume(RenderReply::Flag(true), &mut ctx);
    assert_eq!(p.resume(waited(false, Some(Transition::Pop)), &mut ctx), RenderAsk::Phase3);
    let ask = p.resume(RenderReply::Ready, &mut ctx);
    assert_eq!(ask, RenderAsk::Apply(Transition::Pop));
}

#[test]
fn ghosts_are_cleared_in_time() {
    let mut p = Panel::new();
    let mut ctx = AppContext::new();
    for i in 0..3u32 {
        assert_eq!(p.partial_refreshes, i);
        p.render(Redraw::Partial(R), 3);
        p.resume(RenderReply::Flag(true), &mut ctx);
        p.resume(waited(false, None), &mut ctx);
        p.resume(RenderReply::Ready, &mut ctx);
    }
    assert_eq!(p.render(Redraw::Partial(R), 3), RenderAsk::FullFrame);
    assert_eq!(p.resume(waited(false, None), &mut ctx), RenderAsk::FinishFull);
    assert_eq!(p.partial_refreshes, 0);
    assert_eq!(p.resume(RenderReply::Ready, &mut ctx), RenderAsk::Done);
}

#[test]
fn full_refresh() {
    let mut p = Panel { partial_refreshes: 5, red_stale: true, ..Panel::new() };
    let mut ctx = AppContext::new();
    assert_eq!(p.render(Redraw::Full, 10), RenderAsk::FullFrame);
    let ask = p.resume(waited(true, Some(Transition::Home)), &mut ctx);
    assert_eq!(ask, RenderAsk::FinishFull);
    assert_eq!((p.partial_refreshes, p.red_stale), (0, false));
    assert_eq!(p.resume(RenderReply::Ready, &mut ctx), RenderAsk::Apply(Transition::Home));
    assert!(ctx.wishes.is_empty());
    assert_eq!(p.render(Redraw::Nothing, 10), RenderAsk::Done);
}

#[test]
fn failed_quick_refresh() {
    let mut ctx = AppContext::new();
    let mut p = Panel::new();
    p.render(Redraw::Partial(R), 10);
    assert_eq!(p.resume(RenderReply::Flag(false), &mut ctx), RenderAsk::NeedsInitial);
    assert_eq!(p.resume(RenderReply::Flag(true), &mut ctx), RenderAsk::FullFrame);
    let mut p = Panel::new();
    p.render(Redraw::Partial(R), 10);
    p.resume(RenderReply::Flag(false), &mut ctx);
    assert_eq!(p.resume(RenderReply::Flag(false), &mut ctx), RenderAsk::Done);
    assert_eq!(p.partial_refreshes, 0);
}

#[test]
fn housekeeping() {
    let mut k = kernel();
    assert!(k.poll_housekeeping(QUIET, Some(10)).is_empty());
    let s = Signals {
        battery_mv: Some(4100),
        card_ok: Some(false),
        bookmark_flush: true,
        status: true,
        idle_sleep: true,
    };
    let chores = k.poll_housekeeping(s, Some(15));
    assert_eq!(chores, vec![Chore::LogStats, Chore::SetIdleTimeout(15), Chore::Sleep]);
    assert_eq!(k.cached_battery_mv, 4100);
    assert!(!k.sd_ok);
    k.bm_cache.ensure_loaded(None);
    k.bm_cache.save(b"A", 1, 1, 1);
    let chores = k.poll_housekeeping(s, None);
    assert_eq!(chores, vec![Chore::FlushBookmarks, Chore::LogStats, Chore::Sleep]);
}

#[test]
fn the_way_to_sleep() {
    let mut k = kernel();
    let rest = vec![SleepStep::Screen, SleepStep::Display, SleepStep::Processor];
    assert_eq!(k.enter_sleep(), rest);
    k.bm_cache.ensure_loaded(None);
    k.bm_cache.save(b"A", 1, 1, 1);
    assert_eq!(k.enter_sleep()[0], SleepStep::FlushBookmarks);
    assert_eq!(k.enter_sleep()[1..], rest[..]);
}

#[test]
fn status_line() {
    let s = Stats {
        heap_used: 50 * 1024 + 5,
        heap_size: 172 * 1024,
        heap_peak: 99 * 1024,
        stack_free: 20000,
        stack_peak: 4096,
        battery_pct: 87,
        uptime: 2 * 3600 + 7 * 60 + 59,
    };
    let line = String::from_utf8(kernel().log_stats(s)).unwrap();
    assert_eq!(
        line,
        "stats: heap 50/172K peak 99K | stack free 19K hwm 4K | bat 87% 3.9V | up 2:07 | SD:ok"
    );
}
