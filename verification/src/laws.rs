//! Properties of the display that span several operations.
use vstd::prelude::*;
use crate::content::{
    KeysLocks, ProgressFraction, VolumeDeviceType, VolumeIconState, WidgetView,
    brightness_content_spec, custom_message_content_spec, custom_progress_content_spec,
    custom_segmented_content_spec, kbd_backlight_content_spec, kbd_icon_spec, kbd_level,
    keylock_content_spec, player_content_spec, volume_content_spec, volume_state_spec,
    str_view,
};
use crate::text::decimal;
use crate::slide::{cube, hidden_margin_fits, lemma_eased_monotone, round_half_away};
use vstd::arithmetic::div_mod::lemma_fundamental_div_mod;
use crate::window::{
    Effect, HideParams, MarginGoal, ShowParams, Step, TickParams, WindowState, close_spec,
    goal_margin, hidden_of, remove_animation_spec, reposition_spec, run_timeout_spec, tick_spec,
    timeout_elapsed_spec,
};

verus! {

/// What the toolkit's window looks like from outside: whether it is shown,
/// its margin, whether an animation's frame source runs, and whether a hide
/// timeout is pending.
pub struct Observed {
    pub visible: bool,
    pub margin: i32,
    pub animating: bool,
    pub timer: bool,
}

/// The observable part of a state.
pub open spec fn observe(s: WindowState) -> Observed {
    Observed {
        visible: s.visible,
        margin: s.margin,
        animating: s.animation is Some,
        timer: s.timeout_armed,
    }
}

/// Carrying out one effect; `None` when the effect makes no sense in that
/// situation (cancelling what does not run, starting what already runs).
pub open spec fn apply_effect(o: Observed, e: Effect) -> Option<Observed> {
    match e {
        Effect::CancelTimeout => if o.timer { Some(Observed { timer: false, ..o }) } else { None },
        Effect::ArmTimeout { .. } => if !o.timer { Some(Observed { timer: true, ..o }) } else { None },
        Effect::CancelAnimation => if o.animating {
            Some(Observed { animating: false, ..o })
        } else {
            None
        },
        Effect::StartAnimation { .. } => if !o.animating {
            Some(Observed { animating: true, ..o })
        } else {
            None
        },
        Effect::EndAnimation => if o.animating {
            Some(Observed { animating: false, ..o })
        } else {
            None
        },
        Effect::SetMargin { margin } => Some(Observed { margin, ..o }),
        Effect::Show => Some(Observed { visible: true, ..o }),
        Effect::Hide => Some(Observed { visible: false, ..o }),
        Effect::CloseWindow => Some(Observed { visible: false, ..o }),
    }
}

/// Carrying out effects in order.
pub open spec fn replay(o: Observed, effects: Seq<Effect>) -> Option<Observed>
    decreases effects.len(),
{
    if effects.len() == 0 {
        Some(o)
    } else {
        match apply_effect(o, effects[0]) {
            Some(o1) => replay(o1, effects.drop_first()),
            None => None,
        }
    }
}

/// The events the display reacts to.
pub enum Event {
    /// New content is to be shown.
    Show(ShowParams),
    /// The display timeout has elapsed (its source has fired and is gone).
    TimeoutElapsed(HideParams),
    /// An animation frame.
    Tick(TickParams),
    /// The window is closed.
    Close,
    /// The target margin changed.
    Reposition(i32),
}

/// The step an event causes.
pub open spec fn step(s: WindowState, ev: Event) -> Step {
    match ev {
        Event::Show(p) => run_timeout_spec(s, p),
        Event::TimeoutElapsed(p) => timeout_elapsed_spec(s, p),
        Event::Tick(p) => tick_spec(s, p),
        Event::Close => close_spec(s),
        Event::Reposition(m) => reposition_spec(s, m),
    }
}

/// How the window looks just before the event's effects are carried out:
/// a fired timeout is no longer pending; otherwise as the state says.
pub open spec fn observed_before(s: WindowState, ev: Event) -> Observed {
    match ev {
        Event::TimeoutElapsed(_) => Observed { timer: false, ..observe(s) },
        _ => observe(s),
    }
}

proof fn lemma_replay_append(o: Observed, a: Seq<Effect>, b: Seq<Effect>)
    ensures
        replay(o, a + b) == match replay(o, a) {
            Some(o1) => replay(o1, b),
            None => None,
        },
    decreases a.len(),
{
    if a.len() == 0 {
        assert(a + b =~= b);
    } else {
        assert((a + b)[0] == a[0]);
        assert((a + b).drop_first() =~= a.drop_first() + b);
        match apply_effect(o, a[0]) {
            Some(o1) => {
                lemma_replay_append(o1, a.drop_first(), b);
            },
            None => {},
        }
    }
}

proof fn lemma_replay_one(o: Observed, e: Effect)
    ensures
        replay(o, seq![e]) == apply_effect(o, e),
{
    assert(seq![e].drop_first() =~= Seq::<Effect>::empty());
    assert(seq![e][0] == e);
    if let Some(o1) = apply_effect(o, e) {
        assert(replay(o1, Seq::<Effect>::empty()) == Some(o1));
    }
}

proof fn lemma_replay_two(o: Observed, e1: Effect, e2: Effect)
    ensures
        replay(o, seq![e1, e2]) == match apply_effect(o, e1) {
            Some(o1) => apply_effect(o1, e2),
            None => None,
        },
{
    assert(seq![e1, e2] =~= seq![e1] + seq![e2]);
    lemma_replay_append(o, seq![e1], seq![e2]);
    lemma_replay_one(o, e1);
    if let Some(o1) = apply_effect(o, e1) {
        lemma_replay_one(o1, e2);
    }
}

proof fn lemma_remove_animation_replays(s: WindowState)
    ensures
        replay(observe(s), remove_animation_spec(s).1) == Some(observe(remove_animation_spec(s).0)),
{
    if s.animation is Some {
        lemma_replay_one(observe(s), Effect::CancelAnimation);
    }
}

proof fn lemma_show_at_margin_replays(s: WindowState, m: i32)
    ensures
        replay(observe(s), crate::window::show_at_margin_spec(s, m).1) == Some(
            observe(crate::window::show_at_margin_spec(s, m).0),
        ),
{
    let (s1, e1) = remove_animation_spec(s);
    lemma_remove_animation_replays(s);
    lemma_replay_append(observe(s), e1, seq![Effect::SetMargin { margin: m }, Effect::Show]);
    lemma_replay_two(observe(s1), Effect::SetMargin { margin: m }, Effect::Show);
}

proof fn lemma_animate_replays(
    s: WindowState,
    from: i32,
    duration_ms: u64,
    hide_after: bool,
    goal: MarginGoal,
    to: i32,
    fps: u64,
)
    ensures
        replay(
            observe(s),
            crate::window::animate_spec(s, from, duration_ms, hide_after, goal, to, fps).1,
        ) == Some(
            observe(crate::window::animate_spec(s, from, duration_ms, hide_after, goal, to, fps).0),
        ),
{
    let (s1, e1) = remove_animation_spec(s);
    lemma_remove_animation_replays(s);
    let r = crate::window::animate_spec(s, from, duration_ms, hide_after, goal, to, fps);
    if from == to {
        let tail = seq![Effect::SetMargin { margin: to }] + if hide_after {
            seq![Effect::Hide]
        } else {
            seq![]
        };
        assert(r.1 == e1 + tail);
        lemma_replay_append(observe(s), e1, tail);
        if hide_after {
            assert(tail =~= seq![Effect::SetMargin { margin: to }, Effect::Hide]);
            lemma_replay_two(observe(s1), Effect::SetMargin { margin: to }, Effect::Hide);
        } else {
            assert(tail =~= seq![Effect::SetMargin { margin: to }]);
            lemma_replay_one(observe(s1), Effect::SetMargin { margin: to });
        }
    } else {
        let e = Effect::StartAnimation {
            interval_ms: crate::slide::frame_interval_spec(fps as int) as u64,
        };
        lemma_replay_append(observe(s), e1, seq![e]);
        lemma_replay_one(observe(s1), e);
    }
}

/// The state that the display keeps always agrees with the toolkit's window
/// once the effects of an event have been carried out in order: no effect
/// cancels a timeout or an animation that is not there, none starts an
/// animation or arms a timeout while another runs, and the margin, the
/// visibility and what runs afterwards are those the state records.
pub proof fn lemma_effects_replay(s: WindowState, ev: Event)
    ensures
        replay(observed_before(s, ev), step(s, ev).1) == Some(observe(step(s, ev).0)),
{
    match ev {
        Event::Show(p) => {
            let e0 = (if s.timeout_armed {
                seq![Effect::CancelTimeout]
            } else {
                seq![]
            }).push(Effect::ArmTimeout { after_ms: p.timeout_ms });
            let s0 = WindowState { timeout_armed: true, ..s };
            let o = observe(s);
            if s.timeout_armed {
                assert(e0 =~= seq![Effect::CancelTimeout, Effect::ArmTimeout { after_ms: p.timeout_ms }]);
                lemma_replay_two(o, Effect::CancelTimeout, Effect::ArmTimeout { after_ms: p.timeout_ms });
            } else {
                assert(e0 =~= seq![Effect::ArmTimeout { after_ms: p.timeout_ms }]);
                lemma_replay_one(o, Effect::ArmTimeout { after_ms: p.timeout_ms });
            }
            assert(replay(o, e0) == Some(observe(s0)));
            let (s1, e1) = if s.visible {
                crate::window::show_at_margin_spec(s0, p.target_margin)
            } else {
                crate::window::slide_in_spec(s0, p)
            };
            if s.visible {
                lemma_show_at_margin_replays(s0, p.target_margin);
            } else if !p.slide || p.slide_duration_ms == 0 {
                lemma_show_at_margin_replays(s0, p.target_margin);
            } else {
                let h = hidden_of(p.window_height, p.offscreen_padding);
                let sa = WindowState { margin: h, visible: true, ..s0 };
                let (s2, e2) = crate::window::animate_spec(
                    sa,
                    h,
                    p.slide_duration_ms,
                    false,
                    MarginGoal::Shown,
                    p.target_margin,
                    p.fps,
                );
                lemma_replay_two(observe(s0), Effect::SetMargin { margin: h }, Effect::Show);
                lemma_animate_replays(
                    sa,
                    h,
                    p.slide_duration_ms,
                    false,
                    MarginGoal::Shown,
                    p.target_margin,
                    p.fps,
                );
                lemma_replay_append(observe(s0), seq![Effect::SetMargin { margin: h }, Effect::Show], e2);
            }
            lemma_replay_append(o, e0, e1);
        },
        Event::TimeoutElapsed(p) => {
            let s0 = WindowState { timeout_armed: false, ..s };
            assert(observed_before(s, ev) == observe(s0));
            if !p.slide || p.hide_duration_ms == 0 {
                let (s1, e1) = remove_animation_spec(s0);
                lemma_remove_animation_replays(s0);
                lemma_replay_append(observe(s0), e1, seq![Effect::Hide]);
                lemma_replay_one(observe(s1), Effect::Hide);
                assert(e1.push(Effect::Hide) == e1 + seq![Effect::Hide]);
            } else {
                lemma_animate_replays(
                    s0,
                    s0.margin,
                    p.hide_duration_ms,
                    true,
                    MarginGoal::Hidden,
                    hidden_of(p.window_height, p.offscreen_padding),
                    p.fps,
                );
            }
        },
        Event::Tick(p) => {
            match s.animation {
                None => {
                    assert(replay(observe(s), seq![]) == Some(observe(s)));
                },
                Some(a) => {
                    let to = goal_margin(a.goal, p);
                    let m = crate::slide::eased_margin_spec(
                        a.from as int,
                        to as int,
                        p.elapsed_ms as int,
                        a.duration_ms as int,
                    ) as i32;
                    let o = observe(s);
                    let two = seq![Effect::SetMargin { margin: m }, Effect::SetMargin { margin: to }];
                    lemma_replay_two(o, Effect::SetMargin { margin: m }, Effect::SetMargin { margin: to });
                    let o2 = Observed { margin: to, ..o };
                    if p.elapsed_ms >= a.duration_ms {
                        if a.hide_after {
                            lemma_replay_append(o, two, seq![Effect::Hide, Effect::EndAnimation]);
                            lemma_replay_two(o2, Effect::Hide, Effect::EndAnimation);
                        } else {
                            lemma_replay_append(o, two, seq![Effect::EndAnimation]);
                            lemma_replay_one(o2, Effect::EndAnimation);
                        }
                    } else {
                        lemma_replay_one(o, Effect::SetMargin { margin: m });
                    }
                },
            }
        },
        Event::Close => {
            let (s1, e1) = remove_animation_spec(s);
            lemma_remove_animation_replays(s);
            lemma_replay_append(observe(s), e1, seq![Effect::CloseWindow]);
            lemma_replay_one(observe(s1), Effect::CloseWindow);
            assert(e1.push(Effect::CloseWindow) == e1 + seq![Effect::CloseWindow]);
        },
        Event::Reposition(m) => {
            lemma_replay_one(observe(s), Effect::SetMargin { margin: m });
        },
    }
}

/// A window that slides out ends hidden, with no animation left, once the
/// slide's time is up.
pub proof fn lemma_slide_out_ends_hidden(s: WindowState, hp: HideParams, tp: TickParams)
    requires
        tp.elapsed_ms >= hp.hide_duration_ms,
    ensures
        ({
            let s1 = timeout_elapsed_spec(s, hp).0;
            let s2 = tick_spec(s1, tp).0;
            &&& !s2.visible
            &&& s2.animation is None
            &&& (!hp.slide || hp.hide_duration_ms == 0) ==> !s1.visible && s1.animation is None
        }),
{
}

/// A hidden window that slides in ends shown at the target margin, with no
/// animation left, once the slide's time is up.
pub proof fn lemma_slide_in_ends_at_target(s: WindowState, sp: ShowParams, tp: TickParams)
    requires
        !s.visible,
        tp.elapsed_ms >= sp.slide_duration_ms,
        tp.target_margin == sp.target_margin,
    ensures
        ({
            let s1 = run_timeout_spec(s, sp).0;
            let s2 = tick_spec(s1, tp).0;
            &&& s2.visible
            &&& s2.animation is None
            &&& s2.margin == sp.target_margin
            &&& s2.timeout_armed
        }),
{
}

/// Whether an effect concerns the hide timeout.
pub open spec fn is_timeout_effect(e: Effect) -> bool {
    e is CancelTimeout || e is ArmTimeout
}

/// New content replaces the pending hide timeout, if any, with exactly one new
/// one, due after the configured time; no other effect touches timeouts.
pub proof fn lemma_run_timeout_rearms(s: WindowState, sp: ShowParams)
    ensures
        ({
            let e = run_timeout_spec(s, sp).1;
            let k: int = if s.timeout_armed { 1 } else { 0 };
            &&& s.timeout_armed ==> e[0] == Effect::CancelTimeout
            &&& e[k] == Effect::ArmTimeout { after_ms: sp.timeout_ms }
            &&& forall|i: int| k < i < e.len() ==> !is_timeout_effect(#[trigger] e[i])
            &&& run_timeout_spec(s, sp).0.timeout_armed
        }),
{
    let e0 = (if s.timeout_armed {
        seq![Effect::CancelTimeout]
    } else {
        seq![]
    }).push(Effect::ArmTimeout { after_ms: sp.timeout_ms });
    let s0 = WindowState { timeout_armed: true, ..s };
    let (s1, e1) = if s.visible {
        crate::window::show_at_margin_spec(s0, sp.target_margin)
    } else {
        crate::window::slide_in_spec(s0, sp)
    };
    let e = run_timeout_spec(s, sp).1;
    assert(e == e0 + e1);
    assert forall|i: int| 0 <= i < e1.len() implies !is_timeout_effect(#[trigger] e1[i]) by {
        lemma_no_timeout_in_show(s0, sp, i);
    }
    assert forall|i: int| e0.len() <= i < e.len() implies !is_timeout_effect(#[trigger] e[i]) by {
        assert(e[i] == e1[i - e0.len()]);
    }
}

proof fn lemma_no_timeout_in_remove(s: WindowState)
    ensures
        forall|i: int| 0 <= i < remove_animation_spec(s).1.len() ==> !is_timeout_effect(
            #[trigger] remove_animation_spec(s).1[i],
        ),
{
}

proof fn lemma_no_timeout_in_animate(
    s: WindowState,
    from: i32,
    duration_ms: u64,
    hide_after: bool,
    goal: MarginGoal,
    to: i32,
    fps: u64,
)
    ensures
        forall|i: int| 0 <= i < crate::window::animate_spec(s, from, duration_ms, hide_after, goal, to, fps).1.len()
            ==> !is_timeout_effect(
            #[trigger] crate::window::animate_spec(s, from, duration_ms, hide_after, goal, to, fps).1[i],
        ),
{
    lemma_no_timeout_in_remove(s);
    let e1 = remove_animation_spec(s).1;
    let e = crate::window::animate_spec(s, from, duration_ms, hide_after, goal, to, fps).1;
    assert forall|i: int| 0 <= i < e.len() implies !is_timeout_effect(#[trigger] e[i]) by {
        if i < e1.len() {
            assert(e[i] == e1[i]);
        }
    }
}

proof fn lemma_no_timeout_in_show(s: WindowState, sp: ShowParams, i: int)
    requires
        0 <= i < (if s.visible {
            crate::window::show_at_margin_spec(s, sp.target_margin)
        } else {
            crate::window::slide_in_spec(s, sp)
        }).1.len(),
    ensures
        !is_timeout_effect(
            (if s.visible {
                crate::window::show_at_margin_spec(s, sp.target_margin)
            } else {
                crate::window::slide_in_spec(s, sp)
            }).1[i],
        ),
{
    lemma_no_timeout_in_remove(s);
    let e1 = remove_animation_spec(s).1;
    if s.visible || !sp.slide || sp.slide_duration_ms == 0 {
        let e = crate::window::show_at_margin_spec(s, sp.target_margin).1;
        if i < e1.len() {
            assert(e[i] == e1[i]);
        }
    } else {
        let h = hidden_of(sp.window_height, sp.offscreen_padding);
        let sa = WindowState { margin: h, visible: true, ..s };
        lemma_no_timeout_in_animate(sa, h, sp.slide_duration_ms, false, MarginGoal::Shown, sp.target_margin, sp.fps);
        let e2 = crate::window::animate_spec(sa, h, sp.slide_duration_ms, false, MarginGoal::Shown, sp.target_margin, sp.fps).1;
        let e = crate::window::slide_in_spec(s, sp).1;
        if i >= 2 {
            assert(e[i] == e2[i - 2]);
        }
    }
}

/// The display timeout's end touches no timeout: the one that fired is gone
/// and none is armed or cancelled.
pub proof fn lemma_timeout_elapsed_no_timer(s: WindowState, hp: HideParams)
    ensures
        forall|i: int| 0 <= i < timeout_elapsed_spec(s, hp).1.len() ==> !is_timeout_effect(
            #[trigger] timeout_elapsed_spec(s, hp).1[i],
        ),
        !timeout_elapsed_spec(s, hp).0.timeout_armed,
{
    let s0 = WindowState { timeout_armed: false, ..s };
    lemma_no_timeout_in_remove(s0);
    lemma_no_timeout_in_animate(
        s0,
        s0.margin,
        hp.hide_duration_ms,
        true,
        MarginGoal::Hidden,
        hidden_of(hp.window_height, hp.offscreen_padding),
        hp.fps,
    );
    let e1 = remove_animation_spec(s0).1;
    let e = timeout_elapsed_spec(s, hp).1;
    if !hp.slide || hp.hide_duration_ms == 0 {
        assert forall|i: int| 0 <= i < e.len() implies !is_timeout_effect(#[trigger] e[i]) by {
            if i < e1.len() {
                assert(e[i] == e1[i]);
            }
        }
    }
}

/// A window that is already shown is never animated by new content: it
/// stays shown at the target margin.
pub proof fn lemma_shown_window_stays_in_place(s: WindowState, sp: ShowParams)
    requires
        s.visible,
    ensures
        ({
            let s1 = run_timeout_spec(s, sp).0;
            &&& s1.visible
            &&& s1.animation is None
            &&& s1.margin == sp.target_margin
        }),
{
}

/// The volume icon shows "muted" exactly when the device is muted or at zero.
pub proof fn lemma_volume_muted_icon(kind: VolumeDeviceType, mute: bool, percent: nat)
    ensures
        (volume_state_spec(kind, mute, percent as int) == VolumeIconState::Muted) <==> (mute || percent
            == 0),
{
}

/// Raising the volume of an unmuted device never lowers the icon's level.
pub proof fn lemma_volume_icon_monotone(kind: VolumeDeviceType, p1: nat, p2: nat)
    requires
        p1 <= p2,
    ensures
        volume_level(volume_state_spec(kind, false, p1 as int)) <= volume_level(
            volume_state_spec(kind, false, p2 as int),
        ),
{
}

/// The rank of a volume level, from muted to overamplified.
pub open spec fn volume_level(s: VolumeIconState) -> int {
    match s {
        VolumeIconState::Muted => 0,
        VolumeIconState::Low => 1,
        VolumeIconState::Medium => 2,
        VolumeIconState::High => 3,
        VolumeIconState::Overamplified => 4,
    }
}

/// The backlight icon is "off" exactly at level zero and "high" exactly at a
/// nonzero maximum, and the level never exceeds the maximum.
pub proof fn lemma_kbd_icon(value: u32, max: u32)
    ensures
        kbd_level(value, max) <= max,
        (kbd_icon_spec(kbd_level(value, max), max) == "keyboard-brightness-off-symbolic"@) <== (
        kbd_level(value, max) == 0),
        max > 0 && value >= max ==> kbd_icon_spec(kbd_level(value, max), max)
            == "keyboard-brightness-high-symbolic"@,
{
}

/// The margin at which a window of the given height, plus the padding, sits
/// just below the screen: `-(max(height, 1) + padding)`.
pub open spec fn offscreen_margin(height: i32, padding: i32) -> int {
    -((if height >= 1 { height as int } else { 1int }) + padding as int)
}

/// The margin an animation heads for at a frame: the target margin when it
/// shows the window, the off-screen margin when it hides it.
pub open spec fn heading(goal: MarginGoal, p: TickParams) -> int {
    match goal {
        MarginGoal::Shown => p.target_margin as int,
        MarginGoal::Hidden => offscreen_margin(p.window_height, p.offscreen_padding),
    }
}

/// A rounded quotient is within one half of the exact one:
/// `|2 (r d - n)| <= d`.
pub proof fn lemma_round_half_away_close(n: int, d: int)
    requires
        d > 0,
    ensures
        -d <= 2 * (round_half_away(n, d) * d - n) <= d,
{
    let r = round_half_away(n, d);
    if n >= 0 {
        let x = 2 * n + d;
        lemma_fundamental_div_mod(x, 2 * d);
        let q = x / (2 * d);
        assert(r == q);
        assert(-d <= 2 * (r * d - n) <= d) by (nonlinear_arith)
            requires
                x == 2 * d * q + x % (2 * d),
                0 <= x % (2 * d) < 2 * d,
                x == 2 * n + d,
                r == q,
        ;
    } else {
        let x = -2 * n + d;
        lemma_fundamental_div_mod(x, 2 * d);
        let q = x / (2 * d);
        assert(r == -q);
        assert(-d <= 2 * (r * d - n) <= d) by (nonlinear_arith)
            requires
                x == 2 * d * q + x % (2 * d),
                0 <= x % (2 * d) < 2 * d,
                x == -2 * n + d,
                r == -q,
        ;
    }
}

/// A frame of a running animation, before its end, moves the window to the
/// point of the cubic ease-out from where the animation started toward where
/// it heads, rounded to the nearest pixel: with `p = elapsed / duration`, the
/// margin `m` set (and kept) satisfies
/// `|m - (from + (goal - from) (1 - (1 - p)^3))| <= 1/2`; it lies between the
/// start and the goal, equals the start at time zero, and the animation keeps
/// running.
pub proof fn lemma_tick_frame_is_eased(s: WindowState, p: TickParams)
    requires
        s.animation is Some,
        p.elapsed_ms < s.animation->0.duration_ms,
        s.animation->0.goal == MarginGoal::Hidden ==> hidden_margin_fits(
            p.window_height,
            p.offscreen_padding,
        ),
    ensures
        ({
            let a = s.animation->0;
            let (s1, e) = tick_spec(s, p);
            let g = heading(a.goal, p);
            let from = a.from as int;
            let m = s1.margin as int;
            let d = a.duration_ms as int;
            let big_d = d * d * d;
            let big_t = (d - p.elapsed_ms) * (d - p.elapsed_ms) * (d - p.elapsed_ms);
            &&& e == seq![Effect::SetMargin { margin: s1.margin }]
            &&& s1.animation == s.animation
            &&& -big_d <= 2 * (m * big_d - (from * big_t + g * (big_d - big_t))) <= big_d
            &&& (from <= g ==> from <= m <= g)
            &&& (g <= from ==> g <= m <= from)
            &&& (p.elapsed_ms == 0 ==> m == from)
        }),
{
    let a = s.animation->0;
    let to = goal_margin(a.goal, p);
    let g = heading(a.goal, p);
    assert(to as int == g);
    let d = a.duration_ms as int;
    let e = p.elapsed_ms as int;
    let big_d = cube(d);
    let big_t = cube(d - e);
    assert(big_d > 0) by (nonlinear_arith)
        requires
            d > 0,
            big_d == d * d * d,
    ;
    let n = a.from as int * big_t + g * (big_d - big_t);
    lemma_round_half_away_close(n, big_d);
    crate::slide::lemma_eased_between(a.from as int, g, e, d);
    if e == 0 {
        crate::slide::lemma_eased_starts_at_from(a.from as int, g, d);
    }
}

/// Later frames of one animation are never farther from where it heads than
/// earlier ones: the window never moves back toward where the animation
/// started.
pub proof fn lemma_tick_frames_advance(s: WindowState, p1: TickParams, p2: TickParams)
    requires
        s.animation is Some,
        p1.elapsed_ms <= p2.elapsed_ms,
        p1.target_margin == p2.target_margin,
        p1.window_height == p2.window_height,
        p1.offscreen_padding == p2.offscreen_padding,
        s.animation->0.goal == MarginGoal::Hidden ==> hidden_margin_fits(
            p1.window_height,
            p1.offscreen_padding,
        ),
    ensures
        ({
            let a = s.animation->0;
            let g = heading(a.goal, p1);
            let m1 = tick_spec(s, p1).0.margin;
            let m2 = tick_spec(s, p2).0.margin;
            &&& (a.from <= g ==> m1 <= m2 <= g)
            &&& (g <= a.from ==> g <= m2 <= m1)
        }),
{
    let a = s.animation->0;
    let g = heading(a.goal, p1);
    assert(goal_margin(a.goal, p1) as int == g);
    assert(goal_margin(a.goal, p2) as int == g);
    lemma_eased_monotone(a.from as int, g, p1.elapsed_ms as int, p2.elapsed_ms as int, a.duration_ms as int);
    crate::slide::lemma_eased_between(a.from as int, g, p1.elapsed_ms as int, a.duration_ms as int);
    crate::slide::lemma_eased_between(a.from as int, g, p2.elapsed_ms as int, a.duration_ms as int);
    let e1 = crate::slide::eased_margin_spec(a.from as int, g, p1.elapsed_ms as int, a.duration_ms as int);
    let e2 = crate::slide::eased_margin_spec(a.from as int, g, p2.elapsed_ms as int, a.duration_ms as int);
    assert(i32::MIN <= g <= i32::MAX);
    assert(e1 as i32 as int == e1);
    assert(e2 as i32 as int == e2);
}

/// When the display timeout elapses with sliding on, a nonzero slide-out
/// length, and the window away from its off-screen margin, the window starts
/// sliding out from the margin it is at, for the slide-out length, toward the
/// off-screen margin, to be hidden at the end; it stays shown meanwhile.
pub proof fn lemma_timeout_starts_slide_out(s: WindowState, hp: HideParams)
    requires
        hp.slide,
        hp.hide_duration_ms != 0,
        hidden_margin_fits(hp.window_height, hp.offscreen_padding),
        s.margin as int != offscreen_margin(hp.window_height, hp.offscreen_padding),
    ensures
        ({
            let s1 = timeout_elapsed_spec(s, hp).0;
            &&& s1.animation == Some(
                crate::window::Animation {
                    from: s.margin,
                    duration_ms: hp.hide_duration_ms,
                    hide_after: true,
                    goal: MarginGoal::Hidden,
                },
            )
            &&& s1.margin == s.margin
            &&& s1.visible == s.visible
            &&& hp.fps > 0 ==> timeout_elapsed_spec(s, hp).1.last() == Effect::StartAnimation {
                interval_ms: if 1000u64 / hp.fps >= 1 { 1000u64 / hp.fps } else { 1u64 },
            }
        }),
{
}

/// When new content comes to a hidden window with sliding on and a nonzero
/// slide-in length, the window is shown at the off-screen margin and, unless
/// that is already its target, starts sliding from there toward the target
/// for the slide-in length, staying shown at the end.
pub proof fn lemma_display_starts_slide_in(s: WindowState, sp: ShowParams)
    requires
        !s.visible,
        sp.slide,
        sp.slide_duration_ms != 0,
        hidden_margin_fits(sp.window_height, sp.offscreen_padding),
        sp.target_margin as int != offscreen_margin(sp.window_height, sp.offscreen_padding),
    ensures
        ({
            let s1 = run_timeout_spec(s, sp).0;
            &&& s1.animation == Some(
                crate::window::Animation {
                    from: offscreen_margin(sp.window_height, sp.offscreen_padding) as i32,
                    duration_ms: sp.slide_duration_ms,
                    hide_after: false,
                    goal: MarginGoal::Shown,
                },
            )
            &&& s1.margin as int == offscreen_margin(sp.window_height, sp.offscreen_padding)
            &&& s1.visible
            &&& sp.fps > 0 ==> run_timeout_spec(s, sp).1.last() == Effect::StartAnimation {
                interval_ms: if 1000u64 / sp.fps >= 1 { 1000u64 / sp.fps } else { 1u64 },
            }
        }),
{
}

/// The volume icon's level: for an unmuted device of either kind it is low
/// from 1% to 33%, medium from 34% to 66%, high from 67% to 100%; above 100%
/// an output stays high and an input is overamplified. Only above 100% does
/// the kind of device matter.
pub proof fn lemma_volume_levels(kind: VolumeDeviceType, p: int)
    requires
        p >= 1,
    ensures
        1 <= p <= 33 ==> volume_state_spec(kind, false, p) == VolumeIconState::Low,
        34 <= p <= 66 ==> volume_state_spec(kind, false, p) == VolumeIconState::Medium,
        67 <= p <= 100 ==> volume_state_spec(kind, false, p) == VolumeIconState::High,
        p > 100 && kind == VolumeDeviceType::Sink ==> volume_state_spec(kind, false, p)
            == VolumeIconState::High,
        p > 100 && kind == VolumeDeviceType::Source ==> volume_state_spec(kind, false, p)
            == VolumeIconState::Overamplified,
        p <= 100 ==> volume_state_spec(VolumeDeviceType::Sink, false, p) == volume_state_spec(
            VolumeDeviceType::Source,
            false,
            p,
        ),
{
}

/// Whether a widget is a label.
pub open spec fn is_label(w: WidgetView) -> bool {
    w is Label
}

/// A custom progress row: the named icon first if any, then the bar at the
/// caller's fraction, then, whatever the icon, the text as a plain label if
/// one is given; no label without a text.
pub proof fn lemma_custom_progress_row(text: Option<String>, icon_name: Option<&str>)
    ensures
        ({
            let row = custom_progress_content_spec(text, icon_name);
            let k: int = if icon_name is Some { 1 } else { 0 };
            &&& row.len() == k + 1 + (if text is Some { 1int } else { 0 })
            &&& icon_name matches Some(n) ==> row[0] == WidgetView::Icon { name: n@, sensitive: true }
            &&& row[k] == WidgetView::Progress { fraction: ProgressFraction::Given, sensitive: true }
            &&& text matches Some(t) ==> row[row.len() - 1] == WidgetView::Label {
                text: Some(t@),
                width_chars: -1i32,
                hexpand: false,
                balance_icon: false,
            }
            &&& text is None ==> forall|i: int| 0 <= i < row.len() ==> !is_label(#[trigger] row[i])
        }),
{
}

/// A custom segmented row: the named icon first if any, then the bar with
/// `min(value, n_segments)` of `n_segments` lit, then, whatever the icon, the
/// text as a plain label if one is given; no label without a text.
pub proof fn lemma_custom_segmented_row(
    value: u32,
    n_segments: u32,
    text: Option<String>,
    icon_name: Option<&str>,
)
    ensures
        ({
            let row = custom_segmented_content_spec(value, n_segments, text, icon_name);
            let k: int = if icon_name is Some { 1 } else { 0 };
            &&& row.len() == k + 1 + (if text is Some { 1int } else { 0 })
            &&& icon_name matches Some(n) ==> row[0] == WidgetView::Icon { name: n@, sensitive: true }
            &&& row[k] == WidgetView::Segmented {
                value: if value <= n_segments { value } else { n_segments },
                n_segments,
            }
            &&& text matches Some(t) ==> row[row.len() - 1] == WidgetView::Label {
                text: Some(t@),
                width_chars: -1i32,
                hexpand: false,
                balance_icon: false,
            }
            &&& text is None ==> forall|i: int| 0 <= i < row.len() ==> !is_label(#[trigger] row[i])
        }),
{
}

/// The last frame of an animation, at or after its length, sets the margin
/// it heads for and keeps it, hides the window exactly when the animation
/// says so (otherwise its visibility is unchanged), and ends the animation.
pub proof fn lemma_tick_final_frame(s: WindowState, p: TickParams)
    requires
        s.animation is Some,
        p.elapsed_ms >= s.animation->0.duration_ms,
        s.animation->0.goal == MarginGoal::Hidden ==> hidden_margin_fits(
            p.window_height,
            p.offscreen_padding,
        ),
    ensures
        ({
            let a = s.animation->0;
            let (s1, e) = tick_spec(s, p);
            &&& s1.margin as int == heading(a.goal, p)
            &&& s1.animation is None
            &&& s1.visible == (!a.hide_after && s.visible)
            &&& e.last() == Effect::EndAnimation
            &&& e[1] == Effect::SetMargin { margin: s1.margin }
            &&& (a.hide_after <==> e.contains(Effect::Hide))
            &&& s1.timeout_armed == s.timeout_armed
            &&& s1.content == s.content
        }),
{
    let a = s.animation->0;
    let e = tick_spec(s, p).1;
    if a.hide_after {
        assert(e[2] == Effect::Hide);
    } else {
        assert(e.len() == 3);
        assert(forall|i: int| 0 <= i < 3 ==> e[i] != Effect::Hide);
    }
}

/// New content on a hidden window without sliding (sliding off, or a slide
/// of no length) shows it at once at the target margin, with no animation.
pub proof fn lemma_display_without_slide(s: WindowState, sp: ShowParams)
    requires
        !sp.slide || sp.slide_duration_ms == 0,
    ensures
        ({
            let (s1, e) = run_timeout_spec(s, sp);
            &&& s1.visible
            &&& s1.animation is None
            &&& s1.margin == sp.target_margin
            &&& e.last() == Effect::Show
            &&& e[e.len() - 2] == Effect::SetMargin { margin: sp.target_margin }
        }),
{
}

/// Closing the window leaves it hidden with no animation, at the same margin,
/// with the same content and the same pending timeout; the last effect
/// closes it, and an animation is cancelled only when one runs.
pub proof fn lemma_close(s: WindowState)
    ensures
        ({
            let (s1, e) = close_spec(s);
            &&& !s1.visible
            &&& s1.animation is None
            &&& s1.margin == s.margin
            &&& s1.content == s.content
            &&& s1.timeout_armed == s.timeout_armed
            &&& e.last() == Effect::CloseWindow
            &&& e.len() == (if s.animation is Some { 2int } else { 1 })
            &&& s.animation is Some ==> e[0] == Effect::CancelAnimation
        }),
{
}

/// Repositioning moves the window to the new target and changes nothing else.
pub proof fn lemma_reposition(s: WindowState, target: i32)
    ensures
        ({
            let (s1, e) = reposition_spec(s, target);
            &&& s1.margin == target
            &&& s1.visible == s.visible
            &&& s1.animation == s.animation
            &&& s1.content == s.content
            &&& s1.timeout_armed == s.timeout_armed
            &&& e == seq![Effect::SetMargin { margin: target }]
        }),
{
}

/// The volume row: an icon named `"{sink|source}-volume-{level}-symbolic"`,
/// then a bar at `n / max_volume` percent, greyed exactly while muted, where
/// `n` is the volume in whole percent, rounded to nearest with halves up
/// (`0x10000` is 100%); then, exactly when asked for, the label `"{n}%"`.
/// The icon's level is that of the same `n`.
pub proof fn lemma_volume_row(
    kind: VolumeDeviceType,
    mute: bool,
    raw: u32,
    max_volume: u8,
    show_percentage: bool,
)
    ensures
        ({
            let row = volume_content_spec(kind, mute, raw, max_volume, show_percentage);
            &&& row.len() == (if show_percentage { 3int } else { 2 })
            &&& row[1] matches WidgetView::Progress { fraction, sensitive }
            &&& sensitive == !mute
            &&& fraction matches ProgressFraction::Ratio { numerator, denominator }
            &&& denominator == max_volume as u64
            &&& -32768 < numerator * 65536 - 100 * raw <= 32768
            &&& row[0] == WidgetView::Icon {
                name: (if kind == VolumeDeviceType::Sink { "sink"@ } else { "source"@ })
                    + "-volume-"@ + (if mute || numerator == 0 {
                    "muted"@
                } else if numerator <= 33 {
                    "low"@
                } else if numerator <= 66 {
                    "medium"@
                } else if numerator <= 100 || kind == VolumeDeviceType::Sink {
                    "high"@
                } else {
                    "overamplified"@
                }) + "-symbolic"@,
                sensitive: true,
            }
            &&& show_percentage ==> row[2] == WidgetView::Label {
                text: Some(decimal(numerator as nat) + "%"@),
                width_chars: 5i32,
                hexpand: false,
                balance_icon: false,
            }
        }),
{
    let p = crate::content::volume_percent_spec(raw as int);
    let q = (100 * raw + 32768) as int;
    lemma_fundamental_div_mod(q, 65536);
    assert(p == q / 65536);
    assert(0 <= p <= 6_553_600);
}

/// The brightness row: the brightness icon, a bar at `current / max`, and,
/// exactly when asked for, a label with the percentage `n` rounded to nearest,
/// halves up (for a brightness within its maximum).
pub proof fn lemma_brightness_row(current: u32, max: u32, show_percentage: bool)
    ensures
        ({
            let row = brightness_content_spec(current, max, show_percentage);
            &&& row.len() == (if show_percentage { 3int } else { 2 })
            &&& row[0] == WidgetView::Icon { name: "display-brightness-symbolic"@, sensitive: true }
            &&& row[1] == WidgetView::Progress {
                fraction: ProgressFraction::Ratio { numerator: current as u64, denominator: max as u64 },
                sensitive: true,
            }
            &&& show_percentage ==> exists|n: nat| {
                &&& #[trigger] row[2] == WidgetView::Label {
                    text: Some(decimal(n) + "%"@),
                    width_chars: 5i32,
                    hexpand: false,
                    balance_icon: false,
                }
                &&& (0 < max && current <= max ==> -(max as int) < 2 * (n * max - 100 * current) <= max)
                &&& (max == 0 && current == 0 ==> n == 0)
            }
        }),
{
    if show_percentage {
        let n = crate::content::brightness_percent_spec(current as int, max as int);
        if max > 0 {
            let x = 200 * current + max;
            lemma_fundamental_div_mod(x as int, 2 * max as int);
            if current <= max {
                let q = x as int / (2 * max as int);
                assert(q <= 100) by (nonlinear_arith)
                    requires
                        x == 2 * max * q + x % (2 * max as int),
                        0 <= x % (2 * max as int),
                        x == 200 * current + max,
                        current <= max,
                        max > 0,
                ;
                assert(n == q);
                assert(-(max as int) < 2 * (n * max - 100 * current) <= max) by (nonlinear_arith)
                    requires
                        x == 2 * max * n + x % (2 * max as int),
                        0 <= x % (2 * max as int) < 2 * max,
                        x == 200 * current + max,
                ;
            }
        }
        assert(n >= 0);
        let row = brightness_content_spec(current, max, show_percentage);
        assert(row[2] == WidgetView::Label {
            text: Some(decimal(n as nat) + "%"@),
            width_chars: 5i32,
            hexpand: false,
            balance_icon: false,
        });
    }
}

/// The keyboard backlight row, at level `min(value, max)`: the icon is "off"
/// at level 0, "high" at a nonzero maximum and "medium" in between; then a
/// bar of `max` segments with the level lit when there are fewer than five
/// levels, and otherwise a continuous bar at `level / max`.
pub proof fn lemma_kbd_backlight_row(value: u32, max: u32)
    ensures
        ({
            let row = kbd_backlight_content_spec(value, max);
            let level = if value <= max { value } else { max };
            &&& row.len() == 2
            &&& row[0] == WidgetView::Icon {
                name: if level == 0 {
                    "keyboard-brightness-off-symbolic"@
                } else if level == max {
                    "keyboard-brightness-high-symbolic"@
                } else {
                    "keyboard-brightness-medium-symbolic"@
                },
                sensitive: true,
            }
            &&& max < 5 ==> row[1] == WidgetView::Segmented { value: level, n_segments: max }
            &&& max >= 5 ==> row[1] == WidgetView::Progress {
                fraction: ProgressFraction::Ratio { numerator: level as u64, denominator: max as u64 },
                sensitive: true,
            }
        }),
{
}

/// The lock key row: the key's icon, greyed exactly while the lock is off,
/// and a label "<key name> On" or "<key name> Off" taking the free width.
pub proof fn lemma_keylock_row(key: KeysLocks, state: bool)
    ensures
        ({
            let row = keylock_content_spec(key, state);
            &&& row.len() == 2
            &&& row[0] matches WidgetView::Icon { name, sensitive }
            &&& sensitive == state
            &&& name == (match key {
                KeysLocks::CapsLock => "caps-lock-symbolic"@,
                KeysLocks::NumLock => "num-lock-symbolic"@,
                KeysLocks::ScrollLock => "scroll-lock-symbolic"@,
            })
            &&& row[1] == WidgetView::Label {
                text: Some(
                    (match key {
                        KeysLocks::CapsLock => "Caps Lock "@,
                        KeysLocks::NumLock => "Num Lock "@,
                        KeysLocks::ScrollLock => "Scroll Lock "@,
                    }) + if state { "On"@ } else { "Off"@ },
                ),
                width_chars: -1i32,
                hexpand: true,
                balance_icon: false,
            }
        }),
{
}

/// The player row: the given icon, then the given label (possibly none),
/// taking the free width.
pub proof fn lemma_player_row(icon_name: &str, label: Option<&str>)
    ensures
        player_content_spec(icon_name, label) == seq![
            WidgetView::Icon { name: icon_name@, sensitive: true },
            WidgetView::Label { text: str_view(label), width_chars: -1i32, hexpand: true, balance_icon: false },
        ],
{
}

/// The custom message row: the message always, as the last widget, taking the
/// free width; with an icon, the icon first and the message balanced against
/// it so that it stays centred.
pub proof fn lemma_custom_message_row(message: &str, icon_name: Option<&str>)
    ensures
        ({
            let row = custom_message_content_spec(message, icon_name);
            &&& row.len() == (if icon_name is Some { 2int } else { 1 })
            &&& row.last() == WidgetView::Label {
                text: Some(message@),
                width_chars: -1i32,
                hexpand: true,
                balance_icon: icon_name is Some,
            }
            &&& icon_name matches Some(n) ==> row[0] == WidgetView::Icon { name: n@, sensitive: true }
        }),
{
}

/// The end margin that balances a message against its icon is the icon's
/// width plus its two margins plus the row's spacing.
pub proof fn lemma_label_end_margin(width: int, start: int, end: int, spacing: int)
    ensures
        crate::content::label_end_margin_spec(width, start, end, spacing) == width + start + end
            + spacing,
{
}

/// The value of a string of decimal digits, read left to right.
pub open spec fn digits_value(s: Seq<char>) -> int
    decreases s.len(),
{
    if s.len() == 0 {
        0
    } else {
        digits_value(s.drop_last()) * 10 + (s.last() as int - '0' as int)
    }
}

/// The decimal text of `n` is made of digits, read back as `n`, and has no
/// leading zero.
pub proof fn lemma_decimal_reads_back(n: nat)
    ensures
        digits_value(decimal(n)) == n,
        forall|i: int| 0 <= i < decimal(n).len() ==> '0' <= #[trigger] decimal(n)[i] <= '9',
        decimal(n).len() > 1 ==> decimal(n)[0] != '0',
        n > 0 ==> decimal(n)[0] != '0',
    decreases n,
{
    let s = decimal(n);
    let ds = seq!['0', '1', '2', '3', '4', '5', '6', '7', '8', '9'];
    assert(forall|d: int| 0 <= d < 10 ==> #[trigger] ds[d] as int == '0' as int + d);
    if n < 10 {
        assert(s.drop_last() =~= Seq::<char>::empty());
        assert(digits_value(Seq::<char>::empty()) == 0);
        assert(s.last() == ds[n as int]);
    } else {
        lemma_decimal_reads_back(n / 10);
        lemma_fundamental_div_mod(n as int, 10);
        assert(s.drop_last() =~= decimal(n / 10));
        assert(s.last() == ds[(n % 10) as int]);
        assert(s[0] == decimal(n / 10)[0]);
        assert forall|i: int| 0 <= i < s.len() implies '0' <= #[trigger] s[i] <= '9' by {
            if i < s.len() - 1 {
                assert(s[i] == decimal(n / 10)[i]);
            }
        }
    }
}

} // verus!
