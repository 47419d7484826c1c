//! The display window as a state machine. It holds what the window shows and
//! where it is, and for each event (new content, the display timeout, an
//! animation frame, a change of screen, closing) it decides the next state and
//! the effects, in order, that the toolkit is to carry out: cancel or arm the
//! hide timeout, cancel or start the slide animation, set the bottom margin,
//! show, hide or close the window.
use vstd::prelude::*;
use crate::content::{
    KeysLocks, VolumeDeviceType, Widget, WidgetView, brightness_content, brightness_content_spec,
    custom_message_content, custom_message_content_spec, custom_progress_content,
    custom_progress_content_spec, custom_segmented_content, custom_segmented_content_spec,
    kbd_backlight_content, kbd_backlight_content_spec, keylock_content, keylock_content_spec,
    player_content, player_content_spec, volume_content, volume_content_spec, widgets_view,
};
use crate::slide::{
    eased_margin, eased_margin_spec, frame_interval_ms, frame_interval_spec,
    hidden_bottom_margin, hidden_margin_fits, hidden_margin_spec,
};

verus! {

/// Which margin a running animation is heading for: the one at which the
/// window is shown, or the one at which it is just off screen.
#[derive(Clone, Copy, Debug, PartialEq, Eq, Structural)]
pub enum MarginGoal {
    Shown,
    Hidden,
}

/// A running slide animation.
#[derive(Clone, Copy, Debug, PartialEq, Eq, Structural)]
pub struct Animation {
    /// The bottom margin at which it started.
    pub from: i32,
    /// Its length in milliseconds.
    pub duration_ms: u64,
    /// Whether the window is hidden when it ends.
    pub hide_after: bool,
    /// The margin it heads for, evaluated afresh at every frame.
    pub goal: MarginGoal,
}

/// One thing for the toolkit to do.
#[derive(Clone, Copy, Debug, PartialEq, Eq, Structural)]
pub enum Effect {
    /// Remove the pending hide timeout.
    CancelTimeout,
    /// Arrange for the display timeout to elapse after `after_ms` milliseconds.
    ArmTimeout { after_ms: u64 },
    /// Remove the running animation's frame source.
    CancelAnimation,
    /// Start the frame source of the new animation, firing every `interval_ms`
    /// milliseconds, and note the time at which it starts.
    StartAnimation { interval_ms: u64 },
    /// The running animation has reached its end: stop its frame source.
    EndAnimation,
    /// Set the window's bottom margin.
    SetMargin { margin: i32 },
    /// Show the window.
    Show,
    /// Hide the window.
    Hide,
    /// Close the window.
    CloseWindow,
}

/// What showing new content depends on, read from the configuration and the
/// window when the content has been laid out.
#[derive(Clone, Copy, Debug)]
pub struct ShowParams {
    /// How long the display stays before it goes.
    pub timeout_ms: u64,
    /// Whether the window slides in and out.
    pub slide: bool,
    /// Length of the slide in, in milliseconds.
    pub slide_duration_ms: u64,
    /// Animation frames per second.
    pub fps: u64,
    /// The bottom margin at which the window is shown.
    pub target_margin: i32,
    /// The window's measured height.
    pub window_height: i32,
    /// Extra distance below the screen edge of a hidden window.
    pub offscreen_padding: i32,
}

/// What the end of the display timeout depends on.
#[derive(Clone, Copy, Debug)]
pub struct HideParams {
    /// Whether the window slides in and out.
    pub slide: bool,
    /// Length of the slide out, in milliseconds.
    pub hide_duration_ms: u64,
    /// Animation frames per second.
    pub fps: u64,
    /// The window's measured height.
    pub window_height: i32,
    /// Extra distance below the screen edge of a hidden window.
    pub offscreen_padding: i32,
}

/// What an animation frame depends on.
#[derive(Clone, Copy, Debug)]
pub struct TickParams {
    /// Milliseconds since the animation started.
    pub elapsed_ms: u64,
    /// The bottom margin at which the window is shown, as it is now.
    pub target_margin: i32,
    /// The window's measured height, as it is now.
    pub window_height: i32,
    /// Extra distance below the screen edge of a hidden window.
    pub offscreen_padding: i32,
}

/// The state of the window.
pub struct WindowState {
    /// The row of widgets it shows.
    pub content: Seq<WidgetView>,
    /// Whether it is shown.
    pub visible: bool,
    /// Its bottom margin.
    pub margin: i32,
    /// The running slide animation, if any.
    pub animation: Option<Animation>,
    /// Whether a hide timeout is pending.
    pub timeout_armed: bool,
}

/// An on-screen display window: its content and where and whether it shows.
pub struct SwayosdWindow {
    content: Vec<Widget>,
    visible: bool,
    margin: i32,
    animation: Option<Animation>,
    timeout_armed: bool,
}

impl View for SwayosdWindow {
    type V = WindowState;

    closed spec fn view(&self) -> WindowState {
        WindowState {
            content: widgets_view(self.content@),
            visible: self.visible,
            margin: self.margin,
            animation: self.animation,
            timeout_armed: self.timeout_armed,
        }
    }
}

/// A state is valid when its animation, if any, lasts at least one
/// millisecond.
pub open spec fn state_wf(s: WindowState) -> bool {
    match s.animation {
        Some(a) => 0 < a.duration_ms,
        None => true,
    }
}

/// A state and the effects that led to it.
pub type Step = (WindowState, Seq<Effect>);

/// Cancels the running animation, if there is one.
pub open spec fn remove_animation_spec(s: WindowState) -> Step {
    if s.animation is Some {
        (WindowState { animation: None, ..s }, seq![Effect::CancelAnimation])
    } else {
        (s, seq![])
    }
}

/// Cancels the animation, then shows the window at `margin`.
pub open spec fn show_at_margin_spec(s: WindowState, margin: i32) -> Step {
    let (s1, e1) = remove_animation_spec(s);
    (
        WindowState { margin, visible: true, ..s1 },
        e1 + seq![Effect::SetMargin { margin }, Effect::Show],
    )
}

/// Cancels the animation, then either settles at once at `to`, hiding the
/// window if `hide_after`, when `from == to`, or starts an animation.
pub open spec fn animate_spec(
    s: WindowState,
    from: i32,
    duration_ms: u64,
    hide_after: bool,
    goal: MarginGoal,
    to: i32,
    fps: u64,
) -> Step {
    let (s1, e1) = remove_animation_spec(s);
    if from == to {
        (
            WindowState { margin: to, visible: if hide_after { false } else { s1.visible }, ..s1 },
            e1 + seq![Effect::SetMargin { margin: to }] + if hide_after {
                seq![Effect::Hide]
            } else {
                seq![]
            },
        )
    } else {
        (
            WindowState { animation: Some(Animation { from, duration_ms, hide_after, goal }), ..s1 },
            e1 + seq![Effect::StartAnimation { interval_ms: frame_interval_spec(fps as int) as u64 }],
        )
    }
}

/// Whether the window slides (rather than appears) when it is shown.
pub open spec fn slides_in(s: WindowState, p: ShowParams) -> bool {
    !s.visible && p.slide && p.slide_duration_ms != 0
}

/// The hidden margin for the given measurements.
pub open spec fn hidden_of(height: i32, padding: i32) -> i32 {
    hidden_margin_spec(height as int, padding as int) as i32
}

/// Slides a hidden window in: at once to the target when sliding is off or
/// takes no time; otherwise from just off screen.
pub open spec fn slide_in_spec(s: WindowState, p: ShowParams) -> Step {
    if !p.slide || p.slide_duration_ms == 0 {
        show_at_margin_spec(s, p.target_margin)
    } else {
        let h = hidden_of(p.window_height, p.offscreen_padding);
        let s1 = WindowState { margin: h, visible: true, ..s };
        let (s2, e2) = animate_spec(
            s1,
            h,
            p.slide_duration_ms,
            false,
            MarginGoal::Shown,
            p.target_margin,
            p.fps,
        );
        (s2, seq![Effect::SetMargin { margin: h }, Effect::Show] + e2)
    }
}

/// New content: the pending hide timeout is replaced by a fresh one; a shown
/// window stays in place at the target margin, a hidden one slides in.
pub open spec fn run_timeout_spec(s: WindowState, p: ShowParams) -> Step {
    let e0 = (if s.timeout_armed { seq![Effect::CancelTimeout] } else { seq![] }).push(
        Effect::ArmTimeout { after_ms: p.timeout_ms },
    );
    let s0 = WindowState { timeout_armed: true, ..s };
    let (s1, e1) = if s.visible {
        show_at_margin_spec(s0, p.target_margin)
    } else {
        slide_in_spec(s0, p)
    };
    (s1, e0 + e1)
}

/// What showing new content asks of its inputs: a hidden margin that fits in
/// an `i32` when the window slides in, and when it has to move, a nonzero
/// number of frames per second.
pub open spec fn run_timeout_ok(s: WindowState, p: ShowParams) -> bool {
    slides_in(s, p) ==> {
        &&& hidden_margin_fits(p.window_height, p.offscreen_padding)
        &&& hidden_of(p.window_height, p.offscreen_padding) != p.target_margin ==> p.fps > 0
    }
}

/// Slides the window out: hides it at once when sliding is off or takes no
/// time; otherwise animates from its margin to just off screen, then hides it.
pub open spec fn slide_out_spec(s: WindowState, p: HideParams) -> Step {
    if !p.slide || p.hide_duration_ms == 0 {
        let (s1, e1) = remove_animation_spec(s);
        (WindowState { visible: false, ..s1 }, e1.push(Effect::Hide))
    } else {
        animate_spec(
            s,
            s.margin,
            p.hide_duration_ms,
            true,
            MarginGoal::Hidden,
            hidden_of(p.window_height, p.offscreen_padding),
            p.fps,
        )
    }
}

/// The display timeout has elapsed: it is no longer pending, and the window
/// slides out.
pub open spec fn timeout_elapsed_spec(s: WindowState, p: HideParams) -> Step {
    slide_out_spec(WindowState { timeout_armed: false, ..s }, p)
}

/// What the end of the display timeout asks of its inputs.
pub open spec fn timeout_elapsed_ok(s: WindowState, p: HideParams) -> bool {
    (p.slide && p.hide_duration_ms != 0) ==> {
        &&& hidden_margin_fits(p.window_height, p.offscreen_padding)
        &&& hidden_of(p.window_height, p.offscreen_padding) != s.margin ==> p.fps > 0
    }
}

/// The margin an animation heads for at a frame.
pub open spec fn goal_margin(goal: MarginGoal, p: TickParams) -> i32 {
    match goal {
        MarginGoal::Shown => p.target_margin,
        MarginGoal::Hidden => hidden_of(p.window_height, p.offscreen_padding),
    }
}

/// An animation frame: the window moves to the eased margin; once the
/// animation's time is up it settles at its goal, is hidden if the animation
/// says so, and the animation ends. Without a running animation nothing happens.
pub open spec fn tick_spec(s: WindowState, p: TickParams) -> Step {
    match s.animation {
        None => (s, seq![]),
        Some(a) => {
            let to = goal_margin(a.goal, p);
            let m = eased_margin_spec(a.from as int, to as int, p.elapsed_ms as int, a.duration_ms as int) as i32;
            if p.elapsed_ms >= a.duration_ms {
                (
                    WindowState {
                        margin: to,
                        visible: if a.hide_after { false } else { s.visible },
                        animation: None,
                        ..s
                    },
                    seq![Effect::SetMargin { margin: m }, Effect::SetMargin { margin: to }] + if a.hide_after {
                        seq![Effect::Hide, Effect::EndAnimation]
                    } else {
                        seq![Effect::EndAnimation]
                    },
                )
            } else {
                (WindowState { margin: m, ..s }, seq![Effect::SetMargin { margin: m }])
            }
        },
    }
}

/// What an animation frame asks of its inputs: a hidden margin that fits in
/// an `i32` when the animation heads for it.
pub open spec fn tick_ok(s: WindowState, p: TickParams) -> bool {
    match s.animation {
        Some(a) => a.goal == MarginGoal::Hidden ==> hidden_margin_fits(p.window_height, p.offscreen_padding),
        None => true,
    }
}

/// Closing: the animation is cancelled and the window closed.
pub open spec fn close_spec(s: WindowState) -> Step {
    let (s1, e1) = remove_animation_spec(s);
    (WindowState { visible: false, ..s1 }, e1.push(Effect::CloseWindow))
}

/// The screen or the window's scale changed: the window moves to the new
/// target margin.
pub open spec fn reposition_spec(s: WindowState, target_margin: i32) -> Step {
    (WindowState { margin: target_margin, ..s }, seq![Effect::SetMargin { margin: target_margin }])
}

/// The state with other content.
pub open spec fn with_content(s: WindowState, content: Seq<WidgetView>) -> WindowState {
    WindowState { content, ..s }
}

impl SwayosdWindow {
    /// Whether the state is valid.
    pub open spec fn wf(&self) -> bool {
        state_wf(self@)
    }

    /// A window, not yet shown, with nothing in it, at the given bottom margin.
    pub fn new(target_margin: i32) -> (w: Self)
        ensures
            w.wf(),
            w@.content == Seq::<WidgetView>::empty(),
            !w@.visible,
            w@.margin == target_margin,
            w@.animation is None,
            !w@.timeout_armed,
    {
        let w = SwayosdWindow {
            content: Vec::new(),
            visible: false,
            margin: target_margin,
            animation: None,
            timeout_armed: false,
        };
        assert(w@.content =~= Seq::<WidgetView>::empty());
        w
    }

    /// The row of widgets the window shows.
    pub fn content(&self) -> (c: &Vec<Widget>)
        ensures
            widgets_view(c@) == self@.content,
    {
        &self.content
    }

    /// Whether the window is shown.
    pub fn is_visible(&self) -> (v: bool)
        ensures
            v == self@.visible,
    {
        self.visible
    }

    /// The window's bottom margin.
    pub fn margin(&self) -> (m: i32)
        ensures
            m == self@.margin,
    {
        self.margin
    }

    /// The running animation, if any.
    pub fn animation(&self) -> (a: Option<Animation>)
        ensures
            a == self@.animation,
    {
        self.animation
    }

    /// Whether a hide timeout is pending.
    pub fn is_timeout_armed(&self) -> (t: bool)
        ensures
            t == self@.timeout_armed,
    {
        self.timeout_armed
    }

    /// Replaces the row with that of a volume change: the volume icon of the device kind and level, a
    /// bar at the volume over `max_volume` percent that is insensitive while
    /// muted, and the percentage when `show_percentage`. `raw_volume` is the
    /// average PulseAudio volume of the device's channels.
    ///
    /// The row only changes here: once the toolkit has laid it out, `run_timeout`
    /// is to follow, which shows the window and re-arms the hide timeout.
    pub fn changed_volume(
        &mut self,
        device_type: VolumeDeviceType,
        mute: bool,
        raw_volume: u32,
        max_volume: u8,
        show_percentage: bool,
    )
        requires
            old(self).wf(),
        ensures
            final(self).wf(),
            final(self)@ == with_content(
                old(self)@,
                volume_content_spec(device_type, mute, raw_volume, max_volume, show_percentage),
            ),
    {
        self.content = volume_content(device_type, mute, raw_volume, max_volume, show_percentage);
    }

    /// Replaces the row with that of a brightness change: the brightness icon, a bar at `current / max`
    /// and the percentage when `show_percentage`.
    ///
    /// The row only changes here: once the toolkit has laid it out, `run_timeout`
    /// is to follow, which shows the window and re-arms the hide timeout.
    pub fn changed_brightness(&mut self, current: u32, max: u32, show_percentage: bool)
        requires
            old(self).wf(),
        ensures
            final(self).wf(),
            final(self)@ == with_content(old(self)@, brightness_content_spec(current, max, show_percentage)),
    {
        self.content = brightness_content(current, max, show_percentage);
    }

    /// Replaces the row with that of a media player change: the player's icon and an optional label.
    ///
    /// The row only changes here: once the toolkit has laid it out, `run_timeout`
    /// is to follow, which shows the window and re-arms the hide timeout.
    pub fn changed_player(&mut self, icon: &str, label: Option<&str>)
        requires
            old(self).wf(),
        ensures
            final(self).wf(),
            final(self)@ == with_content(old(self)@, player_content_spec(icon, label)),
    {
        self.content = player_content(icon, label);
    }

    /// Replaces the row with that of a keyboard backlight change to `value` of `max`.
    ///
    /// The row only changes here: once the toolkit has laid it out, `run_timeout`
    /// is to follow, which shows the window and re-arms the hide timeout.
    pub fn changed_kbd_backlight(&mut self, value: u32, max: u32)
        requires
            old(self).wf(),
        ensures
            final(self).wf(),
            final(self)@ == with_content(old(self)@, kbd_backlight_content_spec(value, max)),
    {
        self.content = kbd_backlight_content(value, max);
    }

    /// Replaces the row with that of a lock key turning on or off.
    ///
    /// The row only changes here: once the toolkit has laid it out, `run_timeout`
    /// is to follow, which shows the window and re-arms the hide timeout.
    pub fn changed_keylock(&mut self, key: KeysLocks, state: bool)
        requires
            old(self).wf(),
        ensures
            final(self).wf(),
            final(self)@ == with_content(old(self)@, keylock_content_spec(key, state)),
    {
        self.content = keylock_content(key, state);
    }

    /// Replaces the row with a progress bar at a fraction given by the caller, with an
    /// optional text and icon.
    ///
    /// The row only changes here: once the toolkit has laid it out, `run_timeout`
    /// is to follow, which shows the window and re-arms the hide timeout.
    pub fn custom_progress(&mut self, text: Option<String>, icon_name: Option<&str>)
        requires
            old(self).wf(),
        ensures
            final(self).wf(),
            final(self)@ == with_content(old(self)@, custom_progress_content_spec(text, icon_name)),
    {
        self.content = custom_progress_content(text, icon_name);
    }

    /// Replaces the row with a segmented bar of `n_segments` with `value` lit (at most all of
    /// them), with an optional text and icon.
    ///
    /// The row only changes here: once the toolkit has laid it out, `run_timeout`
    /// is to follow, which shows the window and re-arms the hide timeout.
    pub fn custom_segmented_progress(
        &mut self,
        value: u32,
        n_segments: u32,
        text: Option<String>,
        icon_name: Option<&str>,
    )
        requires
            old(self).wf(),
        ensures
            final(self).wf(),
            final(self)@ == with_content(
                old(self)@,
                custom_segmented_content_spec(value, n_segments, text, icon_name),
            ),
    {
        self.content = custom_segmented_content(value, n_segments, text, icon_name);
    }

    /// Replaces the row with a message, with an optional icon.
    ///
    /// The row only changes here: once the toolkit has laid it out, `run_timeout`
    /// is to follow, which shows the window and re-arms the hide timeout.
    pub fn custom_message(&mut self, message: &str, icon_name: Option<&str>)
        requires
            old(self).wf(),
        ensures
            final(self).wf(),
            final(self)@ == with_content(old(self)@, custom_message_content_spec(message, icon_name)),
    {
        self.content = custom_message_content(message, icon_name);
    }

    fn remove_animation(&mut self, effects: &mut Vec<Effect>)
        ensures
            final(self)@ == remove_animation_spec(old(self)@).0,
            final(effects)@ == old(effects)@ + remove_animation_spec(old(self)@).1,
    {
        if self.animation.is_some() {
            self.animation = None;
            effects.push(Effect::CancelAnimation);
        }
        assert(effects@ =~= old(effects)@ + remove_animation_spec(old(self)@).1);
    }

    fn show_at_margin(&mut self, margin: i32, effects: &mut Vec<Effect>)
        ensures
            final(self)@ == show_at_margin_spec(old(self)@, margin).0,
            final(effects)@ == old(effects)@ + show_at_margin_spec(old(self)@, margin).1,
    {
        self.remove_animation(effects);
        self.margin = margin;
        self.visible = true;
        effects.push(Effect::SetMargin { margin });
        effects.push(Effect::Show);
        assert(effects@ =~= old(effects)@ + show_at_margin_spec(old(self)@, margin).1);
    }

    fn animate(
        &mut self,
        from: i32,
        duration_ms: u64,
        hide_after: bool,
        goal: MarginGoal,
        to: i32,
        fps: u64,
        effects: &mut Vec<Effect>,
    )
        requires
            from != to ==> fps > 0,
        ensures
            final(self)@ == animate_spec(old(self)@, from, duration_ms, hide_after, goal, to, fps).0,
            final(effects)@ == old(effects)@ + animate_spec(
                old(self)@,
                from,
                duration_ms,
                hide_after,
                goal,
                to,
                fps,
            ).1,
    {
        self.remove_animation(effects);
        if from == to {
            self.margin = to;
            effects.push(Effect::SetMargin { margin: to });
            if hide_after {
                self.visible = false;
                effects.push(Effect::Hide);
            }
        } else {
            let interval_ms = frame_interval_ms(fps);
            self.animation = Some(Animation { from, duration_ms, hide_after, goal });
            effects.push(Effect::StartAnimation { interval_ms });
        }
        assert(effects@ =~= old(effects)@ + animate_spec(
            old(self)@,
            from,
            duration_ms,
            hide_after,
            goal,
            to,
            fps,
        ).1);
    }

    fn slide_in(&mut self, p: ShowParams, effects: &mut Vec<Effect>)
        requires
            (p.slide && p.slide_duration_ms != 0) ==> {
                &&& hidden_margin_fits(p.window_height, p.offscreen_padding)
                &&& hidden_of(p.window_height, p.offscreen_padding) != p.target_margin ==> p.fps > 0
            },
        ensures
            final(self)@ == slide_in_spec(old(self)@, p).0,
            final(effects)@ == old(effects)@ + slide_in_spec(old(self)@, p).1,
    {
        if !p.slide || p.slide_duration_ms == 0 {
            self.show_at_margin(p.target_margin, effects);
        } else {
            let hidden = hidden_bottom_margin(p.window_height, p.offscreen_padding);
            self.margin = hidden;
            self.visible = true;
            effects.push(Effect::SetMargin { margin: hidden });
            effects.push(Effect::Show);
            self.animate(
                hidden,
                p.slide_duration_ms,
                false,
                MarginGoal::Shown,
                p.target_margin,
                p.fps,
                effects,
            );
            assert(effects@ =~= old(effects)@ + slide_in_spec(old(self)@, p).1);
        }
    }

    /// Shows the new content, after one of the row-changing steps and the
    /// toolkit's layout of the row: replaces the pending hide timeout with a fresh
    /// one, keeps a shown window in place at the target margin, and slides a
    /// hidden one in. Returns what the toolkit is to do, in order.
    pub fn run_timeout(&mut self, p: ShowParams) -> (effects: Vec<Effect>)
        requires
            old(self).wf(),
            run_timeout_ok(old(self)@, p),
        ensures
            final(self).wf(),
            (final(self)@, effects@) == run_timeout_spec(old(self)@, p),
            final(self)@.visible,
            final(self)@.timeout_armed,
    {
        let mut effects: Vec<Effect> = Vec::new();
        if self.timeout_armed {
            effects.push(Effect::CancelTimeout);
        }
        effects.push(Effect::ArmTimeout { after_ms: p.timeout_ms });
        let was_visible = self.visible;
        self.timeout_armed = true;
        let ghost s0 = self@;
        let ghost e0 = effects@;
        if was_visible {
            self.show_at_margin(p.target_margin, &mut effects);
        } else {
            self.slide_in(p, &mut effects);
        }
        proof {
            let r = run_timeout_spec(old(self)@, p);
            assert(s0 == WindowState { timeout_armed: true, ..old(self)@ });
            assert(e0 =~= (if old(self)@.timeout_armed {
                seq![Effect::CancelTimeout]
            } else {
                seq![]
            }).push(Effect::ArmTimeout { after_ms: p.timeout_ms }));
            assert(effects@ =~= r.1);
        }
        effects
    }

    /// The display timeout has elapsed: the window slides out (or is hidden
    /// at once). Returns what the toolkit is to do, in order.
    pub fn timeout_elapsed(&mut self, p: HideParams) -> (effects: Vec<Effect>)
        requires
            old(self).wf(),
            timeout_elapsed_ok(old(self)@, p),
        ensures
            final(self).wf(),
            (final(self)@, effects@) == timeout_elapsed_spec(old(self)@, p),
            !final(self)@.timeout_armed,
    {
        let mut effects: Vec<Effect> = Vec::new();
        self.timeout_armed = false;
        if !p.slide || p.hide_duration_ms == 0 {
            self.remove_animation(&mut effects);
            self.visible = false;
            effects.push(Effect::Hide);
        } else {
            let hidden = hidden_bottom_margin(p.window_height, p.offscreen_padding);
            let from = self.margin;
            self.animate(from, p.hide_duration_ms, true, MarginGoal::Hidden, hidden, p.fps, &mut effects);
        }
        assert(effects@ =~= timeout_elapsed_spec(old(self)@, p).1);
        effects
    }

    /// An animation frame, `p.elapsed_ms` after the animation started.
    /// Returns what the toolkit is to do, in order; the frame source stops
    /// when the effects end with `EndAnimation`.
    pub fn animation_tick(&mut self, p: TickParams) -> (effects: Vec<Effect>)
        requires
            old(self).wf(),
            tick_ok(old(self)@, p),
        ensures
            final(self).wf(),
            (final(self)@, effects@) == tick_spec(old(self)@, p),
    {
        let mut effects: Vec<Effect> = Vec::new();
        match self.animation {
            None => {},
            Some(a) => {
                let to = match a.goal {
                    MarginGoal::Shown => p.target_margin,
                    MarginGoal::Hidden => hidden_bottom_margin(p.window_height, p.offscreen_padding),
                };
                let m = eased_margin(a.from, to, p.elapsed_ms, a.duration_ms);
                effects.push(Effect::SetMargin { margin: m });
                if p.elapsed_ms >= a.duration_ms {
                    effects.push(Effect::SetMargin { margin: to });
                    self.margin = to;
                    if a.hide_after {
                        self.visible = false;
                        effects.push(Effect::Hide);
                    }
                    self.animation = None;
                    effects.push(Effect::EndAnimation);
                } else {
                    self.margin = m;
                }
            },
        }
        assert(effects@ =~= tick_spec(old(self)@, p).1);
        effects
    }

    /// Closes the window, cancelling its animation.
    pub fn close(&mut self) -> (effects: Vec<Effect>)
        requires
            old(self).wf(),
        ensures
            final(self).wf(),
            (final(self)@, effects@) == close_spec(old(self)@),
    {
        let mut effects: Vec<Effect> = Vec::new();
        self.remove_animation(&mut effects);
        self.visible = false;
        effects.push(Effect::CloseWindow);
        effects
    }

    /// Moves the window to a new target margin, after a change of the screen's
    /// geometry or of the window's scale.
    pub fn reposition(&mut self, target_margin: i32) -> (effects: Vec<Effect>)
        requires
            old(self).wf(),
        ensures
            final(self).wf(),
            (final(self)@, effects@) == reposition_spec(old(self)@, target_margin),
    {
        self.margin = target_margin;
        let mut effects: Vec<Effect> = Vec::new();
        effects.push(Effect::SetMargin { margin: target_margin });
        assert(effects@ =~= seq![Effect::SetMargin { margin: target_margin }]);
        effects
    }
}

} // verus!
