use swayosd::content::{KeysLocks, VolumeDeviceType, Widget};
use swayosd::slide::{allocated_height, eased_margin, frame_interval_ms, hidden_bottom_margin};
use swayosd::window::{Animation, Effect, HideParams, MarginGoal, ShowParams, SwayosdWindow, TickParams};

fn show(slide: bool, target: i32, height: i32) -> ShowParams {
    ShowParams {
        timeout_ms: 1500,
        slide,
        slide_duration_ms: 250,
        fps: 60,
        target_margin: target,
        window_height: height,
        offscreen_padding: 20,
    }
}

fn hide_params(slide: bool, height: i32) -> HideParams {
    HideParams { slide, hide_duration_ms: 200, fps: 60, window_height: height, offscreen_padding: 20 }
}

fn tick(elapsed_ms: u64, target: i32, height: i32) -> TickParams {
    TickParams { elapsed_ms, target_margin: target, window_height: height, offscreen_padding: 20 }
}

#[test]
fn eased_margin_frames() {
    assert_eq!(eased_margin(-100, 50, 0, 250), -100);
    assert_eq!(eased_margin(-100, 50, 100, 250), 18);
    assert_eq!(eased_margin(-100, 50, 250, 250), 50);
    assert_eq!(eased_margin(-100, 50, 10_000, 250), 50);
    assert_eq!(eased_margin(50, -100, 100, 250), -68);
    assert_eq!(eased_margin(0, 10, 5, 0), 10);
    // the midpoint of a cubic ease-out is 7/8 of the way
    assert_eq!(eased_margin(0, 800, 50, 100), 700);
    // exact halves round away from zero: 0 + 4 * 7/8 = 3.5
    assert_eq!(eased_margin(0, 4, 50, 100), 4);
    assert_eq!(eased_margin(0, -4, 50, 100), -4);
    assert_eq!(eased_margin(i32::MIN, i32::MAX, 1, 0x8000_0000), -2147483642);
    assert_eq!(eased_margin(i32::MIN, i32::MAX, 0, 0x8000_0000), i32::MIN);
    // any length of animation, down to the last millisecond
    assert_eq!(eased_margin(-100, 50, 1, u64::MAX), -100);
    assert_eq!(eased_margin(-100, 50, u64::MAX / 2, u64::MAX), 31);
    assert_eq!(eased_margin(i32::MIN, i32::MAX, u64::MAX - 1, u64::MAX), i32::MAX);
    assert_eq!(eased_margin(i32::MAX, i32::MIN, u64::MAX / 3, u64::MAX), -874900746);
    assert_eq!(eased_margin(0, 1, 0, u64::MAX), 0);
    assert_eq!(eased_margin(0, 1, u64::MAX, u64::MAX), 1);
    let mut last = -300;
    for e in 0..=300 {
        let m = eased_margin(-300, 900, e, 300);
        assert!(m >= last && m <= 900);
        let exact = -300.0 + 1200.0 * (1.0 - (1.0 - e as f64 / 300.0).powi(3));
        assert!((m as f64 - exact).abs() <= 0.5 + 1e-9);
        last = m;
    }
}

#[test]
fn margins_and_intervals() {
    assert_eq!(hidden_bottom_margin(80, 20), -100);
    assert_eq!(hidden_bottom_margin(0, 20), -21);
    assert_eq!(hidden_bottom_margin(-5, 0), -1);
    assert_eq!(frame_interval_ms(60), 16);
    assert_eq!(frame_interval_ms(1000), 1);
    assert_eq!(frame_interval_ms(5000), 1);
    assert_eq!(frame_interval_ms(1), 1000);
    assert_eq!(allocated_height(40, 30), Some(40));
    assert_eq!(allocated_height(0, 30), Some(30));
    assert_eq!(allocated_height(0, 0), None);
    assert_eq!(allocated_height(-1, -3), None);
}

#[test]
fn first_display_slides_in_then_out() {
    let mut w = SwayosdWindow::new(700);
    assert!(!w.is_visible());
    assert_eq!(w.margin(), 700);
    w.changed_keylock(KeysLocks::CapsLock, true);
    assert_eq!(w.content().len(), 2);
    let effects = w.run_timeout(show(true, 700, 80));
    assert_eq!(
        effects,
        vec![
            Effect::ArmTimeout { after_ms: 1500 },
            Effect::SetMargin { margin: -100 },
            Effect::Show,
            Effect::StartAnimation { interval_ms: 16 },
        ]
    );
    assert!(w.is_visible());
    assert!(w.is_timeout_armed());
    assert_eq!(
        w.animation(),
        Some(Animation { from: -100, duration_ms: 250, hide_after: false, goal: MarginGoal::Shown })
    );
    // a frame in the middle
    let effects = w.animation_tick(tick(100, 700, 80));
    assert_eq!(effects, vec![Effect::SetMargin { margin: 527 }]);
    assert_eq!(w.margin(), 527);
    // the last frame settles at the target
    let effects = w.animation_tick(tick(251, 700, 80));
    assert_eq!(
        effects,
        vec![Effect::SetMargin { margin: 700 }, Effect::SetMargin { margin: 700 }, Effect::EndAnimation]
    );
    assert_eq!(w.animation(), None);
    assert!(w.is_visible());
    // the timeout slides the window out and hides it at the end
    let effects = w.timeout_elapsed(hide_params(true, 80));
    assert_eq!(effects, vec![Effect::StartAnimation { interval_ms: 16 }]);
    assert!(!w.is_timeout_armed());
    let effects = w.animation_tick(tick(200, 700, 80));
    assert_eq!(
        effects,
        vec![
            Effect::SetMargin { margin: -100 },
            Effect::SetMargin { margin: -100 },
            Effect::Hide,
            Effect::EndAnimation,
        ]
    );
    assert!(!w.is_visible());
    assert_eq!(w.margin(), -100);
}

#[test]
fn new_content_on_shown_window_stays_in_place() {
    let mut w = SwayosdWindow::new(700);
    w.changed_kbd_backlight(1, 3);
    let _ = w.run_timeout(show(false, 700, 80));
    assert!(w.is_visible());
    w.changed_volume(VolumeDeviceType::Sink, false, 0x10000, 100, true);
    let effects = w.run_timeout(show(true, 690, 80));
    assert_eq!(
        effects,
        vec![
            Effect::CancelTimeout,
            Effect::ArmTimeout { after_ms: 1500 },
            Effect::SetMargin { margin: 690 },
            Effect::Show,
        ]
    );
    assert_eq!(w.animation(), None);
}

#[test]
fn new_content_during_slide_out_cancels_it() {
    let mut w = SwayosdWindow::new(700);
    w.custom_message("hi", None);
    let _ = w.run_timeout(show(false, 700, 80));
    let effects = w.timeout_elapsed(hide_params(true, 80));
    assert_eq!(effects, vec![Effect::StartAnimation { interval_ms: 16 }]);
    let effects = w.animation_tick(tick(50, 700, 80));
    assert_eq!(effects.len(), 1);
    assert!(w.is_visible());
    let effects = w.run_timeout(show(true, 700, 80));
    assert_eq!(
        effects,
        vec![
            Effect::ArmTimeout { after_ms: 1500 },
            Effect::CancelAnimation,
            Effect::SetMargin { margin: 700 },
            Effect::Show,
        ]
    );
    assert_eq!(w.animation(), None);
}

#[test]
fn without_slide_the_window_appears_and_disappears() {
    let mut w = SwayosdWindow::new(500);
    w.changed_player("media-playback-start-symbolic", Some("Song"));
    let effects = w.run_timeout(show(false, 500, 60));
    assert_eq!(
        effects,
        vec![Effect::ArmTimeout { after_ms: 1500 }, Effect::SetMargin { margin: 500 }, Effect::Show]
    );
    let effects = w.timeout_elapsed(hide_params(false, 60));
    assert_eq!(effects, vec![Effect::Hide]);
    assert!(!w.is_visible());
    // a zero-length slide behaves the same
    let mut p = show(true, 500, 60);
    p.slide_duration_ms = 0;
    let effects = w.run_timeout(p);
    assert_eq!(
        effects,
        vec![Effect::ArmTimeout { after_ms: 1500 }, Effect::SetMargin { margin: 500 }, Effect::Show]
    );
}

#[test]
fn slide_between_equal_margins_settles_at_once() {
    let mut w = SwayosdWindow::new(-100);
    w.changed_brightness(1, 2, false);
    let effects = w.run_timeout(show(true, -100, 80));
    assert_eq!(
        effects,
        vec![
            Effect::ArmTimeout { after_ms: 1500 },
            Effect::SetMargin { margin: -100 },
            Effect::Show,
            Effect::SetMargin { margin: -100 },
        ]
    );
    assert_eq!(w.animation(), None);
}

#[test]
fn close_and_reposition() {
    let mut w = SwayosdWindow::new(700);
    w.custom_segmented_progress(3, 5, None, None);
    let _ = w.run_timeout(show(true, 700, 80));
    assert_eq!(w.reposition(650), vec![Effect::SetMargin { margin: 650 }]);
    assert_eq!(w.margin(), 650);
    assert_eq!(w.close(), vec![Effect::CancelAnimation, Effect::CloseWindow]);
    assert!(!w.is_visible());
    assert_eq!(w.close(), vec![Effect::CloseWindow]);
    // a tick without an animation does nothing
    assert_eq!(w.animation_tick(tick(10, 700, 80)), vec![]);
}

#[test]
fn content_is_replaced() {
    let mut w = SwayosdWindow::new(0);
    w.custom_progress(Some("x".to_string()), Some("i"));
    assert_eq!(w.content().len(), 3);
    w.custom_message("m", Some("i"));
    assert_eq!(
        w.content(),
        &vec![
            Widget::Icon { name: "i".to_string(), sensitive: true },
            Widget::Label { text: Some("m".to_string()), width_chars: -1, hexpand: true, balance_icon: true },
        ]
    );
}
