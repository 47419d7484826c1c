use swayosd::content::{
    brightness_content, brightness_percent, custom_message_content, custom_progress_content,
    custom_segmented_content, kbd_backlight_content, label_end_margin, keylock_content, player_content,
    volume_content, volume_icon_name, volume_icon_state, volume_percent, KeysLocks,
    ProgressFraction, VolumeDeviceType, VolumeIconState, Widget,
};
use swayosd::text::{decimal_string, percent_string};

fn icon(name: &str, sensitive: bool) -> Widget {
    Widget::Icon { name: name.to_string(), sensitive }
}

fn label(text: Option<&str>, width_chars: i32, hexpand: bool, balance_icon: bool) -> Widget {
    Widget::Label { text: text.map(|t| t.to_string()), width_chars, hexpand, balance_icon }
}

fn ratio(numerator: u64, denominator: u64, sensitive: bool) -> Widget {
    Widget::Progress { fraction: ProgressFraction::Ratio { numerator, denominator }, sensitive }
}

#[test]
fn decimal_text_of_numbers() {
    assert_eq!(decimal_string(0), "0");
    assert_eq!(decimal_string(7), "7");
    assert_eq!(decimal_string(10), "10");
    assert_eq!(decimal_string(1234567890), "1234567890");
    assert_eq!(decimal_string(u64::MAX), u64::MAX.to_string());
    assert_eq!(percent_string(42), "42%");
    assert_eq!(percent_string(100), "100%");
}

#[test]
fn volume_percent_rounds_to_nearest() {
    assert_eq!(volume_percent(0), 0);
    assert_eq!(volume_percent(0x10000), 100);
    assert_eq!(volume_percent(0x8000), 50);
    // 100 * 327 / 65536 = 0.4989...
    assert_eq!(volume_percent(327), 0);
    // 100 * 328 / 65536 = 0.5004...
    assert_eq!(volume_percent(328), 1);
    assert_eq!(volume_percent(u32::MAX), 6_553_600);
    for raw in [1u32, 655, 1000, 21845, 43690, 65535, 98304, 200000] {
        let expected = (100.0 * raw as f64 / 65536.0).round() as u64;
        assert_eq!(volume_percent(raw), expected);
    }
}

#[test]
fn volume_icon_levels() {
    let (sink, source) = (VolumeDeviceType::Sink, VolumeDeviceType::Source);
    assert_eq!(volume_icon_state(sink, true, 50), VolumeIconState::Muted);
    assert_eq!(volume_icon_state(sink, false, 0), VolumeIconState::Muted);
    assert_eq!(volume_icon_state(sink, false, 1), VolumeIconState::Low);
    assert_eq!(volume_icon_state(sink, false, 33), VolumeIconState::Low);
    assert_eq!(volume_icon_state(sink, false, 34), VolumeIconState::Medium);
    assert_eq!(volume_icon_state(sink, false, 66), VolumeIconState::Medium);
    assert_eq!(volume_icon_state(sink, false, 67), VolumeIconState::High);
    assert_eq!(volume_icon_state(sink, false, 100), VolumeIconState::High);
    assert_eq!(volume_icon_state(sink, false, 101), VolumeIconState::High);
    assert_eq!(volume_icon_state(source, false, 101), VolumeIconState::Overamplified);
    assert_eq!(volume_icon_state(source, false, 100), VolumeIconState::High);
    assert_eq!(volume_icon_name(sink, VolumeIconState::Low), "sink-volume-low-symbolic");
    assert_eq!(
        volume_icon_name(source, VolumeIconState::Overamplified),
        "source-volume-overamplified-symbolic"
    );
    assert_eq!(volume_icon_name(source, VolumeIconState::Muted), "source-volume-muted-symbolic");
}

#[test]
fn volume_row() {
    let row = volume_content(VolumeDeviceType::Sink, false, 0x8000, 100, true);
    assert_eq!(
        row,
        vec![
            icon("sink-volume-medium-symbolic", true),
            ratio(50, 100, true),
            label(Some("50%"), 5, false, false),
        ]
    );
    let row = volume_content(VolumeDeviceType::Source, true, 0x18000, 150, false);
    assert_eq!(row, vec![icon("source-volume-muted-symbolic", true), ratio(150, 150, false)]);
}

#[test]
fn brightness_percentages() {
    assert_eq!(brightness_percent(0, 100), 0);
    assert_eq!(brightness_percent(50, 100), 50);
    assert_eq!(brightness_percent(1, 3), 33);
    assert_eq!(brightness_percent(2, 3), 67);
    assert_eq!(brightness_percent(1, 200), 1);
    assert_eq!(brightness_percent(100, 100), 100);
    assert_eq!(brightness_percent(0, 0), 0);
    assert_eq!(brightness_percent(5, 0), i32::MAX as u64);
    assert_eq!(brightness_percent(u32::MAX, 1), i32::MAX as u64);
    let row = brightness_content(96000, 120000, true);
    assert_eq!(
        row,
        vec![
            icon("display-brightness-symbolic", true),
            ratio(96000, 120000, true),
            label(Some("80%"), 5, false, false),
        ]
    );
    let row = brightness_content(3, 4, false);
    assert_eq!(row, vec![icon("display-brightness-symbolic", true), ratio(3, 4, true)]);
}

#[test]
fn player_row() {
    let row = player_content("media-playback-start-symbolic", Some("Artist - Title"));
    assert_eq!(
        row,
        vec![icon("media-playback-start-symbolic", true), label(Some("Artist - Title"), -1, true, false)]
    );
    let row = player_content("media-playback-pause-symbolic", None);
    assert_eq!(row, vec![icon("media-playback-pause-symbolic", true), label(None, -1, true, false)]);
}

#[test]
fn keyboard_backlight_rows() {
    assert_eq!(
        kbd_backlight_content(0, 3),
        vec![
            icon("keyboard-brightness-off-symbolic", true),
            Widget::Segmented { value: 0, n_segments: 3 },
        ]
    );
    assert_eq!(
        kbd_backlight_content(2, 3),
        vec![
            icon("keyboard-brightness-medium-symbolic", true),
            Widget::Segmented { value: 2, n_segments: 3 },
        ]
    );
    assert_eq!(
        kbd_backlight_content(9, 3),
        vec![
            icon("keyboard-brightness-high-symbolic", true),
            Widget::Segmented { value: 3, n_segments: 3 },
        ]
    );
    assert_eq!(
        kbd_backlight_content(5, 10),
        vec![icon("keyboard-brightness-medium-symbolic", true), ratio(5, 10, true)]
    );
    assert_eq!(
        kbd_backlight_content(10, 10),
        vec![icon("keyboard-brightness-high-symbolic", true), ratio(10, 10, true)]
    );
    assert_eq!(
        kbd_backlight_content(12, 10),
        vec![icon("keyboard-brightness-high-symbolic", true), ratio(10, 10, true)]
    );
    assert_eq!(
        kbd_backlight_content(0, 5),
        vec![icon("keyboard-brightness-off-symbolic", true), ratio(0, 5, true)]
    );
    assert_eq!(
        kbd_backlight_content(0, 0),
        vec![
            icon("keyboard-brightness-off-symbolic", true),
            Widget::Segmented { value: 0, n_segments: 0 },
        ]
    );
}

#[test]
fn lock_key_rows() {
    assert_eq!(
        keylock_content(KeysLocks::CapsLock, true),
        vec![icon("caps-lock-symbolic", true), label(Some("Caps Lock On"), -1, true, false)]
    );
    assert_eq!(
        keylock_content(KeysLocks::NumLock, false),
        vec![icon("num-lock-symbolic", false), label(Some("Num Lock Off"), -1, true, false)]
    );
    assert_eq!(
        keylock_content(KeysLocks::ScrollLock, true),
        vec![icon("scroll-lock-symbolic", true), label(Some("Scroll Lock On"), -1, true, false)]
    );
}

#[test]
fn custom_rows() {
    assert_eq!(
        custom_progress_content(Some("Loading".to_string()), Some("folder-symbolic")),
        vec![
            icon("folder-symbolic", true),
            Widget::Progress { fraction: ProgressFraction::Given, sensitive: true },
            label(Some("Loading"), -1, false, false),
        ]
    );
    assert_eq!(
        custom_progress_content(None, None),
        vec![Widget::Progress { fraction: ProgressFraction::Given, sensitive: true }]
    );
    assert_eq!(
        custom_segmented_content(7, 4, None, Some("x-symbolic")),
        vec![icon("x-symbolic", true), Widget::Segmented { value: 4, n_segments: 4 }]
    );
    assert_eq!(
        custom_segmented_content(2, 4, Some("two".to_string()), None),
        vec![Widget::Segmented { value: 2, n_segments: 4 }, label(Some("two"), -1, false, false)]
    );
    assert_eq!(
        custom_message_content("Hello", Some("dialog-information-symbolic")),
        vec![icon("dialog-information-symbolic", true), label(Some("Hello"), -1, true, true)]
    );
    assert_eq!(custom_message_content("Hello", None), vec![label(Some("Hello"), -1, true, false)]);
}

#[test]
fn message_end_margin_balances_the_icon() {
    assert_eq!(label_end_margin(32, 0, 0, 12), 44);
    assert_eq!(label_end_margin(32, 4, 6, 12), 54);
    assert_eq!(label_end_margin(0, 0, 0, 0), 0);
}
