//! What the display shows for each kind of event: a row of widgets (icons,
//! labels and progress bars), left to right, with the texts, icon names and
//! fractions that they carry.
use vstd::prelude::*;
use crate::text::{percent_string, percent_text};

verus! {

/// Pixel size of every icon on the display.
pub const ICON_SIZE: i32 = 32;

/// Whether a volume change concerns an output (sink) or an input (source).
#[derive(Clone, Copy, Debug, PartialEq, Eq, Structural)]
pub enum VolumeDeviceType {
    Sink,
    Source,
}

/// The lock keys whose state the display reports.
#[derive(Clone, Copy, Debug, PartialEq, Eq, Structural)]
pub enum KeysLocks {
    CapsLock,
    NumLock,
    ScrollLock,
}

/// The level that a volume icon shows.
#[derive(Clone, Copy, Debug, PartialEq, Eq, Structural)]
pub enum VolumeIconState {
    Muted,
    Low,
    Medium,
    High,
    Overamplified,
}

/// The fraction that a progress bar shows.
#[derive(Clone, Copy, Debug, PartialEq, Eq, Structural)]
pub enum ProgressFraction {
    /// `numerator / denominator`, computed by the bar in floating point
    /// (so a zero denominator gives an infinite or undefined fraction, which
    /// the bar clamps as it does any other).
    Ratio { numerator: u64, denominator: u64 },
    /// The fraction that the caller of a custom progress display gave,
    /// clamped to `[0, 1]`.
    Given,
}

/// One widget of the display's row.
#[derive(Debug, PartialEq, Eq)]
pub enum Widget {
    /// A themed icon of `ICON_SIZE` pixels, falling back to "missing-symbolic".
    Icon { name: String, sensitive: bool },
    /// A centred text; `width_chars` is the minimum width in characters
    /// (`-1` for none); `balance_icon` asks for an end margin as wide as the
    /// icon before it, so that the text stays centred on the display.
    Label { text: Option<String>, width_chars: i32, hexpand: bool, balance_icon: bool },
    /// A continuous progress bar, vertically centred, filling the free width.
    Progress { fraction: ProgressFraction, sensitive: bool },
    /// A progress bar cut into `n_segments` segments of which `value` are lit.
    Segmented { value: u32, n_segments: u32 },
}

/// A widget with its texts as character sequences.
pub enum WidgetView {
    Icon { name: Seq<char>, sensitive: bool },
    Label { text: Option<Seq<char>>, width_chars: i32, hexpand: bool, balance_icon: bool },
    Progress { fraction: ProgressFraction, sensitive: bool },
    Segmented { value: u32, n_segments: u32 },
}

/// The characters of an optional text.
pub open spec fn text_view(t: Option<String>) -> Option<Seq<char>> {
    match t {
        Some(s) => Some(s@),
        None => None,
    }
}

/// The characters of an optional borrowed text.
pub open spec fn str_view(t: Option<&str>) -> Option<Seq<char>> {
    match t {
        Some(s) => Some(s@),
        None => None,
    }
}

impl View for Widget {
    type V = WidgetView;

    open spec fn view(&self) -> WidgetView {
        match self {
            Widget::Icon { name, sensitive } => WidgetView::Icon { name: name@, sensitive: *sensitive },
            Widget::Label { text, width_chars, hexpand, balance_icon } => WidgetView::Label {
                text: text_view(*text),
                width_chars: *width_chars,
                hexpand: *hexpand,
                balance_icon: *balance_icon,
            },
            Widget::Progress { fraction, sensitive } => WidgetView::Progress {
                fraction: *fraction,
                sensitive: *sensitive,
            },
            Widget::Segmented { value, n_segments } => WidgetView::Segmented {
                value: *value,
                n_segments: *n_segments,
            },
        }
    }
}

/// The views of a row of widgets.
pub open spec fn widgets_view(ws: Seq<Widget>) -> Seq<WidgetView> {
    ws.map_values(|w: Widget| w@)
}

/// A sensitive icon.
pub open spec fn icon_view(name: Seq<char>) -> WidgetView {
    WidgetView::Icon { name, sensitive: true }
}

/// A label without minimum width that does not expand.
pub open spec fn plain_label_view(text: Option<Seq<char>>) -> WidgetView {
    WidgetView::Label { text, width_chars: -1i32, hexpand: false, balance_icon: false }
}

/// A label that takes the free width.
pub open spec fn wide_label_view(text: Option<Seq<char>>) -> WidgetView {
    WidgetView::Label { text, width_chars: -1i32, hexpand: true, balance_icon: false }
}

/// A percentage label, at least four characters (plus one) wide.
pub open spec fn percent_label_view(n: nat) -> WidgetView {
    WidgetView::Label { text: Some(percent_text(n)), width_chars: 5, hexpand: false, balance_icon: false }
}

/// An icon when a name is given, nothing otherwise.
pub open spec fn optional_icon_view(name: Option<&str>) -> Seq<WidgetView> {
    match name {
        Some(n) => seq![icon_view(n@)],
        None => seq![],
    }
}

/// A plain label when a text is given, nothing otherwise.
pub open spec fn optional_label_view(text: Option<String>) -> Seq<WidgetView> {
    match text {
        Some(t) => seq![plain_label_view(Some(t@))],
        None => seq![],
    }
}

// ---------------------------------------------------------------- volume

/// Whole percent of a PulseAudio volume (`0x10000` is 100%), rounded to the
/// nearest integer, halves up.
pub open spec fn volume_percent_spec(raw: int) -> int {
    (100 * raw + 32768) / 65536
}

/// The level of the volume icon.
pub open spec fn volume_state_spec(kind: VolumeDeviceType, mute: bool, percent: int) -> VolumeIconState {
    if mute || percent == 0 {
        VolumeIconState::Muted
    } else if percent <= 33 {
        VolumeIconState::Low
    } else if percent <= 66 {
        VolumeIconState::Medium
    } else if percent <= 100 {
        VolumeIconState::High
    } else {
        match kind {
            VolumeDeviceType::Sink => VolumeIconState::High,
            VolumeDeviceType::Source => VolumeIconState::Overamplified,
        }
    }
}

/// "sink" or "source".
pub open spec fn volume_prefix(kind: VolumeDeviceType) -> Seq<char> {
    match kind {
        VolumeDeviceType::Sink => "sink"@,
        VolumeDeviceType::Source => "source"@,
    }
}

/// The word of a volume level in an icon name.
pub open spec fn volume_state_word(state: VolumeIconState) -> Seq<char> {
    match state {
        VolumeIconState::Muted => "muted"@,
        VolumeIconState::Low => "low"@,
        VolumeIconState::Medium => "medium"@,
        VolumeIconState::High => "high"@,
        VolumeIconState::Overamplified => "overamplified"@,
    }
}

/// `"{sink|source}-volume-{level}-symbolic"`.
pub open spec fn volume_icon_spec(kind: VolumeDeviceType, state: VolumeIconState) -> Seq<char> {
    volume_prefix(kind) + "-volume-"@ + volume_state_word(state) + "-symbolic"@
}

/// The row for a volume change: the volume icon, a bar at `percent / max_volume`
/// that is insensitive while muted, and the percentage when it is to be shown.
pub open spec fn volume_content_spec(
    kind: VolumeDeviceType,
    mute: bool,
    raw_volume: u32,
    max_volume: u8,
    show_percentage: bool,
) -> Seq<WidgetView> {
    let p = volume_percent_spec(raw_volume as int);
    seq![
        icon_view(volume_icon_spec(kind, volume_state_spec(kind, mute, p))),
        WidgetView::Progress {
            fraction: ProgressFraction::Ratio { numerator: p as u64, denominator: max_volume as u64 },
            sensitive: !mute,
        },
    ] + if show_percentage { seq![percent_label_view(p as nat)] } else { seq![] }
}

/// Whole percent of a PulseAudio volume (`0x10000` is 100%), rounded to the
/// nearest integer, halves up.
pub fn volume_percent(raw: u32) -> (p: u64)
    ensures
        p == volume_percent_spec(raw as int),
        p <= 6_553_600,
{
    (100 * (raw as u64) + 32768) / 65536
}

/// The level that the volume icon shows for a volume of `percent`.
pub fn volume_icon_state(kind: VolumeDeviceType, mute: bool, percent: u64) -> (s: VolumeIconState)
    ensures
        s == volume_state_spec(kind, mute, percent as int),
{
    if mute || percent == 0 {
        VolumeIconState::Muted
    } else if percent <= 33 {
        VolumeIconState::Low
    } else if percent <= 66 {
        VolumeIconState::Medium
    } else if percent <= 100 {
        VolumeIconState::High
    } else {
        match kind {
            VolumeDeviceType::Sink => VolumeIconState::High,
            VolumeDeviceType::Source => VolumeIconState::Overamplified,
        }
    }
}

/// The name of the volume icon, as in `"sink-volume-low-symbolic"`.
pub fn volume_icon_name(kind: VolumeDeviceType, state: VolumeIconState) -> (name: String)
    ensures
        name@ == volume_icon_spec(kind, state),
{
    let mut name = match kind {
        VolumeDeviceType::Sink => String::from_str("sink"),
        VolumeDeviceType::Source => String::from_str("source"),
    };
    name.append("-volume-");
    match state {
        VolumeIconState::Muted => name.append("muted"),
        VolumeIconState::Low => name.append("low"),
        VolumeIconState::Medium => name.append("medium"),
        VolumeIconState::High => name.append("high"),
        VolumeIconState::Overamplified => name.append("overamplified"),
    }
    name.append("-symbolic");
    name
}

fn icon(name: String) -> (w: Widget)
    ensures
        w@ == icon_view(name@),
{
    Widget::Icon { name, sensitive: true }
}

fn optional_icon(name: Option<&str>, row: &mut Vec<Widget>)
    ensures
        widgets_view(final(row)@) == widgets_view(old(row)@) + optional_icon_view(name),
{
    let ghost before = widgets_view(row@);
    match name {
        Some(n) => {
            row.push(icon(String::from_str(n)));
        },
        None => {},
    }
    assert(widgets_view(row@) =~= before + optional_icon_view(name));
}

fn optional_label(text: Option<String>, row: &mut Vec<Widget>)
    ensures
        widgets_view(final(row)@) == widgets_view(old(row)@) + optional_label_view(text),
{
    let ghost before = widgets_view(row@);
    let ghost t = text;
    match text {
        Some(s) => {
            row.push(Widget::Label { text: Some(s), width_chars: -1, hexpand: false, balance_icon: false });
        },
        None => {},
    }
    assert(widgets_view(row@) =~= before + optional_label_view(t));
}

fn owned_text(t: Option<&str>) -> (r: Option<String>)
    ensures
        text_view(r) == str_view(t),
{
    match t {
        Some(s) => Some(String::from_str(s)),
        None => None,
    }
}

/// The row for a volume change.
pub fn volume_content(
    kind: VolumeDeviceType,
    mute: bool,
    raw_volume: u32,
    max_volume: u8,
    show_percentage: bool,
) -> (row: Vec<Widget>)
    ensures
        widgets_view(row@) == volume_content_spec(kind, mute, raw_volume, max_volume, show_percentage),
{
    let percent = volume_percent(raw_volume);
    let state = volume_icon_state(kind, mute, percent);
    let mut row: Vec<Widget> = Vec::new();
    row.push(icon(volume_icon_name(kind, state)));
    row.push(
        Widget::Progress {
            fraction: ProgressFraction::Ratio { numerator: percent, denominator: max_volume as u64 },
            sensitive: !mute,
        },
    );
    if show_percentage {
        row.push(
            Widget::Label {
                text: Some(percent_string(percent)),
                width_chars: 5,
                hexpand: false,
                balance_icon: false,
            },
        );
    }
    assert(widgets_view(row@) =~= volume_content_spec(
        kind,
        mute,
        raw_volume,
        max_volume,
        show_percentage,
    ));
    row
}

// ---------------------------------------------------------------- brightness

/// The brightness as a whole percentage of its maximum, rounded to the nearest
/// integer (halves up) and capped at `i32::MAX`; a zero maximum gives 0 for a
/// zero brightness and the cap otherwise.
pub open spec fn brightness_percent_spec(current: int, max: int) -> int {
    if max == 0 {
        if current == 0 { 0 } else { i32::MAX as int }
    } else {
        let r = (200 * current + max) / (2 * max);
        if r > i32::MAX { i32::MAX as int } else { r }
    }
}

/// The row for a brightness change: the brightness icon, a bar at
/// `current / max`, and the percentage when it is to be shown.
pub open spec fn brightness_content_spec(current: u32, max: u32, show_percentage: bool) -> Seq<
    WidgetView,
> {
    seq![
        icon_view("display-brightness-symbolic"@),
        WidgetView::Progress {
            fraction: ProgressFraction::Ratio { numerator: current as u64, denominator: max as u64 },
            sensitive: true,
        },
    ] + if show_percentage {
        seq![percent_label_view(brightness_percent_spec(current as int, max as int) as nat)]
    } else {
        seq![]
    }
}

/// The brightness as a whole percentage of its maximum.
pub fn brightness_percent(current: u32, max: u32) -> (p: u64)
    ensures
        p == brightness_percent_spec(current as int, max as int),
{
    if max == 0 {
        if current == 0 {
            0
        } else {
            0x7fff_ffff
        }
    } else {
        let r: u64 = (200 * (current as u64) + max as u64) / (2 * (max as u64));
        if r > 0x7fff_ffff {
            0x7fff_ffff
        } else {
            r
        }
    }
}

/// The row for a brightness change.
pub fn brightness_content(current: u32, max: u32, show_percentage: bool) -> (row: Vec<Widget>)
    ensures
        widgets_view(row@) == brightness_content_spec(current, max, show_percentage),
{
    let mut row: Vec<Widget> = Vec::new();
    row.push(icon(String::from_str("display-brightness-symbolic")));
    row.push(
        Widget::Progress {
            fraction: ProgressFraction::Ratio { numerator: current as u64, denominator: max as u64 },
            sensitive: true,
        },
    );
    if show_percentage {
        let p = brightness_percent(current, max);
        row.push(
            Widget::Label {
                text: Some(percent_string(p)),
                width_chars: 5,
                hexpand: false,
                balance_icon: false,
            },
        );
    }
    assert(widgets_view(row@) =~= brightness_content_spec(current, max, show_percentage));
    row
}

// ---------------------------------------------------------------- player

/// The row for a media player change: its icon and a label that takes the
/// free width.
pub open spec fn player_content_spec(icon_name: &str, label: Option<&str>) -> Seq<WidgetView> {
    seq![icon_view(icon_name@), wide_label_view(str_view(label))]
}

/// The row for a media player change.
pub fn player_content(icon_name: &str, label: Option<&str>) -> (row: Vec<Widget>)
    ensures
        widgets_view(row@) == player_content_spec(icon_name, label),
{
    let mut row: Vec<Widget> = Vec::new();
    row.push(icon(String::from_str(icon_name)));
    row.push(Widget::Label { text: owned_text(label), width_chars: -1, hexpand: true, balance_icon: false });
    assert(widgets_view(row@) =~= player_content_spec(icon_name, label));
    row
}

// ---------------------------------------------------------------- keyboard backlight

/// The backlight level, capped at its maximum.
pub open spec fn kbd_level(value: u32, max: u32) -> u32 {
    if value <= max { value } else { max }
}

/// "off" at level 0, "high" at the maximum, "medium" in between.
pub open spec fn kbd_icon_spec(level: u32, max: u32) -> Seq<char> {
    if level == 0 {
        "keyboard-brightness-off-symbolic"@
    } else if level == max {
        "keyboard-brightness-high-symbolic"@
    } else {
        "keyboard-brightness-medium-symbolic"@
    }
}

/// The row for a keyboard backlight change: the icon of the level, then a
/// segmented bar when there are fewer than five levels, and otherwise (a
/// segmented bar of many segments looks cramped) a continuous bar at
/// `level / max`.
pub open spec fn kbd_backlight_content_spec(value: u32, max: u32) -> Seq<WidgetView> {
    let level = kbd_level(value, max);
    seq![
        icon_view(kbd_icon_spec(level, max)),
        if max < 5 {
            WidgetView::Segmented { value: level, n_segments: max }
        } else {
            WidgetView::Progress {
                fraction: ProgressFraction::Ratio { numerator: level as u64, denominator: max as u64 },
                sensitive: true,
            }
        },
    ]
}

/// The row for a keyboard backlight change.
pub fn kbd_backlight_content(value: u32, max: u32) -> (row: Vec<Widget>)
    ensures
        widgets_view(row@) == kbd_backlight_content_spec(value, max),
{
    let level: u32 = if value <= max { value } else { max };
    let name = if level == 0 {
        String::from_str("keyboard-brightness-off-symbolic")
    } else if level == max {
        String::from_str("keyboard-brightness-high-symbolic")
    } else {
        String::from_str("keyboard-brightness-medium-symbolic")
    };
    let mut row: Vec<Widget> = Vec::new();
    row.push(icon(name));
    if max < 5 {
        row.push(Widget::Segmented { value: level, n_segments: max });
    } else {
        row.push(
            Widget::Progress {
                fraction: ProgressFraction::Ratio { numerator: level as u64, denominator: max as u64 },
                sensitive: true,
            },
        );
    }
    assert(widgets_view(row@) =~= kbd_backlight_content_spec(value, max));
    row
}

// ---------------------------------------------------------------- lock keys

/// "Caps Lock ", "Num Lock " or "Scroll Lock ".
pub open spec fn key_words(key: KeysLocks) -> Seq<char> {
    match key {
        KeysLocks::CapsLock => "Caps Lock "@,
        KeysLocks::NumLock => "Num Lock "@,
        KeysLocks::ScrollLock => "Scroll Lock "@,
    }
}

/// The icon of a lock key.
pub open spec fn key_icon_spec(key: KeysLocks) -> Seq<char> {
    match key {
        KeysLocks::CapsLock => "caps-lock-symbolic"@,
        KeysLocks::NumLock => "num-lock-symbolic"@,
        KeysLocks::ScrollLock => "scroll-lock-symbolic"@,
    }
}

/// "On" or "Off".
pub open spec fn on_off(state: bool) -> Seq<char> {
    if state { "On"@ } else { "Off"@ }
}

/// The row for a lock key change: the key's icon, sensitive only while the
/// lock is on, and a label such as "Caps Lock On" that takes the free width.
pub open spec fn keylock_content_spec(key: KeysLocks, state: bool) -> Seq<WidgetView> {
    seq![
        WidgetView::Icon { name: key_icon_spec(key), sensitive: state },
        wide_label_view(Some(key_words(key) + on_off(state))),
    ]
}

/// The row for a lock key change.
pub fn keylock_content(key: KeysLocks, state: bool) -> (row: Vec<Widget>)
    ensures
        widgets_view(row@) == keylock_content_spec(key, state),
{
    let on_off_text = if state {
        "On"
    } else {
        "Off"
    };
    let (mut text, symbol) = match key {
        KeysLocks::CapsLock => (String::from_str("Caps Lock "), "caps-lock-symbolic"),
        KeysLocks::NumLock => (String::from_str("Num Lock "), "num-lock-symbolic"),
        KeysLocks::ScrollLock => (String::from_str("Scroll Lock "), "scroll-lock-symbolic"),
    };
    text.append(on_off_text);
    let mut row: Vec<Widget> = Vec::new();
    row.push(Widget::Icon { name: String::from_str(symbol), sensitive: state });
    row.push(Widget::Label { text: Some(text), width_chars: -1, hexpand: true, balance_icon: false });
    assert(widgets_view(row@) =~= keylock_content_spec(key, state));
    row
}

// ---------------------------------------------------------------- custom displays

/// The row for a custom progress display: the icon if one is named, a bar at
/// the caller's fraction (clamped to `[0, 1]`), and the text if one is given.
pub open spec fn custom_progress_content_spec(text: Option<String>, icon_name: Option<&str>) -> Seq<
    WidgetView,
> {
    optional_icon_view(icon_name) + seq![
        WidgetView::Progress { fraction: ProgressFraction::Given, sensitive: true },
    ] + optional_label_view(text)
}

/// The row for a custom progress display.
pub fn custom_progress_content(text: Option<String>, icon_name: Option<&str>) -> (row: Vec<Widget>)
    ensures
        widgets_view(row@) == custom_progress_content_spec(text, icon_name),
{
    let ghost t = text;
    let mut row: Vec<Widget> = Vec::new();
    optional_icon(icon_name, &mut row);
    let ghost mid = widgets_view(row@);
    row.push(Widget::Progress { fraction: ProgressFraction::Given, sensitive: true });
    assert(widgets_view(row@) =~= mid + seq![
        WidgetView::Progress { fraction: ProgressFraction::Given, sensitive: true },
    ]);
    optional_label(text, &mut row);
    assert(widgets_view(row@) =~= custom_progress_content_spec(t, icon_name));
    row
}

/// The row for a custom segmented progress display: the icon if one is named,
/// a bar of `n_segments` segments with `min(value, n_segments)` lit, and the
/// text if one is given.
pub open spec fn custom_segmented_content_spec(
    value: u32,
    n_segments: u32,
    text: Option<String>,
    icon_name: Option<&str>,
) -> Seq<WidgetView> {
    optional_icon_view(icon_name) + seq![
        WidgetView::Segmented { value: kbd_level(value, n_segments), n_segments },
    ] + optional_label_view(text)
}

/// The row for a custom segmented progress display.
pub fn custom_segmented_content(
    value: u32,
    n_segments: u32,
    text: Option<String>,
    icon_name: Option<&str>,
) -> (row: Vec<Widget>)
    ensures
        widgets_view(row@) == custom_segmented_content_spec(value, n_segments, text, icon_name),
{
    let ghost t = text;
    let mut row: Vec<Widget> = Vec::new();
    optional_icon(icon_name, &mut row);
    let ghost mid = widgets_view(row@);
    let lit: u32 = if value <= n_segments { value } else { n_segments };
    row.push(Widget::Segmented { value: lit, n_segments });
    assert(widgets_view(row@) =~= mid + seq![
        WidgetView::Segmented { value: kbd_level(value, n_segments), n_segments },
    ]);
    optional_label(text, &mut row);
    assert(widgets_view(row@) =~= custom_segmented_content_spec(value, n_segments, t, icon_name));
    row
}

/// The end margin that keeps a message centred beside an icon: the icon's
/// allocated width, its start and end margins, and the spacing of the row.
pub open spec fn label_end_margin_spec(
    icon_width: int,
    icon_margin_start: int,
    icon_margin_end: int,
    spacing: int,
) -> int {
    icon_width + icon_margin_start + icon_margin_end + spacing
}

/// The end margin of a message label that follows an icon (`balance_icon`),
/// so that the text stays centred on the display. Each partial sum, taken
/// left to right, has to fit in an `i32`.
pub fn label_end_margin(icon_width: i32, icon_margin_start: i32, icon_margin_end: i32, spacing: i32) -> (m: i32)
    requires
        i32::MIN <= icon_width + icon_margin_start <= i32::MAX,
        i32::MIN <= icon_width + icon_margin_start + icon_margin_end <= i32::MAX,
        i32::MIN <= label_end_margin_spec(
            icon_width as int,
            icon_margin_start as int,
            icon_margin_end as int,
            spacing as int,
        ) <= i32::MAX,
    ensures
        m == label_end_margin_spec(
            icon_width as int,
            icon_margin_start as int,
            icon_margin_end as int,
            spacing as int,
        ),
{
    icon_width + icon_margin_start + icon_margin_end + spacing
}

/// The row for a custom message: with an icon, the icon and then the message,
/// which takes the free width and keeps an end margin as wide as the icon so
/// that it stays centred; without one, the message alone.
pub open spec fn custom_message_content_spec(message: &str, icon_name: Option<&str>) -> Seq<
    WidgetView,
> {
    match icon_name {
        Some(n) => seq![
            icon_view(n@),
            WidgetView::Label { text: Some(message@), width_chars: -1i32, hexpand: true, balance_icon: true },
        ],
        None => seq![wide_label_view(Some(message@))],
    }
}

/// The row for a custom message.
pub fn custom_message_content(message: &str, icon_name: Option<&str>) -> (row: Vec<Widget>)
    ensures
        widgets_view(row@) == custom_message_content_spec(message, icon_name),
{
    let mut row: Vec<Widget> = Vec::new();
    match icon_name {
        Some(n) => {
            row.push(icon(String::from_str(n)));
            row.push(
                Widget::Label {
                    text: Some(String::from_str(message)),
                    width_chars: -1,
                    hexpand: true,
                    balance_icon: true,
                },
            );
        },
        None => {
            row.push(
                Widget::Label {
                    text: Some(String::from_str(message)),
                    width_chars: -1,
                    hexpand: true,
                    balance_icon: false,
                },
            );
        },
    }
    assert(widgets_view(row@) =~= custom_message_content_spec(message, icon_name));
    row
}

} // verus!
