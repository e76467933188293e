//! User settings for remote gestures and presentation timers.
//! Platform-independent; the app stores them as a small key=value file.
//! The radius, the shade and the zoom count millionths.
use crate::measure::{self, Number};
use crate::presentation::{self, clamp_radius, Effect, DEFAULT_RADIUS};
use crate::text;
use vstd::prelude::*;

verus! {

/// The effect at a place of the cycle.
pub open spec fn effect_at(slot: int) -> Effect {
    if slot == 0 {
        Effect::Spotlight
    } else if slot == 1 {
        Effect::Laser
    } else if slot == 2 {
        Effect::Magnify
    } else {
        Effect::Box
    }
}

/// The place of an effect in the cycle.
pub open spec fn slot_of(effect: Effect) -> int {
    match effect {
        Effect::Spotlight => 0,
        Effect::Laser => 1,
        Effect::Magnify => 2,
        Effect::Box => 3,
    }
}

/// The name of the effect at a place of the cycle.
pub open spec fn effect_key(slot: int) -> Seq<char> {
    if slot == 0 {
        "spotlight"@
    } else if slot == 1 {
        "laser"@
    } else if slot == 2 {
        "magnify"@
    } else {
        "box"@
    }
}

/// Effects in cycle order; the index matches `Settings::cycle`.
pub const EFFECTS: [Effect; 4] = [
    Effect::Spotlight,
    Effect::Laser,
    Effect::Magnify,
    Effect::Box,
];

/// The name of an effect in the settings file.
fn effect_name(slot: usize) -> (name: &'static str)
    requires
        slot < 4,
    ensures
        name@ == effect_key(slot as int),
{
    if slot == 0 {
        "spotlight"
    } else if slot == 1 {
        "laser"
    } else if slot == 2 {
        "magnify"
    } else {
        "box"
    }
}

/// When timer reminders also appear on screen (the audience may see them).
#[derive(Debug, Clone, Copy, PartialEq, Eq, Structural)]
pub enum ScreenReminder {
    Off,
    OnVibrationFailure,
    Always,
}

impl ScreenReminder {
    pub const ALL: [ScreenReminder; 3] = [
        ScreenReminder::Off,
        ScreenReminder::OnVibrationFailure,
        ScreenReminder::Always,
    ];

    pub open spec fn spec_label(self) -> Seq<char> {
        match self {
            ScreenReminder::Off => "关闭（只振动）"@,
            ScreenReminder::OnVibrationFailure => "仅在振动失败时"@,
            ScreenReminder::Always => "始终显示"@,
        }
    }

    pub open spec fn spec_key(self) -> Seq<char> {
        match self {
            ScreenReminder::Off => "off"@,
            ScreenReminder::OnVibrationFailure => "on-vibration-failure"@,
            ScreenReminder::Always => "always"@,
        }
    }

    pub open spec fn named(key: Seq<char>) -> Option<Self> {
        if key == ScreenReminder::Off.spec_key() {
            Some(ScreenReminder::Off)
        } else if key == ScreenReminder::OnVibrationFailure.spec_key() {
            Some(ScreenReminder::OnVibrationFailure)
        } else if key == ScreenReminder::Always.spec_key() {
            Some(ScreenReminder::Always)
        } else {
            None
        }
    }

    pub fn label(self) -> (label: &'static str)
        ensures
            label@ == self.spec_label(),
    {
        match self {
            ScreenReminder::Off => "关闭（只振动）",
            ScreenReminder::OnVibrationFailure => "仅在振动失败时",
            ScreenReminder::Always => "始终显示",
        }
    }

    fn key(self) -> (key: &'static str)
        ensures
            key@ == self.spec_key(),
    {
        match self {
            ScreenReminder::Off => "off",
            ScreenReminder::OnVibrationFailure => "on-vibration-failure",
            ScreenReminder::Always => "always",
        }
    }

    fn from_key(key: &str) -> (mode: Option<Self>)
        ensures
            mode == Self::named(key@),
    {
        if text::same(key, ScreenReminder::Off.key()) {
            Some(ScreenReminder::Off)
        } else if text::same(key, ScreenReminder::OnVibrationFailure.key()) {
            Some(ScreenReminder::OnVibrationFailure)
        } else if text::same(key, ScreenReminder::Always.key()) {
            Some(ScreenReminder::Always)
        } else {
            None
        }
    }

    /// Whether a reminder is shown, given whether the vibration was delivered.
    pub fn shows(self, vibrated: bool) -> (shown: bool)
        ensures
            shown == match self {
                ScreenReminder::Off => false,
                ScreenReminder::OnVibrationFailure => !vibrated,
                ScreenReminder::Always => true,
            },
    {
        match self {
            ScreenReminder::Off => false,
            ScreenReminder::OnVibrationFailure => !vibrated,
            ScreenReminder::Always => true,
        }
    }
}

pub const MAX_TIMERS: usize = 3;

pub const MAX_TIMER_MINUTES: u32 = 600;

pub const ZOOM_LEVELS: [u64; 4] = [1_500_000, 2_000_000, 3_000_000, 4_000_000];

pub const DEFAULT_SHADE: u64 = 600_000;

pub const MIN_SHADE: u64 = 200_000;

pub const MAX_SHADE: u64 = 900_000;

/// Dimming outside the spotlight/box; kept visible but never fully black.
pub fn clamp_shade(shade: Number) -> (clamped: u64)
    ensures
        clamped == measure::clamped(shade, MIN_SHADE, MAX_SHADE, DEFAULT_SHADE),
{
    measure::clamp(shade, MIN_SHADE, MAX_SHADE, DEFAULT_SHADE)
}

/// A supported magnifier level.
pub open spec fn is_zoom_level(zoom: u64) -> bool {
    zoom == 1_500_000 || zoom == 2_000_000 || zoom == 3_000_000 || zoom == 4_000_000
}

/// The supported level at the least distance; the lower of two equally near. What
/// is not finite is equally far from all.
pub open spec fn nearest_level(zoom: Number) -> u64 {
    match zoom {
        Number::NotFinite => 1_500_000,
        Number::Finite(zoom) => if zoom <= 1_750_000 {
            1_500_000
        } else if zoom <= 2_500_000 {
            2_000_000
        } else if zoom <= 3_500_000 {
            3_000_000
        } else {
            4_000_000
        },
    }
}

/// Nearest supported magnifier level.
pub fn nearest_zoom(zoom: Number) -> (level: u64)
    ensures
        level == nearest_level(zoom),
{
    match zoom {
        Number::NotFinite => 1_500_000,
        Number::Finite(zoom) => if zoom <= 1_750_000 {
            1_500_000
        } else if zoom <= 2_500_000 {
            2_000_000
        } else if zoom <= 3_500_000 {
            3_000_000
        } else {
            4_000_000
        },
    }
}

/// How far a zoom lies from a level.
pub open spec fn zoom_gap(level: u64, zoom: i64) -> int {
    if level >= zoom {
        level - zoom
    } else {
        zoom - level
    }
}

/// No supported level is nearer than the nearest one, and no lower one is as near.
pub proof fn the_nearest_zoom_is_nearest(zoom: i64, other: u64)
    requires
        is_zoom_level(other),
    ensures
        is_zoom_level(nearest_level(Number::Finite(zoom))),
        zoom_gap(nearest_level(Number::Finite(zoom)), zoom) <= zoom_gap(other, zoom),
        other < nearest_level(Number::Finite(zoom)) ==> zoom_gap(
            nearest_level(Number::Finite(zoom)),
            zoom,
        ) < zoom_gap(other, zoom),
{
}

#[derive(Debug, Clone, Copy, PartialEq, Eq, Structural)]
pub enum HoldAction {
    Nothing,
    PlayFromCurrent,
    BlackScreen,
    EndShow,
}

impl HoldAction {
    pub const ALL: [HoldAction; 4] = [
        HoldAction::Nothing,
        HoldAction::PlayFromCurrent,
        HoldAction::BlackScreen,
        HoldAction::EndShow,
    ];

    pub open spec fn spec_label(self) -> Seq<char> {
        match self {
            HoldAction::Nothing => "不执行"@,
            HoldAction::PlayFromCurrent => "从当前页播放"@,
            HoldAction::BlackScreen => "屏幕变黑 / 恢复"@,
            HoldAction::EndShow => "结束放映"@,
        }
    }

    pub open spec fn spec_key(self) -> Seq<char> {
        match self {
            HoldAction::Nothing => "none"@,
            HoldAction::PlayFromCurrent => "play-from-current"@,
            HoldAction::BlackScreen => "black-screen"@,
            HoldAction::EndShow => "end-show"@,
        }
    }

    pub open spec fn named(key: Seq<char>) -> Option<Self> {
        if key == HoldAction::Nothing.spec_key() {
            Some(HoldAction::Nothing)
        } else if key == HoldAction::PlayFromCurrent.spec_key() {
            Some(HoldAction::PlayFromCurrent)
        } else if key == HoldAction::BlackScreen.spec_key() {
            Some(HoldAction::BlackScreen)
        } else if key == HoldAction::EndShow.spec_key() {
            Some(HoldAction::EndShow)
        } else {
            None
        }
    }

    pub fn label(self) -> (label: &'static str)
        ensures
            label@ == self.spec_label(),
    {
        match self {
            HoldAction::Nothing => "不执行",
            HoldAction::PlayFromCurrent => "从当前页播放",
            HoldAction::BlackScreen => "屏幕变黑 / 恢复",
            HoldAction::EndShow => "结束放映",
        }
    }

    fn key(self) -> (key: &'static str)
        ensures
            key@ == self.spec_key(),
    {
        match self {
            HoldAction::Nothing => "none",
            HoldAction::PlayFromCurrent => "play-from-current",
            HoldAction::BlackScreen => "black-screen",
            HoldAction::EndShow => "end-show",
        }
    }

    fn from_key(key: &str) -> (action: Option<Self>)
        ensures
            action == Self::named(key@),
    {
        if text::same(key, HoldAction::Nothing.key()) {
            Some(HoldAction::Nothing)
        } else if text::same(key, HoldAction::PlayFromCurrent.key()) {
            Some(HoldAction::PlayFromCurrent)
        } else if text::same(key, HoldAction::BlackScreen.key()) {
            Some(HoldAction::BlackScreen)
        } else if text::same(key, HoldAction::EndShow.key()) {
            Some(HoldAction::EndShow)
        } else {
            None
        }
    }
}

/// A name in the settings file stands for the one it was written for.
pub proof fn keys_name_their_values(action: HoldAction, mode: ScreenReminder)
    ensures
        HoldAction::named(action.spec_key()) == Some(action),
        ScreenReminder::named(mode.spec_key()) == Some(mode),
{
    reveal_strlit("none");
    reveal_strlit("play-from-current");
    reveal_strlit("black-screen");
    reveal_strlit("end-show");
    reveal_strlit("off");
    reveal_strlit("on-vibration-failure");
    reveal_strlit("always");
    assert("none"@.len() == 4);
    assert("play-from-current"@.len() == 17);
    assert("black-screen"@.len() == 12);
    assert("end-show"@.len() == 8);
    assert("off"@.len() == 3);
    assert("on-vibration-failure"@.len() == 20);
    assert("always"@.len() == 6);
}

/// The minutes of a timer field, or the text that is none.
pub open spec fn minutes_of(text: Seq<char>) -> Result<Option<u32>, Seq<char>> {
    let field = text::trimmed(text);
    if field.len() == 0 {
        Ok(None)
    } else {
        match text::int_value(field, 10, u32::MAX as nat) {
            Ok(minutes) => if 1 <= minutes <= MAX_TIMER_MINUTES {
                Ok(Some(minutes as u32))
            } else {
                Err(field)
            },
            Err(_) => Err(field),
        }
    }
}

/// Timer field text: empty means unused; otherwise 1..=MAX_TIMER_MINUTES.
pub fn parse_minutes(text: &str) -> (minutes: Result<Option<u32>, String>)
    ensures
        match minutes {
            Ok(minutes) => minutes_of(text@) == Ok::<Option<u32>, Seq<char>>(minutes),
            Err(message) => minutes_of(text@) matches Err(field) && message@
                == "定时须为 1–600 的整数分钟："@ + field,
        },
{
    let field = text::trim(text);
    if field.unicode_len() == 0 {
        return Ok(None);
    }
    match text::parse_int(field, 10, u32::MAX as u64) {
        Ok(minutes) => if 1 <= minutes && minutes <= MAX_TIMER_MINUTES as u64 {
            Ok(Some(minutes as u32))
        } else {
            Err(minutes_error(field))
        },
        Err(_) => Err(minutes_error(field)),
    }
}

fn minutes_error(field: &str) -> (message: String)
    ensures
        message@ == "定时须为 1–600 的整数分钟："@ + field@,
{
    let mut message = "定时须为 1–600 的整数分钟：".to_owned();
    message.append(field);
    message
}

#[derive(Debug, PartialEq, Eq)]
pub struct Settings {
    /// Effects included in the double-click cycle, in `EFFECTS` order.
    pub cycle: [bool; 4],
    pub next_hold: HoldAction,
    pub back_hold: HoldAction,
    /// Minutes after the timer starts; each set timer vibrates once.
    pub timers: [Option<u32>; 3],
    /// Spotlight/magnifier radius in points.
    pub radius: u64,
    pub shade: u64,
    pub zoom: u64,
    pub screen_reminder: ScreenReminder,
}

impl Clone for Settings {
    fn clone(&self) -> (copy: Self)
        ensures
            copy == *self,
    {
        Self {
            cycle: self.cycle,
            next_hold: self.next_hold,
            back_hold: self.back_hold,
            timers: self.timers,
            radius: self.radius,
            shade: self.shade,
            zoom: self.zoom,
            screen_reminder: self.screen_reminder,
        }
    }
}

/// The values of the settings.
#[verifier::ext_equal]
pub struct Values {
    pub cycle: Seq<bool>,
    pub next_hold: HoldAction,
    pub back_hold: HoldAction,
    pub timers: Seq<Option<u32>>,
    pub radius: u64,
    pub shade: u64,
    pub zoom: u64,
    pub screen_reminder: ScreenReminder,
}

impl View for Settings {
    type V = Values;

    open spec fn view(&self) -> Values {
        Values {
            cycle: self.cycle@,
            next_hold: self.next_hold,
            back_hold: self.back_hold,
            timers: self.timers@,
            radius: self.radius,
            shade: self.shade,
            zoom: self.zoom,
            screen_reminder: self.screen_reminder,
        }
    }
}

/// The settings of a fresh installation.
pub open spec fn default_values() -> Values {
    Values {
        cycle: seq![true, true, false, false],
        next_hold: HoldAction::PlayFromCurrent,
        back_hold: HoldAction::BlackScreen,
        timers: seq![None, None, None],
        radius: DEFAULT_RADIUS,
        shade: DEFAULT_SHADE,
        zoom: 2_000_000,
        screen_reminder: ScreenReminder::OnVibrationFailure,
    }
}

impl Default for Settings {
    fn default() -> (settings: Self)
        ensures
            settings@ == default_values(),
    {
        let settings = Self {
            cycle: [true, true, false, false],
            next_hold: HoldAction::PlayFromCurrent,
            back_hold: HoldAction::BlackScreen,
            timers: [None, None, None],
            radius: DEFAULT_RADIUS,
            shade: DEFAULT_SHADE,
            zoom: 2_000_000,
            screen_reminder: ScreenReminder::OnVibrationFailure,
        };
        assert(settings@ =~= default_values());
        settings
    }
}

/// A list names the effect at a place of the cycle.
pub open spec fn lists(value: Seq<char>, slot: int) -> bool {
    exists|i: int|
        0 <= i < text::parts(value, ',').len() && text::trimmed(
            #[trigger] text::parts(value, ',')[i],
        ) == effect_key(slot)
}

/// The effects that a list names.
pub open spec fn cycle_of(value: Seq<char>) -> Seq<bool> {
    Seq::new(4, |slot: int| lists(value, slot))
}

/// The timer at a place of a list; unset where the list is too short or no number
/// of minutes stands.
pub open spec fn timer_of(value: Seq<char>, slot: int) -> Option<u32> {
    if slot < text::parts(value, ',').len() {
        match minutes_of(text::parts(value, ',')[slot]) {
            Ok(minutes) => minutes,
            Err(_) => None,
        }
    } else {
        None
    }
}

pub open spec fn timers_of(value: Seq<char>) -> Seq<Option<u32>> {
    Seq::new(3, |slot: int| timer_of(value, slot))
}

/// What a unit of the last of `count` decimal places is worth, in millionths.
pub open spec fn place_unit(count: nat) -> nat {
    if count == 1 {
        100_000
    } else if count == 2 {
        10_000
    } else if count == 3 {
        1_000
    } else if count == 4 {
        100
    } else if count == 5 {
        10
    } else {
        1
    }
}

/// The number that a plain decimal writes: digits below a thousand million, then at
/// most six decimal places. Other texts are none.
pub open spec fn plain_number(value: Seq<char>) -> Option<Number> {
    let k = text::find(value, '.');
    match text::int_value(value.take(k as int), 10, 999_999_999) {
        Err(_) => None,
        Ok(whole) => if k >= value.len() {
            Some(Number::Finite((whole * 1_000_000) as i64))
        } else {
            let places = value.skip(k as int + 1);
            match text::int_value(places, 10, 999_999) {
                Err(_) => None,
                Ok(part) => if places.len() <= 6 && places[0] != '+' {
                    Some(
                        Number::Finite(
                            (whole * 1_000_000 + part * place_unit(places.len())) as i64,
                        ),
                    )
                } else {
                    None
                },
            }
        },
    }
}

/// Whether a value has to be read by the caller: a number that is no plain decimal.
pub open spec fn needs_answer(key: Seq<char>, value: Seq<char>) -> bool {
    (key == "shade"@ || key == "zoom"@ || key == "radius"@) && plain_number(value) is None
}

/// The number of an entry: a plain decimal is itself, of other texts `answer` says it.
pub open spec fn number_of(value: Seq<char>, answer: Option<Number>) -> Option<Number> {
    match plain_number(value) {
        Some(number) => Some(number),
        None => answer,
    }
}

/// A text that names no effect, though it is not empty.
pub open spec fn names_nothing(value: Seq<char>) -> bool {
    value.len() > 0 && forall|slot: int| 0 <= slot < 4 ==> !#[trigger] lists(value, slot)
}

/// The settings after one entry of the file. An unknown key and an invalid value
/// change nothing; in a list of timers, an invalid item is one that is not set.
pub open spec fn with_entry(
    before: Values,
    key: Seq<char>,
    value: Seq<char>,
    answer: Option<Number>,
) -> Values {
    if key == "cycle"@ {
        if names_nothing(value) {
            before
        } else {
            Values { cycle: cycle_of(value), ..before }
        }
    } else if key == "next-hold"@ {
        match HoldAction::named(value) {
            Some(action) => Values { next_hold: action, ..before },
            None => before,
        }
    } else if key == "back-hold"@ {
        match HoldAction::named(value) {
            Some(action) => Values { back_hold: action, ..before },
            None => before,
        }
    } else if key == "timers"@ {
        Values { timers: timers_of(value), ..before }
    } else if key == "screen-reminder"@ {
        match ScreenReminder::named(value) {
            Some(mode) => Values { screen_reminder: mode, ..before },
            None => before,
        }
    } else if key == "shade"@ {
        match number_of(value, answer) {
            Some(shade) => Values {
                shade: measure::clamped(shade, MIN_SHADE, MAX_SHADE, DEFAULT_SHADE),
                ..before
            },
            None => before,
        }
    } else if key == "zoom"@ {
        match number_of(value, answer) {
            Some(Number::Finite(zoom)) => Values {
                zoom: nearest_level(Number::Finite(zoom)),
                ..before
            },
            _ => before,
        }
    } else if key == "radius"@ {
        match number_of(value, answer) {
            Some(radius) => Values {
                radius: measure::clamped(
                    radius,
                    presentation::MIN_RADIUS,
                    presentation::MAX_RADIUS,
                    DEFAULT_RADIUS,
                ),
                ..before
            },
            None => before,
        }
    } else {
        before
    }
}

/// The key of a line: what stands before the first `=`.
pub open spec fn key_of(line: Seq<char>) -> Seq<char> {
    text::trimmed(line.take(text::find(line, '=') as int))
}

/// The value of a line: what stands after the first `=`.
pub open spec fn value_of(line: Seq<char>) -> Seq<char> {
    text::trimmed(line.skip(text::find(line, '=') as int + 1))
}

/// The settings after one line of the file; one without `=` changes nothing.
pub open spec fn with_line(before: Values, line: Seq<char>, answer: Option<Number>) -> Values {
    if text::find(line, '=') < line.len() {
        with_entry(before, key_of(line), value_of(line), answer)
    } else {
        before
    }
}

/// The settings after a list of lines, each on top of those before it; `answers` holds
/// an answer for each line.
pub open spec fn with_lines(lines: Seq<Seq<char>>, answers: Seq<Option<Number>>) -> Values
    decreases lines.len(),
{
    if lines.len() == 0 {
        default_values()
    } else {
        with_line(
            with_lines(lines.drop_last(), answers.drop_last()),
            lines.last(),
            answers.last(),
        )
    }
}

/// `read` can answer this for a text.
pub open spec fn can_answer<F: Fn(&str) -> Option<Number>>(
    read: F,
    value: Seq<char>,
    answer: Option<Number>,
) -> bool {
    exists|text: &str| text@ == value && #[trigger] call_ensures(read, (text,), answer)
}

/// There is an answer for each line, given by `read` where the line needs one.
pub open spec fn answered<F: Fn(&str) -> Option<Number>>(
    read: F,
    lines: Seq<Seq<char>>,
    answers: Seq<Option<Number>>,
) -> bool {
    &&& answers.len() == lines.len()
    &&& forall|i: int|
        #![trigger lines[i]]
        0 <= i < lines.len() && text::find(lines[i], '=') < lines[i].len() && needs_answer(
            key_of(lines[i]),
            value_of(lines[i]),
        ) ==> can_answer(read, value_of(lines[i]), answers[i])
}

/// Settings that the app can use: timers, radius, shade and zoom in their ranges.
pub open spec fn usable(values: Values) -> bool {
    &&& values.cycle.len() == 4
    &&& values.timers.len() == 3
    &&& forall|slot: int|
        0 <= slot < 3 ==> (#[trigger] values.timers[slot] matches Some(minutes) ==> 1 <= minutes
            <= MAX_TIMER_MINUTES)
    &&& presentation::MIN_RADIUS <= values.radius <= presentation::MAX_RADIUS
    &&& MIN_SHADE <= values.shade <= MAX_SHADE
    &&& is_zoom_level(values.zoom)
}

/// Whatever a file holds and whatever its numbers are read as, the settings can be
/// used.
pub proof fn every_file_gives_usable_settings(lines: Seq<Seq<char>>, answers: Seq<Option<Number>>)
    ensures
        usable(with_lines(lines, answers)),
    decreases lines.len(),
{
    if lines.len() > 0 {
        every_file_gives_usable_settings(lines.drop_last(), answers.drop_last());
    }
}

/// Reads a plain decimal number.
fn read_plain(value: &str) -> (number: Option<Number>)
    ensures
        number == plain_number(value@),
{
    match text::split_once(value, '.') {
        None => {
            proof {
                text::find_is_in_range(value@, '.');
                assert(value@.take(text::find(value@, '.') as int) =~= value@);
            }
            match text::parse_int(value, 10, 999_999_999) {
                Ok(whole) => {
                    proof {
                        text::numbers_keep_the_limit(value@, 10, 999_999_999);
                    }
                    Some(Number::Finite(whole as i64 * 1_000_000))
                },
                Err(_) => None,
            }
        },
        Some((before, places)) => {
            let whole = match text::parse_int(before, 10, 999_999_999) {
                Ok(whole) => whole,
                Err(_) => {
                    return None;
                },
            };
            let part = match text::parse_int(places, 10, 999_999) {
                Ok(part) => part,
                Err(_) => {
                    return None;
                },
            };
            proof {
                text::numbers_keep_the_limit(before@, 10, 999_999_999);
                text::numbers_keep_the_limit(places@, 10, 999_999);
            }
            let count = places.unicode_len();
            if count > 6 || places.get_char(0) == '+' {
                return None;
            }
            let unit: u64 = if count == 1 {
                100_000
            } else if count == 2 {
                10_000
            } else if count == 3 {
                1_000
            } else if count == 4 {
                100
            } else if count == 5 {
                10
            } else {
                1
            };
            assert(part * unit <= 999_999 * 100_000) by (nonlinear_arith)
                requires
                    part <= 999_999,
                    unit <= 100_000,
            ;
            Some(Number::Finite((whole * 1_000_000 + part * unit) as i64))
        },
    }
}

/// Which effects a list names.
fn parse_cycle(value: &str) -> (cycle: [bool; 4])
    ensures
        cycle@ == cycle_of(value@),
{
    let pieces = text::split(value, ',');
    let ghost all = text::views(pieces@);
    let mut cycle: [bool; 4] = [false, false, false, false];
    for i in 0..pieces.len()
        invariant
            all == text::views(pieces@),
            all == text::parts(value@, ','),
            forall|slot: int|
                #![trigger cycle@[slot]]
                0 <= slot < 4 ==> cycle@[slot] == exists|j: int|
                    0 <= j < i && text::trimmed(#[trigger] all[j]) == effect_key(slot),
    {
        let name = text::trim(pieces[i]);
        let ghost before = cycle@;
        assert(all[i as int] == pieces@[i as int]@);
        for slot in 0..4usize
            invariant
                i < pieces@.len(),
                all == text::views(pieces@),
                name@ == text::trimmed(all[i as int]),
                forall|s: int|
                    #![trigger before[s]]
                    0 <= s < 4 ==> before[s] == exists|j: int|
                        0 <= j < i && text::trimmed(#[trigger] all[j]) == effect_key(s),
                forall|s: int| #![trigger cycle@[s]] slot <= s < 4 ==> cycle@[s] == before[s],
                forall|s: int|
                    #![trigger cycle@[s]]
                    0 <= s < slot ==> cycle@[s] == (before[s] || name@ == effect_key(s)),
        {
            if text::same(name, effect_name(slot)) {
                cycle[slot] = true;
            }
        }
        assert forall|s: int| #![trigger cycle@[s]] 0 <= s < 4 implies cycle@[s] == exists|j: int|
            0 <= j < i + 1 && text::trimmed(#[trigger] all[j]) == effect_key(s) by {
            assert(before[s] == exists|j: int|
                0 <= j < i && text::trimmed(#[trigger] all[j]) == effect_key(s));
            if text::trimmed(all[i as int]) == effect_key(s) {
                assert(cycle@[s]);
            }
        }
    }
    assert(cycle@ =~= cycle_of(value@));
    cycle
}

/// The timers of a list.
fn parse_timers(value: &str) -> (timers: [Option<u32>; 3])
    ensures
        timers@ == timers_of(value@),
{
    let pieces = text::split(value, ',');
    let ghost all = text::views(pieces@);
    let mut timers: [Option<u32>; 3] = [None, None, None];
    for slot in 0..3usize
        invariant
            all == text::views(pieces@),
            all == text::parts(value@, ','),
            forall|s: int| 0 <= s < slot ==> timers@[s] == timer_of(value@, s),
            forall|s: int| slot <= s < 3 ==> timers@[s] == None::<u32>,
    {
        if slot < pieces.len() {
            assert(all[slot as int] == pieces@[slot as int]@);
            if let Ok(minutes) = parse_minutes(pieces[slot]) {
                timers[slot] = minutes;
            }
        }
    }
    assert(timers@ =~= timers_of(value@));
    timers
}

/// The keys of the numbers differ from the other keys.
proof fn numbers_have_their_own_keys(key: Seq<char>, value: Seq<char>)
    requires
        key == "cycle"@ || key == "next-hold"@ || key == "back-hold"@ || key == "timers"@ || key
            == "screen-reminder"@,
    ensures
        !needs_answer(key, value),
{
    reveal_strlit("cycle");
    reveal_strlit("next-hold");
    reveal_strlit("back-hold");
    reveal_strlit("timers");
    reveal_strlit("radius");
    reveal_strlit("shade");
    reveal_strlit("zoom");
    reveal_strlit("screen-reminder");
    assert("cycle"@[0] == 'c' && "shade"@[0] == 's');
    assert("timers"@[0] == 't' && "radius"@[0] == 'r');
    assert("next-hold"@.len() == 9 && "back-hold"@.len() == 9 && "screen-reminder"@.len() == 15);
    assert("cycle"@.len() == 5 && "timers"@.len() == 6);
    assert("radius"@.len() == 6 && "shade"@.len() == 5 && "zoom"@.len() == 4);
}

/// Reads a number of the file: a plain decimal here, other texts by `read`.
fn read_number<F: Fn(&str) -> Option<Number>>(value: &str, read: &F) -> (number: Option<Number>)
    requires
        forall|text: &str| call_requires(*read, (text,)),
    ensures
        match plain_number(value@) {
            Some(plain) => number == Some(plain),
            None => can_answer(*read, value@, number),
        },
{
    match read_plain(value) {
        Some(number) => Some(number),
        None => {
            let answer = read(value);
            assert(call_ensures(*read, (value,), answer));
            answer
        },
    }
}

impl Settings {
    /// Takes one entry of the file over.
    fn set<F: Fn(&str) -> Option<Number>>(&mut self, key: &str, value: &str, read: &F)
        requires
            forall|text: &str| call_requires(*read, (text,)),
        ensures
            exists|answer: Option<Number>|
                #![trigger with_entry(old(self)@, key@, value@, answer)]
                final(self)@ == with_entry(old(self)@, key@, value@, answer) && (needs_answer(
                    key@,
                    value@,
                ) ==> can_answer(*read, value@, answer)),
    {
        let ghost before = self@;
        let ghost mut answer: Option<Number> = None;
        if text::same(key, "cycle") {
            let cycle = parse_cycle(value);
            if value.unicode_len() == 0 || cycle[0] || cycle[1] || cycle[2] || cycle[3] {
                assert(!names_nothing(value@)) by {
                    assert(cycle@ == cycle_of(value@));
                    assert(cycle@[0] == lists(value@, 0));
                    assert(cycle@[1] == lists(value@, 1));
                    assert(cycle@[2] == lists(value@, 2));
                    assert(cycle@[3] == lists(value@, 3));
                }
                self.cycle = cycle;
            } else {
                assert forall|slot: int| 0 <= slot < 4 implies !#[trigger] lists(value@, slot) by {
                    assert(cycle@[slot] == cycle_of(value@)[slot]);
                }
            }
        } else if text::same(key, "next-hold") {
            if let Some(action) = HoldAction::from_key(value) {
                self.next_hold = action;
            }
        } else if text::same(key, "back-hold") {
            if let Some(action) = HoldAction::from_key(value) {
                self.back_hold = action;
            }
        } else if text::same(key, "timers") {
            self.timers = parse_timers(value);
        } else if text::same(key, "screen-reminder") {
            if let Some(mode) = ScreenReminder::from_key(value) {
                self.screen_reminder = mode;
            }
        } else if text::same(key, "shade") {
            let number = read_number(value, read);
            proof {
                answer = number;
            }
            if let Some(shade) = number {
                self.shade = clamp_shade(shade);
            }
        } else if text::same(key, "zoom") {
            let number = read_number(value, read);
            proof {
                answer = number;
            }
            if let Some(Number::Finite(zoom)) = number {
                self.zoom = nearest_zoom(Number::Finite(zoom));
            }
        } else if text::same(key, "radius") {
            let number = read_number(value, read);
            proof {
                answer = number;
            }
            if let Some(radius) = number {
                self.radius = clamp_radius(radius);
            }
        }
        assert(self@ == with_entry(before, key@, value@, answer));
        proof {
            if key@ == "cycle"@ || key@ == "next-hold"@ || key@ == "back-hold"@ || key@
                == "timers"@ || key@ == "screen-reminder"@ {
                numbers_have_their_own_keys(key@, value@);
            }
        }
    }

    /// Lenient: unknown keys and invalid values keep their defaults, so a
    /// damaged or older file never prevents the app from starting. Plain decimals,
    /// as `serialize` writes them, are read here; every other text where a number
    /// belongs is handed to `read`, such as the standard library's reading.
    pub fn parse<F: Fn(&str) -> Option<Number>>(text: &str, read: F) -> (settings: Self)
        requires
            forall|text: &str| call_requires(read, (text,)),
        ensures
            exists|answers: Seq<Option<Number>>| #[trigger]
                answered(read, text::lines_of(text@), answers) && settings@ == with_lines(
                    text::lines_of(text@),
                    answers,
                ),
            usable(settings@),
    {
        let mut settings = Self::default();
        let found = text::lines(text);
        let ghost all = text::views(found@);
        let ghost mut answers: Seq<Option<Number>> = Seq::empty();
        for i in 0..found.len()
            invariant
                forall|text: &str| call_requires(read, (text,)),
                all == text::views(found@),
                answered(read, all.take(i as int), answers),
                settings@ == with_lines(all.take(i as int), answers),
        {
            let ghost before = settings@;
            let line = found[i];
            let ghost mut answer: Option<Number> = None;
            if let Some((key, value)) = text::split_once(line, '=') {
                let key = text::trim(key);
                let value = text::trim(value);
                settings.set(key, value, &read);
                proof {
                    answer = choose|answer: Option<Number>|
                        #![trigger with_entry(before, key@, value@, answer)]
                        settings@ == with_entry(before, key@, value@, answer) && (needs_answer(
                            key@,
                            value@,
                        ) ==> can_answer(read, value@, answer));
                }
            }
            proof {
                let given = answers.push(answer);
                let lines = all.take(i as int + 1);
                assert(lines.drop_last() =~= all.take(i as int));
                assert(lines.last() == found@[i as int]@);
                assert(given.drop_last() =~= answers);
                assert forall|j: int|
                    #![trigger lines[j]]
                    0 <= j < lines.len() && text::find(lines[j], '=') < lines[j].len()
                        && needs_answer(key_of(lines[j]), value_of(lines[j])) implies can_answer(
                    read,
                    value_of(lines[j]),
                    given[j],
                ) by {
                    if j < i {
                        assert(lines[j] == all.take(i as int)[j]);
                    }
                }
                answers = given;
            }
        }
        proof {
            assert(all.take(found@.len() as int) =~= all);
            every_file_gives_usable_settings(all, answers);
        }
        settings
    }
}

/// The names of the selected effects from a place of the cycle on.
pub open spec fn selected_from(cycle: Seq<bool>, slot: int) -> Seq<Seq<char>>
    decreases 4 - slot,
{
    if slot >= 4 {
        Seq::empty()
    } else if cycle[slot] {
        seq![effect_key(slot)] + selected_from(cycle, slot + 1)
    } else {
        selected_from(cycle, slot + 1)
    }
}

/// A timer as it stands in the file; nothing where it is not set.
pub open spec fn timer_text(timer: Option<u32>) -> Seq<char> {
    match timer {
        Some(minutes) => text::decimal(minutes as nat),
        None => Seq::empty(),
    }
}

pub open spec fn timer_texts(timers: Seq<Option<u32>>) -> Seq<Seq<char>> {
    Seq::new(timers.len(), |slot: int| timer_text(timers[slot]))
}

/// A quantity to the nearest whole unit, a half upwards.
pub open spec fn rounded(quantity: u64) -> nat {
    ((quantity + 500_000) / 1_000_000) as nat
}

/// A number of millionths, doubled until its whole part has the fifty-three binary digits
/// that a double keeps.
pub open spec fn magnified(scaled: nat) -> nat
    decreases 9_007_199_254_740_992_000_000 - scaled,
{
    if scaled == 0 || scaled >= 4_503_599_627_370_496_000_000 {
        scaled
    } else {
        magnified(2 * scaled)
    }
}

/// A quantity to the nearest hundredth. Half a hundredth goes where the double nearest
/// to the quantity lies: 0.445 up, as that double exceeds it, 0.435 down. Where the
/// double is exact, it goes to the even hundredth.
pub open spec fn hundredths(quantity: u64) -> nat {
    let below = (quantity / 10_000) as nat;
    let rest = quantity % 10_000;
    let beyond = magnified((quantity * 256) as nat) % 1_000_000;
    if rest > 5_000 || (rest == 5_000 && (beyond > 500_000 || (beyond == 0 && below % 2 == 1))) {
        below + 1
    } else {
        below
    }
}

/// A number of hundredths with two decimal places.
pub open spec fn two_places(hundredths: nat) -> Seq<char> {
    text::decimal(hundredths / 100) + seq![
        '.',
        text::digit_char(hundredths / 10 % 10),
        text::digit_char(hundredths % 10),
    ]
}

/// The decimal places of `rest` parts of a unit of `unit` parts, without closing zeros.
pub open spec fn places(rest: nat, unit: nat) -> Seq<char>
    decreases unit,
{
    if rest == 0 || unit < 10 {
        Seq::empty()
    } else {
        seq![text::digit_char(rest / (unit / 10))] + places(rest % (unit / 10), unit / 10)
    }
}

/// A quantity in decimal with no more places than it needs.
pub open spec fn shortest(quantity: u64) -> Seq<char> {
    let whole = text::decimal((quantity / 1_000_000) as nat);
    if quantity % 1_000_000 == 0 {
        whole
    } else {
        whole + seq!['.'] + places((quantity % 1_000_000) as nat, 1_000_000)
    }
}

pub open spec fn entry(key: Seq<char>, value: Seq<char>) -> Seq<char> {
    key + seq!['='] + value
}

/// The lines of the settings file.
pub open spec fn entries(values: Values) -> Seq<Seq<char>> {
    seq![
        entry("cycle"@, text::joined(selected_from(values.cycle, 0), ","@)),
        entry("next-hold"@, values.next_hold.spec_key()),
        entry("back-hold"@, values.back_hold.spec_key()),
        entry("timers"@, text::joined(timer_texts(values.timers), ","@)),
        entry("radius"@, text::decimal(rounded(values.radius))),
        entry("shade"@, two_places(hundredths(values.shade))),
        entry("zoom"@, shortest(values.zoom)),
        entry("screen-reminder"@, values.screen_reminder.spec_key()),
    ]
}

/// Makes a line of the settings file.
fn entry_line(key: &str, value: &str) -> (line: String)
    ensures
        line@ == entry(key@, value@),
{
    let mut line = key.to_owned();
    line.append("=");
    line.append(value);
    proof {
        reveal_strlit("=");
        assert("="@ =~= seq!['=']);
    }
    line
}

/// Appends the decimal places of `rest` parts of a unit of `unit` parts.
fn push_places(out: &mut String, rest: u64, unit: u64)
    requires
        rest < unit,
        unit == 1_000_000 || unit == 100_000 || unit == 10_000 || unit == 1_000 || unit == 100
            || unit == 10 || unit == 1,
    ensures
        final(out)@ == old(out)@ + places(rest as nat, unit as nat),
    decreases unit,
{
    let ghost before = out@;
    if rest != 0 && unit >= 10 {
        let tenth: u64 = unit / 10;
        assert(rest / tenth < 10) by (nonlinear_arith)
            requires
                rest < 10 * tenth,
                tenth > 0,
        ;
        text::push_digit(out, (rest / tenth) as u8);
        push_places(out, rest % tenth, tenth);
    }
    assert(out@ =~= before + places(rest as nat, unit as nat));
}

/// Writes a quantity in decimal with no more places than it needs.
pub fn format_shortest(quantity: u64) -> (value: String)
    ensures
        value@ == shortest(quantity),
{
    let mut value = String::new();
    text::push_decimal(&mut value, quantity / 1_000_000);
    let rest: u64 = quantity % 1_000_000;
    if rest != 0 {
        value.append(".");
        push_places(&mut value, rest, 1_000_000);
    }
    proof {
        reveal_strlit(".");
        assert("."@ =~= seq!['.']);
        assert(value@ =~= shortest(quantity));
    }
    value
}

impl Settings {
    fn cycle_value(&self) -> (value: String)
        ensures
            value@ == text::joined(selected_from(self.cycle@, 0), ","@),
    {
        let mut names: Vec<String> = Vec::new();
        for slot in 0..4usize
            invariant
                text::contents(names@) + selected_from(self.cycle@, slot as int) == selected_from(
                    self.cycle@,
                    0,
                ),
        {
            let ghost before = names@;
            if self.cycle[slot] {
                names.push(effect_name(slot).to_owned());
                assert(text::contents(names@) =~= text::contents(before).push(
                    effect_key(slot as int),
                ));
            }
            assert(text::contents(names@) + selected_from(self.cycle@, slot + 1) =~= text::contents(
                before,
            ) + selected_from(self.cycle@, slot as int));
        }
        assert(text::contents(names@) =~= selected_from(self.cycle@, 0));
        text::join(&names, ",")
    }

    fn timers_value(&self) -> (value: String)
        ensures
            value@ == text::joined(timer_texts(self.timers@), ","@),
    {
        let mut texts: Vec<String> = Vec::new();
        for slot in 0..3usize
            invariant
                texts@.len() == slot,
                forall|s: int| 0 <= s < slot ==> texts@[s]@ == timer_text(self.timers@[s]),
        {
            let mut text = String::new();
            if let Some(minutes) = self.timers[slot] {
                text::push_decimal(&mut text, minutes as u64);
            }
            assert(text@ =~= timer_text(self.timers@[slot as int]));
            texts.push(text);
        }
        assert(text::contents(texts@) =~= timer_texts(self.timers@));
        text::join(&texts, ",")
    }

    fn radius_value(&self) -> (value: String)
        ensures
            value@ == text::decimal(rounded(self.radius)),
    {
        let mut value = String::new();
        let whole: u64 = ((self.radius as u128 + 500_000) / 1_000_000) as u64;
        text::push_decimal(&mut value, whole);
        assert(value@ =~= text::decimal(rounded(self.radius)));
        value
    }

    fn shade_value(&self) -> (value: String)
        ensures
            value@ == two_places(hundredths(self.shade)),
    {
        let below: u64 = self.shade / 10_000;
        let rest: u64 = self.shade % 10_000;
        let mut scaled: u128 = self.shade as u128 * 256;
        while scaled != 0 && scaled < 4_503_599_627_370_496_000_000
            invariant
                magnified(scaled as nat) == magnified((self.shade * 256) as nat),
                scaled <= 9_007_199_254_740_992_000_000,
            decreases 9_007_199_254_740_992_000_000 - scaled,
        {
            scaled = scaled * 2;
        }
        let beyond: u128 = scaled % 1_000_000;
        let nearest: u64 = if rest > 5_000 || (rest == 5_000 && (beyond > 500_000 || (beyond == 0
            && below % 2 == 1))) {
            below + 1
        } else {
            below
        };
        let mut value = String::new();
        text::push_decimal(&mut value, nearest / 100);
        value.append(".");
        text::push_digit(&mut value, (nearest / 10 % 10) as u8);
        text::push_digit(&mut value, (nearest % 10) as u8);
        proof {
            reveal_strlit(".");
            assert("."@ =~= seq!['.']);
            assert(value@ =~= two_places(hundredths(self.shade)));
        }
        value
    }

    pub fn serialize(&self) -> (text: String)
        ensures
            text@ == text::terminated(entries(self@)),
    {
        let cycle = self.cycle_value();
        let timers = self.timers_value();
        let radius = self.radius_value();
        let shade = self.shade_value();
        let zoom = format_shortest(self.zoom);
        let mut lines: Vec<String> = Vec::new();
        lines.push(entry_line("cycle", cycle.as_str()));
        lines.push(entry_line("next-hold", self.next_hold.key()));
        lines.push(entry_line("back-hold", self.back_hold.key()));
        lines.push(entry_line("timers", timers.as_str()));
        lines.push(entry_line("radius", radius.as_str()));
        lines.push(entry_line("shade", shade.as_str()));
        lines.push(entry_line("zoom", zoom.as_str()));
        lines.push(entry_line("screen-reminder", self.screen_reminder.key()));
        assert(text::contents(lines@) =~= entries(self@));
        text::terminate(&lines)
    }
}

/// An effect of the cycle that can be switched to. Magnify needs the
/// screen-recording permission.
pub open spec fn selectable(cycle: Seq<bool>, slot: int, magnify_allowed: bool) -> bool {
    cycle[slot] && (effect_at(slot) != Effect::Magnify || magnify_allowed)
}

/// The first selectable effect among `count` places from `slot` on, going round.
pub open spec fn first_selectable(
    cycle: Seq<bool>,
    slot: int,
    count: nat,
    magnify_allowed: bool,
) -> Option<Effect>
    decreases count,
{
    if count == 0 {
        None
    } else if selectable(cycle, slot % 4, magnify_allowed) {
        Some(effect_at(slot % 4))
    } else {
        first_selectable(cycle, slot + 1, (count - 1) as nat, magnify_allowed)
    }
}

/// The effect that follows `current` in the cycle; the first selectable one where
/// `current` is not selectable itself.
pub open spec fn following(cycle: Seq<bool>, current: Effect, magnify_allowed: bool) -> Option<
    Effect,
> {
    let from = if selectable(cycle, slot_of(current), magnify_allowed) {
        slot_of(current) + 1
    } else {
        0
    };
    first_selectable(cycle, from, 4, magnify_allowed)
}

impl Settings {
    fn can_select(&self, slot: usize, magnify_allowed: bool) -> (selectable: bool)
        requires
            slot < 4,
        ensures
            selectable == self::selectable(self.cycle@, slot as int, magnify_allowed),
    {
        self.cycle[slot] && (slot != 2 || magnify_allowed)
    }

    /// Next effect after `current` among selected ones. Magnify is skipped
    /// without screen-recording permission. None when nothing is selectable.
    pub fn next_effect(&self, current: Effect, magnify_allowed: bool) -> (next: Option<Effect>)
        ensures
            next == following(self.cycle@, current, magnify_allowed),
    {
        let place: usize = match current {
            Effect::Spotlight => 0,
            Effect::Laser => 1,
            Effect::Magnify => 2,
            Effect::Box => 3,
        };
        let from: usize = if self.can_select(place, magnify_allowed) {
            place + 1
        } else {
            0
        };
        for step in 0..4usize
            invariant
                from <= 4,
                first_selectable(
                    self.cycle@,
                    from as int + step,
                    (4 - step) as nat,
                    magnify_allowed,
                ) == following(self.cycle@, current, magnify_allowed),
        {
            let slot: usize = (from + step) % 4;
            if self.can_select(slot, magnify_allowed) {
                return Some(
                    if slot == 0 {
                        Effect::Spotlight
                    } else if slot == 1 {
                        Effect::Laser
                    } else if slot == 2 {
                        Effect::Magnify
                    } else {
                        Effect::Box
                    },
                );
            }
        }
        None
    }
}

/// Double clicks lead only to selected effects, and lead somewhere as soon as one
/// can be selected.
pub proof fn only_selected_effects_follow(
    cycle: Seq<bool>,
    current: Effect,
    magnify_allowed: bool,
    slot: int,
)
    requires
        0 <= slot < 4,
    ensures
        following(cycle, current, magnify_allowed) matches Some(next) ==> selectable(
            cycle,
            slot_of(next),
            magnify_allowed,
        ),
        selectable(cycle, slot, magnify_allowed) ==> following(cycle, current, magnify_allowed)
            is Some,
{
    reveal_with_fuel(first_selectable, 5);
}

/// The effect after so many double clicks.
pub open spec fn after_clicks(
    cycle: Seq<bool>,
    current: Effect,
    magnify_allowed: bool,
    clicks: nat,
) -> Effect
    decreases clicks,
{
    if clicks == 0 {
        current
    } else {
        match following(cycle, current, magnify_allowed) {
            Some(next) => after_clicks(cycle, next, magnify_allowed, (clicks - 1) as nat),
            None => current,
        }
    }
}

/// Every selectable effect is reached from every effect by at most four double clicks.
pub proof fn every_selected_effect_comes_round(
    cycle: Seq<bool>,
    current: Effect,
    magnify_allowed: bool,
    wanted: Effect,
)
    requires
        selectable(cycle, slot_of(wanted), magnify_allowed),
    ensures
        exists|clicks: nat|
            clicks <= 4 && #[trigger] after_clicks(cycle, current, magnify_allowed, clicks)
                == wanted,
{
    reveal_with_fuel(first_selectable, 5);
    reveal_with_fuel(after_clicks, 5);
    assert(after_clicks(cycle, current, magnify_allowed, 0) == wanted || after_clicks(
        cycle,
        current,
        magnify_allowed,
        1,
    ) == wanted || after_clicks(cycle, current, magnify_allowed, 2) == wanted || after_clicks(
        cycle,
        current,
        magnify_allowed,
        3,
    ) == wanted || after_clicks(cycle, current, magnify_allowed, 4) == wanted);
}

/// Elapsed-time timer; each configured minute mark fires once per run.
#[derive(Debug)]
pub struct PresentationTimer {
    started: Option<i64>,
    fired: [bool; 3],
}

/// A running or stopped timer: when it was started and which slots have fired.
#[verifier::ext_equal]
pub struct TimerState {
    pub started: Option<i64>,
    pub fired: Seq<bool>,
}

/// How long a timer has run; never less than nothing.
pub open spec fn elapsed_since(started: i64, now: i64) -> u64 {
    if now >= started {
        (now - started) as u64
    } else {
        0
    }
}

/// The minute mark of a slot has been reached.
pub open spec fn mark_reached(timer: Option<u32>, elapsed: u64) -> bool {
    timer matches Some(minutes) && elapsed >= minutes * 60_000_000
}

impl TimerState {
    pub open spec fn wf(self) -> bool {
        self.fired.len() == 3
    }

    /// A slot fires now.
    pub open spec fn fires(self, now: i64, timers: Seq<Option<u32>>, slot: int) -> bool {
        &&& self.started is Some
        &&& 0 <= slot < 3
        &&& !self.fired[slot]
        &&& mark_reached(timers[slot], elapsed_since(self.started->Some_0, now))
    }

    /// The first `count` slots that fire now, in order.
    pub open spec fn firing(self, now: i64, timers: Seq<Option<u32>>, count: nat) -> Seq<usize>
        decreases count,
    {
        if count == 0 {
            Seq::empty()
        } else {
            let before = self.firing(now, timers, (count - 1) as nat);
            if self.fires(now, timers, count - 1) {
                before.push((count - 1) as usize)
            } else {
                before
            }
        }
    }

    pub open spec fn after(self, now: i64, timers: Seq<Option<u32>>) -> Self {
        TimerState {
            started: self.started,
            fired: Seq::new(3, |slot: int| self.fired[slot] || self.fires(now, timers, slot)),
        }
    }

    pub open spec fn started_at(now: i64) -> Self {
        TimerState { started: Some(now), fired: seq![false, false, false] }
    }
}

impl View for PresentationTimer {
    type V = TimerState;

    closed spec fn view(&self) -> TimerState {
        TimerState { started: self.started, fired: self.fired@ }
    }
}

impl Default for PresentationTimer {
    fn default() -> (timer: Self)
        ensures
            timer@.started is None,
            timer@.wf(),
    {
        Self { started: None, fired: [false, false, false] }
    }
}

impl PresentationTimer {
    pub fn start(&mut self, now: i64)
        ensures
            final(self)@ == TimerState::started_at(now),
    {
        self.started = Some(now);
        self.fired = [false, false, false];
        assert(self@ =~= TimerState::started_at(now));
    }

    pub fn stop(&mut self)
        ensures
            final(self)@ == (TimerState { started: None, ..old(self)@ }),
    {
        self.started = None;
    }

    pub fn elapsed(&self, now: i64) -> (elapsed: Option<u64>)
        ensures
            elapsed == match self@.started {
                Some(started) => Some(elapsed_since(started, now)),
                None => None,
            },
    {
        match self.started {
            Some(started) => {
                let elapsed: i128 = now as i128 - started as i128;
                Some(
                    if elapsed >= 0 {
                        elapsed as u64
                    } else {
                        0
                    },
                )
            },
            None => None,
        }
    }

    /// Timer slots that became due since the last call.
    pub fn due(&mut self, now: i64, timers: &[Option<u32>; 3]) -> (due: Vec<usize>)
        ensures
            due@ == old(self)@.firing(now, timers@, 3),
            old(self)@.wf() ==> final(self)@ == old(self)@.after(now, timers@),
            final(self)@.wf() == old(self)@.wf(),
    {
        let elapsed = match self.elapsed(now) {
            Some(elapsed) => elapsed,
            None => {
                proof {
                    reveal_with_fuel(TimerState::firing, 4);
                    assert(self@.after(now, timers@) =~= self@);
                }
                return Vec::new();
            },
        };
        let ghost before = self@;
        let mut due: Vec<usize> = Vec::new();
        for slot in 0..3usize
            invariant
                self.started == before.started,
                before.started is Some,
                elapsed == elapsed_since(before.started->Some_0, now),
                before.fired.len() == 3,
                due@ == before.firing(now, timers@, slot as nat),
                forall|s: int| slot <= s < 3 ==> self.fired@[s] == before.fired[s],
                forall|s: int|
                    0 <= s < slot ==> self.fired@[s] == (before.fired[s] || before.fires(
                        now,
                        timers@,
                        s,
                    )),
        {
            if let Some(minutes) = timers[slot] {
                if !self.fired[slot] && elapsed >= minutes as u64 * 60_000_000 {
                    self.fired[slot] = true;
                    due.push(slot);
                }
            }
        }
        assert(self@ =~= before.after(now, timers@));
        due
    }
}

/// A slot is among the firing ones exactly when it fires.
pub proof fn firing_lists_what_fires(
    state: TimerState,
    now: i64,
    timers: Seq<Option<u32>>,
    count: nat,
    slot: usize,
)
    requires
        count <= 3,
    ensures
        state.firing(now, timers, count).contains(slot) == (slot < count && state.fires(
            now,
            timers,
            slot as int,
        )),
    decreases count,
{
    let all = state.firing(now, timers, count);
    if count > 0 {
        let before = state.firing(now, timers, (count - 1) as nat);
        firing_lists_what_fires(state, now, timers, (count - 1) as nat, slot);
        if state.fires(now, timers, count - 1) {
            if before.contains(slot) {
                let i = choose|i: int| 0 <= i < before.len() && before[i] == slot;
                assert(all[i] == slot);
            }
            if slot == count - 1 {
                assert(all[all.len() - 1] == slot);
            }
            if all.contains(slot) && slot != count - 1 {
                let i = choose|i: int| 0 <= i < all.len() && all[i] == slot;
                assert(before[i] == slot);
            }
        }
    }
}

/// Each set timer fires once per run, at the first call at or after its mark: a slot
/// that fired is silent until the timer is started again, and one that is set is
/// silent before its mark and never missed after it.
pub proof fn each_timer_fires_once_per_run(
    state: TimerState,
    timers: Seq<Option<u32>>,
    first: i64,
    second: i64,
    slot: usize,
)
    requires
        state.wf(),
        slot < 3,
    ensures
        state.firing(first, timers, 3).contains(slot) ==> !state.after(first, timers).firing(
            second,
            timers,
            3,
        ).contains(slot),
        state.started matches Some(started) ==> (mark_reached(
            timers[slot as int],
            elapsed_since(started, first),
        ) ==> state.after(first, timers).fired[slot as int]),
        TimerState::started_at(first).firing(second, timers, 3).contains(slot) == mark_reached(
            timers[slot as int],
            elapsed_since(first, second),
        ),
        (TimerState { started: None, ..state }).firing(first, timers, 3) == Seq::<usize>::empty(),
{
    firing_lists_what_fires(state, first, timers, 3, slot);
    firing_lists_what_fires(state.after(first, timers), second, timers, 3, slot);
    firing_lists_what_fires(TimerState::started_at(first), second, timers, 3, slot);
    reveal_with_fuel(TimerState::firing, 4);
}

/// A timer set to some minutes is silent before that many times sixty seconds have
/// passed since the start, and fires at the first call from then on.
pub proof fn timers_fire_at_their_minute(
    start: i64,
    now: i64,
    timers: Seq<Option<u32>>,
    slot: usize,
    minutes: u32,
)
    requires
        slot < 3,
        timers[slot as int] == Some(minutes),
        minutes >= 1,
    ensures
        TimerState::started_at(start).firing(now, timers, 3).contains(slot) <==> now - start
            >= minutes * 60_000_000,
{
    firing_lists_what_fires(TimerState::started_at(start), now, timers, 3, slot);
}

/// At every call a slot fires exactly when the timer runs, the slot is set and has not
/// fired since the start, and its minutes have passed; from then on it counts as fired,
/// and no other slot does.
pub proof fn slots_fire_one_by_one(
    state: TimerState,
    now: i64,
    timers: Seq<Option<u32>>,
    slot: usize,
)
    requires
        state.wf(),
        slot < 3,
    ensures
        state.firing(now, timers, 3).contains(slot) <==> {
            &&& state.started matches Some(started) && timers[slot as int] matches Some(minutes)
                && !state.fired[slot as int] && (now - started >= minutes * 60_000_000 || minutes
                == 0)
        },
        state.after(now, timers).started == state.started,
        state.after(now, timers).fired.len() == 3,
        state.after(now, timers).fired[slot as int] == (state.fired[slot as int] || state.firing(
            now,
            timers,
            3,
        ).contains(slot)),
        state.started is None ==> state.firing(now, timers, 3).len() == 0,
        TimerState::started_at(now).started == Some(now),
        !TimerState::started_at(now).fired[slot as int],
{
    firing_lists_what_fires(state, now, timers, 3, slot);
    reveal_with_fuel(TimerState::firing, 4);
}

/// The slots that fire are told in order, each once.
pub proof fn slots_fire_in_order(
    state: TimerState,
    now: i64,
    timers: Seq<Option<u32>>,
    first: int,
    second: int,
)
    requires
        0 <= first < second < state.firing(now, timers, 3).len(),
    ensures
        state.firing(now, timers, 3)[first] < state.firing(now, timers, 3)[second] < 3,
{
    reveal_with_fuel(TimerState::firing, 4);
}

/// The time since the start is the difference of the moments, and never negative.
pub proof fn elapsed_time_is_a_difference(started: i64, now: i64)
    ensures
        now >= started ==> elapsed_since(started, now) == now - started,
        now < started ==> elapsed_since(started, now) == 0,
{
}

/// The cycle is spotlight, laser, magnifier, box.
pub proof fn effects_have_their_places()
    ensures
        slot_of(Effect::Spotlight) == 0 && effect_at(0) == Effect::Spotlight && effect_key(0)
            == "spotlight"@ && EFFECTS[0] == Effect::Spotlight,
        slot_of(Effect::Laser) == 1 && effect_at(1) == Effect::Laser && effect_key(1) == "laser"@
            && EFFECTS[1] == Effect::Laser,
        slot_of(Effect::Magnify) == 2 && effect_at(2) == Effect::Magnify && effect_key(2)
            == "magnify"@ && EFFECTS[2] == Effect::Magnify,
        slot_of(Effect::Box) == 3 && effect_at(3) == Effect::Box && effect_key(3) == "box"@
            && EFFECTS[3] == Effect::Box,
{
}

/// A double click leads to the next selected effect round the cycle and skips none; where
/// the present one is not selected, to the first that is. The magnifier is passed over
/// without its permission, and nothing follows where nothing is selected.
pub proof fn a_click_skips_no_selected_effect(
    cycle: Seq<bool>,
    magnify_allowed: bool,
    current: Effect,
    slot: int,
)
    requires
        cycle.len() == 4,
        0 <= slot < 4,
    ensures
        ({
            let here: int = if current == Effect::Spotlight {
                0
            } else if current == Effect::Laser {
                1
            } else if current == Effect::Magnify {
                2
            } else {
                3
            };
            let selected = cycle[slot] && (slot == 2 ==> magnify_allowed);
            let kept = cycle[here] && (here == 2 ==> magnify_allowed);
            match following(cycle, current, magnify_allowed) {
                Some(next) => {
                    let there: int = if next == Effect::Spotlight {
                        0
                    } else if next == Effect::Laser {
                        1
                    } else if next == Effect::Magnify {
                        2
                    } else {
                        3
                    };
                    &&& cycle[there] && (there == 2 ==> magnify_allowed)
                    &&& selected && kept ==> (there - here + 7) % 4 <= (slot - here + 7) % 4
                    &&& selected && !kept ==> there <= slot
                },
                None => !selected,
            }
        }),
{
    reveal_with_fuel(first_selectable, 5);
}

/// What a fresh installation starts with.
pub proof fn a_fresh_installation_has_these_settings()
    ensures
        default_values().cycle == seq![true, true, false, false],
        default_values().next_hold == HoldAction::PlayFromCurrent,
        default_values().back_hold == HoldAction::BlackScreen,
        default_values().timers == seq![None::<u32>, None::<u32>, None::<u32>],
        default_values().radius == 150_000_000,
        default_values().shade == 600_000,
        default_values().zoom == 2_000_000,
        default_values().screen_reminder == ScreenReminder::OnVibrationFailure,
{
}

/// The actions and the reminders have the names under which users find them in the file.
pub proof fn actions_and_reminders_have_these_names(key: Seq<char>)
    ensures
        HoldAction::named(key) == Some(HoldAction::Nothing) <==> key == "none"@,
        HoldAction::named(key) == Some(HoldAction::PlayFromCurrent) <==> key
            == "play-from-current"@,
        HoldAction::named(key) == Some(HoldAction::BlackScreen) <==> key == "black-screen"@,
        HoldAction::named(key) == Some(HoldAction::EndShow) <==> key == "end-show"@,
        ScreenReminder::named(key) == Some(ScreenReminder::Off) <==> key == "off"@,
        ScreenReminder::named(key) == Some(ScreenReminder::OnVibrationFailure) <==> key
            == "on-vibration-failure"@,
        ScreenReminder::named(key) == Some(ScreenReminder::Always) <==> key == "always"@,
{
    keys_name_their_values(HoldAction::Nothing, ScreenReminder::Off);
    keys_name_their_values(HoldAction::PlayFromCurrent, ScreenReminder::OnVibrationFailure);
    keys_name_their_values(HoldAction::BlackScreen, ScreenReminder::Always);
    keys_name_their_values(HoldAction::EndShow, ScreenReminder::Always);
}

/// A timer field that is empty sets no timer; one of 1 to 600 minutes sets that many;
/// every other number is an error that repeats it.
pub proof fn minutes_are_one_to_six_hundred(minutes: nat)
    ensures
        minutes_of(Seq::empty()) == Ok::<Option<u32>, Seq<char>>(None),
        1 <= minutes <= 600 ==> minutes_of(text::decimal(minutes)) == Ok::<Option<u32>, Seq<char>>(
            Some(minutes as u32),
        ),
        minutes == 0 || minutes > 600 ==> minutes_of(text::decimal(minutes)) == Err::<
            Option<u32>,
            Seq<char>,
        >(text::decimal(minutes)),
{
    let s = text::decimal(minutes);
    text::decimal_has_digits(minutes);
    assert forall|i: int| 0 <= i < s.len() implies !text::is_space(#[trigger] s[i]) by {
        let d = choose|d: nat| d < 10 && s[i] == text::digit_char(d);
        text::digit_chars_are_digits(d);
    }
    assert(!text::is_space(s[0]) && !text::is_space(s[s.len() - 1]));
    text::trimmed_stays(s);
    text::trimmed_stays(Seq::empty());
    if minutes <= u32::MAX {
        text::decimal_reads_back(minutes, u32::MAX as nat);
    } else {
        text::large_decimals_overflow(minutes, u32::MAX as nat);
    }
}

/// Rounding to hundredths and to whole units misses by no more than half of one.
pub proof fn rounding_goes_to_the_nearest(quantity: u64)
    ensures
        -5_000 <= hundredths(quantity) * 10_000 - quantity <= 5_000,
        -500_000 < rounded(quantity) * 1_000_000 - quantity <= 500_000,
{
}

/// A zoom level is one of one and a half, two, three and four.
pub proof fn there_are_four_zoom_levels(zoom: u64, i: int)
    ensures
        is_zoom_level(zoom) <==> zoom == 1_500_000 || zoom == 2_000_000 || zoom == 3_000_000 || zoom
            == 4_000_000,
        0 <= i < 4 ==> is_zoom_level(ZOOM_LEVELS[i]),
        ZOOM_LEVELS[0] < ZOOM_LEVELS[1] < ZOOM_LEVELS[2] < ZOOM_LEVELS[3],
        MIN_SHADE == 200_000 && MAX_SHADE == 900_000 && DEFAULT_SHADE == 600_000,
        MAX_TIMER_MINUTES == 600 && MAX_TIMERS == 3,
{
}

/// Half a hundredth goes to the even one where the double is exact, as it is for every
/// multiple of an eighth.
pub proof fn exact_halves_go_to_the_even_hundredth(eighths: nat)
    requires
        eighths * 125_000 <= u64::MAX,
    ensures
        eighths % 2 == 1 ==> hundredths((eighths * 125_000) as u64) % 2 == 0,
{
    whole_numbers_stay_whole(eighths * 32_000_000);
}

proof fn whole_numbers_stay_whole(scaled: nat)
    requires
        scaled % 1_000_000 == 0,
    ensures
        magnified(scaled) % 1_000_000 == 0,
    decreases 9_007_199_254_740_992_000_000 - scaled,
{
    if scaled != 0 && scaled < 4_503_599_627_370_496_000_000 {
        whole_numbers_stay_whole(2 * scaled);
    }
}

/// A number that is read by the caller is what the caller answers for that text.
pub proof fn answers_are_those_of_the_reader<F: Fn(&str) -> Option<Number>>(
    read: F,
    lines: Seq<Seq<char>>,
    answers: Seq<Option<Number>>,
    at: int,
)
    requires
        answered(read, lines, answers),
        0 <= at < lines.len(),
        lines[at].contains('='),
        key_of(lines[at]) == "radius"@ || key_of(lines[at]) == "shade"@ || key_of(lines[at])
            == "zoom"@,
        plain_number(value_of(lines[at])) is None,
    ensures
        exists|text: &str|
            text@ == value_of(lines[at]) && #[trigger] call_ensures(read, (text,), answers[at]),
{
    let line = lines[at];
    text::find_is_in_range(line, '=');
    assert(text::find(line, '=') < line.len());
}

} // verus!
