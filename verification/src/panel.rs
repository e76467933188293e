//! What the control panel shows.
use crate::presentation::Effect;
use crate::settings::{self, HoldAction, ScreenReminder, Settings};
use crate::shell::{self, effect_name};
use crate::text;
use vstd::prelude::*;

verus! {

/// Connection state shown in the status line.
#[derive(Debug, Clone, Copy)]
pub enum RemoteStatus {
    Connecting,
    Connected(&'static str),
    Reconnecting,
    Waiting,
    Disconnected,
}

/// The color of the status dot.
#[derive(Debug, Clone, Copy, PartialEq, Eq, Structural)]
pub enum StatusColor {
    Green,
    Orange,
    Secondary,
}

/// The battery in words; the states 1 to 3 mean charging.
pub open spec fn battery_text(battery: Option<(u8, u8)>) -> Seq<char> {
    match battery {
        Some((level, state)) => " · 电量 "@ + text::decimal(level as nat) + (if 1 <= state <= 3 {
            "%（充电中）"@
        } else {
            "%"@
        }),
        None => ""@,
    }
}

pub open spec fn status_text(status: RemoteStatus, battery: Option<(u8, u8)>) -> Seq<char> {
    match status {
        RemoteStatus::Connected(transport) => transport@ + "已连接"@ + battery_text(battery),
        RemoteStatus::Connecting => "正在连接…"@,
        RemoteStatus::Reconnecting => "连接中断，正在自动重连…"@,
        RemoteStatus::Waiting => "未找到遥控器，自动重试中"@,
        RemoteStatus::Disconnected => "已断开（不自动重连）"@,
    }
}

pub open spec fn spec_status_color(status: RemoteStatus) -> StatusColor {
    match status {
        RemoteStatus::Connected(_) => StatusColor::Green,
        RemoteStatus::Disconnected => StatusColor::Secondary,
        _ => StatusColor::Orange,
    }
}

pub fn status_color(status: RemoteStatus) -> (color: StatusColor)
    ensures
        color == spec_status_color(status),
{
    match status {
        RemoteStatus::Connected(_) => StatusColor::Green,
        RemoteStatus::Disconnected => StatusColor::Secondary,
        _ => StatusColor::Orange,
    }
}

pub fn status_line(status: RemoteStatus, battery: Option<(u8, u8)>) -> (line: String)
    ensures
        line@ == status_text(status, battery),
{
    match status {
        RemoteStatus::Connected(transport) => {
            let mut line = transport.to_owned();
            line.append("已连接");
            let ghost before = line@;
            match battery {
                Some((level, state)) => {
                    line.append(" · 电量 ");
                    text::push_decimal(&mut line, level as u64);
                    line.append(
                        if 1 <= state && state <= 3 {
                            "%（充电中）"
                        } else {
                            "%"
                        },
                    );
                },
                None => line.append(""),
            }
            assert(line@ =~= before + battery_text(battery));
            line
        },
        RemoteStatus::Connecting => "正在连接…".to_owned(),
        RemoteStatus::Reconnecting => "连接中断，正在自动重连…".to_owned(),
        RemoteStatus::Waiting => "未找到遥控器，自动重试中".to_owned(),
        RemoteStatus::Disconnected => "已断开（不自动重连）".to_owned(),
    }
}

/// The battery that is known with a status; only a connected remote has one.
pub fn battery_with(status: RemoteStatus, battery: Option<(u8, u8)>) -> (kept: Option<(u8, u8)>)
    ensures
        kept == (if status is Connected {
            battery
        } else {
            None
        }),
{
    match status {
        RemoteStatus::Connected(_) => battery,
        _ => None,
    }
}

pub fn effect_line(effect: Effect) -> (line: String)
    ensures
        line@ == "当前特效："@ + shell::spec_effect_name(effect),
{
    let mut line = "当前特效：".to_owned();
    line.append(effect_name(effect));
    line
}

pub fn remote_title(connected: bool) -> (title: &'static str)
    ensures
        title@ == (if connected {
            "断开遥控器"@
        } else {
            "连接遥控器"@
        }),
{
    if connected {
        "断开遥控器"
    } else {
        "连接遥控器"
    }
}

pub fn timer_title(running: bool) -> (title: &'static str)
    ensures
        title@ == (if running {
            "停止计时"@
        } else {
            "开始计时"@
        }),
{
    if running {
        "停止计时"
    } else {
        "开始计时"
    }
}

/// A number with at least two digits.
pub open spec fn two_digits(number: nat) -> Seq<char> {
    if number < 10 {
        seq!['0'] + text::decimal(number)
    } else {
        text::decimal(number)
    }
}

/// Minutes and seconds of an elapsed time; nothing where no timer runs.
pub open spec fn elapsed_text(elapsed: Option<u64>) -> Seq<char> {
    match elapsed {
        Some(elapsed) => {
            let seconds = elapsed / 1_000_000;
            "已用 "@ + two_digits((seconds / 60) as nat) + ":"@ + two_digits((seconds % 60) as nat)
        },
        None => ""@,
    }
}

fn push_two_digits(out: &mut String, number: u64)
    ensures
        final(out)@ == old(out)@ + two_digits(number as nat),
{
    let ghost before = out@;
    proof {
        reveal_strlit("0");
        assert("0"@ =~= seq!['0']);
    }
    if number < 10 {
        out.append("0");
    }
    text::push_decimal(out, number);
    assert(out@ =~= before + two_digits(number as nat));
}

pub fn elapsed_line(elapsed: Option<u64>) -> (line: String)
    ensures
        line@ == elapsed_text(elapsed),
{
    match elapsed {
        Some(elapsed) => {
            let seconds: u64 = elapsed / 1_000_000;
            let mut line = "已用 ".to_owned();
            push_two_digits(&mut line, seconds / 60);
            line.append(":");
            push_two_digits(&mut line, seconds % 60);
            line
        },
        None => "".to_owned(),
    }
}

/// How many permissions the panel lists.
pub const PERMISSIONS: usize = 3;

/// Name, purpose and System Settings anchor of a permission.
pub open spec fn permission_of(slot: int) -> (Seq<char>, Seq<char>, Seq<char>) {
    if slot == 0 {
        ("输入监控"@, "读取遥控器按键"@, "Privacy_ListenEvent"@)
    } else if slot == 1 {
        ("辅助功能"@, "长按翻页发送播放快捷键"@, "Privacy_Accessibility"@)
    } else {
        ("屏幕录制"@, "实时放大"@, "Privacy_ScreenCapture"@)
    }
}

/// The permission at a place; the last one for every place beyond.
pub fn permission(slot: usize) -> (permission: (&'static str, &'static str, &'static str))
    ensures
        (permission.0@, permission.1@, permission.2@) == permission_of(slot as int),
{
    if slot == 0 {
        ("输入监控", "读取遥控器按键", "Privacy_ListenEvent")
    } else if slot == 1 {
        ("辅助功能", "长按翻页发送播放快捷键", "Privacy_Accessibility")
    } else {
        ("屏幕录制", "实时放大", "Privacy_ScreenCapture")
    }
}

pub fn permission_line(slot: usize, granted: bool) -> (line: String)
    ensures
        line@ == (if granted {
            "✓ "@
        } else {
            "✗ "@
        }) + permission_of(slot as int).0,
{
    let mut line = if granted {
        "✓ ".to_owned()
    } else {
        "✗ ".to_owned()
    };
    line.append(permission(slot).0);
    line
}

/// The System Settings page of a permission.
pub fn privacy_url(slot: usize) -> (url: String)
    ensures
        url@ == "x-apple.systempreferences:com.apple.preference.security?"@ + permission_of(
            slot as int,
        ).2,
{
    let mut url = "x-apple.systempreferences:com.apple.preference.security?".to_owned();
    url.append(permission(slot).2);
    url
}

/// The title of a zoom level.
pub fn zoom_title(level: u64) -> (title: String)
    ensures
        title@ == settings::shortest(level) + "×"@,
{
    let mut title = settings::format_shortest(level);
    title.append("×");
    title
}

/// The place of a zoom among the levels; the second where it is none.
pub fn zoom_index(zoom: u64) -> (index: usize)
    ensures
        index < 4,
        settings::is_zoom_level(zoom) ==> settings::ZOOM_LEVELS[index as int] == zoom,
        !settings::is_zoom_level(zoom) ==> index == 1,
{
    if zoom == 1_500_000 {
        0
    } else if zoom == 3_000_000 {
        2
    } else if zoom == 4_000_000 {
        3
    } else {
        1
    }
}

/// The place of a hold action in the list.
pub fn hold_index(action: HoldAction) -> (index: usize)
    ensures
        index < 4,
        HoldAction::ALL[index as int] == action,
{
    match action {
        HoldAction::Nothing => 0,
        HoldAction::PlayFromCurrent => 1,
        HoldAction::BlackScreen => 2,
        HoldAction::EndShow => 3,
    }
}

/// The place of a reminder mode in the list.
pub fn reminder_index(mode: ScreenReminder) -> (index: usize)
    ensures
        index < 3,
        ScreenReminder::ALL[index as int] == mode,
{
    match mode {
        ScreenReminder::Off => 0,
        ScreenReminder::OnVibrationFailure => 1,
        ScreenReminder::Always => 2,
    }
}

/// The text of a timer field.
pub fn timer_field(timer: Option<u32>) -> (field: String)
    ensures
        field@ == settings::timer_text(timer),
{
    let mut field = String::new();
    if let Some(minutes) = timer {
        text::push_decimal(&mut field, minutes as u64);
    }
    assert(field@ =~= settings::timer_text(timer));
    field
}

/// The caption of a timer.
pub fn timer_caption(slot: usize) -> (caption: String)
    requires
        slot < settings::MAX_TIMERS,
    ensures
        caption@ == "定时 "@ + text::decimal(slot as nat + 1),
{
    let mut caption = "定时 ".to_owned();
    text::push_decimal(&mut caption, slot as u64 + 1);
    caption
}

/// What the rows of the panel show of the settings.
#[derive(Debug)]
pub struct PanelModel {
    /// Name and check mark of each effect of the double-click cycle.
    pub cycle: Vec<(&'static str, bool)>,
    pub radius: u64,
    pub shade: u64,
    pub zoom_index: usize,
    pub next_hold_index: usize,
    pub back_hold_index: usize,
    pub timer_fields: Vec<String>,
    pub reminder_index: usize,
}

/// Lays the settings out in the rows of the panel.
pub fn panel_model(values: &Settings) -> (model: PanelModel)
    ensures
        model.cycle@.len() == 4,
        forall|slot: int|
            0 <= slot < 4 ==> (#[trigger] model.cycle@[slot]).0@ == shell::spec_effect_name(
                settings::effect_at(slot),
            ) && model.cycle@[slot].1 == values.cycle@[slot],
        model.radius == values.radius,
        model.shade == values.shade,
        model.zoom_index < 4,
        settings::is_zoom_level(values.zoom) ==> settings::ZOOM_LEVELS[model.zoom_index as int]
            == values.zoom,
        !settings::is_zoom_level(values.zoom) ==> model.zoom_index == 1,
        model.next_hold_index < 4,
        HoldAction::ALL[model.next_hold_index as int] == values.next_hold,
        model.back_hold_index < 4,
        HoldAction::ALL[model.back_hold_index as int] == values.back_hold,
        text::contents(model.timer_fields@) == settings::timer_texts(values.timers@),
        model.reminder_index < 3,
        ScreenReminder::ALL[model.reminder_index as int] == values.screen_reminder,
{
    let mut cycle: Vec<(&'static str, bool)> = Vec::new();
    cycle.push((effect_name(Effect::Spotlight), values.cycle[0]));
    cycle.push((effect_name(Effect::Laser), values.cycle[1]));
    cycle.push((effect_name(Effect::Magnify), values.cycle[2]));
    cycle.push((effect_name(Effect::Box), values.cycle[3]));
    let mut timer_fields: Vec<String> = Vec::new();
    for slot in 0..3usize
        invariant
            timer_fields@.len() == slot,
            forall|s: int|
                0 <= s < slot ==> timer_fields@[s]@ == settings::timer_text(values.timers@[s]),
    {
        timer_fields.push(timer_field(values.timers[slot]));
    }
    assert(text::contents(timer_fields@) =~= settings::timer_texts(values.timers@));
    PanelModel {
        cycle,
        radius: values.radius,
        shade: values.shade,
        zoom_index: zoom_index(values.zoom),
        next_hold_index: hold_index(values.next_hold),
        back_hold_index: hold_index(values.back_hold),
        timer_fields,
        reminder_index: reminder_index(values.screen_reminder),
    }
}

/// The dot is green with a connection, grey where none is sought, and orange in between.
pub proof fn the_dot_tells_the_connection(status: RemoteStatus)
    ensures
        spec_status_color(status) == StatusColor::Green <==> status is Connected,
        spec_status_color(status) == StatusColor::Secondary <==> status is Disconnected,
        spec_status_color(status) == StatusColor::Orange <==> status is Connecting || status
            is Reconnecting || status is Waiting,
{
}

/// A remote in the states 1 to 3 is charging and in no other, and the level is told in
/// percent; only a connected remote has a battery.
pub proof fn charging_is_told(level: u8, state: u8, transport: &'static str)
    ensures
        1 <= state <= 3 ==> battery_text(Some((level, state))) == " · 电量 "@ + text::decimal(
            level as nat,
        ) + "%（充电中）"@,
        state == 0 || state > 3 ==> battery_text(Some((level, state))) == " · 电量 "@
            + text::decimal(level as nat) + "%"@,
        battery_text(None) == ""@,
        status_text(RemoteStatus::Connected(transport), Some((level, state))) == transport@
            + "已连接"@ + battery_text(Some((level, state))),
        status_text(RemoteStatus::Waiting, Some((level, state))) == "未找到遥控器，自动重试中"@,
        status_text(RemoteStatus::Connecting, Some((level, state))) == "正在连接…"@,
        status_text(RemoteStatus::Reconnecting, Some((level, state)))
            == "连接中断，正在自动重连…"@,
        status_text(RemoteStatus::Disconnected, Some((level, state)))
            == "已断开（不自动重连）"@,
{
}

/// An elapsed time is told in full minutes and the seconds beyond them, each with two digits
/// at least.
pub proof fn minutes_and_seconds_are_told(minutes: nat, seconds: nat, rest: nat)
    requires
        seconds < 60,
        rest < 1_000_000,
        60_000_000 * minutes + 1_000_000 * seconds + rest <= u64::MAX,
    ensures
        elapsed_text(Some((60_000_000 * minutes + 1_000_000 * seconds + rest) as u64)) == "已用 "@
            + two_digits(minutes) + ":"@ + two_digits(seconds),
        elapsed_text(None) == ""@,
        seconds < 10 ==> two_digits(seconds) == seq!['0'] + text::decimal(seconds),
        minutes >= 10 ==> two_digits(minutes) == text::decimal(minutes),
{
    let elapsed = (60_000_000 * minutes + 1_000_000 * seconds + rest) as u64;
    assert(elapsed / 1_000_000 == 60 * minutes + seconds);
    assert((60 * minutes + seconds) / 60 == minutes);
    assert((60 * minutes + seconds) % 60 == seconds);
}

/// The panel lists these permissions, each with its page.
pub proof fn the_panel_lists_these_permissions()
    ensures
        PERMISSIONS == 3,
        permission_of(0) == ("输入监控"@, "读取遥控器按键"@, "Privacy_ListenEvent"@),
        permission_of(1) == (
            "辅助功能"@,
            "长按翻页发送播放快捷键"@,
            "Privacy_Accessibility"@,
        ),
        permission_of(2) == ("屏幕录制"@, "实时放大"@, "Privacy_ScreenCapture"@),
{
}

} // verus!
