use orange_beam::capture_session::CaptureSession;
use orange_beam::cursor::{CursorHider, CursorStep};
use orange_beam::fixtures::{check_effect, differing, fixture_name, glyph_looks_right, tile, Tile};
use orange_beam::panel::{
    battery_with, effect_line, elapsed_line, hold_index, panel_model, permission, permission_line,
    privacy_url, reminder_index, remote_title, status_color, status_line, timer_caption,
    timer_field, timer_title, zoom_index, zoom_title, RemoteStatus, StatusColor,
};
use orange_beam::presentation::{BoxView, Effect, Point, Presentation, Rect};
use orange_beam::remote::{
    connected_message, connection_failed_message, ready_line, stopped_message, transport_name,
    Event, Gate, HoldTracker,
};
use orange_beam::settings::{HoldAction, ScreenReminder, Settings, ZOOM_LEVELS};
use orange_beam::shell::{
    apply_hold, apply_shortcut, capture_plan, capture_stopped_message, effect_name, effect_tag,
    needs_redraw, overlay_center, pixels, preview_effect, quit_due, screen_check_due,
    screens_changed, shortcut_message, shortcut_of, tagged_effect, tick_message, CapturePlan, Look,
    Screen, SHORTCUT_SIGNATURE, shows_box,
};

const UNIT: i64 = 1_000_000;

fn screen(x: i64, display_id: u32) -> Screen {
    Screen {
        frame: Rect {
            x: x * UNIT,
            y: 0,
            width: 1_000_000_000,
            height: 500_000_000,
        },
        display_id,
        scale: 2_000_000,
    }
}

fn at(x: i64, y: i64) -> Point {
    Point {
        x: x * UNIT,
        y: y * UNIT,
    }
}

#[test]
fn the_app_quits_on_signals_and_after_a_demonstration() {
    assert!(quit_due(15, None, 0));
    assert!(!quit_due(0, None, i64::MAX));
    assert!(!quit_due(0, Some(10), 9));
    assert!(quit_due(0, Some(10), 10));
    assert!(screen_check_due(UNIT, 0));
    assert!(!screen_check_due(UNIT - 1, 0));
    assert!(screen_check_due(i64::MAX, i64::MIN));
}

#[test]
fn changed_displays_are_noticed() {
    let known = [screen(0, 1), screen(1000, 2)];
    assert!(!screens_changed(&known, &[screen(0, 1), screen(1000, 2)]));
    assert!(screens_changed(&known, &[screen(0, 1)]));
    assert!(screens_changed(&known, &[screen(0, 1), screen(1000, 3)]));
    assert!(!screens_changed(&[], &[]));
}

#[test]
fn only_a_permitted_magnifier_captures_the_display_under_the_pointer() {
    let screens = [screen(0, 1), screen(1000, 2)];
    let plan = |active, effect, allowed, has_frame, pointer| {
        capture_plan(active, effect, allowed, has_frame, &screens, pointer)
    };
    assert_eq!(
        plan(true, Effect::Magnify, true, false, at(1500, 10)),
        CapturePlan::Start {
            display_id: 2,
            width: 2000,
            height: 1000
        }
    );
    assert!(matches!(
        plan(true, Effect::Magnify, true, true, at(999, 499)),
        CapturePlan::Start { display_id: 1, .. }
    ));
    assert_eq!(plan(true, Effect::Magnify, true, true, at(5, 500)), CapturePlan::Keep);
    assert_eq!(plan(true, Effect::Magnify, false, false, at(5, 5)), CapturePlan::Keep);
    assert_eq!(plan(true, Effect::Magnify, false, true, at(5, 5)), CapturePlan::Stop);
    assert_eq!(plan(true, Effect::Laser, true, false, at(5, 5)), CapturePlan::Stop);
    assert_eq!(plan(false, Effect::Magnify, true, false, at(5, 5)), CapturePlan::Stop);
    assert_eq!(pixels(1_000_250_000, 2_000_000), 2001);
    assert_eq!(pixels(1_000_249_999, 2_000_000), 2000);
    assert_eq!(pixels(u64::MAX, u64::MAX), u64::MAX);
}

#[test]
fn overlays_show_where_the_pointer_is() {
    let frame = screen(-1000, 1).frame;
    assert_eq!(
        overlay_center(frame, at(-900, 30), Effect::Laser, false),
        Some(at(100, 30))
    );
    assert_eq!(overlay_center(frame, at(0, 30), Effect::Laser, false), None);
    assert_eq!(overlay_center(frame, at(-900, 30), Effect::Magnify, false), None);
    assert!(overlay_center(frame, at(-900, 30), Effect::Magnify, true).is_some());
    let look = Look {
        effect: Effect::Laser,
        center: at(1, 1),
        radius: 1,
        shade: 1,
        zoom: 1,
    };
    assert!(!needs_redraw(look, look, false, true));
    assert!(needs_redraw(look, look, true, true));
    assert!(needs_redraw(look, look, false, false));
    assert!(needs_redraw(look, Look { radius: 2, ..look }, false, true));
}

#[test]
fn the_magnifier_says_what_it_waits_for() {
    assert_eq!(
        tick_message(true, Effect::Magnify, true, false),
        Some("正在启动屏幕采集…")
    );
    assert_eq!(
        tick_message(true, Effect::Magnify, false, false),
        Some("实时放大需要屏幕录制权限；聚光和激光仍可使用。")
    );
    assert_eq!(tick_message(true, Effect::Magnify, true, true), None);
    assert_eq!(tick_message(false, Effect::Magnify, true, false), None);
    assert_eq!(tick_message(true, Effect::Laser, true, false), None);
    assert_eq!(capture_stopped_message("x"), "放大镜已停止：x");
}

#[test]
fn effects_have_menu_entries_and_names() {
    for (tag, effect, name) in [
        (0, Effect::Spotlight, "聚光"),
        (1, Effect::Laser, "数字激光"),
        (2, Effect::Magnify, "实时放大"),
        (3, Effect::Box, "方框"),
    ] {
        assert_eq!(effect_tag(effect), tag);
        assert_eq!(tagged_effect(tag), effect);
        assert_eq!(effect_name(effect), name);
    }
    assert_eq!(tagged_effect(-1), Effect::Spotlight);
    let mut shown = Presentation::default();
    preview_effect(&mut shown, Effect::Laser, 0, 10 * UNIT);
    assert_eq!(shown.effect, Effect::Laser);
    assert!(shown.active(9 * UNIT) && !shown.active(10 * UNIT));
}

#[test]
fn a_repeated_release_does_not_draw_a_box() {
    let mut shown = Presentation {
        effect: Effect::Box,
        ..Presentation::default()
    };
    apply_hold(&mut shown, true, at(1, 1));
    assert_eq!(shown.box_view(at(5, 5), 0), Some(BoxView::Aim(at(5, 5))));
    apply_hold(&mut shown, false, at(10, 10));
    apply_hold(&mut shown, false, at(90, 90));
    assert_eq!(shown.box_view(at(0, 0), 0), Some(BoxView::Anchor(at(10, 10))));
    apply_hold(&mut shown, true, at(10, 10));
    apply_hold(&mut shown, true, at(10, 10));
    apply_hold(&mut shown, false, at(90, 50));
    assert!(matches!(shown.box_view(at(0, 0), 0), Some(BoxView::Rect(r)) if r.width == 80_000_000));
}

#[test]
fn shortcuts_show_and_hide() {
    assert_eq!(shortcut_of(0, SHORTCUT_SIGNATURE, 2), Some(2));
    assert_eq!(shortcut_of(0, 1, 2), None);
    assert_eq!(shortcut_of(-1, SHORTCUT_SIGNATURE, 2), None);
    assert_eq!(SHORTCUT_SIGNATURE, u32::from_be_bytes(*b"SpRS"));
    let mut shown = Presentation::default();
    assert!(!apply_shortcut(&mut shown, 3, 0));
    assert!(apply_shortcut(&mut shown, 1, 0));
    assert!(shown.active(5));
    shown.blackout = true;
    assert!(apply_shortcut(&mut shown, 2, 0));
    assert!(!shown.active(5) && !shown.blackout);
    assert_eq!(shortcut_message(true), "效果已显示；⌃⌥⌘H 可立即隐藏。");
    assert_eq!(shortcut_message(false), "效果已隐藏。⌥⌘P 可再次显示。");
}

#[test]
fn only_the_present_session_is_heard() {
    let mut gate = Gate::new();
    let first = gate.begin().unwrap();
    gate.started();
    assert_eq!(gate.begin(), None);
    assert!(gate.admits(first));
    gate.end();
    assert!(!gate.admits(first));
    let second = gate.begin().unwrap();
    assert_ne!(first, second);
    assert!(gate.admits(second) && !gate.admits(first));
    gate.close();
    assert!(!gate.admits(second));
    assert_eq!(gate.begin(), None);
    let mut last = Gate {
        epoch: u64::MAX,
        ..Gate::new()
    };
    assert_eq!(last.begin(), Some(0));
}

#[test]
fn holds_are_told_once() {
    let mut tracker = HoldTracker::new(0xff, 7);
    let mut held = [0; 20];
    held[..6].copy_from_slice(&[0x11, 0xff, 7, 0, 0, 0xd8]);
    let mut free = held;
    free[5] = 0;
    let told: Vec<_> = [free, held, held, free]
        .iter()
        .map(|data| tracker.observe(data))
        .collect();
    assert_eq!(told, [None, Some(true), None, Some(false)]);
    assert_eq!(tracker.observe(&[2, 1]), None);
    let events = [Event::Connected(transport_name(true)), Event::Hold(true), Event::Stopped(Ok(()))];
    assert!(matches!(events[0], Event::Connected("蓝牙")));
    assert_eq!(transport_name(false), "USB");
    assert_eq!(
        connected_message("蓝牙"),
        "Spotlight 已通过蓝牙连接。按住顶键显示，松开隐藏。"
    );
    assert_eq!(connection_failed_message("x"), "无法连接遥控器：x");
    assert_eq!(stopped_message("x"), "遥控器已停止：x");
    assert_eq!(
        ready_line(true, 1, 0xff, 7),
        "REMOTE READY transport=Bluetooth query=01 notifications=ff feature=07"
    );
}

#[test]
fn the_pointer_is_hidden_and_shown_in_balance() {
    let mut hider = CursorHider::default();
    assert_eq!(hider.set_hidden(false), CursorStep::Nothing);
    assert_eq!(hider.set_hidden(true), CursorStep::AskPermission);
    let mut refused = hider;
    refused.answered(1);
    assert_eq!(refused.set_hidden(true), CursorStep::Nothing);
    hider.answered(0);
    assert_eq!(hider.set_hidden(true), CursorStep::Switch(true));
    hider.switched(true, 5);
    assert_eq!(hider.set_hidden(true), CursorStep::Switch(true));
    hider.switched(true, 0);
    assert_eq!(hider.set_hidden(true), CursorStep::Nothing);
    assert_eq!(hider.set_hidden(false), CursorStep::Switch(false));
    hider.switched(false, 0);
    assert!(!hider.hidden);
}

#[test]
fn late_capture_results_are_ignored() {
    let mut session = CaptureSession::new();
    let first = session.start(7, 100, 50).unwrap();
    assert_eq!(session.start(7, 100, 50), None);
    assert_eq!(session.accept_content(first, &[3, 7, 7], 1), Some(1));
    session.frame_arrived();
    assert!(session.has_frame && session.sequence == 1);
    let second = session.start(3, 10, 5).unwrap();
    assert!(!session.has_frame);
    assert_eq!(session.accept_content(first, &[3], 1), None);
    session.fail(first, "late");
    assert!(session.error.is_none());
    assert_eq!(session.accept_content(second, &[7], 1), None);
    assert_eq!(session.error.as_deref(), Some("目标显示器已断开"));
    assert_eq!(session.accept_content(second, &[3], 0), None);
    assert_eq!(
        session.error.as_deref(),
        Some("无法从采集中排除本程序，放大镜已停止")
    );
    session.stream_failed("lost");
    assert_eq!(session.error.as_deref(), Some("lost"));
    session.fail(second, "again");
    assert_eq!(session.error.as_deref(), Some("again"));
    session.stop();
    assert!(session.error.is_none() && session.display.is_none());
}

#[test]
fn the_panel_shows_the_state_in_words() {
    assert_eq!(
        status_line(RemoteStatus::Connected("USB"), Some((80, 0))),
        "USB已连接 · 电量 80%"
    );
    assert_eq!(
        status_line(RemoteStatus::Connected("蓝牙"), Some((5, 3))),
        "蓝牙已连接 · 电量 5%（充电中）"
    );
    assert_eq!(status_line(RemoteStatus::Connected("USB"), None), "USB已连接");
    for (status, line) in [
        (RemoteStatus::Connecting, "正在连接…"),
        (RemoteStatus::Reconnecting, "连接中断，正在自动重连…"),
        (RemoteStatus::Waiting, "未找到遥控器，自动重试中"),
        (RemoteStatus::Disconnected, "已断开（不自动重连）"),
    ] {
        assert_eq!(status_line(status, Some((1, 1))), line);
        assert_eq!(battery_with(status, Some((1, 1))), None);
        assert_ne!(status_color(status), StatusColor::Green);
    }
    assert_eq!(status_color(RemoteStatus::Connected("USB")), StatusColor::Green);
    assert_eq!(status_color(RemoteStatus::Disconnected), StatusColor::Secondary);
    assert_eq!(battery_with(RemoteStatus::Connected("USB"), Some((1, 1))), Some((1, 1)));
    assert_eq!(effect_line(Effect::Laser), "当前特效：数字激光");
    assert_eq!(remote_title(true), "断开遥控器");
    assert_eq!(remote_title(false), "连接遥控器");
    assert_eq!(timer_title(true), "停止计时");
    assert_eq!(timer_title(false), "开始计时");
    assert_eq!(elapsed_line(None), "");
    assert_eq!(elapsed_line(Some(65_999_999)), "已用 01:05");
    assert_eq!(elapsed_line(Some(6_000_000_000)), "已用 100:00");
    assert_eq!(permission_line(0, true), "✓ 输入监控");
    assert_eq!(permission_line(2, false), "✗ 屏幕录制");
    assert_eq!(permission(1).1, "长按翻页发送播放快捷键");
    assert_eq!(
        privacy_url(9),
        "x-apple.systempreferences:com.apple.preference.security?Privacy_ScreenCapture"
    );
}

#[test]
fn the_panel_lays_the_settings_out() {
    let titles: Vec<_> = ZOOM_LEVELS.iter().map(|z| zoom_title(*z)).collect();
    assert_eq!(titles, ["1.5×", "2×", "3×", "4×"]);
    for (i, level) in ZOOM_LEVELS.iter().enumerate() {
        assert_eq!(zoom_index(*level), i);
    }
    assert_eq!(zoom_index(2_500_000), 1);
    for (i, action) in HoldAction::ALL.iter().enumerate() {
        assert_eq!(hold_index(*action), i);
    }
    for (i, mode) in ScreenReminder::ALL.iter().enumerate() {
        assert_eq!(reminder_index(*mode), i);
    }
    assert_eq!(timer_caption(0), "定时 1");
    assert_eq!(timer_field(Some(15)), "15");
    let model = panel_model(&Settings {
        timers: [Some(1), None, Some(600)],
        ..Settings::default()
    });
    assert_eq!(
        model.cycle,
        [("聚光", true), ("数字激光", true), ("实时放大", false), ("方框", false)]
    );
    assert_eq!(model.timer_fields, ["1", "", "600"]);
    assert_eq!((model.radius, model.shade), (150_000_000, 600_000));
    assert_eq!((model.zoom_index, model.reminder_index), (1, 1));
    assert_eq!((model.next_hold_index, model.back_hold_index), (1, 2));
}

#[test]
fn fixtures_are_checked_by_their_transparency() {
    assert_eq!(check_effect(Effect::Spotlight, 600_000, 0), Ok(()));
    assert_eq!(check_effect(Effect::Spotlight, 620_000, 10_000), Ok(()));
    assert_eq!(
        check_effect(Effect::Spotlight, 620_001, 0),
        Err("Spotlight transparency check failed")
    );
    assert_eq!(
        check_effect(Effect::Laser, 0, 989_999),
        Err("Laser transparency check failed")
    );
    assert_eq!(check_effect(Effect::Laser, 10_000, 990_000), Ok(()));
    assert_eq!(
        check_effect(Effect::Magnify, 0, 0),
        Err("Magnifier image check failed")
    );
    assert_eq!(
        check_effect(Effect::Box, 600_000, 10_001),
        Err("Box transparency check failed")
    );
    assert!(glyph_looks_right(990_000, 300_000, 990_000, 10_000));
    assert!(!glyph_looks_right(990_000, 600_000, 990_000, 10_000));
    assert_eq!(differing(&[1, 2, 3], &[1, 0, 3, 4]), 1);
    assert_eq!(differing(&[], &[1]), 0);
    assert_eq!(
        tile(1, 2),
        Tile {
            x: 200,
            y: 110,
            blue: false
        }
    );
    assert_eq!(fixture_name(Effect::Box), "box");
}

#[test]
fn a_drawn_box_is_shown_on_every_display_that_it_reaches() {
    let unit = 1_000_000;
    let screen = Rect {
        x: 0,
        y: 0,
        width: 100 * unit,
        height: 100 * unit,
    };
    let drawn = |x: i64| {
        Some(BoxView::Rect(Rect {
            x: x * 1_000_000,
            y: 0,
            width: 20 * unit,
            height: 20 * unit,
        }))
    };
    assert!(shows_box(screen, drawn(90)));
    assert!(!shows_box(screen, drawn(100)));
    let corner = Point { x: 0, y: 0 };
    assert!(!shows_box(screen, Some(BoxView::Anchor(corner))));
    assert!(!shows_box(screen, None));
}
