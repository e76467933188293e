use orange_beam::measure::Number;
use orange_beam::presentation::{Effect, DEFAULT_RADIUS};
use orange_beam::settings::{
    clamp_shade, nearest_zoom, parse_minutes, HoldAction, PresentationTimer, ScreenReminder,
    Settings, DEFAULT_SHADE,
};

/// The standard library's reading of decimal numbers, in millionths.
fn read(text: &str) -> Option<Number> {
    let value = text.parse::<f64>().ok()?;
    Some(if value.is_finite() {
        Number::Finite((value * 1_000_000.0).round() as i64)
    } else {
        Number::NotFinite
    })
}

#[test]
fn defaults_match_requested_behaviour() {
    let s = Settings::default();
    assert_eq!(s.cycle, [true, true, false, false]);
    assert_eq!(s.screen_reminder, ScreenReminder::OnVibrationFailure);
    assert_eq!(s.next_hold, HoldAction::PlayFromCurrent);
    assert_eq!(s.back_hold, HoldAction::BlackScreen);
    assert_eq!(s.timers, [None; 3]);
}

#[test]
fn settings_round_trip_and_tolerate_bad_input() {
    let s = Settings {
        cycle: [false, true, true, true],
        next_hold: HoldAction::EndShow,
        back_hold: HoldAction::Nothing,
        timers: [Some(15), None, Some(30)],
        radius: 220_000_000,
        shade: 450_000,
        zoom: 3_000_000,
        screen_reminder: ScreenReminder::Always,
    };
    assert_eq!(Settings::parse(&s.serialize(), read), s);
    let damaged = Settings::parse("junk\nnext-hold=explode\ntimers=0,abc,601\ncycle=\n", read);
    assert_eq!(damaged.next_hold, HoldAction::PlayFromCurrent);
    assert_eq!(damaged.timers, [None; 3]);
    assert_eq!(damaged.cycle, [false; 4]);
    assert_eq!(Settings::parse("radius=9999\n", read).radius, 500_000_000);
    assert_eq!(Settings::parse("radius=NaN\n", read).radius, DEFAULT_RADIUS);
    assert_eq!(Settings::parse("shade=5\n", read).shade, 900_000);
    assert_eq!(Settings::parse("shade=inf\n", read).shade, DEFAULT_SHADE);
    assert_eq!(Settings::parse("zoom=2.4\n", read).zoom, 2_000_000);
    assert_eq!(Settings::parse("zoom=99\n", read).zoom, 4_000_000);
}

#[test]
fn minute_fields_are_validated() {
    assert_eq!(parse_minutes(" "), Ok(None));
    assert_eq!(parse_minutes(" 25 "), Ok(Some(25)));
    for bad in ["0", "601", "-1", "1.5", "x"] {
        assert!(parse_minutes(bad).is_err(), "{bad}");
    }
}

#[test]
fn double_click_cycles_only_selected_effects() {
    let mut s = Settings::default();
    assert_eq!(s.next_effect(Effect::Spotlight, true), Some(Effect::Laser));
    assert_eq!(s.next_effect(Effect::Laser, true), Some(Effect::Spotlight));
    // Current effect outside the cycle jumps to the first selected one.
    assert_eq!(
        s.next_effect(Effect::Magnify, true),
        Some(Effect::Spotlight)
    );
    s.cycle = [true, false, true, false];
    assert_eq!(
        s.next_effect(Effect::Spotlight, true),
        Some(Effect::Magnify)
    );
    assert_eq!(
        s.next_effect(Effect::Spotlight, false),
        Some(Effect::Spotlight)
    );
    s.cycle = [false, false, true, false];
    assert_eq!(s.next_effect(Effect::Spotlight, false), None);
    s.cycle = [false; 4];
    assert_eq!(s.next_effect(Effect::Laser, true), None);
    s.cycle = [true, false, false, true];
    assert_eq!(s.next_effect(Effect::Spotlight, false), Some(Effect::Box));
    assert_eq!(s.next_effect(Effect::Box, false), Some(Effect::Spotlight));
}

#[test]
fn screen_reminder_modes() {
    assert!(!ScreenReminder::Off.shows(false));
    assert!(ScreenReminder::OnVibrationFailure.shows(false));
    assert!(!ScreenReminder::OnVibrationFailure.shows(true));
    assert!(ScreenReminder::Always.shows(true));
}

#[test]
fn each_timer_fires_once_at_its_minute_mark() {
    let timers = [Some(1), None, Some(2)];
    let mut t = PresentationTimer::default();
    assert!(t.due(1_000_000_000, &timers).is_empty(), "not started");
    t.start(100_000_000);
    assert!(t.due(159_900_000, &timers).is_empty());
    assert_eq!(t.due(160_000_000, &timers), vec![0]);
    assert!(t.due(200_000_000, &timers).is_empty());
    assert_eq!(t.due(400_000_000, &timers), vec![2]);
    assert!(t.due(10_000_000_000, &timers).is_empty());
    t.start(500_000_000);
    assert_eq!(t.due(700_000_000, &timers), vec![0, 2], "restart re-arms timers");
    t.stop();
    assert!(t.due(10_000_000_000, &timers).is_empty());
    assert_eq!(t.elapsed(1_000_000), None);
}

#[test]
fn settings_are_written_as_eight_lines() {
    let s = Settings {
        timers: [Some(5), None, Some(600)],
        radius: 149_500_000,
        shade: 455_000,
        zoom: 1_500_000,
        ..Settings::default()
    };
    assert_eq!(
        s.serialize(),
        "cycle=spotlight,laser\nnext-hold=play-from-current\nback-hold=black-screen\ntimers=5,,600\nradius=150\nshade=0.46\nzoom=1.5\nscreen-reminder=on-vibration-failure\n"
    );
    let t = Settings {
        cycle: [false; 4],
        shade: 445_000,
        zoom: 2_000_000,
        ..s.clone()
    };
    assert!(t.serialize().starts_with("cycle=\n"));
    assert!(t.serialize().contains("shade=0.45\nzoom=2\n"));
}

#[test]
fn every_storable_choice_reads_back() {
    for bits in 0..16u8 {
        for next_hold in HoldAction::ALL {
            for screen_reminder in ScreenReminder::ALL {
                let s = Settings {
                    cycle: [bits & 1 != 0, bits & 2 != 0, bits & 4 != 0, bits & 8 != 0],
                    next_hold,
                    back_hold: HoldAction::ALL[(bits % 4) as usize],
                    timers: [None, Some(1), Some(600)],
                    radius: 40_000_000 + u64::from(bits) * 1_000_000,
                    shade: 200_000 + u64::from(bits) * 10_000,
                    zoom: [1_500_000, 2_000_000, 3_000_000, 4_000_000][(bits % 4) as usize],
                    screen_reminder,
                };
                assert_eq!(Settings::parse(&s.serialize(), read), s);
            }
        }
    }
}

#[test]
fn later_lines_win_and_spaces_are_ignored() {
    let s = Settings::parse(
        " cycle = box , laser,unknown \r\nnext-hold=none\nnext-hold= end-show \ntimers=1\nzoom=inf\nradius=x\nother=1\nscreen-reminder=off",
        read,
    );
    assert_eq!(s.cycle, [false, true, false, true]);
    assert_eq!(s.next_hold, HoldAction::EndShow);
    assert_eq!(s.timers, [Some(1), None, None]);
    assert_eq!(s.zoom, 2_000_000);
    assert_eq!(s.radius, DEFAULT_RADIUS);
    assert_eq!(s.screen_reminder, ScreenReminder::Off);
    assert_eq!(Settings::parse("", read), Settings::default());
    assert_eq!(
        Settings::parse("timers=1,2,3,4\nback-hold=none\n", read).timers,
        [Some(1), Some(2), Some(3)]
    );
}

#[test]
fn minute_errors_quote_the_field() {
    assert_eq!(
        parse_minutes(" 601 "),
        Err("定时须为 1–600 的整数分钟：601".to_string())
    );
    assert_eq!(parse_minutes("600"), Ok(Some(600)));
    assert_eq!(parse_minutes("+1"), Ok(Some(1)));
    assert!(parse_minutes("4294967296").is_err());
}

#[test]
fn zoom_and_shade_take_the_nearest_value() {
    for (zoom, level) in [
        (i64::MIN, 1_500_000),
        (1_750_000, 1_500_000),
        (1_750_001, 2_000_000),
        (2_500_000, 2_000_000),
        (2_500_001, 3_000_000),
        (3_500_000, 3_000_000),
        (3_500_001, 4_000_000),
        (i64::MAX, 4_000_000),
    ] {
        assert_eq!(nearest_zoom(Number::Finite(zoom)), level);
    }
    assert_eq!(nearest_zoom(Number::NotFinite), 1_500_000);
    assert_eq!(clamp_shade(Number::Finite(0)), 200_000);
    assert_eq!(clamp_shade(Number::Finite(450_000)), 450_000);
    assert_eq!(clamp_shade(Number::NotFinite), DEFAULT_SHADE);
}

#[test]
fn labels_are_shown_in_the_panel() {
    let holds: Vec<_> = HoldAction::ALL.iter().map(|a| a.label()).collect();
    assert_eq!(holds, ["不执行", "从当前页播放", "屏幕变黑 / 恢复", "结束放映"]);
    let modes: Vec<_> = ScreenReminder::ALL.iter().map(|m| m.label()).collect();
    assert_eq!(modes, ["关闭（只振动）", "仅在振动失败时", "始终显示"]);
}

#[test]
fn every_selected_effect_is_reached_by_double_clicks() {
    let s = Settings {
        cycle: [true, true, false, true],
        ..Settings::default()
    };
    let mut effect = Effect::Magnify;
    let mut seen = Vec::new();
    for _ in 0..4 {
        effect = s.next_effect(effect, false).unwrap();
        seen.push(effect);
    }
    assert_eq!(
        seen,
        [Effect::Spotlight, Effect::Laser, Effect::Box, Effect::Spotlight]
    );
}

#[test]
fn elapsed_time_never_runs_backwards() {
    let mut t = PresentationTimer::default();
    assert_eq!(t.elapsed(5), None);
    t.start(100);
    assert_eq!(t.elapsed(99), Some(0));
    assert_eq!(t.elapsed(1_100), Some(1_000));
    t.start(i64::MIN);
    assert_eq!(t.elapsed(i64::MAX), Some(u64::MAX));
}

#[test]
fn a_cycle_without_a_known_name_keeps_the_default() {
    assert_eq!(Settings::parse("cycle=bogus\n", read).cycle, [true, true, false, false]);
    assert_eq!(Settings::parse("cycle=box\ncycle=,\n", read).cycle, [false, false, false, true]);
    assert_eq!(Settings::parse("cycle=\n", read).cycle, [false; 4]);
    assert_eq!(Settings::parse("cycle= \n", read).cycle, [false; 4]);
    assert_eq!(Settings::parse("cycle=bogus,laser\n", read).cycle, [false, true, false, false]);
}

#[test]
fn plain_numbers_need_no_reader() {
    let unread = |text: &str| -> Option<Number> { panic!("asked for {text}") };
    let s = Settings::parse("radius=+220.250\nshade=0.45\nzoom=3\n", unread);
    assert_eq!((s.radius, s.shade, s.zoom), (220_250_000, 450_000, 3_000_000));
    let s = Settings::parse("radius=99.000001\nzoom=2.6\n", unread);
    assert_eq!((s.radius, s.zoom), (99_000_001, 3_000_000));
    assert_eq!(Settings::parse(&s.serialize(), unread).radius, 99_000_000);
}

#[test]
fn plain_numbers_are_what_the_standard_library_reads() {
    for text in ["0", "7", "040", "150.5", "0.60", "499.999999", "+60.125", "1.5", "123456789.1"] {
        let file = format!("radius={text}\nshade={text}\nzoom={text}\n");
        // A closing exponent of zero leaves the number to the reader.
        let other = format!("radius={text}e0\nshade={text}e0\nzoom={text}e0\n");
        assert_eq!(Settings::parse(&file, read), Settings::parse(&other, read), "{text}");
    }
}

#[test]
fn other_numbers_are_handed_to_the_reader() {
    for text in ["", "1.", ".5", "1e2", "-3", "1.+5", "0.1234567", "1234567890", "nan", "1.2.3"] {
        let asked = std::cell::RefCell::new(Vec::new());
        let s = Settings::parse(&format!("radius={text}"), |t: &str| {
            asked.borrow_mut().push(t.to_string());
            Some(Number::Finite(77_000_000))
        });
        assert_eq!(*asked.borrow(), [text.to_string()]);
        assert_eq!(s.radius, 77_000_000);
    }
    let changing = std::cell::Cell::new(41_000_000i64);
    let s = Settings::parse("radius=1e1\nradius=1e1\n", |_: &str| {
        changing.set(changing.get() + 1_000_000);
        Some(Number::Finite(changing.get()))
    });
    assert_eq!(s.radius, 43_000_000);
}

#[test]
fn half_hundredths_are_written_as_the_standard_library_does() {
    for half in 0..200u64 {
        let shade = half * 10_000 + 5_000;
        let s = Settings {
            shade,
            ..Settings::default()
        };
        let expected = format!("shade={:.2}\n", shade as f64 / 1_000_000.0);
        assert!(s.serialize().contains(&expected), "{expected}");
    }
    for (text, saved) in [("0.445", "0.45"), ("0.435", "0.43"), ("0.375", "0.38"), ("0.625", "0.62")] {
        let s = Settings::parse(&format!("shade={text}\n"), read);
        assert!(s.serialize().contains(&format!("shade={saved}\n")), "{text}");
    }
}
