use orange_beam::command::{choose_interface, parse_args, ArgError, Command, InterfaceError};
use orange_beam::presentation::Effect;
use orange_beam::text::IntError;

fn parse(args: &[&str]) -> Result<Command, ArgError> {
    parse_args(&args.iter().map(|s| s.to_string()).collect::<Vec<_>>())
}
#[test]
fn input_limits_prevent_accidental_unbounded_capture_or_wrong_slots() {
    for args in [
        vec!["capture", "0", "0"],
        vec!["capture", "0", "301"],
        vec!["probe", "0", "0"],
        vec!["probe", "0", "255"],
        vec!["inspect", "0", "0"],
        vec!["inspect", "0", "255"],
        vec!["inspect", "-1"],
        vec!["inspect", "0", "1", "extra"],
        vec!["list", "extra"],
        vec!["probe"],
        vec!["capture", "-1"],
        vec!["watch-top", "4", "0"],
        vec!["watch-top", "4", "301"],
        vec!["watch-top", "4", "30", "0"],
        vec!["watch-top", "4", "30", "7"],
        vec!["watch-top", "4", "30", "1", "extra"],
        vec!["watch-controls", "4", "0"],
        vec!["watch-controls", "4", "60", "7"],
        vec!["vibrate", "4", "256"],
        vec!["vibrate", "4", "128", "11"],
        vec!["vibrate", "4", "128", "0", "0"],
        vec!["unknown"],
    ] {
        assert!(parse(&args).is_err(), "{args:?}");
    }
    assert_eq!(
        parse(&["probe", "2"]).unwrap(),
        Command::Probe {
            device: 2,
            index: 1
        }
    );
    assert_eq!(
        parse(&["capture", "1"]).unwrap(),
        Command::Capture {
            device: 1,
            seconds: 15
        }
    );
    assert_eq!(parse(&[]).unwrap(), Command::App);
    assert_eq!(
        parse(&["watch-top", "4"]).unwrap(),
        Command::WatchTop {
            device: 4,
            seconds: 30,
            index: 1
        }
    );
    assert_eq!(
        parse(&["watch-controls", "4"]).unwrap(),
        Command::WatchControls {
            device: 4,
            seconds: 60,
            index: 1
        }
    );
    assert_eq!(
        parse(&["vibrate", "4"]).unwrap(),
        Command::Vibrate {
            device: 4,
            intensity: 128,
            length: 0,
            index: 1
        }
    );
    assert_eq!(
        parse(&["inspect", "4"]).unwrap(),
        Command::Inspect {
            device: 4,
            index: 1
        }
    );
}

#[test]
fn every_command_word_is_understood() {
    assert_eq!(parse(&["app"]).unwrap(), Command::App);
    for word in ["--help", "-h", "help"] {
        assert_eq!(parse(&[word]).unwrap(), Command::Help);
    }
    assert_eq!(parse(&["list"]).unwrap(), Command::List);
    assert_eq!(
        parse(&["render-fixtures", "some dir"]).unwrap(),
        Command::RenderQa {
            directory: "some dir".to_string()
        }
    );
    assert_eq!(
        parse(&["demo"]).unwrap(),
        Command::Demo {
            effect: Effect::Spotlight,
            seconds: 15
        }
    );
    assert_eq!(
        parse(&["demo", "laser", "300"]).unwrap(),
        Command::Demo {
            effect: Effect::Laser,
            seconds: 300
        }
    );
    assert_eq!(
        parse(&["recover-top-default", "0", "6"]).unwrap(),
        Command::RecoverTop { device: 0, index: 6 }
    );
    assert_eq!(
        parse(&["recover-controls-default", "3"]).unwrap(),
        Command::RecoverControls { device: 3, index: 1 }
    );
    assert_eq!(
        parse(&["vibrate", "4", "255", "10", "2"]).unwrap(),
        Command::Vibrate {
            device: 4,
            intensity: 255,
            length: 10,
            index: 2
        }
    );
    assert_eq!(
        parse(&["watch-controls", "4", "1", "6"]).unwrap(),
        Command::WatchControls {
            device: 4,
            seconds: 1,
            index: 6
        }
    );
}

#[test]
fn each_refusal_says_why() {
    for (args, error, message) in [
        (vec!["demo", "magnify"], ArgError::DemoEffect, "Demo effect must be spotlight or laser"),
        (vec!["capture", "0", "301"], ArgError::Seconds, "SECONDS must be 1..300"),
        (vec!["probe", "0", "7"], ArgError::Index, "INDEX must be 1..6"),
        (vec!["vibrate", "0", "1", "11"], ArgError::Length, "LENGTH must be 0..10"),
        (
            vec!["probe", ""],
            ArgError::Number(IntError::Empty),
            "cannot parse integer from empty string",
        ),
        (
            vec!["probe", "x"],
            ArgError::Number(IntError::InvalidDigit),
            "invalid digit found in string",
        ),
        (
            vec!["vibrate", "0", "256"],
            ArgError::Number(IntError::Overflow),
            "number too large to fit in target type",
        ),
        (vec!["app", "x"], ArgError::Invalid, "Invalid arguments. Run orange-beam --help"),
    ] {
        let refused = parse(&args).unwrap_err();
        assert_eq!(refused, error);
        assert_eq!(refused.message(), message);
    }
}

#[test]
fn numbers_are_refused_as_the_standard_library_refuses_them() {
    for text in ["", "+", "-", "-1", "+7", "007", "1e3", "255", "256", "99999999999999999999", " 1"] {
        let ours = match parse(&["vibrate", "0", text]) {
            Ok(Command::Vibrate { intensity, .. }) => Ok(intensity),
            Ok(_) => unreachable!(),
            Err(error) => Err(error.message().to_string()),
        };
        let theirs = text.parse::<u8>().map_err(|e| e.to_string());
        assert_eq!(ours, theirs, "{text:?}");
    }
}

#[test]
fn commands_that_send_requests_need_a_vendor_page() {
    let pages = [0x0001, 0xff00];
    let capture = parse(&["capture", "0"]).unwrap();
    assert_eq!(capture.device(), Some(0));
    assert!(!capture.sends_requests());
    assert_eq!(choose_interface(&capture, 0, &pages), Ok(0));
    let probe = parse(&["probe", "0"]).unwrap();
    assert!(probe.sends_requests());
    assert_eq!(
        choose_interface(&probe, 0, &pages),
        Err(InterfaceError::NotVendorDefined)
    );
    let probe = parse(&["probe", "1"]).unwrap();
    assert_eq!(choose_interface(&probe, 1, &pages), Ok(1));
    let probe = parse(&["probe", "2"]).unwrap();
    let missing = choose_interface(&probe, 2, &pages).unwrap_err();
    assert_eq!(missing, InterfaceError::Missing);
    assert_eq!(
        missing.message(),
        "No such Spotlight interface. Connect the device and run list again."
    );
    assert_eq!(
        InterfaceError::NotVendorDefined.message(),
        "probe/inspect/watch-top/watch-controls/vibrate requires a vendor-defined HID interface; choose its DEVICE number from list"
    );
    assert_eq!(parse(&["list"]).unwrap().device(), None);
    assert!(!parse(&["list"]).unwrap().sends_requests());
}
