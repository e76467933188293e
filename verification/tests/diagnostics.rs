use orange_beam::controls::{ControlError, Reporting, BACK_HOLD, NEXT_HOLD, TOP_HOLD};
use orange_beam::conversation::Reply;
use orange_beam::diagnostics::{
    format_raw, resolve_feature, DiagnosticError, Inspection, Probe, Stage, Vibration,
};
use orange_beam::session::{
    divert_all, end_controls_session, end_remote_session, end_top_session, format_top_ready,
    gesture, recover_all, release_all, report_recovered, report_released, GESTURES,
};
use orange_beam::transaction::{check_written, hear, next_wait, Heard, TransactError};
use orange_beam::watch::{control_name, ControlsWatch, TopWatch};
use orange_beam::{feature_request, ProtocolError, Report};
use std::cell::RefCell;

fn long(bytes: &[u8]) -> Report {
    let mut report = [0; 20];
    report[..bytes.len()].copy_from_slice(bytes);
    Report::parse(&report).unwrap()
}

#[test]
fn waits_are_between_one_and_a_hundred_milliseconds() {
    assert_eq!(next_wait(0), None);
    assert_eq!(next_wait(1), Some(1));
    assert_eq!(next_wait(999_999), Some(1));
    assert_eq!(next_wait(42_900_000), Some(42));
    assert_eq!(next_wait(100_000_000), Some(100));
    assert_eq!(next_wait(1_200_000_000), Some(100));
}

#[test]
fn a_request_is_answered_only_by_its_reply_or_error() {
    let request = feature_request(1, 0x1b04);
    assert!(matches!(hear(&[0x11, 1, 0], &request), Heard::Nothing));
    assert!(matches!(
        hear(&[0x10, 1, 0, 0x0a, 7, 0, 0], &request),
        Heard::Reply(report) if report.payload() == [7, 0, 0]
    ));
    assert!(matches!(
        hear(&[0x10, 1, 0x8f, 0, 0x0a, 5, 0], &request),
        Heard::Failed(TransactError::Device { legacy: true, code: 5 })
    ));
    let mut notification = [0; 20];
    notification[..6].copy_from_slice(&[0x11, 1, 7, 0, 0, 0xd8]);
    assert!(matches!(
        hear(&notification, &request),
        Heard::Other(report) if report.bytes() == notification
    ));
    assert_eq!(check_written(&request, 20), Ok(()));
    assert_eq!(
        check_written(&request, 7).unwrap_err().message(),
        "Incomplete HID write"
    );
    assert_eq!(
        TransactError::TimedOut.message(),
        "HID++ request timed out; wake the remote, check interface/slot and permissions"
    );
    assert_eq!(
        TransactError::Device { legacy: false, code: 10 }.message(),
        "Device returned HID++ 2.0 error 0x0a"
    );
}

#[test]
fn probe_asks_for_every_feature_once() {
    let mut probe = Probe::new(2);
    let mut lines = Vec::new();
    let mut codes = Vec::new();
    while let Some(request) = probe.request() {
        let p = request.payload();
        codes.push(u16::from_be_bytes([p[0], p[1]]));
        let answer = if codes.len() % 2 == 0 { 0 } else { 0x1c };
        lines.push(probe.receive(&long(&[0x11, 2, 0, 0x0a, answer])).unwrap());
    }
    assert_eq!(codes, [0x0001, 0x1000, 0x1004, 0x1a00, 0x1a01, 0x1b04, 0x2205]);
    assert_eq!(lines[0], format!("0001 {:22} index=1c", "FEATURE_SET"));
    assert_eq!(lines[1], format!("1000 {:22} unavailable", "BATTERY_STATUS"));
    assert_eq!(lines[6], format!("2205 {:22} index=1c", "POINTER_SPEED"));
    let mut probe = Probe::new(1);
    let error = probe
        .receive(&long(&[0x11, 1, 0x8f, 0, 0x0a, 4]))
        .unwrap_err();
    assert_eq!(
        error,
        DiagnosticError::Protocol(ProtocolError::Device { legacy: true, code: 4 })
    );
    assert_eq!(error.message(), "Device { legacy: true, code: 4 }");
    assert_eq!(resolve_feature(1, 0x1b04, &long(&[0x11, 1, 0, 0x0a, 7])), Ok(Some(7)));
}

#[test]
fn inspection_reads_battery_and_controls() {
    let mut inspection = Inspection::new(1);
    let mut lines = Vec::new();
    let mut functions = Vec::new();
    while let Some(request) = inspection.request() {
        functions.push((request.feature(), request.function()));
        let reply = match (request.feature(), request.function()) {
            (0, _) if request.payload()[..2] == [0x10, 0x00] => long(&[0x11, 1, 0, 0x0a, 6]),
            (0, _) => long(&[0x11, 1, 0, 0x0a, 7]),
            (6, 0) => long(&[0x11, 1, 6, 0x0a, 90, 50, 0]),
            (7, 0) => long(&[0x11, 1, 7, 0x0a, 2]),
            (7, 1) if request.payload()[0] == 0 => {
                long(&[0x11, 1, 7, 0x1a, 0, 0x50, 0, 0x38, 0x34, 0, 0, 0, 0x01])
            }
            (7, 1) => long(&[0x11, 1, 7, 0x1a, 0, 0xd8, 0, 0xb7, 0x34, 0, 0, 0, 0]),
            (7, 2) if request.payload()[1] == 0x50 => {
                long(&[0x11, 1, 7, 0x2a, 0, 0x50, 0, 0, 0, 0])
            }
            (7, 2) => long(&[0x11, 1, 7, 0x2a, 0, 0xd8, 1, 0, 0xdf, 2]),
            _ => unreachable!(),
        };
        lines.extend(inspection.receive(&reply).unwrap());
    }
    assert_eq!(
        lines,
        [
            "BATTERY_STATUS current=90 next=50 status=0x00",
            "REPROG_CONTROLS_V4 controls=2",
            "control=0 cid=0050 task=0038 capabilities=0134 reporting=0000 mapped_to=0050",
            "control=1 cid=00d8 task=00b7 capabilities=0034 reporting=0201 mapped_to=00df",
        ]
    );
    assert_eq!(
        functions,
        [(0, 0), (6, 0), (0, 0), (7, 0), (7, 1), (7, 2), (7, 1), (7, 2)]
    );
}

#[test]
fn inspection_stops_at_what_it_cannot_read() {
    let mut inspection = Inspection::new(1);
    let lines = inspection.receive(&long(&[0x11, 1, 0, 0x0a, 0])).unwrap();
    assert_eq!(lines, ["BATTERY_STATUS unavailable"]);
    let mut missing = inspection;
    let lines = missing.receive(&long(&[0x11, 1, 0, 0x0a, 0])).unwrap();
    assert_eq!(lines, ["REPROG_CONTROLS_V4 unavailable"]);
    assert!(missing.request().is_none());
    assert!(missing.receive(&long(&[0x11])).unwrap().is_empty());
    inspection.receive(&long(&[0x11, 1, 0, 0x0a, 7])).unwrap();
    let mut empty = inspection;
    assert_eq!(
        empty.receive(&long(&[0x11, 1, 7, 0x0a, 0])).unwrap(),
        ["REPROG_CONTROLS_V4 controls=0"]
    );
    assert!(empty.request().is_none());
    let mut crowded = inspection;
    let error = crowded.receive(&long(&[0x11, 1, 7, 0x0a, 33])).unwrap_err();
    assert_eq!(
        error.message(),
        "Unexpected control count for a first-generation Spotlight (maximum 32)"
    );
    let mut info = Inspection {
        index: 1,
        stage: Stage::ReadInfo { feature: 7, count: 1, position: 0 },
    };
    let short = Report::parse(&[0x10, 1, 7, 0x1a, 0, 0xd8, 0]).unwrap();
    assert_eq!(
        info.receive(&short).unwrap_err().message(),
        "Truncated getControlInfo response"
    );
    info.receive(&long(&[0x11, 1, 7, 0x1a, 0, 0xd8])).unwrap();
    assert_eq!(
        info.receive(&long(&[0x11, 1, 7, 0x2a, 0, 0xd9]))
            .unwrap_err()
            .message(),
        "Truncated or mismatched getCidReporting response"
    );
    assert_eq!(info.receive(&short).unwrap_err(), DiagnosticError::MismatchedReporting);
}

#[test]
fn vibration_finds_its_feature_and_sends_one_request() {
    let mut vibration = Vibration::new(1, 128, 3);
    let query = vibration.request().unwrap();
    assert_eq!(&query.payload()[..2], &[0x1a, 0x00]);
    let mut missing = vibration;
    assert_eq!(
        missing
            .receive(&long(&[0x11, 1, 0, 0x0a, 0]))
            .unwrap_err()
            .message(),
        "PRESENTER_CONTROL is unavailable"
    );
    assert_eq!(vibration.receive(&long(&[0x11, 1, 0, 0x0a, 9])).unwrap(), None);
    let request = vibration.request().unwrap();
    assert_eq!(&request.bytes()[..8], &[0x11, 1, 9, 0x1a, 3, 0xe8, 128, 0]);
    let reply = Report::parse(&[0x10, 1, 9, 0x1a, 0, 0xff, 1]).unwrap();
    assert_eq!(
        vibration.receive(&reply).unwrap().unwrap(),
        "VIBRATE sent feature=09 intensity=128 length=3; reply payload=00 ff 01"
    );
    assert!(vibration.request().is_none());
}

#[test]
fn raw_lines_show_time_and_bytes() {
    assert_eq!(format_raw(5, &[0x02, 0xff]), "       5ms 02 ff");
    assert_eq!(format_raw(1_234_567_890, &[]), "1234567890ms");
}

fn notification(cids: &[u16]) -> Vec<u8> {
    let mut bytes = vec![0; 20];
    bytes[..4].copy_from_slice(&[0x11, 0xff, 7, 0]);
    for (i, cid) in cids.iter().enumerate() {
        bytes[4 + 2 * i..6 + 2 * i].copy_from_slice(&cid.to_be_bytes());
    }
    bytes
}

#[test]
fn the_top_watch_ends_after_one_press_and_release() {
    let mut watch = TopWatch::new(0xff, 7);
    let seen = watch.observe(1, &notification(&[]));
    assert_eq!(seen.logged.unwrap(), "       1ms TOP released");
    assert!(!seen.finished, "released without a press");
    assert!(watch.observe(2, &[2, 0, 0]).logged.is_none());
    let seen = watch.observe(3, &notification(&[TOP_HOLD]));
    assert_eq!(seen.logged.unwrap(), "       3ms TOP pressed");
    assert!(!seen.finished);
    let seen = watch.observe(4, &notification(&[NEXT_HOLD]));
    assert_eq!(seen.logged.unwrap(), "       4ms TOP released");
    assert!(seen.finished);
    assert_eq!(watch.reports, 4);
    assert!(seen.raw.starts_with("       4ms 11 ff 07 00 00 da 00"));
}

#[test]
fn the_controls_watch_logs_changes_only() {
    let mut watch = ControlsWatch::new(0xff, 7);
    assert_eq!(
        watch.observe(1, &notification(&[TOP_HOLD, NEXT_HOLD])).logged,
        ["       1ms PRESS   00d8 top-hold", "       1ms PRESS   00da next-hold"]
    );
    assert_eq!(
        watch.observe(2, &notification(&[NEXT_HOLD, BACK_HOLD])).logged,
        ["       2ms PRESS   00dc back-hold", "       2ms RELEASE 00d8 top-hold"]
    );
    assert!(watch.observe(3, &notification(&[NEXT_HOLD, BACK_HOLD])).logged.is_empty());
    assert_eq!(
        watch.observe(4, &[1, 0, 0x4f, 0x50, 0, 0x3e]).logged,
        ["       4ms KEYBOARD RightArrow+LeftArrow+key-3e"]
    );
    assert_eq!(watch.observe(5, &[1]).logged, ["       5ms KEYBOARD released"]);
    assert_eq!(watch.observe(6, &[2, 1, 0, 9, 9]).logged, ["       6ms MOUSE buttons=0100"]);
    assert!(watch.observe(7, &[2, 1, 0, 3]).logged.is_empty());
    assert_eq!(watch.observe(8, &[2]).logged, ["       8ms MOUSE buttons="]);
    assert!(watch.observe(9, &[0x11, 1, 2]).logged.is_empty());
    assert_eq!(
        watch.observe(10, &[0x10, 1, 7, 0x3b, 0, 0, 0]).logged,
        ["      10ms HID++ other (device=01 feature=07 function=3 swid=11)"]
    );
    assert_eq!(watch.observe(11, &[0x20, 0]).logged, ["      11ms REPORT id=20 len=2"]);
    assert_eq!(watch.reports, 11);
    assert_eq!(watch.motion, 3);
    assert_eq!(watch.held, [NEXT_HOLD, BACK_HOLD]);
    let names: Vec<_> = [0x00d8, 0x00df, 0x00da, 0x00dc, 0x0050, 0x00d9, 0x00db, 1]
        .iter()
        .map(|cid| control_name(*cid))
        .collect();
    assert_eq!(
        names,
        [
            "top-hold",
            "double-click",
            "next-hold",
            "back-hold",
            "top-click",
            "next-short",
            "back-short",
            "unknown"
        ]
    );
}

/// A device with the four gesture controls, all in their default state.
#[derive(Default)]
struct Gestures {
    flags: [u16; 4],
    refuses: Option<u16>,
    writes: Vec<(u16, bool)>,
}

impl Gestures {
    fn exchange(&mut self, request: &Report) -> Reply {
        let p = request.payload();
        let cid = u16::from_be_bytes([p[0], p[1]]);
        let slot = (0..4).find(|slot| gesture(*slot) == cid);
        let payload = match request.function() {
            0 => vec![4],
            1 => {
                let [high, low] = gesture(p[0] as usize).to_be_bytes();
                vec![high, low, 0, 0, 0x20, 0, 0, 0, 0]
            }
            2 => vec![p[0], p[1], self.flags[slot.unwrap()] as u8, 0, 0, 0],
            _ => {
                if self.refuses == Some(cid) {
                    return Err(ControlError::Transport("refused".to_string()));
                }
                self.flags[slot.unwrap()] = u16::from(p[2] & 1);
                self.writes.push((cid, p[2] & 1 != 0));
                vec![]
            }
        };
        Ok(Report::request(1, 7, request.function(), request.software_id(), &payload).unwrap())
    }
}

#[test]
fn gesture_leases_are_given_back_in_reverse_order() {
    let device = RefCell::new(Gestures::default());
    let diverted = divert_all(vec![|r: &Report| device.borrow_mut().exchange(r); GESTURES], || false, 1, 7);
    assert_eq!(diverted.outcome, Ok(()));
    assert!(diverted.spare.is_empty());
    assert_eq!(
        diverted.lines[1],
        "DIVERTED 00df double-click original_flags=0000 original_mapping=00df"
    );
    assert_eq!(device.borrow().flags, [1; 4]);
    let released = release_all(diverted.leases);
    let (restored, failures) = report_released(&released);
    assert!(failures.is_empty());
    assert_eq!(
        restored,
        [
            "RESTORED and verified 00dc",
            "RESTORED and verified 00da",
            "RESTORED and verified 00df",
            "RESTORED and verified 00d8",
        ]
    );
    assert_eq!(device.borrow().flags, [0; 4]);
    let order: Vec<_> = device.borrow().writes.iter().map(|w| w.0).collect();
    assert_eq!(
        order,
        [0x00d8, 0x00df, 0x00da, 0x00dc, 0x00dc, 0x00da, 0x00df, 0x00d8]
    );
}

#[test]
fn a_refused_control_ends_the_diversion_and_the_others_are_restored() {
    let device = RefCell::new(Gestures {
        refuses: Some(NEXT_HOLD),
        ..Default::default()
    });
    let diverted = divert_all(vec![|r: &Report| device.borrow_mut().exchange(r); GESTURES], || false, 1, 7);
    assert_eq!(diverted.leases.len(), 2);
    assert_eq!(diverted.spare.len(), 1);
    assert_eq!(
        diverted.outcome,
        Err("00da: refused; RESTORE FAILED: refused".to_string())
    );
    let (restored, failures) = report_released(&release_all(diverted.leases));
    assert_eq!(restored.len(), 2);
    assert!(failures.is_empty());
    assert_eq!(device.borrow().flags, [0; 4]);
    let stopped = divert_all(vec![|r: &Report| device.borrow_mut().exchange(r); GESTURES], || true, 1, 7);
    assert!(stopped.leases.is_empty());
    assert_eq!(stopped.spare.len(), GESTURES);
    assert_eq!(
        stopped.outcome,
        Err("Stopped before configuring every control".to_string())
    );
}

#[test]
fn recovery_goes_on_after_a_refusal() {
    let device = RefCell::new(Gestures {
        flags: [1, 1, 0x11, 0],
        refuses: Some(0x00df),
        ..Default::default()
    });
    let recovered = recover_all(vec![|r: &Report| device.borrow_mut().exchange(r); GESTURES], 1, 7);
    let (lines, outcome) = report_recovered(&recovered);
    assert_eq!(
        lines,
        [
            "RECOVERED and verified 00d8 flags=0000 mapped_to=00d8",
            "RECOVERED and verified 00dc flags=0000 mapped_to=00dc",
        ]
    );
    assert_eq!(
        outcome,
        Err("00df: refused; 00da: Recovery refused: control 00da settings differ from an interrupted default session".to_string())
    );
    let fine = RefCell::new(Gestures::default());
    let recovered = recover_all(vec![|r: &Report| fine.borrow_mut().exchange(r); GESTURES], 1, 7);
    assert_eq!(report_recovered(&recovered).1, Ok(()));
}

#[test]
fn sessions_report_their_own_error_and_the_restoration() {
    let failed = || Err(ControlError::Acknowledgement);
    let read = || Err("read failed".to_string());
    assert_eq!(end_top_session(Ok(()), Ok(())), Ok(()));
    assert_eq!(
        end_top_session(read(), Ok(())),
        Err("read failed; top setting restored and verified".to_string())
    );
    assert_eq!(
        end_top_session(Ok(()), failed()),
        Err("RESTORE FAILED: Unexpected setCidReporting acknowledgement".to_string())
    );
    assert_eq!(
        end_top_session(read(), failed()),
        Err("read failed; RESTORE FAILED: Unexpected setCidReporting acknowledgement".to_string())
    );
    assert_eq!(end_controls_session(Ok(()), &vec![]), Ok(()));
    assert_eq!(
        end_controls_session(read(), &vec![]),
        Err("read failed; diverted controls restored and verified".to_string())
    );
    let failures = vec!["00d8: a".to_string(), "00da: b".to_string()];
    assert_eq!(
        end_controls_session(Ok(()), &failures),
        Err("RESTORE FAILED: 00d8: a; 00da: b".to_string())
    );
    assert_eq!(
        end_controls_session(read(), &failures),
        Err("read failed; RESTORE FAILED: 00d8: a; 00da: b".to_string())
    );
    assert_eq!(
        end_remote_session(read(), Ok(())),
        Err("read failed；顶键原值已恢复并校验。请重新连接。".to_string())
    );
    assert_eq!(
        format_top_ready(1, 7, Reporting { flags: 0x200, mapped_to: 0xd8 }, 30),
        "READY top-hold notifications enabled; index=1 feature=07 original_flags=0200 original_mapping=00d8. Hold/move/keep still/release the top button within 30s."
    );
}

#[test]
fn the_first_reply_ends_a_request_and_other_reports_are_handed_on() {
    let request = Report::request(1, 7, 2, 0x0a, &[0, 0xd8]).unwrap();
    let notification = long(&[0x11, 1, 7, 0, 0, 0xd8]);
    let late = Report::request(1, 7, 3, 0x0a, &[1]).unwrap();
    let reply = Report::request(1, 7, 2, 0x0a, &[0, 0xd8, 1]).unwrap();
    let reads: [&[u8]; 6] = [
        notification.bytes(),
        &[2, 0, 0],
        late.bytes(),
        &[],
        reply.bytes(),
        notification.bytes(),
    ];
    let mut handed_on = Vec::new();
    let mut answer = None;
    for data in reads {
        match hear(data, &request) {
            Heard::Nothing => {}
            Heard::Other(report) => handed_on.push(report.bytes().to_vec()),
            Heard::Reply(report) => {
                answer = Some(report.bytes().to_vec());
                break;
            }
            Heard::Failed(error) => panic!("{}", error.message()),
        }
    }
    assert_eq!(answer, Some(reply.bytes().to_vec()));
    assert_eq!(handed_on, [notification.bytes().to_vec(), late.bytes().to_vec()]);
}
