use linux_input::{
    delivery_outcome, report_failure, send_event, startup_outcome, Action, Context, Failure,
    HotkeyEvent, Input, InputError, Listener, Report, StartError,
};
use std::sync::mpsc;
use x11rb::errors::{ConnectionError, ReplyError};
use x11rb::protocol::ErrorKind;
use x11rb::x11_utils::X11Error;

const TRIGGER: u8 = 65;
const ESCAPE: u8 = 9;
const MS: u128 = 1_000_000;

fn refusal(kind: ErrorKind) -> ReplyError {
    ReplyError::X11Error(X11Error {
        error_kind: kind,
        error_code: 10,
        sequence: 12,
        bad_value: 1722,
        minor_opcode: 0,
        major_opcode: 33,
        extension_name: None,
        request_name: Some("GrabKey"),
    })
}

/// A worker on a pretended desktop.
struct Desk {
    listener: Listener,
    action: Action,
    escape_free: bool,
    escape_held: bool,
    events: Vec<HotkeyEvent>,
}

impl Desk {
    fn new(double_tap_enabled: bool) -> Desk {
        Desk {
            listener: Listener::new(TRIGGER, ESCAPE, double_tap_enabled),
            action: Action::CheckStop,
            escape_free: true,
            escape_held: false,
            events: Vec::new(),
        }
    }

    fn report(&mut self, input: Input) {
        assert!(self.listener.accepts(&input));
        self.action = self.listener.step(input);
    }

    /// Answers until the listener polls or looks at the stop flag.
    fn settle(&mut self) {
        loop {
            match &self.action {
                Action::GrabEscape if self.escape_free => {
                    self.escape_held = true;
                    self.report(Input::EscapeGrabbed);
                }
                Action::GrabEscape => {
                    self.report(Input::EscapeRefused(refusal(ErrorKind::Access)));
                }
                Action::ReleaseEscape => {
                    assert!(self.escape_held);
                    self.escape_held = false;
                    self.report(Input::EscapeReleased);
                }
                Action::Emit(event) => {
                    self.events.push(*event);
                    self.report(Input::Delivered(Ok(true)));
                }
                _ => return,
            }
        }
    }

    /// One turn of the loop at a time.
    fn turn(&mut self, now: u128, key: Input) {
        assert!(matches!(self.action, Action::CheckStop));
        self.report(Input::Tick {
            checked_at: now,
            noted_at: now,
        });
        self.settle();
        assert!(matches!(self.action, Action::PollEvent));
        self.report(key);
        self.settle();
    }

    fn press(&mut self, code: u8, at: u128) {
        self.turn(at, Input::KeyPress { code, at });
    }

    fn release(&mut self, code: u8, at: u128) {
        self.turn(at, Input::KeyRelease { code, at });
    }

    fn wait(&mut self, now: u128) {
        self.turn(now, Input::NoKey);
    }

    /// Idle turns every 5 ms.
    fn idle(&mut self, from: u128, to: u128) {
        let mut now = from;
        while now <= to {
            self.wait(now);
            now += 5 * MS;
        }
    }

    fn taken(&mut self) -> Vec<HotkeyEvent> {
        self.events.drain(..).collect()
    }
}

#[test]
fn a_hold_starts_and_finishes() {
    let mut desk = Desk::new(true);
    desk.press(TRIGGER, 0);
    assert_eq!(desk.taken(), vec![HotkeyEvent::Start]);
    assert!(desk.escape_held);
    desk.release(TRIGGER, 1000 * MS);
    desk.wait(1049 * MS);
    assert_eq!(desk.taken(), vec![]);
    desk.wait(1050 * MS);
    assert_eq!(desk.taken(), vec![HotkeyEvent::Finish]);
    assert!(!desk.escape_held);
}

#[test]
fn a_second_tap_locks_until_the_next_press() {
    let mut desk = Desk::new(true);
    desk.press(TRIGGER, 0);
    desk.release(TRIGGER, 10 * MS);
    desk.wait(60 * MS);
    assert_eq!(desk.taken(), vec![HotkeyEvent::Start, HotkeyEvent::Finish]);
    desk.press(TRIGGER, 359 * MS);
    desk.release(TRIGGER, 370 * MS);
    desk.wait(420 * MS);
    desk.wait(5000 * MS);
    assert_eq!(desk.taken(), vec![HotkeyEvent::Start]);
    assert!(desk.escape_held);
    desk.press(TRIGGER, 6000 * MS);
    assert_eq!(desk.taken(), vec![HotkeyEvent::Finish]);
    assert!(!desk.escape_held);
    desk.release(TRIGGER, 6010 * MS);
    desk.wait(6500 * MS);
    assert_eq!(desk.taken(), vec![]);
    desk.press(TRIGGER, 6600 * MS);
    assert_eq!(desk.taken(), vec![HotkeyEvent::Start]);
}

#[test]
fn a_polled_hold_dictates() {
    let mut desk = Desk::new(true);
    desk.idle(0, 100 * MS);
    desk.press(TRIGGER, 101 * MS);
    desk.idle(105 * MS, 900 * MS);
    desk.release(TRIGGER, 901 * MS);
    desk.idle(905 * MS, 950 * MS);
    assert_eq!(desk.taken(), vec![HotkeyEvent::Start]);
    desk.idle(955 * MS, 2000 * MS);
    assert_eq!(desk.taken(), vec![HotkeyEvent::Finish]);
}

#[test]
fn a_polled_double_tap_locks() {
    for escape_free in [true, false] {
        let mut desk = Desk::new(true);
        desk.escape_free = escape_free;
        desk.press(TRIGGER, 0);
        desk.idle(5 * MS, 50 * MS);
        desk.release(TRIGGER, 51 * MS);
        desk.idle(55 * MS, 200 * MS);
        desk.press(TRIGGER, 201 * MS);
        desk.idle(205 * MS, 250 * MS);
        desk.release(TRIGGER, 251 * MS);
        desk.idle(255 * MS, 5000 * MS);
        assert_eq!(
            desk.taken(),
            vec![HotkeyEvent::Start, HotkeyEvent::Finish, HotkeyEvent::Start]
        );
        desk.press(TRIGGER, 5001 * MS);
        assert_eq!(desk.taken(), vec![HotkeyEvent::Finish]);
        assert!(!desk.escape_held);
    }
}

#[test]
fn key_repeat_with_idle_turns_is_invisible() {
    let mut desk = Desk::new(true);
    desk.press(TRIGGER, 0);
    for n in 1..50 {
        let at = n * 60 * MS;
        desk.release(TRIGGER, at);
        desk.idle(at + 5 * MS, at + 45 * MS);
        desk.press(TRIGGER, at + 49 * MS);
    }
    assert_eq!(desk.taken(), vec![HotkeyEvent::Start]);
}

#[test]
fn a_lock_that_ended_invites_no_second_tap() {
    let mut desk = Desk::new(true);
    for at in [0, 100 * MS] {
        desk.press(TRIGGER, at);
        desk.release(TRIGGER, at + 10 * MS);
        desk.wait(at + 60 * MS);
    }
    desk.press(TRIGGER, 200 * MS);
    desk.release(TRIGGER, 210 * MS);
    desk.press(TRIGGER, 220 * MS);
    desk.release(TRIGGER, 230 * MS);
    desk.wait(280 * MS);
    assert_eq!(
        desk.taken(),
        vec![
            HotkeyEvent::Start,
            HotkeyEvent::Finish,
            HotkeyEvent::Start,
            HotkeyEvent::Finish,
            HotkeyEvent::Start,
            HotkeyEvent::Finish
        ]
    );
}

#[test]
fn escape_is_given_back_once() {
    let mut desk = Desk::new(true);
    desk.press(TRIGGER, 0);
    desk.release(TRIGGER, 10 * MS);
    desk.wait(60 * MS);
    assert!(!desk.escape_held);
    desk.escape_free = false;
    desk.press(TRIGGER, 1000 * MS);
    desk.release(TRIGGER, 1010 * MS);
    desk.report(Input::Tick {
        checked_at: 1060 * MS,
        noted_at: 1060 * MS,
    });
    assert!(matches!(desk.action, Action::Emit(HotkeyEvent::Finish)));
}

#[test]
fn contexts_have_their_texts() {
    assert_eq!(Context::Connecting.message(), "could not connect to X11");
    assert_eq!(
        Context::GrabbingTrigger {
            label: "Alt+Space".to_string()
        }
        .message(),
        "Alt+Space is already in use by another X11 client"
    );
    assert_eq!(
        Context::GrabbingEscape.message(),
        "could not grab the Escape key for cancel"
    );
}

#[test]
fn a_late_second_tap_is_a_first_tap() {
    let mut desk = Desk::new(true);
    desk.press(TRIGGER, 0);
    desk.release(TRIGGER, 10 * MS);
    desk.wait(60 * MS);
    desk.press(TRIGGER, 360 * MS);
    desk.release(TRIGGER, 370 * MS);
    desk.wait(420 * MS);
    assert_eq!(
        desk.taken(),
        vec![
            HotkeyEvent::Start,
            HotkeyEvent::Finish,
            HotkeyEvent::Start,
            HotkeyEvent::Finish
        ]
    );
}

#[test]
fn without_double_tapping_nothing_locks() {
    let mut desk = Desk::new(false);
    for tap in 0..4 {
        desk.press(TRIGGER, tap * 100 * MS);
        desk.release(TRIGGER, tap * 100 * MS + 10 * MS);
        desk.wait(tap * 100 * MS + 60 * MS);
        assert_eq!(desk.taken(), vec![HotkeyEvent::Start, HotkeyEvent::Finish]);
    }
}

#[test]
fn the_window_begins_at_the_later_reading_of_the_clock() {
    let mut desk = Desk::new(true);
    desk.press(TRIGGER, 0);
    desk.release(TRIGGER, 10 * MS);
    desk.report(Input::Tick {
        checked_at: 60 * MS,
        noted_at: 90 * MS,
    });
    desk.settle();
    desk.report(Input::NoKey);
    desk.press(TRIGGER, 389 * MS);
    desk.release(TRIGGER, 400 * MS);
    desk.wait(450 * MS);
    assert_eq!(
        desk.taken(),
        vec![HotkeyEvent::Start, HotkeyEvent::Finish, HotkeyEvent::Start]
    );
}

#[test]
fn key_repeat_is_invisible() {
    let mut desk = Desk::new(true);
    desk.press(TRIGGER, 0);
    for n in 1..20 {
        desk.release(TRIGGER, n * 30 * MS);
        desk.press(TRIGGER, n * 30 * MS);
    }
    desk.wait(5000 * MS);
    assert_eq!(desk.taken(), vec![HotkeyEvent::Start]);
    desk.release(TRIGGER, 5000 * MS);
    desk.wait(5050 * MS);
    assert_eq!(desk.taken(), vec![HotkeyEvent::Finish]);
}

#[test]
fn a_clock_that_goes_back_ends_nothing() {
    let mut desk = Desk::new(true);
    desk.press(TRIGGER, 1000 * MS);
    desk.release(TRIGGER, 1000 * MS);
    desk.wait(0);
    assert_eq!(desk.taken(), vec![HotkeyEvent::Start]);
}

#[test]
fn escape_cancels_and_rearms_without_a_phantom() {
    let mut desk = Desk::new(true);
    desk.press(TRIGGER, 0);
    desk.press(ESCAPE, 100 * MS);
    assert_eq!(desk.taken(), vec![HotkeyEvent::Start, HotkeyEvent::Cancel]);
    assert!(desk.escape_held);
    desk.press(TRIGGER, 110 * MS);
    desk.press(ESCAPE, 120 * MS);
    assert_eq!(desk.taken(), vec![]);
    desk.release(ESCAPE, 130 * MS);
    assert!(!desk.escape_held);
    desk.release(TRIGGER, 140 * MS);
    desk.wait(5000 * MS);
    assert_eq!(desk.taken(), vec![]);
    desk.press(TRIGGER, 5010 * MS);
    assert_eq!(desk.taken(), vec![HotkeyEvent::Start]);
}

#[test]
fn letting_the_trigger_go_first_keeps_the_escape_grab() {
    let mut desk = Desk::new(true);
    desk.press(TRIGGER, 0);
    desk.press(ESCAPE, 100 * MS);
    desk.release(TRIGGER, 110 * MS);
    desk.release(ESCAPE, 120 * MS);
    assert!(desk.escape_held);
    desk.press(TRIGGER, 200 * MS);
    desk.release(TRIGGER, 300 * MS);
    desk.wait(350 * MS);
    assert!(!desk.escape_held);
    assert_eq!(
        desk.taken(),
        vec![
            HotkeyEvent::Start,
            HotkeyEvent::Cancel,
            HotkeyEvent::Start,
            HotkeyEvent::Finish
        ]
    );
}

#[test]
fn escape_cancels_a_locked_recording() {
    let mut desk = Desk::new(true);
    desk.press(TRIGGER, 0);
    desk.release(TRIGGER, 10 * MS);
    desk.wait(60 * MS);
    desk.press(TRIGGER, 100 * MS);
    desk.release(TRIGGER, 110 * MS);
    desk.wait(160 * MS);
    desk.taken();
    desk.press(ESCAPE, 1000 * MS);
    assert_eq!(desk.taken(), vec![HotkeyEvent::Cancel]);
}

#[test]
fn a_cancelled_tap_invites_no_second_tap() {
    let mut desk = Desk::new(true);
    desk.press(TRIGGER, 0);
    desk.release(TRIGGER, 10 * MS);
    desk.press(ESCAPE, 20 * MS);
    desk.release(ESCAPE, 30 * MS);
    desk.press(TRIGGER, 40 * MS);
    desk.release(TRIGGER, 50 * MS);
    desk.wait(100 * MS);
    assert_eq!(
        desk.taken(),
        vec![
            HotkeyEvent::Start,
            HotkeyEvent::Cancel,
            HotkeyEvent::Start,
            HotkeyEvent::Finish
        ]
    );
}

#[test]
fn other_keys_are_ignored() {
    let mut desk = Desk::new(true);
    desk.press(38, 0);
    desk.release(38, 10 * MS);
    desk.press(ESCAPE, 20 * MS);
    desk.release(ESCAPE, 30 * MS);
    desk.release(TRIGGER, 40 * MS);
    assert_eq!(desk.taken(), vec![]);
}

#[test]
fn a_conflict_over_escape_still_dictates_without_cancel() {
    let mut desk = Desk::new(false);
    desk.escape_free = false;
    desk.press(TRIGGER, 0);
    desk.release(TRIGGER, 100 * MS);
    desk.wait(150 * MS);
    assert_eq!(desk.taken(), vec![HotkeyEvent::Start, HotkeyEvent::Finish]);
    desk.wait(300 * MS);
    assert_eq!(desk.taken(), vec![]);
}

fn awaiting_escape_grab() -> Listener {
    let mut listener = Listener::new(TRIGGER, ESCAPE, true);
    listener.step(Input::Tick {
        checked_at: 0,
        noted_at: 0,
    });
    let action = listener.step(Input::KeyPress {
        code: TRIGGER,
        at: 0,
    });
    assert!(matches!(action, Action::GrabEscape));
    listener
}

#[test]
fn other_refusals_of_escape_end_the_listener() {
    for kind in [ErrorKind::Value, ErrorKind::Window, ErrorKind::Match] {
        let action = awaiting_escape_grab().step(Input::EscapeRefused(refusal(kind)));
        match action {
            Action::Fail(Failure::EscapeGrab(ReplyError::X11Error(error))) => {
                assert_eq!(error.error_kind, kind)
            }
            other => panic!("unexpected action {other:?}"),
        }
    }
    let lost = ReplyError::ConnectionError(ConnectionError::UnknownError);
    assert!(matches!(
        awaiting_escape_grab().step(Input::EscapeRefused(lost)),
        Action::Fail(Failure::EscapeGrab(ReplyError::ConnectionError(_)))
    ));
}

#[test]
fn a_broken_exchange_ends_the_listener() {
    let mut listener = awaiting_escape_grab();
    assert!(matches!(
        listener.step(Input::ConnectionFailed),
        Action::Fail(Failure::Connection)
    ));
    assert!(!listener.accepts(&Input::Stop));
    assert!(!listener.accepts(&Input::EscapeGrabbed));
}

#[test]
fn an_overflow_ends_the_listener() {
    let mut listener = awaiting_escape_grab();
    let action = listener.step(Input::EscapeGrabbed);
    assert!(matches!(action, Action::Emit(HotkeyEvent::Start)));
    assert!(matches!(
        listener.step(Input::Delivered(Err(InputError::QueueOverflow))),
        Action::Fail(Failure::Delivery(InputError::QueueOverflow))
    ));
}

#[test]
fn leaving_gives_escape_back_where_it_is_held() {
    let mut idle = Listener::new(TRIGGER, ESCAPE, true);
    assert!(matches!(
        idle.step(Input::Stop),
        Action::CleanUp { escape: false }
    ));

    let mut holding = awaiting_escape_grab();
    holding.step(Input::EscapeGrabbed);
    assert!(matches!(
        holding.step(Input::Delivered(Ok(false))),
        Action::CleanUp { escape: true }
    ));

    let mut conflicted = awaiting_escape_grab();
    conflicted.step(Input::EscapeRefused(refusal(ErrorKind::Access)));
    conflicted.step(Input::Delivered(Ok(true)));
    assert!(matches!(
        conflicted.step(Input::Stop),
        Action::CleanUp { escape: false }
    ));
}

#[test]
fn only_answers_are_accepted() {
    let mut listener = Listener::new(TRIGGER, ESCAPE, true);
    let press = Input::KeyPress {
        code: TRIGGER,
        at: 0,
    };
    assert!(!listener.accepts(&press));
    assert!(listener.accepts(&Input::Stop));
    listener.step(Input::Tick {
        checked_at: 0,
        noted_at: 0,
    });
    assert!(listener.accepts(&press));
    assert!(!listener.accepts(&Input::Stop));
    assert!(!listener.accepts(&Input::Delivered(Ok(true))));
}

#[test]
fn full_event_queue_returns_an_error_instead_of_blocking_the_worker() {
    let (sender, receiver) = mpsc::sync_channel(1);
    assert!(send_event(&sender, HotkeyEvent::Start).unwrap());
    assert!(send_event(&sender, HotkeyEvent::Finish).is_err());
    assert_eq!(receiver.try_recv().unwrap(), HotkeyEvent::Start);
    drop(receiver);
    assert!(!send_event(&sender, HotkeyEvent::Cancel).unwrap());
}

#[test]
fn replies_of_the_queue_are_sorted() {
    assert!(delivery_outcome(Ok(())).unwrap());
    let gone = mpsc::TrySendError::Disconnected(HotkeyEvent::Start);
    assert!(!delivery_outcome(Err(gone)).unwrap());
    let full = mpsc::TrySendError::Full(HotkeyEvent::Start);
    assert_eq!(
        delivery_outcome(Err(full)).unwrap_err().message(),
        "Linux hotkey event queue overflow"
    );
}

#[test]
fn failures_go_to_whoever_waits() {
    match report_failure(false, "early".to_string()) {
        Report::ToStarter(message) => assert_eq!(message, "early"),
        other => panic!("unexpected report {other:?}"),
    }
    match report_failure(true, "late".to_string()) {
        Report::ToMonitor(message) => assert_eq!(message, "late"),
        other => panic!("unexpected report {other:?}"),
    }
}

#[test]
fn the_starter_learns_the_outcome() {
    assert!(startup_outcome(Some(Ok(()))).is_ok());
    let failed = startup_outcome(Some(Err("no display".to_string()))).unwrap_err();
    assert!(matches!(failed, StartError::Worker(_)));
    assert_eq!(failed.message(), "no display");
    let silent = startup_outcome(None).unwrap_err();
    assert!(matches!(silent, StartError::Silent(_)));
    assert_eq!(
        silent.message(),
        "timed out registering the Linux dictation shortcut"
    );
}
