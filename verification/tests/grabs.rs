use linux_input::{
    is_grab_conflict, lock_variants, num_lock_mask, GrabReply, GrabStep, VariantGrabs,
};
use x11rb::errors::{ConnectionError, ReplyError};
use x11rb::protocol::xproto::ModMask;
use x11rb::protocol::ErrorKind;
use x11rb::x11_utils::X11Error;

fn bits(mask: ModMask) -> u16 {
    u16::from(mask)
}

fn grab_error(kind: ErrorKind) -> ReplyError {
    ReplyError::X11Error(X11Error {
        error_kind: kind,
        error_code: 10,
        sequence: 12,
        bad_value: 1722,
        minor_opcode: 0,
        major_opcode: 33,
        extension_name: None,
        request_name: Some("GrabKey"),
    })
}

#[test]
fn lock_variants_preserve_the_configured_modifier() {
    assert_eq!(
        lock_variants(bits(ModMask::M1), bits(ModMask::M2)),
        [
            bits(ModMask::M1),
            bits(ModMask::M1 | ModMask::LOCK),
            bits(ModMask::M1 | ModMask::M2),
            bits(ModMask::M1 | ModMask::LOCK | ModMask::M2),
        ]
    );
}

#[test]
fn lock_variants_have_these_bits() {
    assert_eq!(lock_variants(0x08, 0x10), [0x08, 0x0a, 0x18, 0x1a]);
    assert_eq!(lock_variants(0, 0x20), [0, 0x02, 0x20, 0x22]);
}

#[test]
fn every_lock_state_is_covered() {
    let (base, num_lock) = (0x0c_u16, 0x10_u16);
    let masks = lock_variants(base, num_lock);
    for caps in [0, 0x02] {
        for num in [0, num_lock] {
            assert!(masks.contains(&(base | caps | num)));
        }
    }
    assert!(masks.iter().all(|mask| mask & base == base));
}

#[test]
fn num_lock_falls_back_to_the_second_modifier() {
    assert_eq!(num_lock_mask(None), bits(ModMask::M2));
    assert_eq!(num_lock_mask(None), 0x10);
    assert_eq!(num_lock_mask(Some(0x40)), 0x40);
}

#[test]
fn escape_grab_conflict_is_not_fatal() {
    assert!(is_grab_conflict(&grab_error(ErrorKind::Access)));
}

#[test]
fn non_conflict_grab_errors_stay_fatal() {
    for kind in [ErrorKind::Value, ErrorKind::Window, ErrorKind::Match] {
        assert!(
            !is_grab_conflict(&grab_error(kind)),
            "{kind:?} must stay fatal"
        );
    }
}

#[test]
fn a_lost_connection_is_no_conflict() {
    let error = ReplyError::ConnectionError(ConnectionError::UnknownError);
    assert!(!is_grab_conflict(&error));
}

#[test]
fn all_masks_are_grabbed_in_order() {
    let mut grabs = VariantGrabs::new(&[8, 10, 24]);
    assert!(matches!(grabs.next_grab(), GrabStep::Grab(8)));
    assert!(matches!(grabs.reply(GrabReply::Granted), GrabStep::Grab(10)));
    assert!(matches!(grabs.reply(GrabReply::Granted), GrabStep::Grab(24)));
    assert!(matches!(grabs.reply(GrabReply::Granted), GrabStep::Done));
    assert!(matches!(grabs.next_grab(), GrabStep::Done));
}

#[test]
fn a_refusal_rolls_back_exactly_what_was_granted() {
    let mut grabs = VariantGrabs::new(&[8, 10, 24, 26]);
    grabs.reply(GrabReply::Granted);
    grabs.reply(GrabReply::Granted);
    match grabs.reply(GrabReply::Refused) {
        GrabStep::RollBack(masks) => assert_eq!(masks, vec![8, 10]),
        other => panic!("unexpected step {other:?}"),
    }
    assert!(matches!(grabs.next_grab(), GrabStep::Grab(8)));
}

#[test]
fn a_request_that_is_not_sent_is_not_rolled_back() {
    let mut grabs = VariantGrabs::new(&[8, 10]);
    grabs.reply(GrabReply::Granted);
    assert!(matches!(grabs.reply(GrabReply::NotSent), GrabStep::Abandon));
}

#[test]
fn leaving_gives_back_exactly_the_masks_that_were_grabbed() {
    let mut grabs = VariantGrabs::new(&lock_variants(0x08, 0x10));
    assert_eq!(grabs.held(), vec![]);
    for granted in 1..=4 {
        grabs.reply(GrabReply::Granted);
        assert_eq!(grabs.held(), [0x08, 0x0a, 0x18, 0x1a][..granted]);
    }
    assert!(matches!(grabs.next_grab(), GrabStep::Done));

    let mut refused = VariantGrabs::new(&[8, 10]);
    refused.reply(GrabReply::Granted);
    refused.reply(GrabReply::Refused);
    assert_eq!(refused.held(), vec![]);
}

#[test]
fn no_masks_need_no_grabs() {
    assert!(matches!(VariantGrabs::new(&[]).next_grab(), GrabStep::Done));
}
