use crown_controller::hid::{
    decode_event, ratchet_frame, CrownCommands, CrownDecoder, CrownEvent, DecoderReaction, PressState,
};
use crown_controller::router::StateChanges;

fn frame(bytes: &[u8]) -> Vec<u8> {
    let mut v = bytes.to_vec();
    v.resize(20, 0);
    v
}

#[test]
fn rotation_amount_is_signed_byte() {
    let f = frame(&[0x11, 0xff, 0x12, 0x00, 0x01, 0xfe, 0x01, 0, 0, 0, 0x00]);
    assert_eq!(decode_event(&f), CrownEvent::Rotate { amount: -2, pressed: false, notch_amount: 1 });
    let f = frame(&[0x11, 0xff, 0x12, 0x00, 0x01, 0x05, 0x00, 0, 0, 0, 0x01]);
    assert_eq!(decode_event(&f), CrownEvent::Rotate { amount: 5, pressed: true, notch_amount: 0 });
    let f = frame(&[0x11, 0xff, 0x12, 0x00, 0x07, 0x80, 0x7f, 0, 0, 0, 0x00]);
    assert_eq!(decode_event(&f), CrownEvent::Rotate { amount: -128, pressed: false, notch_amount: 127 });
}

#[test]
fn rotation_amount_for_every_byte() {
    for b in 0u8..=255 {
        let f = frame(&[0x11, 0, 0x12, 0x00, 0x01, b, 0, 0, 0, 0, 0]);
        match decode_event(&f) {
            CrownEvent::Rotate { amount, .. } => assert_eq!(amount, b as i8 as i16),
            other => panic!("unexpected {:?}", other),
        }
    }
}

#[test]
fn press_release_touch_leave_frames() {
    assert_eq!(decode_event(&frame(&[0x11, 0, 0x12, 0, 0, 0, 0, 0, 0, 0, 0x01])), CrownEvent::Press);
    assert_eq!(decode_event(&frame(&[0x11, 0, 0x12, 0, 0, 0, 0, 0, 0, 0, 0x05])), CrownEvent::Release);
    assert_eq!(decode_event(&frame(&[0x11, 0, 0x12, 0, 0, 0, 0, 0, 0x01, 0, 0])), CrownEvent::Touch);
    assert_eq!(decode_event(&frame(&[0x11, 0, 0x12, 0, 0, 0, 0, 0, 0x03, 0, 0])), CrownEvent::Leave);
    assert_eq!(decode_event(&[0x11, 0, 0x12, 0, 0, 0, 0, 0, 0x01]), CrownEvent::Touch);
}

#[test]
fn modifier_and_connect_frames() {
    assert_eq!(decode_event(&[0x20, 0, 0x01, 0x22]), CrownEvent::KeyPress { modifiers: 0x22 });
    assert_eq!(decode_event(&[0x01, 0x04, 0, 0]), CrownEvent::KeyPress { modifiers: 0x04 });
    assert_eq!(decode_event(&[0x10, 0xff, 0x41, 0x0c]), CrownEvent::Connected);
}

#[test]
fn unknown_frames() {
    assert_eq!(decode_event(&[]), CrownEvent::Unknown);
    assert_eq!(decode_event(&[0x11, 0, 0x12]), CrownEvent::Unknown);
    assert_eq!(decode_event(&frame(&[0x11, 0, 0x12, 0, 0, 0, 0, 0, 0x02, 0, 0x02])), CrownEvent::Unknown);
    assert_eq!(decode_event(&[0x11, 0, 0x12, 0, 0x01, 0x05]), CrownEvent::Unknown);
    assert_eq!(decode_event(&[0x42, 0, 0, 0]), CrownEvent::Unknown);
}

#[test]
fn press_then_release_clicks() {
    let mut d = CrownDecoder::new();
    d.handle_event(CrownEvent::KeyPress { modifiers: 0x04 });
    assert_eq!(d.handle_event(CrownEvent::Press), DecoderReaction::Nothing);
    assert_eq!(d.press, PressState::PressedNoRotation);
    assert_eq!(
        d.handle_event(CrownEvent::Release),
        DecoderReaction::Send(StateChanges::CrownClicked { modifiers: 0x04 })
    );
    assert_eq!(d.press, PressState::Idle);
}

#[test]
fn rotation_while_pressed_suppresses_click() {
    let mut d = CrownDecoder::new();
    d.handle_event(CrownEvent::Press);
    let r = d.handle_event(CrownEvent::Rotate { amount: 3, pressed: true, notch_amount: 1 });
    assert_eq!(
        r,
        DecoderReaction::Send(StateChanges::CrownRotated { modifiers: 0, amount: 3, notch_amount: 1, pressed: true })
    );
    assert_eq!(d.press, PressState::PressedWithRotation);
    assert_eq!(d.handle_event(CrownEvent::Release), DecoderReaction::Nothing);
    assert_eq!(d.press, PressState::Idle);
}

#[test]
fn fractional_rotation_with_ratchet_is_dropped() {
    let mut d = CrownDecoder::new();
    d.handle_event(CrownEvent::Press);
    let r = d.handle_event(CrownEvent::Rotate { amount: 3, pressed: true, notch_amount: 0 });
    assert_eq!(r, DecoderReaction::Nothing);
    assert_eq!(d.press, PressState::PressedNoRotation);
    assert_eq!(
        d.handle_event(CrownEvent::Release),
        DecoderReaction::Send(StateChanges::CrownClicked { modifiers: 0 })
    );
}

#[test]
fn free_rotation_is_forwarded_and_suppresses_click() {
    let mut d = CrownDecoder::new();
    assert_eq!(d.handle_command(CrownCommands::DisableRatchet), ratchet_frame(false));
    assert!(!d.ratchet_enabled);
    d.handle_event(CrownEvent::Press);
    let r = d.handle_event(CrownEvent::Rotate { amount: -1, pressed: true, notch_amount: 0 });
    assert_eq!(
        r,
        DecoderReaction::Send(StateChanges::CrownRotated { modifiers: 0, amount: -1, notch_amount: 0, pressed: true })
    );
    assert_eq!(d.handle_event(CrownEvent::Release), DecoderReaction::Nothing);
}

#[test]
fn touch_bypasses_press_machine() {
    let mut d = CrownDecoder::new();
    d.handle_event(CrownEvent::Press);
    assert_eq!(d.handle_event(CrownEvent::Touch), DecoderReaction::Send(StateChanges::CrownTouched { modifiers: 0 }));
    assert_eq!(d.handle_event(CrownEvent::Leave), DecoderReaction::Send(StateChanges::CrownReleased { modifiers: 0 }));
    assert_eq!(d.press, PressState::PressedNoRotation);
}

#[test]
fn reconnect_reasserts_ratchet_mode() {
    let mut d = CrownDecoder::new();
    assert_eq!(d.handle_frame(&[0x10, 0xff, 0x41, 0]), DecoderReaction::WriteRatchet(true));
    d.handle_command(CrownCommands::DisableRatchet);
    assert_eq!(d.handle_frame(&[0x10, 0xff, 0x41, 0]), DecoderReaction::WriteRatchet(false));
}

#[test]
fn modifier_frame_is_stamped_on_gestures() {
    let mut d = CrownDecoder::new();
    assert_eq!(d.handle_frame(&[0x20, 0, 0x01, 0x08]), DecoderReaction::Nothing);
    assert_eq!(d.modifiers, 0x08);
    let touch = frame(&[0x11, 0, 0x12, 0, 0, 0, 0, 0, 0x01, 0, 0]);
    assert_eq!(d.handle_frame(&touch), DecoderReaction::Send(StateChanges::CrownTouched { modifiers: 0x08 }));
}

#[test]
fn ratchet_frames() {
    let on = ratchet_frame(true);
    let off = ratchet_frame(false);
    assert_eq!(on.len(), 20);
    assert_eq!(&on[..6], &[0x11, 0x03, 0x12, 0x21, 0x02, 0x02]);
    assert_eq!(&off[..6], &[0x11, 0x03, 0x12, 0x2a, 0x02, 0x01]);
    assert!(on[6..].iter().all(|b| *b == 0) && off[6..].iter().all(|b| *b == 0));
    let mut d = CrownDecoder::new();
    assert_eq!(d.handle_command(CrownCommands::EnableRatchet), on);
    assert!(d.ratchet_enabled);
}

#[test]
fn events_between_press_and_release() {
    let mut d = CrownDecoder::new();
    d.handle_event(CrownEvent::Press);
    assert_eq!(d.handle_event(CrownEvent::Touch), DecoderReaction::Send(StateChanges::CrownTouched { modifiers: 0 }));
    d.handle_event(CrownEvent::KeyPress { modifiers: 0x02 });
    d.handle_event(CrownEvent::Rotate { amount: 1, pressed: true, notch_amount: 0 });
    d.handle_event(CrownEvent::Unknown);
    assert_eq!(
        d.handle_event(CrownEvent::Release),
        DecoderReaction::Send(StateChanges::CrownClicked { modifiers: 0x02 })
    );

    d.handle_event(CrownEvent::Press);
    d.handle_event(CrownEvent::Leave);
    d.handle_event(CrownEvent::Rotate { amount: 2, pressed: true, notch_amount: 1 });
    d.handle_event(CrownEvent::KeyPress { modifiers: 0 });
    d.handle_event(CrownEvent::Touch);
    assert_eq!(d.handle_event(CrownEvent::Release), DecoderReaction::Nothing);
}
