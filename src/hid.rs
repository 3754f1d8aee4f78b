//! Decoding of the dial's raw frames into gestures, and the decoder's own
//! state: the commanded ratchet mode, the last reported modifier bits and
//! the correlation of press, rotation and release.

use vstd::prelude::*;
use crate::router::StateChanges;

verus! {

/// What one raw frame of the dial says.
#[derive(Clone, Copy, Debug, PartialEq, Eq, Structural)]
pub enum CrownEvent {
    Connected,
    Touch,
    Leave,
    Press,
    Release,
    Rotate { amount: i16, pressed: bool, notch_amount: i16 },
    KeyPress { modifiers: u8 },
    Unknown,
}

/// Commands that switch the dial's ratchet mode.
#[derive(Clone, Copy, Debug, PartialEq, Eq, Structural)]
pub enum CrownCommands {
    EnableRatchet,
    DisableRatchet,
}

/// The value of byte `b` read as a two's complement 8-bit integer.
pub open spec fn signed_byte(b: u8) -> int {
    if b < 128 { b as int } else { b as int - 256 }
}

/// Whether `d` starts with the header of rotation, press and touch frames.
pub open spec fn crown_header(d: Seq<u8>) -> bool {
    d.len() >= 4 && d[0] == 0x11 && d[2] == 0x12 && d[3] == 0x00
}

/// Whether the rotation payload of `d` is all zero.
pub open spec fn still(d: Seq<u8>) -> bool {
    d[4] == 0 && d[5] == 0 && d[6] == 0
}

/// The gesture that frame `d` stands for.
pub open spec fn decode_spec(d: Seq<u8>) -> CrownEvent {
    if d.len() >= 11 && crown_header(d) && d[4] != 0 {
        CrownEvent::Rotate {
            amount: signed_byte(d[5]) as i16,
            pressed: d[10] != 0,
            notch_amount: signed_byte(d[6]) as i16,
        }
    } else if d.len() >= 11 && crown_header(d) && still(d) && d[10] == 0x01 {
        CrownEvent::Press
    } else if d.len() >= 11 && crown_header(d) && still(d) && d[10] == 0x05 {
        CrownEvent::Release
    } else if d.len() >= 9 && crown_header(d) && still(d) && d[8] == 0x01 {
        CrownEvent::Touch
    } else if d.len() >= 9 && crown_header(d) && still(d) && d[8] == 0x03 {
        CrownEvent::Leave
    } else if d.len() >= 4 && d[0] == 0x20 && d[2] == 0x01 {
        CrownEvent::KeyPress { modifiers: d[3] }
    } else if d.len() >= 2 && d[0] == 0x01 {
        CrownEvent::KeyPress { modifiers: d[1] }
    } else if d.len() >= 3 && d[0] == 0x10 && d[2] == 0x41 {
        CrownEvent::Connected
    } else {
        CrownEvent::Unknown
    }
}

fn signed(b: u8) -> (r: i16)
    ensures
        r as int == signed_byte(b),
{
    if b < 128 {
        b as i16
    } else {
        b as i16 - 256
    }
}

/// Decodes one raw frame of the dial.
pub fn decode_event(data: &[u8]) -> (r: CrownEvent)
    ensures
        r == decode_spec(data@),
{
    let n = data.len();
    if n >= 4 && data[0] == 0x11 && data[2] == 0x12 && data[3] == 0x00 {
        if n >= 11 && data[4] != 0 {
            return CrownEvent::Rotate {
                amount: signed(data[5]),
                pressed: data[10] != 0,
                notch_amount: signed(data[6]),
            };
        }
        if n >= 9 && data[4] == 0 && data[5] == 0 && data[6] == 0 {
            if n >= 11 && data[10] == 0x01 {
                return CrownEvent::Press;
            }
            if n >= 11 && data[10] == 0x05 {
                return CrownEvent::Release;
            }
            if data[8] == 0x01 {
                return CrownEvent::Touch;
            }
            if data[8] == 0x03 {
                return CrownEvent::Leave;
            }
        }
    }
    if n >= 4 && data[0] == 0x20 && data[2] == 0x01 {
        CrownEvent::KeyPress { modifiers: data[3] }
    } else if n >= 2 && data[0] == 0x01 {
        CrownEvent::KeyPress { modifiers: data[1] }
    } else if n >= 3 && data[0] == 0x10 && data[2] == 0x41 {
        CrownEvent::Connected
    } else {
        CrownEvent::Unknown
    }
}

/// The frame that switches the dial's ratchet on or off.
pub open spec fn ratchet_frame_spec(enabled: bool) -> Seq<u8> {
    if enabled {
        seq![0x11u8, 0x03, 0x12, 0x21, 0x02, 0x02, 0, 0, 0, 0, 0, 0, 0, 0, 0, 0, 0, 0, 0, 0]
    } else {
        seq![0x11u8, 0x03, 0x12, 0x2a, 0x02, 0x01, 0, 0, 0, 0, 0, 0, 0, 0, 0, 0, 0, 0, 0, 0]
    }
}

/// The 20-byte frame that switches the dial's ratchet on or off.
pub fn ratchet_frame(enabled: bool) -> (r: Vec<u8>)
    ensures
        r@ == ratchet_frame_spec(enabled),
        r@.len() == 20,
{
    let r = if enabled {
        vec![0x11u8, 0x03, 0x12, 0x21, 0x02, 0x02, 0, 0, 0, 0, 0, 0, 0, 0, 0, 0, 0, 0, 0, 0]
    } else {
        vec![0x11u8, 0x03, 0x12, 0x2a, 0x02, 0x01, 0, 0, 0, 0, 0, 0, 0, 0, 0, 0, 0, 0, 0, 0]
    };
    assert(r@ =~= ratchet_frame_spec(enabled));
    r
}

/// Where the dial's button is between a press and its release.
#[derive(Clone, Copy, Debug, PartialEq, Eq, Structural)]
pub enum PressState {
    Idle,
    PressedNoRotation,
    PressedWithRotation,
}

/// The decoder's state.
#[derive(Clone, Copy, Debug, PartialEq, Eq, Structural)]
pub struct CrownDecoder {
    pub ratchet_enabled: bool,
    pub modifiers: u8,
    pub press: PressState,
}

/// What the decoder does in answer to a gesture.
#[derive(Debug, PartialEq, Eq)]
pub enum DecoderReaction {
    Nothing,
    /// Hand a message on to the router.
    Send(StateChanges),
    /// Write the ratchet frame for this setting to the dial.
    WriteRatchet(bool),
}

/// Whether a rotation counts: any movement without ratchet, or a detent.
pub open spec fn significant(ratchet_enabled: bool, amount: i16, notch_amount: i16) -> bool {
    (!ratchet_enabled && amount != 0) || notch_amount != 0
}

/// The decoder's state after gesture `e`.
pub open spec fn step_spec(d: CrownDecoder, e: CrownEvent) -> CrownDecoder {
    match e {
        CrownEvent::KeyPress { modifiers } => CrownDecoder { modifiers, ..d },
        CrownEvent::Press => CrownDecoder { press: PressState::PressedNoRotation, ..d },
        CrownEvent::Release => CrownDecoder { press: PressState::Idle, ..d },
        CrownEvent::Rotate { amount, pressed, notch_amount } => {
            if d.press == PressState::PressedNoRotation && significant(d.ratchet_enabled, amount, notch_amount) {
                CrownDecoder { press: PressState::PressedWithRotation, ..d }
            } else {
                d
            }
        },
        _ => d,
    }
}

/// What the decoder does in answer to gesture `e` in state `d`.
pub open spec fn reaction_spec(d: CrownDecoder, e: CrownEvent) -> DecoderReaction {
    match e {
        CrownEvent::Connected => DecoderReaction::WriteRatchet(d.ratchet_enabled),
        CrownEvent::Touch => DecoderReaction::Send(StateChanges::CrownTouched { modifiers: d.modifiers }),
        CrownEvent::Leave => DecoderReaction::Send(StateChanges::CrownReleased { modifiers: d.modifiers }),
        CrownEvent::Release => {
            if d.press == PressState::PressedNoRotation {
                DecoderReaction::Send(StateChanges::CrownClicked { modifiers: d.modifiers })
            } else {
                DecoderReaction::Nothing
            }
        },
        CrownEvent::Rotate { amount, pressed, notch_amount } => {
            if amount != 0 && (notch_amount != 0 || !d.ratchet_enabled) {
                DecoderReaction::Send(
                    StateChanges::CrownRotated { modifiers: d.modifiers, amount, notch_amount, pressed },
                )
            } else {
                DecoderReaction::Nothing
            }
        },
        _ => DecoderReaction::Nothing,
    }
}

/// A rotation frame with a non-zero delta byte decodes to a rotation whose
/// amount is its amount byte read as a signed 8-bit integer, widened.
pub proof fn lemma_rotation_amount(d: Seq<u8>)
    requires
        d.len() >= 11,
        crown_header(d),
        d[4] != 0,
    ensures
        decode_spec(d) matches CrownEvent::Rotate { amount, .. } && amount as int == signed_byte(d[5])
            && -128 <= amount <= 127 && (amount as int - d[5] as int) % 256 == 0,
{
}

/// Press, then a significant rotation, then release: no click comes out.
pub proof fn lemma_rotation_suppresses_click(d: CrownDecoder, amount: i16, pressed: bool, notch_amount: i16)
    requires
        significant(d.ratchet_enabled, amount, notch_amount),
    ensures
        ({
            let pressed_state = step_spec(d, CrownEvent::Press);
            let turned = step_spec(pressed_state, CrownEvent::Rotate { amount, pressed, notch_amount });
            reaction_spec(turned, CrownEvent::Release) == DecoderReaction::Nothing
        }),
{
}

/// Press, then release with no rotation between: a click comes out, with
/// the modifier bits last reported.
pub proof fn lemma_press_release_clicks(d: CrownDecoder)
    ensures
        reaction_spec(step_spec(d, CrownEvent::Press), CrownEvent::Release) == DecoderReaction::Send(
            StateChanges::CrownClicked { modifiers: d.modifiers },
        ),
{
}

/// The decoder's state after the gestures `es`, in order.
pub open spec fn run_spec(d: CrownDecoder, es: Seq<CrownEvent>) -> CrownDecoder
    decreases es.len(),
{
    if es.len() == 0 {
        d
    } else {
        run_spec(step_spec(d, es[0]), es.drop_first())
    }
}

/// Whether `e` is a press or a release of the button.
pub open spec fn is_button(e: CrownEvent) -> bool {
    e == CrownEvent::Press || e == CrownEvent::Release
}

/// Whether `e` is a rotation that counts under ratchet setting `ratchet_enabled`.
pub open spec fn is_significant_rotation(ratchet_enabled: bool, e: CrownEvent) -> bool {
    match e {
        CrownEvent::Rotate { amount, notch_amount, .. } => significant(ratchet_enabled, amount, notch_amount),
        _ => false,
    }
}

/// The modifier bits last reported in `es`, or `m` where none is.
pub open spec fn last_modifiers(m: u8, es: Seq<CrownEvent>) -> u8
    decreases es.len(),
{
    if es.len() == 0 {
        m
    } else {
        last_modifiers(
            match es[0] {
                CrownEvent::KeyPress { modifiers } => modifiers,
                _ => m,
            },
            es.drop_first(),
        )
    }
}

proof fn lemma_run_keeps_rotation(d: CrownDecoder, es: Seq<CrownEvent>)
    requires
        d.press == PressState::PressedWithRotation,
        forall|k: int| 0 <= k < es.len() ==> !is_button(#[trigger] es[k]),
    ensures
        run_spec(d, es).press == PressState::PressedWithRotation,
    decreases es.len(),
{
    if es.len() > 0 {
        assert(!is_button(es[0]));
        let rest = es.drop_first();
        assert forall|k: int| 0 <= k < rest.len() implies !is_button(#[trigger] rest[k]) by {
            assert(rest[k] == es[k + 1]);
        }
        lemma_run_keeps_rotation(step_spec(d, es[0]), rest);
    }
}

proof fn lemma_run_marks_rotation(d: CrownDecoder, es: Seq<CrownEvent>, k: int)
    requires
        d.press == PressState::PressedNoRotation,
        0 <= k < es.len(),
        is_significant_rotation(d.ratchet_enabled, es[k]),
        forall|j: int| 0 <= j < es.len() ==> !is_button(#[trigger] es[j]),
    ensures
        run_spec(d, es).press == PressState::PressedWithRotation,
    decreases es.len(),
{
    let rest = es.drop_first();
    assert(!is_button(es[0]));
    assert forall|j: int| 0 <= j < rest.len() implies !is_button(#[trigger] rest[j]) by {
        assert(rest[j] == es[j + 1]);
    }
    let d1 = step_spec(d, es[0]);
    assert(d1.ratchet_enabled == d.ratchet_enabled);
    if k == 0 {
        lemma_run_keeps_rotation(d1, rest);
    } else {
        assert(rest[k - 1] == es[k]);
        if d1.press == PressState::PressedWithRotation {
            lemma_run_keeps_rotation(d1, rest);
        } else {
            lemma_run_marks_rotation(d1, rest, k - 1);
        }
    }
}

proof fn lemma_run_without_rotation(d: CrownDecoder, es: Seq<CrownEvent>)
    requires
        d.press == PressState::PressedNoRotation,
        forall|j: int| 0 <= j < es.len() ==> !is_button(#[trigger] es[j]),
        forall|j: int| 0 <= j < es.len() ==> !is_significant_rotation(d.ratchet_enabled, #[trigger] es[j]),
    ensures
        run_spec(d, es).press == PressState::PressedNoRotation,
        run_spec(d, es).modifiers == last_modifiers(d.modifiers, es),
    decreases es.len(),
{
    if es.len() > 0 {
        let rest = es.drop_first();
        assert(!is_button(es[0]));
        assert(!is_significant_rotation(d.ratchet_enabled, es[0]));
        assert forall|j: int| 0 <= j < rest.len() implies !is_button(#[trigger] rest[j]) by {
            assert(rest[j] == es[j + 1]);
        }
        assert forall|j: int| 0 <= j < rest.len() implies !is_significant_rotation(
            d.ratchet_enabled,
            #[trigger] rest[j],
        ) by {
            assert(rest[j] == es[j + 1]);
        }
        lemma_run_without_rotation(step_spec(d, es[0]), rest);
    }
}

/// Press, then any gestures with no press or release among them and at least
/// one significant rotation, then release: no click comes out, and the
/// button is idle again.
pub proof fn lemma_rotation_between_suppresses_click(d: CrownDecoder, mid: Seq<CrownEvent>, k: int)
    requires
        0 <= k < mid.len(),
        is_significant_rotation(d.ratchet_enabled, mid[k]),
        forall|j: int| 0 <= j < mid.len() ==> !is_button(#[trigger] mid[j]),
    ensures
        reaction_spec(run_spec(step_spec(d, CrownEvent::Press), mid), CrownEvent::Release)
            == DecoderReaction::Nothing,
        step_spec(run_spec(step_spec(d, CrownEvent::Press), mid), CrownEvent::Release).press == PressState::Idle,
{
    lemma_run_marks_rotation(step_spec(d, CrownEvent::Press), mid, k);
}

/// Press, then any gestures with no press, release or significant rotation
/// among them, then release: exactly one click comes out, with the modifier
/// bits last reported.
pub proof fn lemma_press_release_clicks_through(d: CrownDecoder, mid: Seq<CrownEvent>)
    requires
        forall|j: int| 0 <= j < mid.len() ==> !is_button(#[trigger] mid[j]),
        forall|j: int| 0 <= j < mid.len() ==> !is_significant_rotation(d.ratchet_enabled, #[trigger] mid[j]),
    ensures
        reaction_spec(run_spec(step_spec(d, CrownEvent::Press), mid), CrownEvent::Release)
            == DecoderReaction::Send(StateChanges::CrownClicked { modifiers: last_modifiers(d.modifiers, mid) }),
{
    lemma_run_without_rotation(step_spec(d, CrownEvent::Press), mid);
}

/// Only a release can bring a click: the gestures between a press and its
/// release bring none.
pub proof fn lemma_only_release_clicks(d: CrownDecoder, e: CrownEvent)
    requires
        e != CrownEvent::Release,
    ensures
        !(reaction_spec(d, e) matches DecoderReaction::Send(StateChanges::CrownClicked { .. })),
{
}

impl CrownDecoder {
    /// A decoder with the ratchet on, no modifier and the button up.
    pub fn new() -> (r: CrownDecoder)
        ensures
            r.ratchet_enabled,
            r.modifiers == 0,
            r.press == PressState::Idle,
    {
        CrownDecoder { ratchet_enabled: true, modifiers: 0, press: PressState::Idle }
    }

    /// Takes in one gesture and says what to do about it.
    pub fn handle_event(&mut self, e: CrownEvent) -> (r: DecoderReaction)
        ensures
            *final(self) == step_spec(*old(self), e),
            r == reaction_spec(*old(self), e),
    {
        let d = *self;
        match e {
            CrownEvent::Connected => DecoderReaction::WriteRatchet(d.ratchet_enabled),
            CrownEvent::KeyPress { modifiers } => {
                self.modifiers = modifiers;
                DecoderReaction::Nothing
            },
            CrownEvent::Touch => DecoderReaction::Send(StateChanges::CrownTouched { modifiers: d.modifiers }),
            CrownEvent::Leave => DecoderReaction::Send(StateChanges::CrownReleased { modifiers: d.modifiers }),
            CrownEvent::Press => {
                self.press = PressState::PressedNoRotation;
                DecoderReaction::Nothing
            },
            CrownEvent::Release => {
                self.press = PressState::Idle;
                if d.press == PressState::PressedNoRotation {
                    DecoderReaction::Send(StateChanges::CrownClicked { modifiers: d.modifiers })
                } else {
                    DecoderReaction::Nothing
                }
            },
            CrownEvent::Rotate { amount, pressed, notch_amount } => {
                if d.press == PressState::PressedNoRotation && ((!d.ratchet_enabled && amount != 0)
                    || notch_amount != 0) {
                    self.press = PressState::PressedWithRotation;
                }
                if amount != 0 && (notch_amount != 0 || !d.ratchet_enabled) {
                    DecoderReaction::Send(
                        StateChanges::CrownRotated { modifiers: d.modifiers, amount, notch_amount, pressed },
                    )
                } else {
                    DecoderReaction::Nothing
                }
            },
            CrownEvent::Unknown => DecoderReaction::Nothing,
        }
    }

    /// Takes in a raw frame: decodes it and handles the gesture.
    pub fn handle_frame(&mut self, data: &[u8]) -> (r: DecoderReaction)
        ensures
            *final(self) == step_spec(*old(self), decode_spec(data@)),
            r == reaction_spec(*old(self), decode_spec(data@)),
    {
        let e = decode_event(data);
        self.handle_event(e)
    }

    /// Applies a ratchet command; returns the frame to write to the dial.
    pub fn handle_command(&mut self, cmd: CrownCommands) -> (r: Vec<u8>)
        ensures
            final(self).ratchet_enabled == (cmd == CrownCommands::EnableRatchet),
            final(self).modifiers == old(self).modifiers,
            final(self).press == old(self).press,
            r@ == ratchet_frame_spec(cmd == CrownCommands::EnableRatchet),
    {
        let on = match cmd {
            CrownCommands::EnableRatchet => true,
            CrownCommands::DisableRatchet => false,
        };
        self.ratchet_enabled = on;
        ratchet_frame(on)
    }
}

} // verus!
