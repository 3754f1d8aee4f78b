//! The router's decisions: what each inbound message changes and which
//! action list, if any, it asks for.

use vstd::prelude::*;
use crate::config::{
    modifier_of, resolve_mode, Action, ConfigFile, Modifier, RatchetMode,
};

verus! {

/// A message to the router, from the decoder or from the display bridge.
#[derive(Debug, PartialEq, Eq)]
pub enum StateChanges {
    FocusChanged { pid: u32, program: String },
    ModifiersChanged { modifiers: u8 },
    CrownTouched { modifiers: u8 },
    CrownReleased { modifiers: u8 },
    CrownClicked { modifiers: u8 },
    CrownRotated { modifiers: u8, amount: i16, notch_amount: i16, pressed: bool },
}

/// What the router asks for after a message.
#[derive(Clone, Copy, Debug, PartialEq, Eq, Structural)]
pub enum Routed {
    Nothing,
    /// Command the decoder into this ratchet mode.
    SetRatchet(RatchetMode),
    /// Run the action list of this modifier and gesture kind.
    Lookup(Modifier, Action),
}

/// The gesture kind of a rotation, by direction and button; none for no movement.
pub open spec fn rotation_action_spec(amount: i16, pressed: bool) -> Option<Action> {
    if amount > 0 && pressed {
        Some(Action::RightPressed)
    } else if amount < 0 && pressed {
        Some(Action::LeftPressed)
    } else if amount > 0 {
        Some(Action::Right)
    } else if amount < 0 {
        Some(Action::Left)
    } else {
        None
    }
}

/// The gesture kind of a rotation, by direction and button; none for no movement.
pub fn rotation_action(amount: i16, pressed: bool) -> (r: Option<Action>)
    ensures
        r == rotation_action_spec(amount, pressed),
{
    if amount > 0 && pressed {
        Some(Action::RightPressed)
    } else if amount < 0 && pressed {
        Some(Action::LeftPressed)
    } else if amount > 0 {
        Some(Action::Right)
    } else if amount < 0 {
        Some(Action::Left)
    } else {
        None
    }
}

/// The router's state: the ratchet mode last commanded and the modifier last seen.
#[derive(Clone, Copy, Debug, PartialEq, Eq, Structural)]
pub struct Router {
    pub last_mode: RatchetMode,
    pub last_modifiers: Modifier,
}

impl Router {
    /// A router that takes the ratchet as on and no modifier as held.
    pub fn new() -> (r: Router)
        ensures
            r.last_mode == RatchetMode::Ratcheted,
            r.last_modifiers == Modifier::Unmodified,
    {
        Router { last_mode: RatchetMode::Ratcheted, last_modifiers: Modifier::Unmodified }
    }

    fn switch_mode(&mut self, mode: RatchetMode) -> (r: Routed)
        ensures
            final(self).last_mode == mode,
            final(self).last_modifiers == old(self).last_modifiers,
            r == (if mode != old(self).last_mode { Routed::SetRatchet(mode) } else { Routed::Nothing }),
    {
        if mode != self.last_mode {
            self.last_mode = mode;
            Routed::SetRatchet(mode)
        } else {
            Routed::Nothing
        }
    }

    /// Takes in one message: updates the focused application and the tracked
    /// modifier, and says what to do.
    pub fn route(&mut self, config: &mut ConfigFile, msg: &StateChanges) -> (r: Routed)
        requires
            old(config).wf(),
        ensures
            final(config).wf(),
            final(config).loaded() == old(config).loaded(),
            final(config).global_mapping() == old(config).global_mapping(),
            final(config).mtime_spec() == old(config).mtime_spec(),
            final(config).last_check_spec() == old(config).last_check_spec(),
            final(config).path_spec() == old(config).path_spec(),
            match msg {
                StateChanges::FocusChanged { program, .. } => {
                    let mode = resolve_mode(
                        final(config).active_mapping(),
                        final(config).global_mapping(),
                        old(self).last_modifiers,
                    );
                    &&& final(config).active_app_spec() == Some(program@)
                    &&& final(config).active_mapping() == crate::config::active_view(
                        old(config).loaded(),
                        Some(program@),
                    )
                    &&& final(self).last_modifiers == old(self).last_modifiers
                    &&& final(self).last_mode == mode
                    &&& r == (if mode != old(self).last_mode { Routed::SetRatchet(mode) } else { Routed::Nothing })
                },
                StateChanges::ModifiersChanged { modifiers } => {
                    let m = modifier_of(*modifiers);
                    let mode = resolve_mode(old(config).active_mapping(), old(config).global_mapping(), m);
                    &&& final(config).active_app_spec() == old(config).active_app_spec()
                    &&& final(config).active_mapping() == old(config).active_mapping()
                    &&& final(self).last_modifiers == m
                    &&& if m != old(self).last_modifiers {
                        &&& final(self).last_mode == mode
                        &&& r == (if mode != old(self).last_mode {
                            Routed::SetRatchet(mode)
                        } else {
                            Routed::Nothing
                        })
                    } else {
                        *final(self) == *old(self) && r == Routed::Nothing
                    }
                },
                StateChanges::CrownRotated { modifiers, amount, notch_amount, pressed } => {
                    &&& final(config).active_app_spec() == old(config).active_app_spec()
                    &&& final(config).active_mapping() == old(config).active_mapping()
                    &&& *final(self) == *old(self)
                    &&& r == match rotation_action_spec(*amount, *pressed) {
                        None => Routed::Nothing,
                        Some(a) => if old(self).last_mode == RatchetMode::Ratcheted && *notch_amount == 0 {
                            Routed::Nothing
                        } else {
                            Routed::Lookup(modifier_of(*modifiers), a)
                        },
                    }
                },
                StateChanges::CrownTouched { modifiers } => {
                    &&& final(config).active_app_spec() == old(config).active_app_spec()
                    &&& final(config).active_mapping() == old(config).active_mapping()
                    &&& *final(self) == *old(self)
                    &&& r == Routed::Lookup(modifier_of(*modifiers), Action::Touch)
                },
                StateChanges::CrownReleased { modifiers } => {
                    &&& final(config).active_app_spec() == old(config).active_app_spec()
                    &&& final(config).active_mapping() == old(config).active_mapping()
                    &&& *final(self) == *old(self)
                    &&& r == Routed::Lookup(modifier_of(*modifiers), Action::Release)
                },
                StateChanges::CrownClicked { modifiers } => {
                    &&& final(config).active_app_spec() == old(config).active_app_spec()
                    &&& final(config).active_mapping() == old(config).active_mapping()
                    &&& *final(self) == *old(self)
                    &&& r == Routed::Lookup(modifier_of(*modifiers), Action::Click)
                },
            },
    {
        match msg {
            StateChanges::FocusChanged { program, .. } => {
                config.select_app(program.as_str());
                let mode = config.ratchet_mode_for_modifier(self.last_modifiers);
                self.switch_mode(mode)
            },
            StateChanges::ModifiersChanged { modifiers } => {
                let m = Modifier::from(*modifiers);
                if m != self.last_modifiers {
                    self.last_modifiers = m;
                    let mode = config.ratchet_mode_for_modifier(m);
                    self.switch_mode(mode)
                } else {
                    Routed::Nothing
                }
            },
            StateChanges::CrownRotated { modifiers, amount, notch_amount, pressed } => {
                match rotation_action(*amount, *pressed) {
                    None => Routed::Nothing,
                    Some(a) => {
                        if self.last_mode == RatchetMode::Ratcheted && *notch_amount == 0 {
                            Routed::Nothing
                        } else {
                            Routed::Lookup(Modifier::from(*modifiers), a)
                        }
                    },
                }
            },
            StateChanges::CrownTouched { modifiers } => Routed::Lookup(Modifier::from(*modifiers), Action::Touch),
            StateChanges::CrownReleased { modifiers } => Routed::Lookup(Modifier::from(*modifiers), Action::Release),
            StateChanges::CrownClicked { modifiers } => Routed::Lookup(Modifier::from(*modifiers), Action::Click),
        }
    }
}

} // verus!
