//! The two display modes and the switch between them.

use vstd::prelude::*;

verus! {

/// What the device currently shows.
#[derive(Clone, Copy, PartialEq, Eq, Structural, Debug)]
pub enum EqTunerModeEnum {
    Equalizer,
    Tuner,
}

/// The mode that follows `mode` when the mode button is pressed.
pub open spec fn toggled(mode: EqTunerModeEnum) -> EqTunerModeEnum {
    match mode {
        EqTunerModeEnum::Equalizer => EqTunerModeEnum::Tuner,
        EqTunerModeEnum::Tuner => EqTunerModeEnum::Equalizer,
    }
}

/// Keeps track of the active mode.
pub struct FrequalizerMode {
    pub mode: EqTunerModeEnum,
}

impl FrequalizerMode {
    /// The device starts as an equalizer.
    pub fn new() -> (r: FrequalizerMode)
        ensures
            r.mode == EqTunerModeEnum::Equalizer,
    {
        FrequalizerMode { mode: EqTunerModeEnum::Equalizer }
    }

    /// Consumes one reading of the button flag. A pressed button flips the mode
    /// unconditionally; the result says whether a switch took place.
    pub fn check_switch_mode(&mut self, pressed: bool) -> (switched: bool)
        ensures
            switched == pressed,
            final(self).mode == (if pressed { toggled(old(self).mode) } else { old(self).mode }),
    {
        if pressed {
            self.switch_mode(None);
            true
        } else {
            false
        }
    }

    /// Moves to the desired mode, or to the other mode when none is named.
    pub fn switch_mode(&mut self, desired_mode: Option<EqTunerModeEnum>)
        ensures
            final(self).mode == (match desired_mode {
                Some(m) => m,
                None => toggled(old(self).mode),
            }),
    {
        match desired_mode {
            Some(EqTunerModeEnum::Equalizer) => self.mode = EqTunerModeEnum::Equalizer,
            Some(EqTunerModeEnum::Tuner) => self.mode = EqTunerModeEnum::Tuner,
            None => {
                match self.mode {
                    EqTunerModeEnum::Equalizer => self.mode = EqTunerModeEnum::Tuner,
                    EqTunerModeEnum::Tuner => self.mode = EqTunerModeEnum::Equalizer,
                }
            },
        }
    }
}

/// Two presses of the button lead back to the mode the device was in.
pub proof fn toggle_twice_is_identity(mode: EqTunerModeEnum)
    ensures
        toggled(toggled(mode)) == mode,
{
}

} // verus!
