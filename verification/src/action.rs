//! The parsed control action and the command it dispatches to.

use vstd::prelude::*;

verus! {

/// A system control action, as parsed from the command line.  The magnitude
/// of the delta variants is a small unsigned step size.
#[derive(Debug, Default, Clone, Copy, PartialEq, Eq, Structural)]
pub enum Action {
    #[default]
    VolumeToggleMute,
    MicrophoneToggleMute,
    VolumeUp(u8),
    VolumeDown(u8),
    BrightnessUp(u8),
    BrightnessDown(u8),
}

/// The device-control command an action dispatches to.  Executing it is the
/// executor's business; deciding it is verified here.
#[derive(Debug, Clone, Copy, PartialEq, Eq, Structural)]
pub enum ActionCommand {
    AdjustVolume(i8),
    AdjustBrightness(i8),
    ToggleVolumeMute,
    ToggleMicrophoneMute,
}

impl Action {
    /// Whether the action concerns audio (volume or microphone) rather than
    /// screen brightness; this picks the label format.
    pub fn is_volume_kind(&self) -> (r: bool)
        ensures
            r <==> !(*self is BrightnessUp || *self is BrightnessDown),
    {
        match self {
            Self::MicrophoneToggleMute => true,
            Self::VolumeToggleMute => true,
            Self::VolumeUp(_) => true,
            Self::VolumeDown(_) => true,
            Self::BrightnessUp(_) => false,
            Self::BrightnessDown(_) => false,
        }
    }

    /// The step size carried by the action, if any.
    pub open spec fn spec_magnitude(self) -> Option<u8> {
        match self {
            Action::VolumeUp(n) => Some(n),
            Action::VolumeDown(n) => Some(n),
            Action::BrightnessUp(n) => Some(n),
            Action::BrightnessDown(n) => Some(n),
            _ => None,
        }
    }

    /// The command this action dispatches to: an upward delta keeps its
    /// magnitude, a downward one negates it, and the mute toggles map to
    /// their own commands.
    pub fn command(&self) -> (c: ActionCommand)
        requires
            self.spec_magnitude() matches Some(n) ==> n <= 127,
        ensures
            match *self {
                Action::VolumeUp(n) => c == ActionCommand::AdjustVolume(n as i8),
                Action::VolumeDown(n) => c == ActionCommand::AdjustVolume((-(n as int)) as i8),
                Action::BrightnessUp(n) => c == ActionCommand::AdjustBrightness(n as i8),
                Action::BrightnessDown(n) => c == ActionCommand::AdjustBrightness((-(n as int)) as i8),
                Action::VolumeToggleMute => c == ActionCommand::ToggleVolumeMute,
                Action::MicrophoneToggleMute => c == ActionCommand::ToggleMicrophoneMute,
            },
    {
        match self {
            Self::VolumeUp(n) => ActionCommand::AdjustVolume(*n as i8),
            Self::VolumeDown(n) => ActionCommand::AdjustVolume(-(*n as i8)),
            Self::BrightnessUp(n) => ActionCommand::AdjustBrightness(*n as i8),
            Self::BrightnessDown(n) => ActionCommand::AdjustBrightness(-(*n as i8)),
            Self::VolumeToggleMute => ActionCommand::ToggleVolumeMute,
            Self::MicrophoneToggleMute => ActionCommand::ToggleMicrophoneMute,
        }
    }
}

} // verus!
