//! What a command asks of one device.
use crate::number::Number;
use std::collections::HashMap;
use vstd::prelude::*;

verus! {

broadcast use vstd::std_specs::hash::group_hash_axioms;

/// What is asked of one motor.
#[derive(Clone, Copy, Debug, PartialEq, Eq, Structural)]
pub enum Setting {
    /// Vibrate with this strength.
    Speed(Number),
    /// Turn with this speed, clockwise or not.
    Rotation(Number, bool),
    /// Move within this many milliseconds to this position.
    Position(u32, Number),
    /// Contract to this level.
    Contraction(u8),
}

/// What is asked of the motors of one device, by their place on it.
#[derive(Debug, PartialEq)]
pub struct MotorSettings {
    pub speed_map: HashMap<u32, Number>,
    pub rotate_map: HashMap<u32, (Number, bool)>,
    pub linear_map: HashMap<u32, (u32, Number)>,
    pub contraction_hack: Option<u8>,
}

/// The settings of one device, as maps.
#[verifier::ext_equal]
pub struct SettingsView {
    pub speeds: Map<u32, Number>,
    pub rotations: Map<u32, (Number, bool)>,
    pub positions: Map<u32, (u32, Number)>,
    pub contraction: Option<u8>,
}

impl View for MotorSettings {
    type V = SettingsView;

    open spec fn view(&self) -> SettingsView {
        SettingsView {
            speeds: self.speed_map@,
            rotations: self.rotate_map@,
            positions: self.linear_map@,
            contraction: self.contraction_hack,
        }
    }
}

impl SettingsView {
    /// The settings that ask nothing.
    pub open spec fn nothing() -> SettingsView {
        SettingsView {
            speeds: Map::empty(),
            rotations: Map::empty(),
            positions: Map::empty(),
            contraction: None,
        }
    }

    /// The settings with one more: the motor at `index` gets `setting`, in place
    /// of what was asked of it before. A device has one contraction, whatever
    /// the place of its motor.
    pub open spec fn with(self, index: u32, setting: Setting) -> SettingsView {
        match setting {
            Setting::Speed(speed) => SettingsView {
                speeds: self.speeds.insert(index, speed),
                ..self
            },
            Setting::Rotation(speed, clockwise) => SettingsView {
                rotations: self.rotations.insert(index, (speed, clockwise)),
                ..self
            },
            Setting::Position(duration, position) => SettingsView {
                positions: self.positions.insert(index, (duration, position)),
                ..self
            },
            Setting::Contraction(level) => SettingsView { contraction: Some(level), ..self },
        }
    }
}

impl Default for MotorSettings {
    fn default() -> (settings: MotorSettings)
        ensures
            settings@ == SettingsView::nothing(),
    {
        MotorSettings {
            speed_map: HashMap::new(),
            rotate_map: HashMap::new(),
            linear_map: HashMap::new(),
            contraction_hack: None,
        }
    }
}

impl MotorSettings {
    /// Asks `setting` of the motor at `index`.
    pub fn apply(&mut self, index: u32, setting: Setting)
        ensures
            final(self)@ == old(self)@.with(index, setting),
    {
        match setting {
            Setting::Speed(speed) => {
                self.speed_map.insert(index, speed);
            },
            Setting::Rotation(speed, clockwise) => {
                self.rotate_map.insert(index, (speed, clockwise));
            },
            Setting::Position(duration, position) => {
                self.linear_map.insert(index, (duration, position));
            },
            Setting::Contraction(level) => {
                self.contraction_hack = Some(level);
            },
        }
    }
}

/// One more setting is what is asked of its motor from now on, and nothing else
/// changes: neither the other motors of the kind nor those of other kinds.
pub proof fn law_one_setting_changes_one_motor(
    settings: SettingsView,
    index: u32,
    setting: Setting,
    other: u32,
)
    ensures
        ({
            let after = settings.with(index, setting);
            &&& setting matches Setting::Speed(speed) ==> after.speeds.contains_key(index)
                && after.speeds[index] == speed
            &&& setting matches Setting::Rotation(speed, clockwise)
                ==> after.rotations.contains_key(index) && after.rotations[index] == (
                speed,
                clockwise,
            )
            &&& setting matches Setting::Position(duration, position)
                ==> after.positions.contains_key(index) && after.positions[index] == (
                duration,
                position,
            )
            &&& setting matches Setting::Contraction(level) ==> after.contraction == Some(level)
            &&& !(setting is Speed) ==> after.speeds == settings.speeds
            &&& !(setting is Rotation) ==> after.rotations == settings.rotations
            &&& !(setting is Position) ==> after.positions == settings.positions
            &&& !(setting is Contraction) ==> after.contraction == settings.contraction
            &&& other != index ==> {
                &&& after.speeds.contains_key(other) == settings.speeds.contains_key(other)
                &&& after.speeds.contains_key(other) ==> after.speeds[other]
                    == settings.speeds[other]
                &&& after.rotations.contains_key(other) == settings.rotations.contains_key(other)
                &&& after.rotations.contains_key(other) ==> after.rotations[other]
                    == settings.rotations[other]
                &&& after.positions.contains_key(other) == settings.positions.contains_key(other)
                &&& after.positions.contains_key(other) ==> after.positions[other]
                    == settings.positions[other]
            }
        }),
{
}

/// The settings that ask nothing ask nothing of any motor.
pub proof fn law_nothing_is_asked_of_none(index: u32)
    ensures
        !SettingsView::nothing().speeds.contains_key(index),
        !SettingsView::nothing().rotations.contains_key(index),
        !SettingsView::nothing().positions.contains_key(index),
        SettingsView::nothing().contraction is None,
{
}

/// The view of some settings says all of them.
pub proof fn law_view_of_settings(settings: MotorSettings)
    ensures
        settings@.speeds == settings.speed_map@,
        settings@.rotations == settings.rotate_map@,
        settings@.positions == settings.linear_map@,
        settings@.contraction == settings.contraction_hack,
{
}

} // verus!
