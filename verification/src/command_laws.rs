//! What holds of every command.
use crate::command::{CommandReport, Progress, ReadingView, Readings, Tags};
use crate::motor::{MotorType, MotorView};
use crate::number::Number;
use crate::settings::{Setting, SettingsView};
use vstd::prelude::*;

verus! {

/// Whether a motor is of this kind and at this place on this device. A device
/// has one contraction, whatever the place of its motor.
pub open spec fn is_at(motor: MotorView, device: Seq<char>, kind: MotorType, index: u32) -> bool {
    &&& motor.device_name == device
    &&& motor.feature_type == kind
    &&& kind == MotorType::Contraction || motor.feature_index == index
}

/// Whether a line speaks to the motor of this kind at this place on this device.
pub open spec fn speaks_to(
    tags: Tags,
    line: Seq<char>,
    device: Seq<char>,
    kind: MotorType,
    index: u32,
) -> bool {
    &&& tags.contains_key(crate::command::tag_of(line))
    &&& is_at(tags[crate::command::tag_of(line)], device, kind, index)
}

/// What is asked of the motor of this kind at this place.
pub open spec fn setting_at(settings: SettingsView, kind: MotorType, index: u32) -> Option<
    Setting,
> {
    match kind {
        MotorType::Vibration => if settings.speeds.contains_key(index) {
            Some(Setting::Speed(settings.speeds[index]))
        } else {
            None
        },
        MotorType::Rotation => if settings.rotations.contains_key(index) {
            Some(Setting::Rotation(settings.rotations[index].0, settings.rotations[index].1))
        } else {
            None
        },
        MotorType::Linear => if settings.positions.contains_key(index) {
            Some(Setting::Position(settings.positions[index].0, settings.positions[index].1))
        } else {
            None
        },
        MotorType::Contraction => match settings.contraction {
            Some(level) => Some(Setting::Contraction(level)),
            None => None,
        },
    }
}

/// Whether a value lies between 0 and 1, unless it is not a number at all.
pub open spec fn in_unit(number: Number) -> bool {
    number.spec_is_nan() || 0 <= number.rank() <= Number::spec_one().rank()
}

/// Whether a setting is one that a device accepts.
pub open spec fn in_range(setting: Setting) -> bool {
    match setting {
        Setting::Speed(speed) => in_unit(speed),
        Setting::Rotation(speed, _) => in_unit(speed),
        Setting::Position(_, position) => in_unit(position),
        Setting::Contraction(level) => level <= 3,
    }
}

/// What a line asks of a motor is in range, and fits the kind of the motor.
proof fn lemma_asked_in_range(kind: MotorType, line: Seq<char>, readings: Readings)
    ensures
        crate::command::asked(kind, line, readings) matches Ok(setting) ==> in_range(setting) && (
        match setting {
            Setting::Speed(_) => kind == MotorType::Vibration,
            Setting::Rotation(_, _) => kind == MotorType::Rotation,
            Setting::Position(_, _) => kind == MotorType::Linear,
            Setting::Contraction(_) => kind == MotorType::Contraction,
        }),
{
}

/// Whatever a command says, strengths, speeds and positions lie between 0 and 1
/// (or are not numbers), and contraction levels are at most 3.
pub proof fn law_settings_in_range(
    tags: Tags,
    readings: Readings,
    lines: Seq<Seq<char>>,
    device: Seq<char>,
    kind: MotorType,
    index: u32,
)
    ensures
        setting_at(
            crate::command::settings_of(
                crate::command::follow(tags, readings, lines).devices,
                device,
            ),
            kind,
            index,
        ) matches Some(setting) ==> in_range(setting),
    decreases lines.len(),
{
    if lines.len() > 0 {
        law_settings_in_range(tags, readings, lines.drop_last(), device, kind, index);
        let line = lines.last();
        let tag = crate::command::tag_of(line);
        if tags.contains_key(tag) {
            lemma_asked_in_range(tags[tag].feature_type, line, readings);
        }
    }
}

/// Of several lines that speak to one motor, the last decides.
pub proof fn law_last_setting_wins(
    tags: Tags,
    readings: Readings,
    lines: Seq<Seq<char>>,
    i: int,
    device: Seq<char>,
    kind: MotorType,
    index: u32,
)
    requires
        crate::command::follow(tags, readings, lines).failure is None,
        0 <= i < lines.len(),
        speaks_to(tags, lines[i], device, kind, index),
        forall|j: int|
            i < j < lines.len() ==> !speaks_to(tags, #[trigger] lines[j], device, kind, index),
    ensures
        crate::command::follow(tags, readings, lines).devices.contains_key(device),
        crate::command::asked(kind, lines[i], readings) is Ok,
        setting_at(
            crate::command::follow(tags, readings, lines).devices[device],
            kind,
            index,
        ) == Some(crate::command::asked(kind, lines[i], readings)->Ok_0),
    decreases lines.len(),
{
    let line = lines.last();
    let tag = crate::command::tag_of(line);
    if tags.contains_key(tag) {
        lemma_asked_in_range(tags[tag].feature_type, line, readings);
    }
    if i < lines.len() - 1 {
        assert(lines.drop_last()[i] == lines[i]);
        assert forall|j: int| i < j < lines.drop_last().len() implies !speaks_to(
            tags,
            #[trigger] lines.drop_last()[j],
            device,
            kind,
            index,
        ) by {
            assert(lines.drop_last()[j] == lines[j]);
        }
        law_last_setting_wins(tags, readings, lines.drop_last(), i, device, kind, index);
        assert(!speaks_to(tags, lines[lines.len() - 1], device, kind, index));
    }
}

/// Nothing is asked of a motor to which no line speaks.
pub proof fn law_nothing_unasked(
    tags: Tags,
    readings: Readings,
    lines: Seq<Seq<char>>,
    device: Seq<char>,
    kind: MotorType,
    index: u32,
)
    requires
        forall|j: int|
            0 <= j < lines.len() ==> !speaks_to(tags, #[trigger] lines[j], device, kind, index),
    ensures
        setting_at(
            crate::command::settings_of(
                crate::command::follow(tags, readings, lines).devices,
                device,
            ),
            kind,
            index,
        ) is None,
        crate::command::follow(tags, readings, lines).devices.contains_key(device) ==> setting_at(
            crate::command::follow(tags, readings, lines).devices[device],
            kind,
            index,
        ) is None,
    decreases lines.len(),
{
    if lines.len() > 0 {
        assert forall|j: int| 0 <= j < lines.drop_last().len() implies !speaks_to(
            tags,
            #[trigger] lines.drop_last()[j],
            device,
            kind,
            index,
        ) by {
            assert(lines.drop_last()[j] == lines[j]);
        }
        law_nothing_unasked(tags, readings, lines.drop_last(), device, kind, index);
        let line = lines.last();
        let tag = crate::command::tag_of(line);
        assert(!speaks_to(tags, lines[lines.len() - 1], device, kind, index));
        if tags.contains_key(tag) {
            lemma_asked_in_range(tags[tag].feature_type, line, readings);
        }
    }
}

/// Whether a line names a known motor of a device.
pub open spec fn names_device(tags: Tags, line: Seq<char>, device: Seq<char>) -> bool {
    &&& tags.contains_key(crate::command::tag_of(line))
    &&& tags[crate::command::tag_of(line)].device_name == device
}

/// The devices of which something is asked are exactly those of which some line
/// names a known motor.
pub proof fn law_devices_are_the_named_ones(
    tags: Tags,
    readings: Readings,
    lines: Seq<Seq<char>>,
    device: Seq<char>,
)
    requires
        crate::command::follow(tags, readings, lines).failure is None,
    ensures
        crate::command::follow(tags, readings, lines).devices.contains_key(device) <==> exists|
            i: int,
        |
            0 <= i < lines.len() && names_device(tags, #[trigger] lines[i], device),
    decreases lines.len(),
{
    if lines.len() > 0 {
        let shorter = lines.drop_last();
        law_devices_are_the_named_ones(tags, readings, shorter, device);
        if exists|i: int| 0 <= i < shorter.len() && names_device(tags, #[trigger] shorter[i], device) {
            let i = choose|i: int|
                0 <= i < shorter.len() && names_device(tags, #[trigger] shorter[i], device);
            assert(names_device(tags, lines[i], device));
        }
        if exists|i: int| 0 <= i < lines.len() && names_device(tags, #[trigger] lines[i], device) {
            let i = choose|i: int|
                0 <= i < lines.len() && names_device(tags, #[trigger] lines[i], device);
            if i < shorter.len() {
                assert(names_device(tags, shorter[i], device));
            }
        }
        if names_device(tags, lines.last(), device) {
            assert(names_device(tags, lines[lines.len() - 1], device));
        }
    }
}

/// The progress after some more lines.
pub open spec fn follow_on(
    progress: Progress,
    tags: Tags,
    readings: Readings,
    lines: Seq<Seq<char>>,
) -> Progress
    decreases lines.len(),
{
    if lines.len() == 0 {
        progress
    } else {
        follow_on(progress, tags, readings, lines.drop_last()).step(tags, readings, lines.last())
    }
}

/// Following some lines and then some more is following all of them.
proof fn lemma_follow_on(
    tags: Tags,
    readings: Readings,
    first: Seq<Seq<char>>,
    more: Seq<Seq<char>>,
)
    ensures
        crate::command::follow(tags, readings, first + more) == follow_on(
            crate::command::follow(tags, readings, first),
            tags,
            readings,
            more,
        ),
    decreases more.len(),
{
    if more.len() == 0 {
        assert(first + more =~= first);
    } else {
        assert((first + more).drop_last() =~= first + more.drop_last());
        lemma_follow_on(tags, readings, first, more.drop_last());
    }
}

/// A line with an unknown tag is passed over: with it or without it, the same is
/// asked of each device, and the same line fails, if one does.
pub proof fn law_unknown_tag_is_passed_over(
    tags: Tags,
    readings: Readings,
    first: Seq<Seq<char>>,
    line: Seq<char>,
    more: Seq<Seq<char>>,
)
    requires
        !tags.contains_key(crate::command::tag_of(line)),
    ensures
        crate::command::follow(tags, readings, first.push(line) + more).devices
            == crate::command::follow(tags, readings, first + more).devices,
        crate::command::follow(tags, readings, first.push(line) + more).failure
            == crate::command::follow(tags, readings, first + more).failure,
    decreases more.len(),
{
    if more.len() == 0 {
        assert(first.push(line) + more =~= first.push(line));
        assert(first + more =~= first);
        assert(first.push(line).drop_last() =~= first);
    } else {
        assert((first.push(line) + more).drop_last() =~= first.push(line) + more.drop_last());
        assert((first + more).drop_last() =~= first + more.drop_last());
        law_unknown_tag_is_passed_over(tags, readings, first, line, more.drop_last());
    }
}

/// Two commands can be strung together with `;`: what the second says is followed
/// after what the first says. Where the first is empty or ends in `;`, stringing
/// makes an empty line; if no motor has the empty tag, that line is passed over, so
/// that the same is asked of each device, and the same line fails, if one does.
pub proof fn law_commands_can_be_strung(
    tags: Tags,
    readings: Readings,
    first: Seq<char>,
    second: Seq<char>,
)
    ensures
        ({
            let strung = crate::command::follow(
                tags,
                readings,
                crate::command::lines_of(first.push(';') + second),
            );
            let apart = follow_on(
                crate::command::follow(tags, readings, crate::command::lines_of(first)),
                tags,
                readings,
                crate::command::lines_of(second),
            );
            &&& first.len() > 0 && first.last() != ';' ==> strung == apart
            &&& !tags.contains_key(Seq::<char>::empty()) ==> strung.devices == apart.devices
                && strung.failure == apart.failure
        }),
{
    let nothing = Seq::<char>::empty();
    let pieces = crate::text::split(first, ';');
    let a = crate::command::lines_of(first);
    let b = crate::command::lines_of(second);
    crate::text::lemma_split_not_empty(first, ';');
    crate::text::lemma_split_not_empty(second, ';');
    crate::text::lemma_split_of_joined(first, second, ';');
    assert(crate::command::lines_of(first.push(';') + second) =~= pieces + b);
    lemma_follow_on(tags, readings, a, b);
    if first.len() > 0 && first.last() != ';' {
        crate::text::lemma_split_not_empty(first.drop_last(), ';');
        assert(a == pieces);
    }
    if !tags.contains_key(nothing) && pieces.last().len() == 0 {
        assert(pieces.last() =~= nothing);
        assert(pieces =~= a.push(nothing));
        assert(crate::command::tag_of(nothing) =~= nothing);
        law_unknown_tag_is_passed_over(tags, readings, a, nothing, b);
    }
}

/// A `;` behind the last line changes nothing. Behind an empty command, or one that
/// ends in `;`, it makes an empty line; if no motor has the empty tag, that line is
/// passed over.
pub proof fn law_final_semicolon_is_optional(tags: Tags, readings: Readings, command: Seq<char>)
    ensures
        ({
            let ended = crate::command::follow(
                tags,
                readings,
                crate::command::lines_of(command.push(';')),
            );
            let plain = crate::command::follow(tags, readings, crate::command::lines_of(command));
            &&& command.len() > 0 && command.last() != ';' ==> ended == plain
            &&& !tags.contains_key(Seq::<char>::empty()) ==> ended.devices == plain.devices
                && ended.failure == plain.failure
        }),
{
    let nothing = Seq::<char>::empty();
    assert(command.push(';') + nothing =~= command.push(';'));
    assert(crate::command::lines_of(nothing).len() == 0);
    law_commands_can_be_strung(tags, readings, command, nothing);
}

/// The empty command asks nothing.
pub proof fn law_empty_command_asks_nothing(tags: Tags, readings: Readings)
    ensures
        crate::command::follow(
            tags,
            readings,
            crate::command::lines_of(Seq::<char>::empty()),
        ) == Progress::start(),
{
}

/// What was read from a field counts only where the field is one of those that
/// have to be read.
pub proof fn law_only_number_fields_count(
    tags: Tags,
    lines: Seq<Seq<char>>,
    some: Readings,
    other: Readings,
)
    requires
        forall|i: int|
            0 <= i < crate::command::number_texts(tags, lines).len() ==> some[
                #[trigger] crate::command::number_texts(tags, lines)[i]
            ] == other[crate::command::number_texts(tags, lines)[i]],
    ensures
        crate::command::follow(tags, some, lines) == crate::command::follow(tags, other, lines),
    decreases lines.len(),
{
    if lines.len() > 0 {
        let line = lines.last();
        let tag = crate::command::tag_of(line);
        let before = crate::command::number_texts(tags, lines.drop_last());
        let all = crate::command::number_texts(tags, lines);
        assert forall|i: int| 0 <= i < before.len() implies some[#[trigger] before[i]]
            == other[before[i]] by {
            assert(all[i] == before[i]);
        }
        law_only_number_fields_count(tags, lines.drop_last(), some, other);
        if tags.contains_key(tag) {
            let kind = tags[tag].feature_type;
            if crate::command::number_text(kind, line) is Some {
                assert(all[before.len() as int] == crate::command::number_text(kind, line)->0);
            }
            assert(crate::command::asked(kind, line, some) == crate::command::asked(
                kind,
                line,
                other,
            ));
        }
    }
}

/// Opposite speeds turn opposite ways, equally fast.
pub proof fn law_opposite_speed_turns_back(number: Number)
    requires
        !number.spec_is_nan(),
        number.rank() != 0,
    ensures
        crate::command::turn(number) matches Setting::Rotation(speed, clockwise)
            && crate::command::turn(number.opposite()) == Setting::Rotation(speed, !clockwise),
{
}

/// A command is read line by line: each line reaches to the next `;`, or to the end
/// of the command if something is left there.
pub proof fn law_lines_of_a_command(line: Seq<char>, more: Seq<char>)
    requires
        !line.contains(';'),
    ensures
        line.len() == 0 ==> crate::command::lines_of(line).len() == 0,
        line.len() > 0 ==> crate::command::lines_of(line) == seq![line],
        crate::command::lines_of(line.push(';') + more) == seq![line] + crate::command::lines_of(
            more,
        ),
{
    crate::text::law_lines_end_at_separators(line, more, ';');
}

/// A line is read field by field: each field reaches to the next `:` or to the end of
/// the line, and the first one is the tag.
pub proof fn law_fields_of_a_line(field: Seq<char>, more: Seq<char>)
    requires
        !field.contains(':'),
    ensures
        crate::command::fields_of(field) == seq![field],
        crate::command::fields_of(field.push(':') + more) == seq![field]
            + crate::command::fields_of(more),
        crate::command::tag_of(field) == field,
        crate::command::tag_of(field.push(':') + more) == field,
{
    crate::text::law_split_at_first_separator(field, more, ':');
    crate::text::lemma_split_not_empty(more, ':');
}

/// A line for a vibrating motor asks for the strength in its second field as it is,
/// if that lies between 0 and 1. Below 0 it asks for 0, above 1 for 1, and what is
/// not a number stays so.
pub proof fn law_strength_is_asked(line: Seq<char>, readings: Readings, x: Number)
    requires
        crate::command::fields_of(line).len() >= 2,
        readings[crate::command::fields_of(line)[1]] == ReadingView::Value(x),
    ensures
        crate::command::asked(MotorType::Vibration, line, readings) matches Ok(
            Setting::Speed(strength),
        ) && (if x.spec_is_nan() {
            strength == x
        } else if x.rank() < 0 {
            strength.bits == 0
        } else if x.rank() > 0x3ff0_0000_0000_0000 {
            strength.bits == 0x3ff0_0000_0000_0000
        } else {
            strength == x
        }),
{
}

/// A line for a linear motor asks for the time in its second field, whatever it is,
/// and for the position in its third field as it is, if that lies between 0 and 1.
/// Below 0 it asks for 0, above 1 for 1, and what is not a number stays so.
pub proof fn law_position_is_asked(line: Seq<char>, readings: Readings, duration: u32, x: Number)
    requires
        crate::command::fields_of(line).len() >= 3,
        crate::integer::u32_reading(crate::command::fields_of(line)[1]) == Ok::<u32, Seq<char>>(
            duration,
        ),
        readings[crate::command::fields_of(line)[2]] == ReadingView::Value(x),
    ensures
        crate::command::asked(MotorType::Linear, line, readings) matches Ok(
            Setting::Position(time, position),
        ) && time == duration && (if x.spec_is_nan() {
            position == x
        } else if x.rank() < 0 {
            position.bits == 0
        } else if x.rank() > 0x3ff0_0000_0000_0000 {
            position.bits == 0x3ff0_0000_0000_0000
        } else {
            position == x
        }),
{
}

/// A line for a turning motor asks for the speed in its second field. From 0 to 1 it
/// is turned clockwise with that speed, from -1 to below 0 the other way with the
/// opposite speed, and beyond 1 on either side with speed 1. What is not a number
/// turns the other way and only changes its sign.
pub proof fn law_turn_is_asked(line: Seq<char>, readings: Readings, x: Number)
    requires
        crate::command::fields_of(line).len() >= 2,
        readings[crate::command::fields_of(line)[1]] == ReadingView::Value(x),
    ensures
        crate::command::asked(MotorType::Rotation, line, readings) matches Ok(
            Setting::Rotation(speed, clockwise),
        ) && (if x.spec_is_nan() {
            !clockwise && speed.spec_is_nan() && speed == x.opposite()
        } else if x.rank() > 0x3ff0_0000_0000_0000 {
            clockwise && speed.bits == 0x3ff0_0000_0000_0000
        } else if x.rank() >= 0 {
            clockwise && speed == x
        } else if x.rank() >= -0x3ff0_0000_0000_0000 {
            !clockwise && speed.rank() == -x.rank() && speed == x.opposite()
        } else {
            !clockwise && speed.bits == 0x3ff0_0000_0000_0000
        }),
{
}

/// A line for a contraction asks for the level in its second field, and for 3 if that
/// is more than 3.
pub proof fn law_contraction_is_asked(line: Seq<char>, readings: Readings, value: u8)
    requires
        crate::command::fields_of(line).len() >= 2,
        crate::integer::u8_reading(crate::command::fields_of(line)[1]) == Ok::<u8, Seq<char>>(
            value,
        ),
    ensures
        crate::command::asked(MotorType::Contraction, line, readings) matches Ok(
            Setting::Contraction(level),
        ) && level <= value && level <= 3 && (level == value || level == 3),
{
}

/// A line that has only a tag is not understood, and the message names what is missing
/// and shows the line. So it is with a line for a linear motor that lacks the position
/// and has a time that can be read.
pub proof fn law_missing_field_is_named(kind: MotorType, line: Seq<char>, readings: Readings)
    ensures
        crate::command::fields_of(line).len() == 1 ==> crate::command::asked(kind, line, readings)
            == Err::<Setting, Seq<char>>(
            (match kind {
                MotorType::Vibration => "could not extract motor intensity from "@,
                MotorType::Linear => "could not extract motor duration from "@,
                MotorType::Rotation => "could not extract motor speed from "@,
                MotorType::Contraction => "could not extract motor speed from "@,
            }) + line,
        ),
        crate::command::fields_of(line).len() == 2 && kind == MotorType::Linear
            && crate::integer::u32_reading(crate::command::fields_of(line)[1]) is Ok
            ==> crate::command::asked(kind, line, readings) == Err::<Setting, Seq<char>>(
            "could not extract motor position from "@ + line,
        ),
{
    reveal_strlit("could not extract motor ");
    reveal_strlit(" from ");
    reveal_strlit("intensity");
    reveal_strlit("duration");
    reveal_strlit("position");
    reveal_strlit("speed");
    reveal_strlit("could not extract motor intensity from ");
    reveal_strlit("could not extract motor duration from ");
    reveal_strlit("could not extract motor position from ");
    reveal_strlit("could not extract motor speed from ");
    assert(crate::command::lacks("intensity"@, line)
        =~= "could not extract motor intensity from "@ + line);
    assert(crate::command::lacks("duration"@, line) =~= "could not extract motor duration from "@
        + line);
    assert(crate::command::lacks("position"@, line) =~= "could not extract motor position from "@
        + line);
    assert(crate::command::lacks("speed"@, line) =~= "could not extract motor speed from "@ + line);
}

/// A line whose decimal fraction cannot be read is not understood, and the message
/// names the field, shows it and tells the error.
pub proof fn law_unreadable_fraction_is_named(
    kind: MotorType,
    line: Seq<char>,
    readings: Readings,
    error: Seq<char>,
)
    ensures
        ({
            let fields = crate::command::fields_of(line);
            &&& kind == MotorType::Vibration && fields.len() >= 2 && readings[fields[1]]
                == ReadingView::Invalid(error) ==> crate::command::asked(kind, line, readings)
                == Err::<Setting, Seq<char>>(
                "could not parse motor intensity from "@ + fields[1] + ": "@ + error,
            )
            &&& kind == MotorType::Rotation && fields.len() >= 2 && readings[fields[1]]
                == ReadingView::Invalid(error) ==> crate::command::asked(kind, line, readings)
                == Err::<Setting, Seq<char>>(
                "could not parse motor speed from "@ + fields[1] + ": "@ + error,
            )
            &&& kind == MotorType::Linear && fields.len() >= 3 && crate::integer::u32_reading(
                fields[1],
            ) is Ok && readings[fields[2]] == ReadingView::Invalid(error) ==> crate::command::asked(
                kind,
                line,
                readings,
            ) == Err::<Setting, Seq<char>>(
                "could not parse motor position from "@ + fields[2] + ": "@ + error,
            )
        }),
{
    let fields = crate::command::fields_of(line);
    reveal_strlit("could not parse motor ");
    reveal_strlit(" from ");
    reveal_strlit("intensity");
    reveal_strlit("position");
    reveal_strlit("speed");
    reveal_strlit("could not parse motor intensity from ");
    reveal_strlit("could not parse motor position from ");
    reveal_strlit("could not parse motor speed from ");
    assert(crate::command::misreads("intensity"@, fields[1], error)
        =~= "could not parse motor intensity from "@ + fields[1] + ": "@ + error);
    assert(crate::command::misreads("speed"@, fields[1], error)
        =~= "could not parse motor speed from "@ + fields[1] + ": "@ + error);
    assert(crate::command::misreads("position"@, fields[2], error)
        =~= "could not parse motor position from "@ + fields[2] + ": "@ + error);
}

/// A line whose whole number cannot be read is not understood, whatever else it says,
/// and the message names the field, shows it and tells the error.
pub proof fn law_unreadable_whole_number_is_named(
    kind: MotorType,
    line: Seq<char>,
    readings: Readings,
    error: Seq<char>,
)
    ensures
        ({
            let fields = crate::command::fields_of(line);
            &&& kind == MotorType::Linear && fields.len() >= 2 && crate::integer::u32_reading(
                fields[1],
            ) == Err::<u32, Seq<char>>(error) ==> crate::command::asked(kind, line, readings)
                == Err::<Setting, Seq<char>>(
                "could not parse motor duration from "@ + fields[1] + ": "@ + error,
            )
            &&& kind == MotorType::Contraction && fields.len() >= 2 && crate::integer::u8_reading(
                fields[1],
            ) == Err::<u8, Seq<char>>(error) ==> crate::command::asked(kind, line, readings)
                == Err::<Setting, Seq<char>>(
                "could not parse motor contraction from "@ + fields[1] + ": "@ + error,
            )
        }),
{
    let fields = crate::command::fields_of(line);
    reveal_strlit("could not parse motor ");
    reveal_strlit(" from ");
    reveal_strlit("duration");
    reveal_strlit("contraction");
    reveal_strlit("could not parse motor duration from ");
    reveal_strlit("could not parse motor contraction from ");
    assert(crate::command::misreads("duration"@, fields[1], error)
        =~= "could not parse motor duration from "@ + fields[1] + ": "@ + error);
    assert(crate::command::misreads("contraction"@, fields[1], error)
        =~= "could not parse motor contraction from "@ + fields[1] + ": "@ + error);
}

/// A command fails exactly if some line with a known tag is not understood, and then
/// with the message of the first such line.
#[verifier::rlimit(50)]
pub proof fn law_failure_is_that_of_the_first_bad_line(
    tags: Tags,
    readings: Readings,
    lines: Seq<Seq<char>>,
    message: Seq<char>,
)
    ensures
        crate::command::follow(tags, readings, lines).failure == Some(message) <==> exists|i: int|
            {
                &&& 0 <= i < lines.len()
                &&& tags.contains_key(crate::command::tag_of(#[trigger] lines[i]))
                &&& crate::command::asked(
                    tags[crate::command::tag_of(lines[i])].feature_type,
                    lines[i],
                    readings,
                ) == Err::<Setting, Seq<char>>(message)
                &&& forall|j: int|
                    0 <= j < i && tags.contains_key(crate::command::tag_of(#[trigger] lines[j]))
                        ==> crate::command::asked(
                        tags[crate::command::tag_of(lines[j])].feature_type,
                        lines[j],
                        readings,
                    ) is Ok
            },
        crate::command::follow(tags, readings, lines).failure is None <==> forall|j: int|
            0 <= j < lines.len() && tags.contains_key(crate::command::tag_of(#[trigger] lines[j]))
                ==> crate::command::asked(
                tags[crate::command::tag_of(lines[j])].feature_type,
                lines[j],
                readings,
            ) is Ok,
    decreases lines.len(),
{
    if lines.len() > 0 {
        let shorter = lines.drop_last();
        law_failure_is_that_of_the_first_bad_line(tags, readings, shorter, message);
        assert forall|i: int| 0 <= i < shorter.len() implies #[trigger] shorter[i] == lines[i] by {
        }
        assert(forall|i: int| 0 <= i < shorter.len() ==> #[trigger] lines[i] == shorter[i]);
        assert(lines[lines.len() - 1] == lines.last());
    }
}

/// The unknown tags are told in the order of their lines, each as often as it comes:
/// one more line adds its tag at the end if that is unknown, and otherwise nothing.
/// Behind a line that was not understood none are told.
pub proof fn law_unknown_tags_are_told(
    tags: Tags,
    readings: Readings,
    lines: Seq<Seq<char>>,
    line: Seq<char>,
)
    ensures
        ({
            let before = crate::command::follow(tags, readings, lines);
            let after = crate::command::follow(tags, readings, lines.push(line));
            &&& before.failure is None && !tags.contains_key(crate::command::tag_of(line))
                ==> after.ignored == before.ignored.push(crate::command::tag_of(line))
            &&& before.failure is Some || tags.contains_key(crate::command::tag_of(line))
                ==> after.ignored == before.ignored
            &&& lines.len() == 0 ==> before.ignored.len() == 0
        }),
{
    assert(lines.push(line).drop_last() =~= lines);
}

/// Which fields have to be read as decimal fractions: the second one of a line for a
/// vibrating or turning motor and the third one of a line for a linear motor, where
/// there is one, in the order of the lines.
pub proof fn law_fractions_to_read(tags: Tags, lines: Seq<Seq<char>>, line: Seq<char>)
    ensures
        ({
            let before = crate::command::number_texts(tags, lines);
            let after = crate::command::number_texts(tags, lines.push(line));
            let fields = crate::command::fields_of(line);
            let tag = crate::command::tag_of(line);
            &&& lines.len() == 0 ==> before.len() == 0
            &&& tags.contains_key(tag) && (tags[tag].feature_type == MotorType::Vibration
                || tags[tag].feature_type == MotorType::Rotation) && fields.len() >= 2 ==> after
                == before.push(fields[1])
            &&& tags.contains_key(tag) && tags[tag].feature_type == MotorType::Linear
                && fields.len() >= 3 ==> after == before.push(fields[2])
            &&& !tags.contains_key(tag) || tags[tag].feature_type == MotorType::Contraction
                || fields.len() < 2 || (tags[tag].feature_type == MotorType::Linear && fields.len()
                < 3) ==> after == before
        }),
{
    assert(lines.push(line).drop_last() =~= lines);
}

/// A command is ready to be followed exactly if each field that has to be read was
/// read.
pub proof fn law_ready_when_all_is_read(
    tags: Tags,
    lines: Seq<Seq<char>>,
    readings: Readings,
)
    ensures
        crate::command::all_read(tags, lines, readings) <==> forall|text: Seq<char>|
            crate::command::number_texts(tags, lines).contains(text)
                ==> #[trigger] readings.contains_key(text),
{
    let texts = crate::command::number_texts(tags, lines);
    if crate::command::all_read(tags, lines, readings) {
        assert forall|text: Seq<char>| texts.contains(text) implies #[trigger]
            readings.contains_key(text) by {
            assert(texts[texts.index_of(text)] == text);
        }
    } else {
        let i = choose|i: int|
            0 <= i < texts.len() && !readings.contains_key(#[trigger] texts[i]);
        assert(texts.contains(texts[i]));
    }
}

/// What a report says of a command: the tags that were passed over, and what is asked
/// of each device or why the command was not understood.
pub proof fn law_report_tells_progress(
    report: CommandReport,
    progress: Progress,
)
    requires
        report.tells(progress),
    ensures
        report.ignored@.len() == progress.ignored.len(),
        forall|i: int|
            0 <= i < report.ignored@.len() ==> (#[trigger] report.ignored@[i])@
                == progress.ignored[i],
        report.outcome is Ok <==> progress.failure is None,
        report.outcome matches Ok(devices) ==> devices@ == progress.devices,
        report.outcome matches Err(message) ==> progress.failure == Some(message@),
{
    assert forall|i: int| 0 <= i < report.ignored@.len() implies (#[trigger] report.ignored@[i])@
        == progress.ignored[i] by {
        assert(crate::sorting::views_of(report.ignored@)[i] == report.ignored@[i]@);
    }
}

} // verus!
