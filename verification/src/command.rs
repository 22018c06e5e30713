//! The command language of the haptic endpoint.
//!
//! A command is a list of lines, each ended by `;`. A line holds fields, parted
//! by `:`. The first field is a tag; the configuration says which motor it
//! names, and the kind of the motor says what the further fields mean:
//!
//! * vibration: a strength from 0 to 1;
//! * linear: a duration in milliseconds and a position from 0 to 1;
//! * rotation: a speed from -1 to 1, whose sign gives the direction;
//! * contraction: a level from 0 to 3.
//!
//! A line with an unknown tag is passed over. The first line that cannot be
//! understood makes the whole command fail.
//!
//! Strengths, positions and speeds are decimal fractions. They are read outside
//! this crate: [`number_fields`] lists the fields to read, and
//! [`build_vibration_map`] is given what was read.
use crate::configuration::Configuration;
use crate::integer::{parse_u32, parse_u8};
use crate::motor::{Motor, MotorType, MotorView};
use crate::named_map::NamedMap;
use crate::number::Number;
use crate::settings::{MotorSettings, Setting, SettingsView};
use crate::text::{split_terminated, split_text};
use vstd::prelude::*;

verus! {

/// What came of reading a field as a decimal fraction: the number, or a
/// description of the error.
#[derive(Debug, PartialEq)]
pub enum Reading {
    Value(Number),
    Invalid(String),
}

/// What came of reading a field as a decimal fraction.
pub enum ReadingView {
    Value(Number),
    Invalid(Seq<char>),
}

impl View for Reading {
    type V = ReadingView;

    open spec fn view(&self) -> ReadingView {
        match self {
            Reading::Value(number) => ReadingView::Value(*number),
            Reading::Invalid(error) => ReadingView::Invalid(error@),
        }
    }
}

/// The motor of each tag.
pub type Tags = Map<Seq<char>, MotorView>;

/// What was read from each field.
pub type Readings = Map<Seq<char>, ReadingView>;

/// The lines of a command.
pub open spec fn lines_of(command: Seq<char>) -> Seq<Seq<char>> {
    crate::text::split_terminator(command, ';')
}

/// The fields of a line.
pub open spec fn fields_of(line: Seq<char>) -> Seq<Seq<char>> {
    crate::text::split(line, ':')
}

/// The tag of a line.
pub open spec fn tag_of(line: Seq<char>) -> Seq<char> {
    fields_of(line)[0]
}

/// The message for a line that lacks a field.
pub open spec fn lacks(what: Seq<char>, line: Seq<char>) -> Seq<char> {
    "could not extract motor "@ + what + " from "@ + line
}

/// The message for a field that cannot be read.
pub open spec fn misreads(what: Seq<char>, field: Seq<char>, error: Seq<char>) -> Seq<char> {
    "could not parse motor "@ + what + " from "@ + field + ": "@ + error
}

/// The message for a line that lacks a field.
pub fn lacks_message(what: &str, line: &str) -> (message: String)
    ensures
        message@ == lacks(what@, line@),
{
    let mut message = "could not extract motor ".to_owned();
    message.append(what);
    message.append(" from ");
    message.append(line);
    message
}

/// The message for a field that cannot be read.
pub fn misreads_message(what: &str, field: &str, error: &str) -> (message: String)
    ensures
        message@ == misreads(what@, field@, error@),
{
    let mut message = "could not parse motor ".to_owned();
    message.append(what);
    message.append(" from ");
    message.append(field);
    message.append(": ");
    message.append(error);
    message
}

/// Strengths and positions go from 0 to 1.
pub open spec fn unit(number: Number) -> Number {
    number.clamped(Number::spec_zero(), Number::spec_one())
}

/// Whether a turn is clockwise: its speed is a number and not below 0.
pub open spec fn clockwise(number: Number) -> bool {
    !number.spec_is_nan() && number.rank() >= 0
}

/// A turn: speeds go from -1 to 1, and the sign becomes the direction.
pub open spec fn turn(number: Number) -> Setting {
    let speed = number.clamped(Number::spec_one().opposite(), Number::spec_one());
    if clockwise(speed) {
        Setting::Rotation(speed, true)
    } else {
        Setting::Rotation(speed.opposite(), false)
    }
}

/// Contraction levels go from 0 to 3.
pub open spec fn level(value: u8) -> u8 {
    if value > 3 {
        3
    } else {
        value
    }
}

/// The field of a line that holds a decimal fraction, by the kind of its motor.
pub open spec fn number_text(kind: MotorType, line: Seq<char>) -> Option<Seq<char>> {
    let fields = fields_of(line);
    match kind {
        MotorType::Vibration | MotorType::Rotation => if fields.len() > 1 {
            Some(fields[1])
        } else {
            None
        },
        MotorType::Linear => if fields.len() > 2 {
            Some(fields[2])
        } else {
            None
        },
        MotorType::Contraction => None,
    }
}

/// The fields of some lines that hold decimal fractions, in order.
pub open spec fn number_texts(tags: Tags, lines: Seq<Seq<char>>) -> Seq<Seq<char>>
    decreases lines.len(),
{
    if lines.len() == 0 {
        Seq::empty()
    } else {
        let before = number_texts(tags, lines.drop_last());
        let line = lines.last();
        if tags.contains_key(tag_of(line)) {
            match number_text(tags[tag_of(line)].feature_type, line) {
                Some(text) => before.push(text),
                None => before,
            }
        } else {
            before
        }
    }
}

/// Whether all decimal fractions of some lines have been read.
pub open spec fn all_read(tags: Tags, lines: Seq<Seq<char>>, readings: Readings) -> bool {
    forall|i: int|
        0 <= i < number_texts(tags, lines).len() ==> readings.contains_key(
            #[trigger] number_texts(tags, lines)[i],
        )
}

/// What a line asks of a motor of some kind, or why it cannot be understood.
pub open spec fn asked(kind: MotorType, line: Seq<char>, readings: Readings) -> Result<
    Setting,
    Seq<char>,
> {
    let fields = fields_of(line);
    match kind {
        MotorType::Vibration => if fields.len() < 2 {
            Err(lacks("intensity"@, line))
        } else {
            match readings[fields[1]] {
                ReadingView::Value(number) => Ok(Setting::Speed(unit(number))),
                ReadingView::Invalid(error) => Err(misreads("intensity"@, fields[1], error)),
            }
        },
        MotorType::Linear => if fields.len() < 2 {
            Err(lacks("duration"@, line))
        } else {
            match crate::integer::u32_reading(fields[1]) {
                Ok(duration) => if fields.len() < 3 {
                    Err(lacks("position"@, line))
                } else {
                    match readings[fields[2]] {
                        ReadingView::Value(number) => Ok(
                            Setting::Position(duration, unit(number)),
                        ),
                        ReadingView::Invalid(error) => Err(
                            misreads("position"@, fields[2], error),
                        ),
                    }
                },
                Err(error) => Err(misreads("duration"@, fields[1], error)),
            }
        },
        MotorType::Rotation => if fields.len() < 2 {
            Err(lacks("speed"@, line))
        } else {
            match readings[fields[1]] {
                ReadingView::Value(number) => Ok(turn(number)),
                ReadingView::Invalid(error) => Err(misreads("speed"@, fields[1], error)),
            }
        },
        MotorType::Contraction => if fields.len() < 2 {
            Err(lacks("speed"@, line))
        } else {
            match crate::integer::u8_reading(fields[1]) {
                Ok(value) => Ok(Setting::Contraction(level(value))),
                Err(error) => Err(misreads("contraction"@, fields[1], error)),
            }
        },
    }
}

/// How far a command has been followed: what is asked of each device so far,
/// the unknown tags met so far, and the message of the line that failed.
#[verifier::ext_equal]
pub struct Progress {
    pub devices: Map<Seq<char>, SettingsView>,
    pub ignored: Seq<Seq<char>>,
    pub failure: Option<Seq<char>>,
}

/// What is asked of a device so far.
pub open spec fn settings_of(
    devices: Map<Seq<char>, SettingsView>,
    device: Seq<char>,
) -> SettingsView {
    if devices.contains_key(device) {
        devices[device]
    } else {
        SettingsView::nothing()
    }
}

impl Progress {
    /// Nothing has been followed yet.
    pub open spec fn start() -> Progress {
        Progress { devices: Map::empty(), ignored: Seq::empty(), failure: None }
    }

    /// The progress after one more line. After a failure nothing is followed.
    pub open spec fn step(self, tags: Tags, readings: Readings, line: Seq<char>) -> Progress {
        let tag = tag_of(line);
        if self.failure is Some {
            self
        } else if !tags.contains_key(tag) {
            Progress { ignored: self.ignored.push(tag), ..self }
        } else {
            let motor = tags[tag];
            match asked(motor.feature_type, line, readings) {
                Ok(setting) => Progress {
                    devices: self.devices.insert(
                        motor.device_name,
                        settings_of(self.devices, motor.device_name).with(
                            motor.feature_index,
                            setting,
                        ),
                    ),
                    ..self
                },
                Err(message) => Progress { failure: Some(message), ..self },
            }
        }
    }
}

/// The progress after some lines, from the first to the last.
pub open spec fn follow(tags: Tags, readings: Readings, lines: Seq<Seq<char>>) -> Progress
    decreases lines.len(),
{
    if lines.len() == 0 {
        Progress::start()
    } else {
        follow(tags, readings, lines.drop_last()).step(tags, readings, lines.last())
    }
}

/// The decimal fraction of one line is among those of all lines.
proof fn lemma_number_text_listed(tags: Tags, lines: Seq<Seq<char>>, i: int)
    requires
        0 <= i < lines.len(),
        tags.contains_key(tag_of(lines[i])),
        number_text(tags[tag_of(lines[i])].feature_type, lines[i]) is Some,
    ensures
        number_texts(tags, lines).contains(
            number_text(tags[tag_of(lines[i])].feature_type, lines[i])->0,
        ),
    decreases lines.len(),
{
    let before = number_texts(tags, lines.drop_last());
    let all = number_texts(tags, lines);
    let text = number_text(tags[tag_of(lines[i])].feature_type, lines[i])->0;
    if i == lines.len() - 1 {
        assert(all == before.push(text));
        assert(all[before.len() as int] == text);
    } else {
        lemma_number_text_listed(tags, lines.drop_last(), i);
        let k = before.index_of(text);
        assert(before[k] == text);
        assert(all[k] == text);
    }
}

/// Once a line has failed, the lines behind it change nothing.
pub proof fn law_first_failure_decides(
    tags: Tags,
    readings: Readings,
    lines: Seq<Seq<char>>,
    count: int,
)
    requires
        0 <= count <= lines.len(),
        follow(tags, readings, lines.take(count)).failure is Some,
    ensures
        follow(tags, readings, lines) == follow(tags, readings, lines.take(count)),
    decreases lines.len(),
{
    if count == lines.len() {
        assert(lines.take(count) =~= lines);
    } else {
        assert(lines.drop_last().take(count) =~= lines.take(count));
        law_first_failure_decides(tags, readings, lines.drop_last(), count);
    }
}

/// The fields of a command that hold decimal fractions, in order. Each has to be
/// read before the command can be followed.
pub fn number_fields(configuration: &Configuration, command: &str) -> (fields: Vec<String>)
    ensures
        crate::sorting::views_of(fields@) == number_texts(
            configuration@.tag_map(),
            lines_of(command@),
        ),
{
    let mut found: Vec<String> = Vec::new();
    let lines = split_terminated(command, ';');
    let ghost all = lines_of(command@);
    let ghost tags = configuration@.tag_map();
    let mut i: usize = 0;
    assert(crate::sorting::views_of(found@) =~= number_texts(tags, all.take(0)));
    while i < lines.len()
        invariant
            i <= lines.len(),
            crate::text::views(lines@) == all,
            tags == configuration@.tag_map(),
            crate::sorting::views_of(found@) == number_texts(tags, all.take(i as int)),
        decreases lines.len() - i,
    {
        let line: &str = lines[i];
        let fields = split_text(line, ':');
        let ghost before = crate::sorting::views_of(found@);
        proof {
            assert(all[i as int] == line@);
            assert(all.take(i + 1).drop_last() =~= all.take(i as int));
            assert(all.take(i + 1).last() == line@);
            crate::text::lemma_split_not_empty(line@, ':');
            assert forall|k: int| 0 <= k < fields@.len() implies (#[trigger] fields@[k])@
                == fields_of(line@)[k] by {
                assert(crate::text::views(fields@)[k] == fields@[k]@);
            }
            assert(fields@.len() == fields_of(line@).len());
        }
        match configuration.motor_from_tag(fields[0]) {
            Some(motor) => {
                let place: usize = match motor.feature_type {
                    MotorType::Vibration => 1,
                    MotorType::Rotation => 1,
                    MotorType::Linear => 2,
                    MotorType::Contraction => fields.len(),
                };
                if place < fields.len() {
                    let field = fields[place].to_owned();
                    found.push(field);
                    assert(crate::sorting::views_of(found@) =~= before.push(field@));
                }
            },
            None => {},
        }
        i = i + 1;
    }
    assert(all.take(i as int) =~= all);
    found
}

/// Whether all decimal fractions of a command have been read, so that it can be
/// followed.
pub fn numbers_are_read(
    configuration: &Configuration,
    command: &str,
    readings: &NamedMap<Reading>,
) -> (result: bool)
    ensures
        result == all_read(configuration@.tag_map(), lines_of(command@), readings@),
{
    let fields = number_fields(configuration, command);
    let ghost texts = number_texts(configuration@.tag_map(), lines_of(command@));
    let mut i: usize = 0;
    while i < fields.len()
        invariant
            i <= fields.len(),
            texts == number_texts(configuration@.tag_map(), lines_of(command@)),
            crate::sorting::views_of(fields@) == texts,
            forall|j: int| 0 <= j < i ==> readings@.contains_key(#[trigger] texts[j]),
        decreases fields.len() - i,
    {
        assert(texts[i as int] == fields@[i as int]@);
        if readings.get(fields[i].as_str()).is_none() {
            return false;
        }
        i = i + 1;
    }
    true
}

/// What a line asks of a motor.
fn read_line(
    kind: MotorType,
    line: &str,
    fields: &Vec<&str>,
    readings: &NamedMap<Reading>,
) -> (result: Result<Setting, String>)
    requires
        crate::text::views(fields@) == fields_of(line@),
        number_text(kind, line@) is Some ==> readings@.contains_key(number_text(kind, line@)->0),
    ensures
        match result {
            Ok(setting) => asked(kind, line@, readings@) == Ok::<Setting, Seq<char>>(setting),
            Err(message) => asked(kind, line@, readings@) == Err::<Setting, Seq<char>>(message@),
        },
{
    proof {
        assert forall|k: int| 0 <= k < fields@.len() implies (#[trigger] fields@[k])@ == fields_of(
            line@,
        )[k] by {
            assert(crate::text::views(fields@)[k] == fields@[k]@);
        }
        assert(fields@.len() == fields_of(line@).len());
    }
    match kind {
        MotorType::Vibration => {
            if fields.len() < 2 {
                return Err(lacks_message("intensity", line));
            }
            match readings.get(fields[1]).unwrap() {
                Reading::Value(number) => Ok(
                    Setting::Speed(number.clamp_between(Number::zero(), Number::one())),
                ),
                Reading::Invalid(error) => Err(
                    misreads_message("intensity", fields[1], error.as_str()),
                ),
            }
        },
        MotorType::Linear => {
            if fields.len() < 2 {
                return Err(lacks_message("duration", line));
            }
            let duration: u32 = match parse_u32(fields[1]) {
                Ok(duration) => duration,
                Err(error) => {
                    return Err(misreads_message("duration", fields[1], error.as_str()));
                },
            };
            if fields.len() < 3 {
                return Err(lacks_message("position", line));
            }
            match readings.get(fields[2]).unwrap() {
                Reading::Value(number) => Ok(
                    Setting::Position(duration, number.clamp_between(Number::zero(), Number::one())),
                ),
                Reading::Invalid(error) => Err(
                    misreads_message("position", fields[2], error.as_str()),
                ),
            }
        },
        MotorType::Rotation => {
            if fields.len() < 2 {
                return Err(lacks_message("speed", line));
            }
            match readings.get(fields[1]).unwrap() {
                Reading::Value(number) => {
                    let speed = number.clamp_between(Number::one().negated(), Number::one());
                    if speed.is_nan() || speed.is_below(Number::zero()) {
                        Ok(Setting::Rotation(speed.negated(), false))
                    } else {
                        Ok(Setting::Rotation(speed, true))
                    }
                },
                Reading::Invalid(error) => Err(
                    misreads_message("speed", fields[1], error.as_str()),
                ),
            }
        },
        MotorType::Contraction => {
            if fields.len() < 2 {
                return Err(lacks_message("speed", line));
            }
            match parse_u8(fields[1]) {
                Ok(value) => Ok(
                    Setting::Contraction(
                        if value > 3 {
                            3
                        } else {
                            value
                        },
                    ),
                ),
                Err(error) => Err(misreads_message("contraction", fields[1], error.as_str())),
            }
        },
    }
}

/// What came of following a command: the unknown tags that were passed over, and
/// what is asked of each device, or the message of the line that failed.
pub struct CommandReport {
    pub ignored: Vec<String>,
    pub outcome: Result<NamedMap<MotorSettings>, String>,
}

impl CommandReport {
    /// Whether the report says what `progress` is.
    pub open spec fn tells(self, progress: Progress) -> bool {
        &&& crate::sorting::views_of(self.ignored@) == progress.ignored
        &&& match self.outcome {
            Ok(devices) => progress.failure is None && devices@ == progress.devices,
            Err(message) => progress.failure == Some(message@),
        }
    }
}

/// Adds what a line asks of a motor to what is asked of its device.
fn ask(devices: &mut NamedMap<MotorSettings>, motor: &Motor, setting: Setting)
    ensures
        final(devices)@ == old(devices)@.insert(
            motor@.device_name,
            settings_of(old(devices)@, motor@.device_name).with(motor@.feature_index, setting),
        ),
{
    let mut settings = match devices.remove(motor.device_name.as_str()) {
        Some(settings) => settings,
        None => MotorSettings::default(),
    };
    settings.apply(motor.feature_index, setting);
    devices.insert(motor.device_name.clone(), settings);
    assert(devices@ =~= old(devices)@.insert(
        motor@.device_name,
        settings_of(old(devices)@, motor@.device_name).with(motor@.feature_index, setting),
    ));
}

/// Follows a command: says what is asked of each device, and which tags were
/// passed over because no motor has them.
pub fn read_command(
    configuration: &Configuration,
    command: &str,
    readings: &NamedMap<Reading>,
) -> (report: CommandReport)
    requires
        all_read(configuration@.tag_map(), lines_of(command@), readings@),
    ensures
        report.tells(follow(configuration@.tag_map(), readings@, lines_of(command@))),
{
    let mut devices: NamedMap<MotorSettings> = NamedMap::new();
    let mut ignored: Vec<String> = Vec::new();
    let lines = split_terminated(command, ';');
    let ghost all = lines_of(command@);
    let ghost tags = configuration@.tag_map();
    let mut i: usize = 0;
    assert(crate::sorting::views_of(ignored@) =~= Seq::empty());
    assert(all.take(0).len() == 0);
    while i < lines.len()
        invariant
            i <= lines.len(),
            crate::text::views(lines@) == all,
            all == lines_of(command@),
            tags == configuration@.tag_map(),
            all_read(tags, all, readings@),
            devices@ == follow(tags, readings@, all.take(i as int)).devices,
            crate::sorting::views_of(ignored@) == follow(
                tags,
                readings@,
                all.take(i as int),
            ).ignored,
            follow(tags, readings@, all.take(i as int)).failure is None,
        decreases lines.len() - i,
    {
        let line: &str = lines[i];
        let fields = split_text(line, ':');
        let ghost before = follow(tags, readings@, all.take(i as int));
        let ghost after = follow(tags, readings@, all.take(i + 1));
        proof {
            assert(all[i as int] == line@);
            assert(all.take(i + 1).drop_last() =~= all.take(i as int));
            assert(all.take(i + 1).last() == line@);
            assert(after == before.step(tags, readings@, line@));
            crate::text::lemma_split_not_empty(line@, ':');
            assert(crate::text::views(fields@)[0] == fields@[0]@);
            if tags.contains_key(tag_of(line@)) {
                let kind = tags[tag_of(line@)].feature_type;
                if number_text(kind, line@) is Some {
                    lemma_number_text_listed(tags, all, i as int);
                    let text = number_text(kind, line@)->0;
                    let k = number_texts(tags, all).index_of(text);
                    assert(number_texts(tags, all)[k] == text);
                }
            }
        }
        match configuration.motor_from_tag(fields[0]) {
            Some(motor) => {
                match read_line(motor.feature_type, line, &fields, readings) {
                    Ok(setting) => {
                        ask(&mut devices, motor, setting);
                    },
                    Err(message) => {
                        proof {
                            law_first_failure_decides(tags, readings@, all, i + 1);
                        }
                        return CommandReport { ignored, outcome: Err(message) };
                    },
                }
            },
            None => {
                let tag = fields[0].to_owned();
                ignored.push(tag);
                assert(crate::sorting::views_of(ignored@) =~= before.ignored.push(tag@));
            },
        }
        i = i + 1;
    }
    assert(all.take(i as int) =~= all);
    CommandReport { ignored, outcome: Ok(devices) }
}

/// Turns a command into what is asked of each device, or says why it cannot be
/// understood.
///
/// With the tags `i` and `o`, the command `i:0.6;o:0.0` asks the strength 0.6 of
/// the first motor and the strength 0 of the second.
pub fn build_vibration_map(
    configuration: &Configuration,
    command: &str,
    readings: &NamedMap<Reading>,
) -> (result: Result<NamedMap<MotorSettings>, String>)
    requires
        all_read(configuration@.tag_map(), lines_of(command@), readings@),
    ensures
        match result {
            Ok(devices) => {
                let progress = follow(configuration@.tag_map(), readings@, lines_of(command@));
                progress.failure is None && devices@ == progress.devices
            },
            Err(message) => follow(
                configuration@.tag_map(),
                readings@,
                lines_of(command@),
            ).failure == Some(message@),
        },
{
    read_command(configuration, command, readings).outcome
}

} // verus!
