//! What the web server answers to those who ask how things are.
use crate::device::{AttributesView, Device, DeviceReading, DeviceReadingView, DeviceView};
use crate::motor::MessageType;
use crate::number::Number;
use vstd::prelude::*;

verus! {

/// The device server and the devices that it knows.
#[derive(Debug)]
pub struct ServerSnapshot {
    pub connected: bool,
    pub devices: Vec<Device>,
}

/// A truth value in words.
pub open spec fn truth(value: bool) -> Seq<char> {
    if value {
        "true"@
    } else {
        "false"@
    }
}

/// The lines for some messages that a device accepts.
pub open spec fn messages_text(messages: Seq<(Seq<char>, AttributesView)>) -> Seq<char>
    decreases messages.len(),
{
    if messages.len() == 0 {
        Seq::empty()
    } else {
        messages_text(messages.drop_last()) + "\n    "@ + messages.last().0 + ": "@
            + messages.last().1.description
    }
}

/// The lines for some devices: the name of each, and under it the messages that
/// it accepts.
pub open spec fn devices_text(devices: Seq<DeviceView>) -> Seq<char>
    decreases devices.len(),
{
    if devices.len() == 0 {
        Seq::empty()
    } else {
        devices_text(devices.drop_last()) + "\n  "@ + devices.last().name + messages_text(
            devices.last().messages,
        )
    }
}

/// Adds the lines for the messages that a device accepts.
fn push_messages(text: &mut String, device: &Device)
    ensures
        final(text)@ == old(text)@ + messages_text(device@.messages),
{
    let ghost before = text@;
    let ghost messages = device@.messages;
    let count: usize = device.allowed_messages.len();
    let mut i: usize = 0;
    assert(text@ =~= before + messages_text(messages.take(0)));
    while i < count
        invariant
            i <= count,
            messages == device@.messages,
            count == messages.len(),
            text@ == before + messages_text(messages.take(i as int)),
        decreases count - i,
    {
        let (name, attributes) = device.allowed_messages.entry(i);
        text.append("\n    ");
        text.append(name);
        text.append(": ");
        text.append(attributes.description.as_str());
        proof {
            let longer = messages.take(i + 1);
            assert(longer.drop_last() =~= messages.take(i as int));
            assert(longer.last() == messages[i as int]);
            assert(text@ =~= before + messages_text(longer));
        }
        i = i + 1;
    }
    assert(messages.take(count as int) =~= messages);
}

/// The answer about the device server and the devices that it knows.
pub open spec fn status_text(server: Option<ServerSnapshot>) -> Seq<char> {
    match server {
        Some(snapshot) => "device server running="@ + truth(snapshot.connected) + devices_text(
            crate::sorting::views_of(snapshot.devices@),
        ),
        None => "device server running=None"@,
    }
}

/// Describes the device server: whether it runs, which devices it knows, and which
/// messages each of them accepts.
pub fn haptic_status(server: &Option<ServerSnapshot>) -> (text: String)
    ensures
        text@ == status_text(*server),
        text@ == match *server {
            Some(snapshot) => "device server running="@ + truth(snapshot.connected) + devices_text(
                crate::sorting::views_of(snapshot.devices@),
            ),
            None => "device server running=None"@,
        },
{
    match server {
        Some(snapshot) => {
            let mut text = "device server running=".to_owned();
            if snapshot.connected {
                text.append("true");
            } else {
                text.append("false");
            }
            let ghost before = text@;
            let ghost all = crate::sorting::views_of(snapshot.devices@);
            let mut i: usize = 0;
            assert(text@ =~= before + devices_text(all.take(0)));
            while i < snapshot.devices.len()
                invariant
                    i <= snapshot.devices.len(),
                    all == crate::sorting::views_of(snapshot.devices@),
                    text@ == before + devices_text(all.take(i as int)),
                decreases snapshot.devices.len() - i,
            {
                let device = &snapshot.devices[i];
                text.append("\n  ");
                text.append(device.name.as_str());
                push_messages(&mut text, device);
                proof {
                    let longer = all.take(i + 1);
                    assert(longer.drop_last() =~= all.take(i as int));
                    assert(longer.last() == device@);
                    assert(text@ =~= before + devices_text(longer));
                }
                i = i + 1;
            }
            assert(all.take(i as int) =~= all);
            text
        },
        None => "device server running=None".to_owned(),
    }
}

/// The battery level that is shown for a device: what it answered, or zero if it
/// could not be asked or gave no answer.
pub open spec fn shown_battery_level(reading: DeviceReadingView) -> Number {
    if reading.device.allows(MessageType::BatteryLevelCmd) && reading.battery_level is Some {
        reading.battery_level->0
    } else {
        Number::spec_zero()
    }
}

/// The battery levels that are shown for some devices, in order.
pub open spec fn shown_battery_levels(readings: Seq<DeviceReadingView>) -> Seq<Number> {
    readings.map_values(|reading: DeviceReadingView| shown_battery_level(reading))
}

/// The battery levels that are shown for some devices, in order.
pub fn battery_levels(readings: &Vec<DeviceReading>) -> (levels: Vec<Number>)
    ensures
        levels@ == shown_battery_levels(crate::sorting::views_of(readings@)),
        levels@ == crate::sorting::views_of(readings@).map_values(
            |reading: DeviceReadingView| shown_battery_level(reading),
        ),
{
    let mut levels: Vec<Number> = Vec::new();
    let mut i: usize = 0;
    while i < readings.len()
        invariant
            i <= readings.len(),
            levels@.len() == i,
            forall|j: int|
                0 <= j < i ==> #[trigger] levels@[j] == shown_battery_level(readings@[j]@),
        decreases readings.len() - i,
    {
        let reading = &readings[i];
        let level: Number = if reading.device.accepts(MessageType::BatteryLevelCmd) {
            match reading.battery_level {
                Some(level) => level,
                None => Number::zero(),
            }
        } else {
            Number::zero()
        };
        levels.push(level);
        i = i + 1;
    }
    assert(levels@ =~= crate::sorting::views_of(readings@).map_values(
        |reading: DeviceReadingView| shown_battery_level(reading),
    ));
    levels
}

/// Some texts, each on a line of its own.
pub open spec fn in_lines(texts: Seq<Seq<char>>) -> Seq<char>
    decreases texts.len(),
{
    if texts.len() == 0 {
        Seq::empty()
    } else {
        in_lines(texts.drop_last()) + texts.last() + "\n"@
    }
}

/// The answer about the battery levels.
pub open spec fn battery_text(levels: Option<Seq<Seq<char>>>) -> Seq<char> {
    match levels {
        Some(levels) => in_lines(levels),
        None => Seq::empty(),
    }
}

/// Lists the battery levels, each on a line of its own. Without a connection the
/// answer is empty. The levels come as they are to be shown.
pub fn battery_status(levels: &Option<Vec<String>>) -> (text: String)
    ensures
        text@ == battery_text(
            match *levels {
                Some(levels) => Some(crate::sorting::views_of(levels@)),
                None => None,
            },
        ),
        text@ == match *levels {
            Some(levels) => in_lines(crate::sorting::views_of(levels@)),
            None => Seq::empty(),
        },
{
    let mut text = String::new();
    match levels {
        Some(levels) => {
            let ghost all = crate::sorting::views_of(levels@);
            let mut i: usize = 0;
            assert(text@ =~= in_lines(all.take(0)));
            while i < levels.len()
                invariant
                    i <= levels.len(),
                    all == crate::sorting::views_of(levels@),
                    text@ == in_lines(all.take(i as int)),
                decreases levels.len() - i,
            {
                text.append(levels[i].as_str());
                text.append("\n");
                proof {
                    let longer = all.take(i + 1);
                    assert(longer.drop_last() =~= all.take(i as int));
                    assert(longer.last() == levels@[i as int]@);
                }
                i = i + 1;
            }
            assert(all.take(i as int) =~= all);
        },
        None => {},
    }
    text
}

/// A device that cannot be asked for its battery level is shown with zero,
/// whatever was noted for it.
pub proof fn law_unasked_battery_is_zero(reading: DeviceReadingView)
    requires
        !reading.device.allows(MessageType::BatteryLevelCmd),
    ensures
        shown_battery_level(reading) == Number::spec_zero(),
        reading.status().battery_level is None,
{
}

/// The text for some devices and then some more is the text for the first and then the
/// text for the others. The text for one device is its name and then that for the
/// messages that it accepts. So what is written of a device does not depend on its
/// place.
pub proof fn law_text_device_by_device(
    first: Seq<DeviceView>,
    more: Seq<DeviceView>,
    device: DeviceView,
)
    ensures
        devices_text(first + more) == devices_text(first) + devices_text(more),
        devices_text(seq![device]) == "\n  "@ + device.name + messages_text(device.messages),
    decreases more.len(),
{
    assert(seq![device].drop_last() =~= Seq::<DeviceView>::empty());
    assert(devices_text(Seq::<DeviceView>::empty()).len() == 0);
    assert(devices_text(seq![device]) =~= "\n  "@ + device.name + messages_text(device.messages));
    if more.len() == 0 {
        assert(first + more =~= first);
        assert(devices_text(first + more) =~= devices_text(first) + devices_text(more));
    } else {
        assert((first + more).drop_last() =~= first + more.drop_last());
        law_text_device_by_device(first, more.drop_last(), device);
        assert(devices_text(first + more) =~= devices_text(first) + devices_text(more));
    }
}

/// The text for some messages and then some more is the text for the first and then
/// the text for the others. One message is a line with its name and its description.
pub proof fn law_text_message_by_message(
    first: Seq<(Seq<char>, AttributesView)>,
    more: Seq<(Seq<char>, AttributesView)>,
    message: (Seq<char>, AttributesView),
)
    ensures
        messages_text(first + more) == messages_text(first) + messages_text(more),
        messages_text(seq![message]) == "\n    "@ + message.0 + ": "@ + message.1.description,
    decreases more.len(),
{
    assert(seq![message].drop_last() =~= Seq::<(Seq<char>, AttributesView)>::empty());
    assert(messages_text(Seq::<(Seq<char>, AttributesView)>::empty()).len() == 0);
    assert(messages_text(seq![message]) =~= "\n    "@ + message.0 + ": "@
        + message.1.description);
    if more.len() == 0 {
        assert(first + more =~= first);
        assert(messages_text(first + more) =~= messages_text(first) + messages_text(more));
    } else {
        assert((first + more).drop_last() =~= first + more.drop_last());
        law_text_message_by_message(first, more.drop_last(), message);
        assert(messages_text(first + more) =~= messages_text(first) + messages_text(more));
    }
}

/// The answer says whether the device server runs and then what it knows of the
/// devices; without a connection it says that there is no server.
pub proof fn law_answer_tells_server_and_devices(snapshot: ServerSnapshot)
    ensures
        snapshot.connected ==> status_text(Some(snapshot)) == "device server running="@ + "true"@
            + devices_text(crate::sorting::views_of(snapshot.devices@)),
        !snapshot.connected ==> status_text(Some(snapshot)) == "device server running="@
            + "false"@ + devices_text(crate::sorting::views_of(snapshot.devices@)),
        snapshot.devices@.len() == 0 && snapshot.connected ==> status_text(Some(snapshot))
            == "device server running="@ + "true"@,
        snapshot.devices@.len() == 0 && !snapshot.connected ==> status_text(Some(snapshot))
            == "device server running="@ + "false"@,
        status_text(None) == "device server running=None"@,
{
    if snapshot.devices@.len() == 0 {
        assert(devices_text(crate::sorting::views_of(snapshot.devices@)) =~= Seq::empty());
    }
}

/// The battery level shown for a device is the one that it answered, if it lists the
/// message that asks for it and gave an answer, and otherwise zero.
pub proof fn law_shown_battery_level(reading: DeviceReadingView, level: Number)
    ensures
        (exists|i: int|
            0 <= i < reading.device.messages.len() && (#[trigger] reading.device.messages[i]).0
                == "BatteryLevelCmd"@) && reading.battery_level == Some(level)
            ==> shown_battery_level(reading) == level,
        (forall|i: int|
            0 <= i < reading.device.messages.len() ==> (#[trigger] reading.device.messages[i]).0
                != "BatteryLevelCmd"@) || reading.battery_level is None ==> shown_battery_level(
            reading,
        ).bits == 0,
{
}

/// The lines for some texts and then some more are those for the first and then those
/// for the others, and the line for one text is the text with its end of line.
pub proof fn law_lines_text_by_text(
    first: Seq<Seq<char>>,
    more: Seq<Seq<char>>,
    text: Seq<char>,
)
    ensures
        in_lines(first + more) == in_lines(first) + in_lines(more),
        in_lines(seq![text]) == text + "\n"@,
    decreases more.len(),
{
    assert(seq![text].drop_last() =~= Seq::<Seq<char>>::empty());
    assert(in_lines(Seq::<Seq<char>>::empty()).len() == 0);
    assert(in_lines(seq![text]) =~= text + "\n"@);
    if more.len() == 0 {
        assert(first + more =~= first);
        assert(in_lines(first + more) =~= in_lines(first) + in_lines(more));
    } else {
        assert((first + more).drop_last() =~= first + more.drop_last());
        law_lines_text_by_text(first, more.drop_last(), text);
        assert(in_lines(first + more) =~= in_lines(first) + in_lines(more));
    }
}

/// Every device has a battery level of its own in the list, at its place.
pub proof fn law_every_device_has_a_battery_level(readings: Seq<DeviceReadingView>, i: int)
    ensures
        shown_battery_levels(readings).len() == readings.len(),
        0 <= i < readings.len() ==> shown_battery_levels(readings)[i] == shown_battery_level(
            readings[i],
        ),
{
}

/// The answer about the battery levels lists one more level behind the others on a line
/// of its own, and is empty without a connection or without a level.
pub proof fn law_battery_answer_line_by_line(levels: Seq<Seq<char>>, level: Seq<char>)
    ensures
        battery_text(None).len() == 0,
        levels.len() == 0 ==> battery_text(Some(levels)).len() == 0,
        battery_text(Some(levels.push(level))) == battery_text(Some(levels)) + level + "\n"@,
{
    assert(levels.push(level).drop_last() =~= levels);
}

} // verus!
