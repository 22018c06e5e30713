//! Connected devices: what they can do, what they report, which motors they have.
use crate::motor::{MessageType, Motor, MotorType, MotorView};
use crate::named_map::NamedMap;
use crate::number::Number;
use crate::sorting::Ordered;
use crate::text::{is_before, same_text};
use vstd::prelude::*;

verus! {

/// The one device whose contraction is driven by raw writes.
pub const CONTRACTION_DEVICE: &'static str = "Lovense Max";

/// What a device says of one kind of message that it accepts.
#[derive(Debug)]
pub struct MessageAttributes {
    /// How many motors the message drives.
    pub feature_count: Option<u32>,
    /// The attributes in full, for people to read.
    pub description: String,
}

/// What a device says of one kind of message that it accepts.
pub struct AttributesView {
    pub feature_count: Option<u32>,
    pub description: Seq<char>,
}

impl View for MessageAttributes {
    type V = AttributesView;

    open spec fn view(&self) -> AttributesView {
        AttributesView {
            feature_count: self.feature_count,
            description: self.description@,
        }
    }
}

/// A connected device, with the messages that it accepts by their names.
#[derive(Debug)]
pub struct Device {
    pub name: String,
    pub allowed_messages: NamedMap<MessageAttributes>,
}

/// A connected device.
pub struct DeviceView {
    pub name: Seq<char>,
    pub messages: Seq<(Seq<char>, AttributesView)>,
}

impl View for Device {
    type V = DeviceView;

    open spec fn view(&self) -> DeviceView {
        DeviceView { name: self.name@, messages: self.allowed_messages.listing() }
    }
}

impl DeviceView {
    /// The accepted messages, by name.
    pub open spec fn allowed(self) -> Map<Seq<char>, AttributesView> {
        crate::named_map::to_map(self.messages)
    }

    /// Whether the device accepts a message.
    pub open spec fn allows(self, message: MessageType) -> bool {
        self.allowed().contains_key(message.spec_name()@)
    }

    /// How many motors of some kind the device has. For a kind with a message of
    /// its own the device says it; a device that says nothing has none. The one
    /// device that can contract has one motor for it, if raw writes are allowed.
    pub open spec fn feature_count(self, kind: MotorType) -> u32 {
        match kind.spec_get_type() {
            Some(message) => if self.allows(message) {
                match self.allowed()[message.spec_name()@].feature_count {
                    Some(count) => count,
                    None => 0,
                }
            } else {
                0
            },
            None => if self.name == CONTRACTION_DEVICE@ && self.allows(MessageType::RawWriteCmd) {
                1
            } else {
                0
            },
        }
    }

    /// The motors of some kind, by their place on the device.
    pub open spec fn features(self, kind: MotorType) -> Seq<MotorView> {
        Seq::new(
            self.feature_count(kind) as nat,
            |i: int|
                MotorView {
                    device_name: self.name,
                    feature_index: i as u32,
                    feature_type: kind,
                },
        )
    }

    /// The motors of some kinds, kind by kind.
    pub open spec fn features_of_kinds(self, kinds: Seq<MotorType>) -> Seq<MotorView>
        decreases kinds.len(),
    {
        if kinds.len() == 0 {
            Seq::empty()
        } else {
            self.features_of_kinds(kinds.drop_last()) + self.features(kinds.last())
        }
    }

    /// All motors of the device.
    pub open spec fn motors(self) -> Seq<MotorView> {
        self.features_of_kinds(MotorType::spec_all())
    }
}

impl Device {
    /// Whether the device accepts a message. What it does not accept it is not
    /// asked.
    pub fn accepts(&self, message: MessageType) -> (result: bool)
        ensures
            result == self@.allows(message),
    {
        self.allowed_messages.get(message.name()).is_some()
    }
}

/// How many motors of some kind a device has.
pub fn device_feature_count_by_type(device_type: MotorType, device: &Device) -> (count: u32)
    ensures
        count == device@.feature_count(device_type),
{
    match device_type.get_type() {
        Some(message) => {
            match device.allowed_messages.get(message.name()) {
                Some(attributes) => match attributes.feature_count {
                    Some(count) => count,
                    None => 0,
                },
                None => 0,
            }
        },
        None => {
            if same_text(device.name.as_str(), CONTRACTION_DEVICE) && device.accepts(
                MessageType::RawWriteCmd,
            ) {
                1
            } else {
                0
            }
        },
    }
}

/// A connected device with what it answered when it was asked.
#[derive(Debug)]
pub struct DeviceReading {
    pub device: Device,
    /// The battery level, if the device was asked and gave it.
    pub battery_level: Option<Number>,
    /// The signal strength, if the device was asked and gave it.
    pub rssi_level: Option<i32>,
}

/// A connected device with what it answered.
pub struct DeviceReadingView {
    pub device: DeviceView,
    pub battery_level: Option<Number>,
    pub rssi_level: Option<i32>,
}

impl View for DeviceReading {
    type V = DeviceReadingView;

    open spec fn view(&self) -> DeviceReadingView {
        DeviceReadingView {
            device: self.device@,
            battery_level: self.battery_level,
            rssi_level: self.rssi_level,
        }
    }
}

/// The state of one device.
#[derive(Debug, PartialEq)]
pub struct DeviceStatus {
    pub name: String,
    pub battery_level: Option<Number>,
    pub rssi_level: Option<i32>,
}

/// The state of one device.
pub struct StatusView {
    pub name: Seq<char>,
    pub battery_level: Option<Number>,
    pub rssi_level: Option<i32>,
}

impl View for DeviceStatus {
    type V = StatusView;

    open spec fn view(&self) -> StatusView {
        StatusView {
            name: self.name@,
            battery_level: self.battery_level,
            rssi_level: self.rssi_level,
        }
    }
}

impl Clone for DeviceStatus {
    fn clone(&self) -> (copy: Self)
        ensures
            copy@ == self@,
    {
        DeviceStatus {
            name: self.name.clone(),
            battery_level: self.battery_level,
            rssi_level: self.rssi_level,
        }
    }
}

/// Devices are ordered by name.
impl Ordered for DeviceStatus {
    open spec fn not_after(a: StatusView, b: StatusView) -> bool {
        !crate::text::text_before(b.name, a.name)
    }

    proof fn lemma_total(a: StatusView, b: StatusView) {
        crate::text::lemma_text_order_total(a.name, b.name);
    }

    proof fn lemma_transitive(a: StatusView, b: StatusView, c: StatusView) {
        crate::text::lemma_text_order_total(a.name, b.name);
        crate::text::lemma_text_order_total(b.name, c.name);
        if crate::text::text_before(c.name, a.name) && crate::text::text_before(a.name, b.name) {
            crate::text::lemma_text_order_transitive(c.name, a.name, b.name);
        }
    }

    fn is_not_after(&self, other: &Self) -> (result: bool) {
        !is_before(other.name.as_str(), self.name.as_str())
    }
}

impl DeviceReadingView {
    /// The state of the device: a level counts only where the device accepts the
    /// message that asks for it.
    pub open spec fn status(self) -> StatusView {
        StatusView {
            name: self.device.name,
            battery_level: if self.device.allows(MessageType::BatteryLevelCmd) {
                self.battery_level
            } else {
                None
            },
            rssi_level: if self.device.allows(MessageType::RSSILevelCmd) {
                self.rssi_level
            } else {
                None
            },
        }
    }
}

/// The states of some devices, in order.
pub open spec fn statuses(readings: Seq<DeviceReadingView>) -> Seq<StatusView> {
    readings.map_values(|reading: DeviceReadingView| reading.status())
}

/// The motors of some devices, device by device.
pub open spec fn all_motors(readings: Seq<DeviceReadingView>) -> Seq<MotorView>
    decreases readings.len(),
{
    if readings.len() == 0 {
        Seq::empty()
    } else {
        all_motors(readings.drop_last()) + readings.last().device.motors()
    }
}

/// The motors and the states of the connected devices.
#[derive(Debug)]
pub struct DeviceList {
    pub motors: Vec<Motor>,
    pub devices: Vec<DeviceStatus>,
}

/// Adds the motors of one kind to a list.
fn push_features(motors: &mut Vec<Motor>, device: &Device, kind: MotorType)
    ensures
        crate::sorting::views_of(final(motors)@) == crate::sorting::views_of(old(motors)@)
            + device@.features(kind),
{
    let ghost before = crate::sorting::views_of(motors@);
    let ghost features = device@.features(kind);
    let count: u32 = device_feature_count_by_type(kind, device);
    let mut i: u32 = 0;
    assert(crate::sorting::views_of(motors@) =~= before + features.take(0));
    while i < count
        invariant
            i <= count,
            count == features.len(),
            features == device@.features(kind),
            crate::sorting::views_of(motors@) == before + features.take(i as int),
        decreases count - i,
    {
        let motor = Motor {
            device_name: device.name.clone(),
            feature_index: i,
            feature_type: kind,
        };
        let ghost shorter = motors@;
        motors.push(motor);
        assert(motor@ == features[i as int]);
        assert(crate::sorting::views_of(motors@) =~= crate::sorting::views_of(shorter).push(
            motor@,
        ));
        assert(features.take(i + 1) =~= features.take(i as int).push(features[i as int]));
        assert(crate::sorting::views_of(motors@) =~= before + features.take(i + 1));
        i = i + 1;
    }
    assert(features.take(count as int) =~= features);
}

/// Adds all motors of a device to a list.
fn push_motors(motors: &mut Vec<Motor>, device: &Device)
    ensures
        crate::sorting::views_of(final(motors)@) == crate::sorting::views_of(old(motors)@)
            + device@.motors(),
{
    let kinds = MotorType::all();
    let ghost before = crate::sorting::views_of(motors@);
    let mut i: usize = 0;
    assert(crate::sorting::views_of(motors@) =~= before + device@.features_of_kinds(
        kinds@.take(0),
    ));
    while i < kinds.len()
        invariant
            i <= kinds.len(),
            crate::sorting::views_of(motors@) == before + device@.features_of_kinds(
                kinds@.take(i as int),
            ),
        decreases kinds.len() - i,
    {
        push_features(motors, device, kinds[i]);
        proof {
            let longer = kinds@.take(i + 1);
            assert(longer.drop_last() =~= kinds@.take(i as int));
            assert(crate::sorting::views_of(motors@) =~= before + device@.features_of_kinds(
                longer,
            ));
        }
        i = i + 1;
    }
    assert(kinds@.take(i as int) =~= kinds@);
}

/// Lists the motors of the connected devices and the state of each device.
pub fn get_devices(readings: &Vec<DeviceReading>) -> (list: DeviceList)
    ensures
        crate::sorting::views_of(list.motors@) == all_motors(
            crate::sorting::views_of(readings@),
        ),
        crate::sorting::views_of(list.devices@) == statuses(
            crate::sorting::views_of(readings@),
        ),
{
    let mut motors: Vec<Motor> = Vec::new();
    let mut devices: Vec<DeviceStatus> = Vec::new();
    let ghost all = crate::sorting::views_of(readings@);
    let mut i: usize = 0;
    assert(crate::sorting::views_of(motors@) =~= all_motors(all.take(0)));
    assert(crate::sorting::views_of(devices@) =~= statuses(all.take(0)));
    while i < readings.len()
        invariant
            i <= readings.len(),
            all == crate::sorting::views_of(readings@),
            crate::sorting::views_of(motors@) == all_motors(all.take(i as int)),
            crate::sorting::views_of(devices@) == statuses(all.take(i as int)),
        decreases readings.len() - i,
    {
        let reading = &readings[i];
        let ghost shorter = devices@;
        let battery_level: Option<Number> = if reading.device.accepts(
            MessageType::BatteryLevelCmd,
        ) {
            reading.battery_level
        } else {
            None
        };
        let rssi_level: Option<i32> = if reading.device.accepts(MessageType::RSSILevelCmd) {
            reading.rssi_level
        } else {
            None
        };
        let status = DeviceStatus {
            name: reading.device.name.clone(),
            battery_level,
            rssi_level,
        };
        push_motors(&mut motors, &reading.device);
        devices.push(status);
        proof {
            let longer = all.take(i + 1);
            assert(longer.drop_last() =~= all.take(i as int));
            assert(longer.last() == reading@);
            assert(status@ == reading@.status());
            assert(crate::sorting::views_of(devices@) =~= crate::sorting::views_of(shorter).push(
                status@,
            ));
            assert(statuses(longer) =~= statuses(all.take(i as int)).push(status@));
        }
        i = i + 1;
    }
    assert(all.take(i as int) =~= all);
    DeviceList { motors, devices }
}

/// A device accepts the messages that it lists, and no others.
proof fn lemma_allows(device: DeviceView, message: MessageType)
    ensures
        device.allows(message) <==> exists|i: int|
            0 <= i < device.messages.len() && (#[trigger] device.messages[i]).0
                == message.spec_name()@,
{
}

/// A battery level and a signal strength are shown exactly as they were answered, if
/// the device lists the message that asks for it; otherwise they are not shown. The
/// one does not depend on the other.
pub proof fn law_answers_are_shown(reading: DeviceReadingView)
    ensures
        ({
            let messages = reading.device.messages;
            &&& reading.status().name == reading.device.name
            &&& (exists|i: int|
                0 <= i < messages.len() && (#[trigger] messages[i]).0 == "BatteryLevelCmd"@)
                ==> reading.status().battery_level == reading.battery_level
            &&& (forall|i: int|
                0 <= i < messages.len() ==> (#[trigger] messages[i]).0 != "BatteryLevelCmd"@)
                ==> reading.status().battery_level is None
            &&& (exists|i: int|
                0 <= i < messages.len() && (#[trigger] messages[i]).0 == "RSSILevelCmd"@)
                ==> reading.status().rssi_level == reading.rssi_level
            &&& (forall|i: int|
                0 <= i < messages.len() ==> (#[trigger] messages[i]).0 != "RSSILevelCmd"@)
                ==> reading.status().rssi_level is None
        }),
{
    lemma_allows(reading.device, MessageType::BatteryLevelCmd);
    lemma_allows(reading.device, MessageType::RSSILevelCmd);
}

/// Each device has a state of its own in the list, at its place.
pub proof fn law_every_device_has_a_state(readings: Seq<DeviceReadingView>, i: int)
    ensures
        statuses(readings).len() == readings.len(),
        0 <= i < readings.len() ==> statuses(readings)[i] == readings[i].status(),
{
}

/// A device has as many linear, turning and vibrating motors as it says beside the
/// message that drives them; where it says no number or does not list the message, it
/// has none.
pub proof fn law_motor_counts_are_those_listed(device: DeviceView, kind: MotorType, i: int)
    requires
        crate::named_map::distinct_names(device.messages),
        kind != MotorType::Contraction,
    ensures
        ({
            let name = match kind {
                MotorType::Linear => "LinearCmd"@,
                MotorType::Rotation => "RotateCmd"@,
                _ => "VibrateCmd"@,
            };
            let messages = device.messages;
            &&& 0 <= i < messages.len() && messages[i].0 == name ==> device.feature_count(kind)
                == match messages[i].1.feature_count {
                Some(count) => count,
                None => 0,
            }
            &&& (forall|j: int| 0 <= j < messages.len() ==> (#[trigger] messages[j]).0 != name)
                ==> device.feature_count(kind) == 0
        }),
{
    let message = kind.spec_get_type()->0;
    lemma_allows(device, message);
    if 0 <= i < device.messages.len() {
        crate::named_map::lemma_place_is_unique(device.messages, i);
    }
}

/// Only a device of the one name that lists raw writes has a motor that contracts, and
/// it has one.
pub proof fn law_one_device_contracts(device: DeviceView)
    ensures
        device.name == "Lovense Max"@ && (exists|i: int|
            0 <= i < device.messages.len() && (#[trigger] device.messages[i]).0 == "RawWriteCmd"@)
            ==> device.feature_count(MotorType::Contraction) == 1,
        device.name != "Lovense Max"@ || (forall|i: int|
            0 <= i < device.messages.len() ==> (#[trigger] device.messages[i]).0
                != "RawWriteCmd"@) ==> device.feature_count(MotorType::Contraction) == 0,
{
    lemma_allows(device, MessageType::RawWriteCmd);
}

/// The motors of a device: of each kind as many as it has, with the places from 0 on,
/// each listed once and under the name of the device.
pub proof fn law_motors_of_a_device(device: DeviceView, motor: MotorView)
    ensures
        device.motors().contains(motor) <==> motor.device_name == device.name
            && motor.feature_index < device.feature_count(motor.feature_type),
        device.motors().no_duplicates(),
        device.motors().len() == device.feature_count(MotorType::Linear) + device.feature_count(
            MotorType::Rotation,
        ) + device.feature_count(MotorType::Vibration) + device.feature_count(
            MotorType::Contraction,
        ),
{
    let all = MotorType::spec_all();
    let a = device.features(MotorType::Linear);
    let b = device.features(MotorType::Rotation);
    let c = device.features(MotorType::Vibration);
    let d = device.features(MotorType::Contraction);
    assert(all.drop_last() =~= seq![MotorType::Linear, MotorType::Rotation, MotorType::Vibration]);
    assert(all.drop_last().drop_last() =~= seq![MotorType::Linear, MotorType::Rotation]);
    assert(all.drop_last().drop_last().drop_last() =~= seq![MotorType::Linear]);
    reveal_with_fuel(DeviceView::features_of_kinds, 5);
    assert(device.motors() =~= a + b + c + d);
    let motors = device.motors();
    let p = a.len() as int;
    let q = p + b.len();
    let r = q + c.len();
    assert forall|i: int| 0 <= i < motors.len() implies (#[trigger] motors[i]).device_name
        == device.name && (if i < p {
        motors[i].feature_type == MotorType::Linear && motors[i].feature_index == i
    } else if i < q {
        motors[i].feature_type == MotorType::Rotation && motors[i].feature_index == i - p
    } else if i < r {
        motors[i].feature_type == MotorType::Vibration && motors[i].feature_index == i - q
    } else {
        motors[i].feature_type == MotorType::Contraction && motors[i].feature_index == i - r
    }) by {
    }
    if motors.contains(motor) {
        let i = motors.index_of(motor);
        assert(motors[i] == motor);
    }
    if motor.device_name == device.name && motor.feature_index < device.feature_count(
        motor.feature_type,
    ) {
        let k = motor.feature_index as int;
        let at = match motor.feature_type {
            MotorType::Linear => k,
            MotorType::Rotation => p + k,
            MotorType::Vibration => q + k,
            MotorType::Contraction => r + k,
        };
        assert(motors[at] == motor);
    }
}

/// The motors of some devices and then some more are those of the first and then those
/// of the others, and the motors of one device are its own.
pub proof fn law_motors_device_by_device(
    first: Seq<DeviceReadingView>,
    more: Seq<DeviceReadingView>,
    reading: DeviceReadingView,
)
    ensures
        all_motors(first + more) == all_motors(first) + all_motors(more),
        all_motors(seq![reading]) == reading.device.motors(),
    decreases more.len(),
{
    assert(seq![reading].drop_last() =~= Seq::<DeviceReadingView>::empty());
    assert(all_motors(Seq::<DeviceReadingView>::empty()).len() == 0);
    assert(all_motors(seq![reading]) =~= reading.device.motors());
    if more.len() == 0 {
        assert(first + more =~= first);
        assert(all_motors(first + more) =~= all_motors(first) + all_motors(more));
    } else {
        assert((first + more).drop_last() =~= first + more.drop_last());
        law_motors_device_by_device(first, more.drop_last(), reading);
        assert(all_motors(first + more) =~= all_motors(first) + all_motors(more));
    }
}

/// The view of what a device answered says all of it.
pub proof fn law_view_of_reading(reading: DeviceReading)
    ensures
        reading@.device.name == reading.device.name@,
        reading@.device.messages == reading.device.allowed_messages.listing(),
        reading@.battery_level == reading.battery_level,
        reading@.rssi_level == reading.rssi_level,
{
}

/// The view of the state of a device says all of it.
pub proof fn law_view_of_status(status: DeviceStatus)
    ensures
        status@.name == status.name@,
        status@.battery_level == status.battery_level,
        status@.rssi_level == status.rssi_level,
{
}

/// The view of what a device says of a message says all of it.
pub proof fn law_view_of_attributes(attributes: MessageAttributes)
    ensures
        attributes@.feature_count == attributes.feature_count,
        attributes@.description == attributes.description@,
{
}

} // verus!
