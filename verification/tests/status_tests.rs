use buttplug_lite::application::ApplicationState;
use buttplug_lite::configuration::{Configuration, DEFAULT_PORT};
use buttplug_lite::device::{
    device_feature_count_by_type, get_devices, Device, DeviceReading, DeviceStatus,
    MessageAttributes,
};
use buttplug_lite::motor::{MessageType, Motor, MotorType, TaggedMotor};
use buttplug_lite::named_map::NamedMap;
use buttplug_lite::number::Number;
use buttplug_lite::replies::{battery_levels, battery_status, haptic_status, ServerSnapshot};
use buttplug_lite::sorting::sort;
use buttplug_lite::status::{get_tagged_devices, motors_to_tagged};

fn number(value: f64) -> Number {
    Number { bits: value.to_bits() }
}

fn device(name: &str, messages: &[(&str, Option<u32>)]) -> Device {
    let mut allowed_messages = NamedMap::new();
    for (message, feature_count) in messages {
        let attributes = MessageAttributes {
            feature_count: *feature_count,
            description: format!("{:?}", feature_count),
        };
        allowed_messages.insert(message.to_string(), attributes);
    }
    Device { name: name.to_string(), allowed_messages }
}

fn reading(device: Device, battery_level: Option<f64>, rssi_level: Option<i32>) -> DeviceReading {
    DeviceReading { device, battery_level: battery_level.map(number), rssi_level }
}

fn motor(device: &str, index: u32, kind: MotorType) -> Motor {
    Motor {
        device_name: device.to_string(),
        feature_index: index,
        feature_type: kind,
    }
}

fn readings() -> Vec<DeviceReading> {
    vec![
        reading(
            device(
                "Toy",
                &[("VibrateCmd", Some(2)), ("RotateCmd", Some(1)), ("BatteryLevelCmd", None)],
            ),
            Some(0.5),
            Some(-40),
        ),
        reading(
            device("Lovense Max", &[("RawWriteCmd", None), ("RSSILevelCmd", None)]),
            Some(0.75),
            Some(-60),
        ),
    ]
}

#[test]
fn features_are_counted_by_kind() {
    let toy = device("Toy", &[("VibrateCmd", Some(2)), ("LinearCmd", None), ("RawWriteCmd", None)]);
    assert_eq!(device_feature_count_by_type(MotorType::Vibration, &toy), 2);
    assert_eq!(device_feature_count_by_type(MotorType::Linear, &toy), 0);
    assert_eq!(device_feature_count_by_type(MotorType::Rotation, &toy), 0);
    assert_eq!(device_feature_count_by_type(MotorType::Contraction, &toy), 0);
    let max = device("Lovense Max", &[("RawWriteCmd", None)]);
    assert_eq!(device_feature_count_by_type(MotorType::Contraction, &max), 1);
    let mute = device("Lovense Max", &[("VibrateCmd", Some(1))]);
    assert_eq!(device_feature_count_by_type(MotorType::Contraction, &mute), 0);
}

#[test]
fn kinds_have_messages() {
    assert_eq!(MotorType::Linear.get_type(), Some(MessageType::LinearCmd));
    assert_eq!(MotorType::Rotation.get_type(), Some(MessageType::RotateCmd));
    assert_eq!(MotorType::Vibration.get_type(), Some(MessageType::VibrateCmd));
    assert_eq!(MotorType::Contraction.get_type(), None);
    assert_eq!(MessageType::RSSILevelCmd.name(), "RSSILevelCmd");
    for (i, kind) in MotorType::all().into_iter().enumerate() {
        assert_eq!(kind.rank() as usize, i);
    }
}

#[test]
fn devices_are_listed_with_their_motors() {
    let list = get_devices(&readings());
    assert_eq!(
        list.motors,
        vec![
            motor("Toy", 0, MotorType::Rotation),
            motor("Toy", 0, MotorType::Vibration),
            motor("Toy", 1, MotorType::Vibration),
            motor("Lovense Max", 0, MotorType::Contraction),
        ]
    );
    assert_eq!(
        list.devices,
        vec![
            DeviceStatus {
                name: "Toy".to_string(),
                battery_level: Some(number(0.5)),
                rssi_level: None,
            },
            DeviceStatus {
                name: "Lovense Max".to_string(),
                battery_level: None,
                rssi_level: Some(-60),
            },
        ]
    );
}

fn configuration() -> Configuration {
    let mut configuration = Configuration::default();
    configuration.tags.insert("z".to_string(), motor("Toy", 1, MotorType::Vibration));
    configuration.tags.insert("gone".to_string(), motor("Absent", 0, MotorType::Linear));
    configuration.tags.insert("a".to_string(), motor("Toy", 1, MotorType::Vibration));
    configuration
}

#[test]
fn the_default_configuration_has_no_tags() {
    let configuration = Configuration::default();
    assert_eq!(configuration.port, DEFAULT_PORT);
    assert_eq!(configuration.tags.len(), 0);
    assert!(configuration.motor_from_tag("a").is_none());
}

#[test]
fn configured_motors_carry_their_tags() {
    let configuration = configuration();
    let tagged = motors_to_tagged(&configuration.tags);
    assert_eq!(
        tagged,
        vec![
            TaggedMotor::new(motor("Toy", 1, MotorType::Vibration), Some("z".to_string())),
            TaggedMotor::new(motor("Absent", 0, MotorType::Linear), Some("gone".to_string())),
            TaggedMotor::new(motor("Toy", 1, MotorType::Vibration), Some("a".to_string())),
        ]
    );
    assert_eq!(
        configuration.motor_from_tag("gone").unwrap(),
        &motor("Absent", 0, MotorType::Linear)
    );
}

#[test]
fn everything_is_listed_in_order() {
    let state = Some(ApplicationState { client: (), configuration: configuration() });
    let status = get_tagged_devices(&state, &readings()).unwrap();
    assert_eq!(
        status.motors,
        vec![
            TaggedMotor::new(motor("Absent", 0, MotorType::Linear), Some("gone".to_string())),
            TaggedMotor::new(motor("Lovense Max", 0, MotorType::Contraction), None),
            TaggedMotor::new(motor("Toy", 0, MotorType::Rotation), None),
            TaggedMotor::new(motor("Toy", 0, MotorType::Vibration), None),
            TaggedMotor::new(motor("Toy", 1, MotorType::Vibration), Some("a".to_string())),
            TaggedMotor::new(motor("Toy", 1, MotorType::Vibration), Some("z".to_string())),
        ]
    );
    assert_eq!(status.devices[0].name, "Lovense Max");
    assert_eq!(status.devices[1].name, "Toy");
    assert_eq!(status.configuration.port, DEFAULT_PORT);
    let copy = status.clone();
    assert_eq!(copy.motors, status.motors);
    assert_eq!(copy.devices, status.devices);
    assert_eq!(copy.configuration.tags.len(), 3);
}

#[test]
fn without_a_connection_nothing_is_listed() {
    let state: Option<ApplicationState<()>> = None;
    assert!(get_tagged_devices(&state, &readings()).is_none());
}

#[test]
fn sorting_keeps_all_items() {
    let item = |tag: Option<&str>| {
        TaggedMotor::new(motor("Toy", 0, MotorType::Linear), tag.map(|tag| tag.to_string()))
    };
    let sorted = sort(vec![item(Some("b")), item(None), item(Some("a")), item(Some("b"))]);
    assert_eq!(sorted, vec![item(None), item(Some("a")), item(Some("b")), item(Some("b"))]);
}

#[test]
fn the_server_is_described() {
    assert_eq!(haptic_status(&None), "device server running=None");
    let idle = ServerSnapshot { connected: false, devices: vec![] };
    assert_eq!(haptic_status(&Some(idle)), "device server running=false");
    let busy = ServerSnapshot {
        connected: true,
        devices: vec![
            device("Toy", &[("VibrateCmd", Some(2)), ("StopDeviceCmd", None)]),
            device("Other", &[]),
        ],
    };
    assert_eq!(
        haptic_status(&Some(busy)),
        "device server running=true\n  Toy\n    VibrateCmd: Some(2)\n    StopDeviceCmd: None\n  Other"
    );
}

#[test]
fn battery_levels_are_listed_by_line() {
    let mut all = readings();
    all.push(reading(device("Flat", &[("BatteryLevelCmd", None)]), None, None));
    let levels = battery_levels(&all);
    assert_eq!(levels, vec![number(0.5), number(0.0), number(0.0)]);
    let texts: Vec<String> =
        levels.iter().map(|level| format!("{}", f64::from_bits(level.bits))).collect();
    assert_eq!(battery_status(&Some(texts)), "0.5\n0\n0\n");
    assert_eq!(battery_status(&Some(vec![])), "");
    assert_eq!(battery_status(&None), "");
}

#[test]
fn the_list_does_not_depend_on_the_order_of_tags_and_devices() {
    let mut shuffled = Configuration::default();
    shuffled.tags.insert("a".to_string(), motor("Toy", 1, MotorType::Vibration));
    shuffled.tags.insert("z".to_string(), motor("Toy", 1, MotorType::Vibration));
    shuffled.tags.insert("gone".to_string(), motor("Absent", 0, MotorType::Linear));
    let mut reversed = readings();
    reversed.reverse();
    let first = Some(ApplicationState { client: (), configuration: configuration() });
    let second = Some(ApplicationState { client: (), configuration: shuffled });
    assert_eq!(
        get_tagged_devices(&first, &readings()).unwrap().motors,
        get_tagged_devices(&second, &reversed).unwrap().motors
    );
}
