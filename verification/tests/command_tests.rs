use buttplug_lite::command::{
    build_vibration_map, lacks_message, misreads_message, number_fields, numbers_are_read,
    read_command, Reading,
};
use buttplug_lite::configuration::Configuration;
use buttplug_lite::motor::{Motor, MotorType};
use buttplug_lite::named_map::NamedMap;
use buttplug_lite::number::Number;
use buttplug_lite::settings::MotorSettings;

fn number(value: f64) -> Number {
    Number { bits: value.to_bits() }
}

fn value(number: Number) -> f64 {
    f64::from_bits(number.bits)
}

fn motor(device: &str, index: u32, kind: MotorType) -> Motor {
    Motor {
        device_name: device.to_string(),
        feature_index: index,
        feature_type: kind,
    }
}

fn configuration() -> Configuration {
    let mut configuration = Configuration::default();
    let tags = &mut configuration.tags;
    tags.insert("i".to_string(), motor("Toy", 0, MotorType::Vibration));
    tags.insert("o".to_string(), motor("Toy", 1, MotorType::Vibration));
    tags.insert("r".to_string(), motor("Toy", 0, MotorType::Rotation));
    tags.insert("l".to_string(), motor("Stroker", 2, MotorType::Linear));
    tags.insert("c".to_string(), motor("Lovense Max", 0, MotorType::Contraction));
    configuration
}

fn read_all(configuration: &Configuration, command: &str) -> NamedMap<Reading> {
    let mut readings = NamedMap::new();
    for field in number_fields(configuration, command) {
        let reading = match field.parse::<f64>() {
            Ok(value) => Reading::Value(number(value)),
            Err(error) => Reading::Invalid(format!("{:?}", error)),
        };
        readings.insert(field, reading);
    }
    readings
}

fn run(command: &str) -> Result<NamedMap<MotorSettings>, String> {
    let configuration = configuration();
    let readings = read_all(&configuration, command);
    build_vibration_map(&configuration, command, &readings)
}

fn failure(command: &str) -> String {
    match run(command) {
        Ok(_) => panic!("{} was understood", command),
        Err(message) => message,
    }
}

fn speed(command: &str, index: u32) -> f64 {
    value(run(command).unwrap().get("Toy").unwrap().speed_map[&index])
}

fn rotation(command: &str) -> (f64, bool) {
    let (speed, clockwise) = run(command).unwrap().get("Toy").unwrap().rotate_map[&0];
    (value(speed), clockwise)
}

#[test]
fn two_motors_of_one_device() {
    let devices = run("i:0.6;o:0.0").unwrap();
    assert_eq!(devices.len(), 1);
    let toy = devices.get("Toy").unwrap();
    assert_eq!(toy.speed_map.len(), 2);
    assert_eq!(value(toy.speed_map[&0]), 0.6);
    assert_eq!(value(toy.speed_map[&1]), 0.0);
    assert!(toy.rotate_map.is_empty());
    assert!(toy.linear_map.is_empty());
    assert_eq!(toy.contraction_hack, None);
}

#[test]
fn several_devices() {
    let devices = run("i:1;l:250:0.25;c:2;r:-0.5").unwrap();
    assert_eq!(devices.len(), 3);
    let (duration, position) = devices.get("Stroker").unwrap().linear_map[&2];
    assert_eq!(duration, 250);
    assert_eq!(value(position), 0.25);
    assert_eq!(devices.get("Lovense Max").unwrap().contraction_hack, Some(2));
    let (speed, clockwise) = devices.get("Toy").unwrap().rotate_map[&0];
    assert_eq!(value(speed), 0.5);
    assert!(!clockwise);
}

#[test]
fn strengths_are_clamped() {
    assert_eq!(speed("i:7.5", 0), 1.0);
    assert_eq!(speed("i:-3", 0), 0.0);
    assert_eq!(speed("i:inf", 0), 1.0);
    assert_eq!(speed("i:1e-3", 0), 0.001);
    assert!(speed("i:NaN", 0).is_nan());
    assert!(speed("i:-0.0", 0).is_sign_negative());
}

#[test]
fn positions_and_levels_are_clamped() {
    let devices = run("l:+4294967295:2;c:200").unwrap();
    let (duration, position) = devices.get("Stroker").unwrap().linear_map[&2];
    assert_eq!(duration, u32::MAX);
    assert_eq!(value(position), 1.0);
    assert_eq!(devices.get("Lovense Max").unwrap().contraction_hack, Some(3));
}

#[test]
fn rotation_sign_becomes_direction() {
    assert_eq!(rotation("r:0.75"), (0.75, true));
    assert_eq!(rotation("r:-0.75"), (0.75, false));
    assert_eq!(rotation("r:-9"), (1.0, false));
    assert_eq!(rotation("r:9"), (1.0, true));
    assert_eq!(rotation("r:-0.0"), (0.0, true));
    let (speed, clockwise) = rotation("r:NaN");
    assert!(speed.is_nan());
    assert!(!clockwise);
}

#[test]
fn missing_fields_are_named() {
    assert_eq!(failure("i"), "could not extract motor intensity from i");
    assert_eq!(failure("l"), "could not extract motor duration from l");
    assert_eq!(failure("l:5"), "could not extract motor position from l:5");
    assert_eq!(failure("r"), "could not extract motor speed from r");
    assert_eq!(failure("c"), "could not extract motor speed from c");
}

#[test]
fn unreadable_fields_are_named() {
    assert_eq!(
        failure("i:fast"),
        format!(
            "could not parse motor intensity from fast: {:?}",
            "fast".parse::<f64>().unwrap_err()
        )
    );
    assert_eq!(
        failure("l:5:"),
        format!("could not parse motor position from : {:?}", "".parse::<f64>().unwrap_err())
    );
    assert_eq!(
        failure("r:x"),
        format!("could not parse motor speed from x: {:?}", "x".parse::<f64>().unwrap_err())
    );
    assert_eq!(
        failure("l:-5:0.5"),
        format!("could not parse motor duration from -5: {:?}", "-5".parse::<u32>().unwrap_err())
    );
    assert_eq!(
        failure("l:4294967296:0.5"),
        format!(
            "could not parse motor duration from 4294967296: {:?}",
            "4294967296".parse::<u32>().unwrap_err()
        )
    );
    assert_eq!(
        failure("c:256"),
        format!(
            "could not parse motor contraction from 256: {:?}",
            "256".parse::<u8>().unwrap_err()
        )
    );
    assert_eq!(
        failure("c:+"),
        format!("could not parse motor contraction from +: {:?}", "+".parse::<u8>().unwrap_err())
    );
    assert_eq!(
        failure("c:"),
        format!("could not parse motor contraction from : {:?}", "".parse::<u8>().unwrap_err())
    );
}

#[test]
fn a_bad_duration_is_noticed_before_a_missing_position() {
    assert_eq!(
        failure("l:x"),
        format!("could not parse motor duration from x: {:?}", "x".parse::<u32>().unwrap_err())
    );
}

#[test]
fn further_fields_are_passed_over() {
    assert_eq!(speed("i:0.5:0.75:x", 0), 0.5);
}

#[test]
fn the_first_failure_decides() {
    assert_eq!(failure("i:0.5;o;c:x"), "could not extract motor intensity from o");
    assert_eq!(failure("i:0.5;o;o:0.5"), "could not extract motor intensity from o");
}

#[test]
fn the_last_setting_wins() {
    assert_eq!(speed("i:0.1;o:0.2;i:0.3", 0), 0.3);
    assert_eq!(speed("i:0.1;o:0.2;i:0.3", 1), 0.2);
}

#[test]
fn nothing_is_asked_of_other_motors() {
    let devices = run("i:0.5").unwrap();
    assert!(devices.get("Stroker").is_none());
    assert!(!devices.get("Toy").unwrap().speed_map.contains_key(&1));
}

#[test]
fn unknown_tags_are_passed_over() {
    let configuration = configuration();
    let command = "x:0.5;i:0.5;;y";
    let readings = read_all(&configuration, command);
    let report = read_command(&configuration, command, &readings);
    assert_eq!(report.ignored, vec!["x".to_string(), "".to_string(), "y".to_string()]);
    let devices = report.outcome.unwrap();
    assert_eq!(devices.len(), 1);
    assert_eq!(value(devices.get("Toy").unwrap().speed_map[&0]), 0.5);
}

#[test]
fn unknown_tags_before_a_failure_are_told() {
    let configuration = configuration();
    let command = "x:0.5;i;y";
    let readings = read_all(&configuration, command);
    let report = read_command(&configuration, command, &readings);
    assert_eq!(report.ignored, vec!["x".to_string()]);
    assert!(report.outcome.is_err());
}

#[test]
fn a_final_semicolon_is_optional() {
    assert_eq!(speed("i:0.25;", 0), 0.25);
    assert_eq!(speed("i:0.25", 0), 0.25);
}

#[test]
fn the_empty_command_asks_nothing() {
    assert_eq!(run("").unwrap().len(), 0);
}

#[test]
fn commands_can_be_strung_together() {
    let devices = run("i:0.25;o:0.5;i:0.75").unwrap();
    let toy = devices.get("Toy").unwrap();
    assert_eq!(value(toy.speed_map[&0]), 0.75);
    assert_eq!(value(toy.speed_map[&1]), 0.5);
}

#[test]
fn fields_to_read_are_listed() {
    let configuration = configuration();
    assert_eq!(
        number_fields(&configuration, "i:0.6;x:1;l:10:0.5;c:3;r:-1;l:10;o"),
        vec!["0.6".to_string(), "0.5".to_string(), "-1".to_string()]
    );
}

#[test]
fn readings_of_other_fields_do_not_count() {
    let configuration = configuration();
    let mut readings = read_all(&configuration, "i:0.5");
    readings.insert("0.75".to_string(), Reading::Invalid("no".to_string()));
    let devices = build_vibration_map(&configuration, "i:0.5", &readings).unwrap();
    assert_eq!(value(devices.get("Toy").unwrap().speed_map[&0]), 0.5);
}

#[test]
fn messages_for_people() {
    assert_eq!(lacks_message("tag", "line"), "could not extract motor tag from line");
    assert_eq!(misreads_message("a", "b", "c"), "could not parse motor a from b: c");
}

#[test]
fn a_command_is_ready_once_its_numbers_are_read() {
    let configuration = configuration();
    let command = "i:0.5;l:10:0.25;c:3";
    let mut readings = read_all(&configuration, "i:0.5");
    assert!(!numbers_are_read(&configuration, command, &readings));
    readings.insert("0.25".to_string(), Reading::Value(number(0.25)));
    assert!(numbers_are_read(&configuration, command, &readings));
    assert!(numbers_are_read(&configuration, "", &NamedMap::new()));
}

#[test]
fn empty_lines_are_passed_over() {
    let plain = run("i:0.5;o:1").unwrap();
    for command in ["i:0.5;;o:1", ";i:0.5;o:1", "i:0.5;o:1;;", ";;i:0.5;;;o:1;;;"] {
        let devices = run(command).unwrap();
        assert_eq!(devices.len(), plain.len());
        assert_eq!(devices.get("Toy"), plain.get("Toy"));
    }
    for command in ["", ";", ";;"] {
        assert_eq!(run(command).unwrap().len(), 0);
    }
    for command in ["i", ";i", "i;;", ";;i;"] {
        assert_eq!(failure(command), "could not extract motor intensity from i");
    }
}

#[test]
fn an_empty_tag_makes_empty_lines_count() {
    let mut configuration = configuration();
    configuration.tags.insert("".to_string(), motor("Toy", 9, MotorType::Vibration));
    let readings = read_all(&configuration, "i:0.5;;o:1");
    assert!(build_vibration_map(&configuration, "i:0.5;o:1", &readings).is_ok());
    assert!(build_vibration_map(&configuration, "i:0.5;;o:1", &readings).is_err());
}

#[test]
fn the_devices_asked_are_the_named_ones() {
    let devices = run("i:1;unknown:1;c:2;o:1").unwrap();
    assert!(devices.get("Toy").is_some());
    assert!(devices.get("Lovense Max").is_some());
    assert!(devices.get("Stroker").is_none());
    assert_eq!(devices.len(), 2);
}
