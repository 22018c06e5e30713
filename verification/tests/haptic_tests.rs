use buttplug_lite::application::ApplicationState;
use buttplug_lite::command::{number_fields, Reading};
use buttplug_lite::configuration::Configuration;
use buttplug_lite::haptic::{
    handle_command, handle_socket, plan_commands, send_error_line, settings_to_commands,
    CommandReaction, DeviceCommand, IncomingMessage, SocketEvent,
};
use buttplug_lite::motor::{Motor, MotorType};
use buttplug_lite::named_map::NamedMap;
use buttplug_lite::number::Number;
use buttplug_lite::settings::{MotorSettings, Setting};

fn number(value: f64) -> Number {
    Number { bits: value.to_bits() }
}

fn message() -> IncomingMessage {
    IncomingMessage {
        text: None,
        is_binary: false,
        is_close: false,
        is_ping: false,
        is_pong: false,
        description: "Message".to_string(),
    }
}

fn told(event: SocketEvent) -> (Vec<(String, bool)>, Option<String>, bool) {
    let reaction = handle_socket(event);
    let lines = reaction.lines.into_iter().map(|line| (line.text, line.is_error)).collect();
    (lines, reaction.command, reaction.done)
}

#[test]
fn a_client_comes_and_goes() {
    assert_eq!(
        told(SocketEvent::Connected),
        (vec![("/haptic: client connected".to_string(), false)], None, false)
    );
    assert_eq!(
        told(SocketEvent::Ended),
        (vec![("/haptic: client connection lost".to_string(), false)], None, true)
    );
    assert_eq!(
        told(SocketEvent::Failed("reset".to_string())),
        (
            vec![
                ("/haptic: message read error: reset".to_string(), true),
                ("/haptic: client connection lost".to_string(), false),
            ],
            None,
            true
        )
    );
}

#[test]
fn text_is_a_command() {
    let text = IncomingMessage { text: Some("i:1".to_string()), ..message() };
    assert_eq!(told(SocketEvent::Received(text)), (vec![], Some("i:1".to_string()), false));
}

#[test]
fn other_messages_are_no_commands() {
    let binary = IncomingMessage { is_binary: true, ..message() };
    assert_eq!(
        told(SocketEvent::Received(binary)),
        (
            vec![("/haptic: received unexpected binary message: Message".to_string(), true)],
            None,
            false
        )
    );
    let close = IncomingMessage { is_close: true, ..message() };
    assert_eq!(
        told(SocketEvent::Received(close)),
        (vec![("/haptic: client closed connection".to_string(), false)], None, true)
    );
    let ping = IncomingMessage { is_ping: true, ..message() };
    assert_eq!(told(SocketEvent::Received(ping)), (vec![], None, false));
    let pong = IncomingMessage { is_pong: true, ..message() };
    assert_eq!(told(SocketEvent::Received(pong)), (vec![], None, false));
    assert_eq!(
        told(SocketEvent::Received(message())),
        (
            vec![("/haptic: received unhandled message type: Message".to_string(), true)],
            None,
            false
        )
    );
}

#[test]
fn settings_become_commands() {
    assert_eq!(settings_to_commands(MotorSettings::default()), vec![]);
    let mut settings = MotorSettings::default();
    settings.apply(0, Setting::Contraction(3));
    settings.apply(1, Setting::Position(100, number(0.5)));
    settings.apply(2, Setting::Rotation(number(0.25), false));
    settings.apply(3, Setting::Speed(number(1.0)));
    let commands = settings_to_commands(settings);
    assert_eq!(
        commands,
        vec![
            DeviceCommand::Vibrate([(3, number(1.0))].into_iter().collect()),
            DeviceCommand::Rotate([(2, (number(0.25), false))].into_iter().collect()),
            DeviceCommand::Linear([(1, (100, number(0.5)))].into_iter().collect()),
            DeviceCommand::RawWrite(b"Air:Level:3;".to_vec()),
        ]
    );
}

#[test]
fn only_the_first_device_of_a_name_is_driven() {
    let mut settings = MotorSettings::default();
    settings.apply(0, Setting::Speed(number(1.0)));
    let mut devices = NamedMap::new();
    devices.insert("Toy".to_string(), settings);
    let names = vec!["Other".to_string(), "Toy".to_string(), "Toy".to_string()];
    let plan = plan_commands(devices, &names);
    assert_eq!(plan.len(), 3);
    assert!(plan[0].is_empty());
    assert_eq!(plan[1], vec![DeviceCommand::Vibrate([(0, number(1.0))].into_iter().collect())]);
    assert!(plan[2].is_empty());
}

fn react(command: &str) -> CommandReaction {
    let mut configuration = Configuration::default();
    configuration.tags.insert(
        "i".to_string(),
        Motor {
            device_name: "Toy".to_string(),
            feature_index: 0,
            feature_type: MotorType::Vibration,
        },
    );
    let mut readings = NamedMap::new();
    for field in number_fields(&configuration, command) {
        let reading = match field.parse::<f64>() {
            Ok(value) => Reading::Value(number(value)),
            Err(error) => Reading::Invalid(format!("{:?}", error)),
        };
        readings.insert(field, reading);
    }
    let state = Some(ApplicationState { client: (), configuration });
    handle_command(&state, command, &readings, &vec!["Toy".to_string()])
}

#[test]
fn an_understood_command_drives_devices_and_feeds_the_watchdog() {
    let reaction = react("x:1;i:0.5");
    assert_eq!(reaction.lines.len(), 1);
    assert_eq!(reaction.lines[0].text, "/haptic: ignoring unknown motor tag x");
    assert!(reaction.lines[0].is_error);
    assert!(reaction.feed_watchdog);
    assert_eq!(
        reaction.plan,
        vec![vec![DeviceCommand::Vibrate([(0, number(0.5))].into_iter().collect())]]
    );
}

#[test]
fn a_command_that_is_not_understood_does_nothing() {
    let reaction = react("x:1;i:0.5;i");
    assert_eq!(reaction.lines.len(), 2);
    assert_eq!(
        reaction.lines[1].text,
        "/haptic: error parsing command: could not extract motor intensity from i"
    );
    assert!(reaction.lines[1].is_error);
    assert!(reaction.plan.is_empty());
    assert!(!reaction.feed_watchdog);
}

#[test]
fn without_a_connection_commands_are_dropped() {
    let state: Option<ApplicationState<()>> = None;
    let reaction = handle_command(&state, "i:1", &NamedMap::new(), &vec!["Toy".to_string()]);
    assert!(reaction.lines.is_empty());
    assert!(reaction.plan.is_empty());
    assert!(!reaction.feed_watchdog);
}

#[test]
fn a_refused_command_is_told() {
    let line = send_error_line("gone");
    assert_eq!(line.text, "/haptic: error sending command gone");
    assert!(line.is_error);
}

#[test]
fn different_settings_give_different_commands() {
    let choices = [
        Setting::Speed(number(0.5)),
        Setting::Speed(number(1.0)),
        Setting::Rotation(number(0.5), true),
        Setting::Rotation(number(0.5), false),
        Setting::Position(10, number(0.5)),
        Setting::Position(20, number(0.5)),
        Setting::Contraction(0),
        Setting::Contraction(3),
    ];
    for a in choices {
        for b in choices {
            let mut first = MotorSettings::default();
            first.apply(0, a);
            let mut second = MotorSettings::default();
            second.apply(0, b);
            assert_eq!(settings_to_commands(first) == settings_to_commands(second), a == b);
        }
    }
}

/// What is done for a client: each thing told to the device, and each feed.
fn converse(events: Vec<SocketEvent>) -> Vec<String> {
    let mut deeds = Vec::new();
    for event in events {
        let reaction = handle_socket(event);
        if let Some(command) = reaction.command {
            let reaction = react(&command);
            for commands in reaction.plan {
                for command in commands {
                    deeds.push(format!("{:?}", command));
                }
            }
            if reaction.feed_watchdog {
                deeds.push("feed".to_string());
            }
        }
        if reaction.done {
            break;
        }
    }
    deeds
}

fn text(command: &str) -> SocketEvent {
    SocketEvent::Received(IncomingMessage { text: Some(command.to_string()), ..message() })
}

fn vibrate(speed: f64) -> String {
    format!("{:?}", DeviceCommand::Vibrate([(0, number(speed))].into_iter().collect()))
}

#[test]
fn the_watchdog_is_fed_once_per_understood_text() {
    let close = SocketEvent::Received(IncomingMessage { is_close: true, ..message() });
    let deeds = converse(vec![
        SocketEvent::Connected,
        text("i:0.5"),
        text("i"),
        text("unknown:1"),
        text(""),
        text("i:1;i:0.25"),
        close,
        text("i:0.75"),
    ]);
    let feed = "feed".to_string();
    assert_eq!(
        deeds,
        vec![vibrate(0.5), feed.clone(), feed.clone(), feed.clone(), vibrate(0.25), feed]
    );
}

#[test]
fn idle_messages_change_nothing() {
    let binary = || SocketEvent::Received(IncomingMessage { is_binary: true, ..message() });
    let ping = || SocketEvent::Received(IncomingMessage { is_ping: true, ..message() });
    let pong = || SocketEvent::Received(IncomingMessage { is_pong: true, ..message() });
    let plain = converse(vec![SocketEvent::Connected, text("i:0.5"), text("i:1"), text("i")]);
    let mixed = converse(vec![
        ping(),
        SocketEvent::Connected,
        binary(),
        text("i:0.5"),
        pong(),
        ping(),
        text("i:1"),
        binary(),
        text("i"),
        pong(),
    ]);
    assert_eq!(plain.len(), 4);
    assert_eq!(plain, mixed);
}
