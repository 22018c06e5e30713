use buttplug_lite::application::{
    connection_made, handle_event, must_load, scan_line, server_connected, update_configuration,
    ApplicationState, ClientEvent, LoadSignal, Reconnector, ShutdownMessage,
    BUTTPLUG_SERVER_RECONNECT_DELAY_MILLIS,
};
use buttplug_lite::configuration::{Configuration, DEFAULT_PORT};
use buttplug_lite::log::{log_level, LogLevel};
use buttplug_lite::motor::{Motor, MotorType};
use buttplug_lite::web_server::{
    proxy_server_address, ServerAction, ServerEvent, ServerPhase, WebServer,
};

fn with_port(port: u16) -> Configuration {
    let mut configuration = Configuration::default();
    configuration.port = port;
    configuration.tags.insert(
        "tag".to_string(),
        Motor {
            device_name: "Toy".to_string(),
            feature_index: 0,
            feature_type: MotorType::Vibration,
        },
    );
    configuration
}

fn connected(port: u16) -> Option<ApplicationState<u8>> {
    Some(ApplicationState { client: 7, configuration: with_port(port) })
}

#[test]
fn a_new_port_restarts_the_web_server() {
    let mut state = connected(1000);
    let update = update_configuration(&mut state, with_port(2000), Ok(())).unwrap();
    assert_eq!(update.signal, Some(ShutdownMessage::Restart));
    assert_eq!(update.configuration.port, 2000);
    let state = state.unwrap();
    assert_eq!(state.client, 7);
    assert_eq!(state.configuration.port, 2000);
    assert_eq!(state.configuration.tags.len(), 1);
    assert_eq!(update.conclude(Ok(())).unwrap().port, 2000);
}

#[test]
fn the_same_port_restarts_nothing() {
    let mut state = connected(1000);
    let update = update_configuration(&mut state, Configuration { port: 1000, ..Default::default() }, Ok(())).unwrap();
    assert_eq!(update.signal, None);
    assert_eq!(state.unwrap().configuration.tags.len(), 0);
    assert_eq!(update.conclude(Err("unheard".to_string())).unwrap().port, 1000);
}

#[test]
fn a_signal_that_is_not_heard_is_an_error() {
    let mut state = connected(1000);
    let update = update_configuration(&mut state, with_port(2000), Ok(())).unwrap();
    assert_eq!(update.conclude(Err("unheard".to_string())).unwrap_err(), "unheard");
}

#[test]
fn what_could_not_be_saved_is_not_put_in_force() {
    let mut state = connected(1000);
    let error = update_configuration(&mut state, with_port(2000), Err("disk full".to_string()));
    assert_eq!(error.unwrap_err(), "disk full");
    assert_eq!(state.unwrap().configuration.port, 1000);
}

#[test]
fn without_a_connection_nothing_is_updated() {
    let mut state: Option<ApplicationState<u8>> = None;
    let error = update_configuration(&mut state, with_port(2000), Ok(())).unwrap_err();
    assert_eq!(error, "cannot update configuration until after initial haptic server startup");
    assert!(state.is_none());
}

#[test]
fn a_configuration_in_force_stays() {
    let mut state = connected(1000);
    assert!(server_connected(&mut state, &mut None, 8, None).is_none());
    let state = state.unwrap();
    assert_eq!(state.client, 8);
    assert_eq!(state.configuration.port, 1000);
}

#[test]
fn a_loaded_configuration_comes_into_force() {
    let mut state = None;
    assert!(server_connected(&mut state, &mut None, 8, Some(Ok(with_port(1234)))).is_none());
    assert_eq!(state.unwrap().configuration.port, 1234);
}

#[test]
fn the_default_configuration_fills_in() {
    let mut state = None;
    let line = server_connected(&mut state, &mut None, 8, Some(Err("no file".to_string()))).unwrap();
    assert_eq!(line.text, "falling back to default config due to error: no file");
    assert!(line.is_error);
    let state = state.unwrap();
    assert_eq!(state.configuration.port, DEFAULT_PORT);
    assert_eq!(state.configuration.tags.len(), 0);
}

#[test]
fn the_scan_is_announced() {
    let started = scan_line(Ok(()));
    assert_eq!(started.text, "buttplug_server: starting device scan");
    assert!(!started.is_error);
    let failed = scan_line(Err("no radio".to_string()));
    assert_eq!(failed.text, "buttplug_server: scan failure: no radio");
    assert!(failed.is_error);
}

#[test]
fn events_are_told() {
    let cases = vec![
        (Some(ClientEvent::DeviceAdded("Toy".to_string())), "buttplug_server: device connected: Toy"),
        (
            Some(ClientEvent::DeviceRemoved("Toy".to_string())),
            "buttplug_server: device disconnected: Toy",
        ),
        (Some(ClientEvent::PingTimeout), "buttplug_server: ping timeout"),
        (Some(ClientEvent::Error("x".to_string())), "buttplug_server: server error: x"),
        (Some(ClientEvent::ScanningFinished), "buttplug_server: device scan finished"),
        (Some(ClientEvent::ServerConnect), "buttplug_server: server connected"),
        (None, "buttplug_server: error reading haptic event"),
    ];
    for (event, text) in cases {
        let mut state = connected(1000);
        let is_error = event.is_none();
        let mut kept = Some(with_port(2000));
        let reaction = handle_event(&mut state, &mut kept, event);
        assert_eq!(reaction.line.text, text);
        assert_eq!(reaction.line.is_error, is_error);
        assert!(!reaction.disconnected);
        assert_eq!(state.unwrap().configuration.port, 1000);
        assert_eq!(kept.unwrap().port, 2000);
    }
}

#[test]
fn a_disconnect_ends_the_state() {
    let mut state = connected(1000);
    let mut kept = None;
    let reaction = handle_event(&mut state, &mut kept, Some(ClientEvent::ServerDisconnect));
    assert_eq!(reaction.line.text, "buttplug_server: server disconnected");
    assert!(!reaction.line.is_error);
    assert!(reaction.disconnected);
    assert!(state.is_none());
    assert_eq!(kept.unwrap().port, 1000);
}

#[test]
fn a_reconnect_reuses_the_configuration() {
    let choices = vec![
        None,
        Some(Ok(with_port(2000))),
        Some(Err("no file".to_string())),
    ];
    for loaded in choices {
        let mut state = connected(1000);
        let mut kept = None;
        handle_event(&mut state, &mut kept, Some(ClientEvent::ScanningFinished));
        handle_event(&mut state, &mut kept, Some(ClientEvent::ServerDisconnect));
        handle_event(&mut state, &mut kept, None);
        assert!(state.is_none());
        assert!(server_connected(&mut state, &mut kept, 8, loaded).is_none());
        assert!(kept.is_none());
        let state = state.unwrap();
        assert_eq!(state.client, 8);
        assert_eq!(state.configuration.port, 1000);
        assert_eq!(state.configuration.tags.len(), 1);
    }
}

#[test]
fn a_reconnect_reuses_what_was_configured_last() {
    let mut state = connected(1000);
    let mut kept = None;
    update_configuration(&mut state, with_port(3000), Ok(())).unwrap();
    handle_event(&mut state, &mut kept, Some(ClientEvent::ServerDisconnect));
    // a second disconnect has nothing to keep and loses nothing
    handle_event(&mut state, &mut kept, Some(ClientEvent::ServerDisconnect));
    server_connected(&mut state, &mut kept, 8, None);
    assert_eq!(state.unwrap().configuration.port, 3000);
}

#[test]
fn what_is_in_force_goes_before_what_is_kept() {
    let mut state = connected(1000);
    let mut kept = Some(with_port(2000));
    assert!(server_connected(&mut state, &mut kept, 8, None).is_none());
    assert!(kept.is_none());
    assert_eq!(state.unwrap().configuration.port, 1000);
}

/// One attempt to connect: what becomes of the promise.
fn attempt(
    reconnector: &mut Reconnector,
    state: &mut Option<ApplicationState<u8>>,
    succeeds: bool,
) -> LoadSignal {
    if !succeeds {
        return reconnector.connection_failed();
    }
    let mut kept = None;
    let loaded = if must_load(state, &kept) { Some(Ok(with_port(1000))) } else { None };
    connection_made(reconnector, state, &mut kept, 8, loaded).1
}

#[test]
fn the_promise_is_settled_once() {
    let mut state = None;
    let mut reconnector = Reconnector::new();
    assert_eq!(attempt(&mut reconnector, &mut state, true), LoadSignal::Send);
    assert_eq!(attempt(&mut reconnector, &mut state, true), LoadSignal::Settled);
    let mut state = None;
    let mut unlucky = Reconnector::new();
    assert_eq!(attempt(&mut unlucky, &mut state, false), LoadSignal::GiveUp);
    assert!(state.is_none());
    assert_eq!(attempt(&mut unlucky, &mut state, true), LoadSignal::Settled);
    assert!(state.is_some());
}

#[test]
fn the_promise_is_kept_with_a_configuration_in_force() {
    let mut reconnector = Reconnector::new();
    let mut state = None;
    let mut kept = None;
    let (line, signal) =
        connection_made(&mut reconnector, &mut state, &mut kept, 8, Some(Ok(with_port(1234))));
    assert!(line.is_none());
    assert_eq!(signal, LoadSignal::Send);
    let application = state.as_ref().unwrap();
    assert_eq!(application.client, 8);
    assert_eq!(application.configuration.port, 1234);

    handle_event(&mut state, &mut kept, Some(ClientEvent::ServerDisconnect));
    let (line, signal) = connection_made(&mut reconnector, &mut state, &mut kept, 9, None);
    assert!(line.is_none());
    assert_eq!(signal, LoadSignal::Settled);
    assert!(kept.is_none());
    let application = state.unwrap();
    assert_eq!(application.client, 9);
    assert_eq!(application.configuration.port, 1234);
}

#[test]
fn the_promise_is_kept_with_the_default_configuration_too() {
    let mut reconnector = Reconnector::new();
    let mut state = None;
    let loaded = Some(Err("no file".to_string()));
    let (line, signal) = connection_made(&mut reconnector, &mut state, &mut None, 8, loaded);
    assert_eq!(line.unwrap().text, "falling back to default config due to error: no file");
    assert_eq!(signal, LoadSignal::Send);
    assert_eq!(state.unwrap().configuration.port, DEFAULT_PORT);
}

#[test]
fn the_disk_is_read_on_the_initial_connection_only() {
    let mut state: Option<ApplicationState<u8>> = None;
    let mut kept = None;
    assert!(must_load(&state, &kept));
    server_connected(&mut state, &mut kept, 8, Some(Ok(with_port(1000))));
    assert!(!must_load(&state, &kept));
    handle_event(&mut state, &mut kept, Some(ClientEvent::ServerDisconnect));
    assert!(state.is_none());
    assert!(!must_load(&state, &kept));
}

#[test]
fn every_attempt_is_followed_by_the_same_wait() {
    assert_eq!(BUTTPLUG_SERVER_RECONNECT_DELAY_MILLIS, 5000);
    let mut reconnector = Reconnector::new();
    let mut state = None;
    let mut signals = Vec::new();
    let mut waits = Vec::new();
    for succeeds in [false, false, true, true] {
        signals.push(attempt(&mut reconnector, &mut state, succeeds));
        waits.push(reconnector.pause());
    }
    assert_eq!(
        signals,
        vec![LoadSignal::GiveUp, LoadSignal::Settled, LoadSignal::Settled, LoadSignal::Settled]
    );
    assert_eq!(waits, vec![5000, 5000, 5000, 5000]);
}

#[test]
fn verbosity_sets_the_level() {
    assert_eq!(log_level(0), None);
    assert_eq!(log_level(1), Some(LogLevel::Info));
    assert_eq!(log_level(2), Some(LogLevel::Debug));
    assert_eq!(log_level(9), Some(LogLevel::Debug));
}

#[test]
fn the_window_opens_once() {
    let mut server = WebServer::new();
    let nothing = ServerAction { close: false, bind: false, start_gui: false, finish: false };
    assert_eq!(
        server.step(ServerEvent::ConfigurationLoaded),
        ServerAction { bind: true, ..nothing }
    );
    assert_eq!(server.step(ServerEvent::Bound), ServerAction { start_gui: true, ..nothing });
    assert_eq!(
        server.step(ServerEvent::Signal(Some(ShutdownMessage::Restart))),
        ServerAction { close: true, bind: true, ..nothing }
    );
    assert_eq!(server.step(ServerEvent::Bound), nothing);
    assert_eq!(
        server.step(ServerEvent::Signal(Some(ShutdownMessage::Shutdown))),
        ServerAction { close: true, finish: true, ..nothing }
    );
    assert_eq!(server.phase, ServerPhase::Stopped);
}

#[test]
fn the_web_server_ends_when_it_cannot_listen_or_nobody_is_left() {
    let mut server = WebServer::new();
    server.step(ServerEvent::ConfigurationLoaded);
    let action = server.step(ServerEvent::BindFailed);
    assert!(action.finish && !action.start_gui && !action.close && !action.bind);
    let mut alone = WebServer::new();
    alone.step(ServerEvent::ConfigurationLoaded);
    alone.step(ServerEvent::Bound);
    let action = alone.step(ServerEvent::Signal(None));
    assert!(action.finish && action.close && !action.bind);
}

#[test]
fn each_event_has_its_phase() {
    let events = [
        ServerEvent::ConfigurationLoaded,
        ServerEvent::Bound,
        ServerEvent::BindFailed,
        ServerEvent::Signal(None),
    ];
    let cases = [
        (ServerPhase::Starting, [true, false, false, false]),
        (ServerPhase::Binding, [false, true, true, false]),
        (ServerPhase::Serving, [false, false, false, true]),
        (ServerPhase::Stopped, [false, false, false, false]),
    ];
    for (phase, expected) in cases {
        let server = WebServer { phase, gui_started: false };
        assert_eq!(events.map(|event| server.can_happen(event)), expected);
    }
}

#[test]
fn only_this_machine_is_served() {
    assert_eq!(proxy_server_address(3000), ([127, 0, 0, 1], 3000));
}
