//! The state of the application: the link to the device server and the user's
//! configuration, from connecting to disconnecting.
use crate::configuration::Configuration;
use crate::log::LogLine;
use vstd::prelude::*;

verus! {

/// How long to wait before connecting to the device server again.
pub const BUTTPLUG_SERVER_RECONNECT_DELAY_MILLIS: u64 = 5000;

/// The name of this program from the device server's point of view.
pub const BUTTPLUG_CLIENT_NAME: &'static str = "in-process-client";

/// How lines about the device server start.
pub const LOG_PREFIX_BUTTPLUG_SERVER: &'static str = "buttplug_server";

/// What the application holds while it is connected: the link to the device
/// server, of whatever type, and the configuration.
pub struct ApplicationState<C> {
    pub client: C,
    pub configuration: Configuration,
}

/// What the web server is told to do.
#[derive(Clone, Copy, Debug, PartialEq, Eq, Structural)]
pub enum ShutdownMessage {
    Restart,
    Shutdown,
}

/// What came of a change of configuration: the configuration that is now in
/// force, and what the web server has to be told.
#[derive(Debug)]
pub struct ConfigurationUpdate {
    pub configuration: Configuration,
    pub signal: Option<ShutdownMessage>,
}

impl ConfigurationUpdate {
    /// Whether the change ended with this result.
    pub open spec fn is_concluded(
        self,
        sent: Result<(), String>,
        result: Result<Configuration, String>,
    ) -> bool {
        match (self.signal, sent) {
            (Some(_), Err(error)) => result matches Err(message) && message@ == error@,
            _ => result == Ok::<Configuration, String>(self.configuration),
        }
    }

    /// Ends the change: `sent` says whether the web server could be told. Where
    /// there was nothing to tell, it does not count.
    pub fn conclude(self, sent: Result<(), String>) -> (result: Result<Configuration, String>)
        ensures
            self.is_concluded(sent, result),
            match (self.signal, sent) {
                (Some(_), Err(error)) => result matches Err(message) && message@ == error@,
                _ => result == Ok::<Configuration, String>(self.configuration),
            },
    {
        match (self.signal, sent) {
            (Some(_), Err(error)) => Err(error),
            _ => Ok(self.configuration),
        }
    }
}

/// Puts a configuration in force, once it has been saved. The web server has to
/// restart if the port has changed. Without a connection there is nothing to
/// update.
pub fn update_configuration<C>(
    state: &mut Option<ApplicationState<C>>,
    configuration: Configuration,
    saved: Result<(), String>,
) -> (result: Result<ConfigurationUpdate, String>)
    ensures
        is_updated(*old(state), configuration, saved, *final(state), result),
        match saved {
            Err(error) => {
                &&& *final(state) == *old(state)
                &&& result matches Err(message)
                &&& message@ == error@
            },
            Ok(_) => match *old(state) {
                None => {
                    &&& *final(state) == None::<ApplicationState<C>>
                    &&& result matches Err(message)
                    &&& message@
                        == "cannot update configuration until after initial haptic server startup"@
                },
                Some(previous) => {
                    &&& *final(state) matches Some(next)
                    &&& next.client == previous.client
                    &&& next.configuration@ == configuration@
                    &&& result matches Ok(update)
                    &&& update.configuration@ == configuration@
                    &&& update.signal == (if configuration@.port != previous.configuration@.port {
                        Some(ShutdownMessage::Restart)
                    } else {
                        None
                    })
                },
            },
        },
{
    match saved {
        Err(error) => Err(error),
        Ok(_) => {
            match state.take() {
                Some(previous) => {
                    let new_port: u16 = configuration.port;
                    let signal = if new_port != previous.configuration.port {
                        Some(ShutdownMessage::Restart)
                    } else {
                        None
                    };
                    *state = Some(
                        ApplicationState {
                            client: previous.client,
                            configuration: configuration.clone(),
                        },
                    );
                    Ok(ConfigurationUpdate { configuration, signal })
                },
                None => Err(
                    "cannot update configuration until after initial haptic server startup".to_owned(),
                ),
            }
        },
    }
}

/// The line for a configuration that could not be loaded.
pub open spec fn fallback_line(error: Seq<char>) -> crate::log::LineView {
    crate::log::LineView {
        text: "falling back to default config due to error: "@ + error,
        is_error: true,
    }
}

/// The configuration that the application holds: the one in force, or without a
/// connection the one that was in force last.
pub open spec fn held<C>(
    state: Option<ApplicationState<C>>,
    kept: Option<Configuration>,
) -> Option<Configuration> {
    match state {
        Some(application) => Some(application.configuration),
        None => kept,
    }
}

/// Whether connecting puts a configuration in force, given the one that is held and
/// what was loaded from disk, and whether there is a line to tell. What is held is
/// used again. The disk counts only where nothing is held, and the default
/// configuration where loading failed.
pub open spec fn comes_into_force(
    held: Option<Configuration>,
    loaded: Option<Result<Configuration, String>>,
    configuration: Configuration,
    line: Option<crate::log::LineView>,
) -> bool {
    match (held, loaded) {
        (Some(previous), _) => configuration == previous && line is None,
        (None, Some(Ok(read))) => configuration == read && line is None,
        (None, Some(Err(error))) => {
            &&& configuration@.port == crate::configuration::DEFAULT_PORT
            &&& configuration@.tags.len() == 0
            &&& line == Some(fallback_line(error@))
        },
        (None, None) => false,
    }
}

/// Whether a configuration has to be loaded from disk before connecting: on the
/// initial connection only, when none is held yet.
pub fn must_load<C>(
    state: &Option<ApplicationState<C>>,
    kept: &Option<Configuration>,
) -> (result: bool)
    ensures
        result == (held(*state, *kept) is None),
{
    state.is_none() && kept.is_none()
}

/// The device server is connected. A configuration that is in force stays so, and
/// one that was kept from an earlier connection comes into force again. Only where
/// there is neither, the one that was loaded from disk comes into force, or the
/// default one where loading failed, with a line that says so.
pub fn server_connected<C>(
    state: &mut Option<ApplicationState<C>>,
    kept: &mut Option<Configuration>,
    client: C,
    loaded: Option<Result<Configuration, String>>,
) -> (fallback: Option<LogLine>)
    requires
        *old(state) is None && *old(kept) is None ==> loaded is Some,
    ensures
        *final(kept) is None,
        *final(state) matches Some(next) && next.client == client && comes_into_force(
            held(*old(state), *old(kept)),
            loaded,
            next.configuration,
            match fallback {
                Some(line) => Some(line@),
                None => None,
            },
        ),
{
    let mut fallback: Option<LogLine> = None;
    let previous_configuration = kept.take();
    let configuration = match state.take() {
        Some(previous) => previous.configuration,
        None => match previous_configuration {
            Some(configuration) => configuration,
            None => match loaded.unwrap() {
                Ok(configuration) => configuration,
                Err(error) => {
                    let mut text = "falling back to default config due to error: ".to_owned();
                    text.append(error.as_str());
                    fallback = Some(LogLine { text, is_error: true });
                    Configuration::default()
                },
            },
        },
    };
    *state = Some(ApplicationState { client, configuration });
    fallback
}

/// The line about the start of the search for devices.
pub open spec fn told_of_scan(started: Result<(), String>) -> crate::log::LineView {
    match started {
        Ok(_) => crate::log::line(LOG_PREFIX_BUTTPLUG_SERVER@, "starting device scan"@, false),
        Err(error) => crate::log::line(
            LOG_PREFIX_BUTTPLUG_SERVER@,
            "scan failure: "@ + error@,
            true,
        ),
    }
}

/// The line about the start of the search for devices.
pub fn scan_line(started: Result<(), String>) -> (result: LogLine)
    ensures
        result@ == told_of_scan(started),
        result@ == match started {
            Ok(_) => crate::log::line(
                LOG_PREFIX_BUTTPLUG_SERVER@,
                "starting device scan"@,
                false,
            ),
            Err(error) => crate::log::line(
                LOG_PREFIX_BUTTPLUG_SERVER@,
                "scan failure: "@ + error@,
                true,
            ),
        },
{
    match started {
        Ok(_) => LogLine::about(LOG_PREFIX_BUTTPLUG_SERVER, "starting device scan", false),
        Err(error) => LogLine::with_detail(
            LOG_PREFIX_BUTTPLUG_SERVER,
            "scan failure: ",
            error.as_str(),
            true,
        ),
    }
}

/// What the device server reports.
#[derive(Debug, PartialEq)]
pub enum ClientEvent {
    /// A device of this name has come.
    DeviceAdded(String),
    /// A device of this name has gone.
    DeviceRemoved(String),
    PingTimeout,
    /// Something went wrong, described here.
    Error(String),
    ScanningFinished,
    ServerConnect,
    ServerDisconnect,
}

/// What follows from a report of the device server: the line for it, and whether
/// the connection has ended.
#[derive(Debug, PartialEq)]
pub struct EventReaction {
    pub line: LogLine,
    pub disconnected: bool,
}

/// The line for a report of the device server, or for one that could not be read.
pub open spec fn event_line(event: Option<ClientEvent>) -> crate::log::LineView {
    let text = match event {
        Some(ClientEvent::DeviceAdded(name)) => "device connected: "@ + name@,
        Some(ClientEvent::DeviceRemoved(name)) => "device disconnected: "@ + name@,
        Some(ClientEvent::PingTimeout) => "ping timeout"@,
        Some(ClientEvent::Error(error)) => "server error: "@ + error@,
        Some(ClientEvent::ScanningFinished) => "device scan finished"@,
        Some(ClientEvent::ServerConnect) => "server connected"@,
        Some(ClientEvent::ServerDisconnect) => "server disconnected"@,
        None => "error reading haptic event"@,
    };
    crate::log::line(LOG_PREFIX_BUTTPLUG_SERVER@, text, event is None)
}

/// The state after a report of the device server: a disconnect ends it.
pub open spec fn state_after<C>(
    state: Option<ApplicationState<C>>,
    event: Option<ClientEvent>,
) -> Option<ApplicationState<C>> {
    if event == Some(ClientEvent::ServerDisconnect) {
        None
    } else {
        state
    }
}

/// The configuration that is kept after a report of the device server: on a
/// disconnect, the one that was in force.
pub open spec fn kept_after<C>(
    state: Option<ApplicationState<C>>,
    kept: Option<Configuration>,
    event: Option<ClientEvent>,
) -> Option<Configuration> {
    if event == Some(ClientEvent::ServerDisconnect) {
        held(state, kept)
    } else {
        kept
    }
}

/// Reacts to a report of the device server. Only a disconnect ends the connection,
/// and with it the state; the configuration that was in force is kept for the next
/// connection. Everything else leaves the state as it is.
pub fn handle_event<C>(
    state: &mut Option<ApplicationState<C>>,
    kept: &mut Option<Configuration>,
    event: Option<ClientEvent>,
) -> (reaction: EventReaction)
    ensures
        reaction.line@ == event_line(event),
        reaction.disconnected == (event == Some(ClientEvent::ServerDisconnect)),
        *final(state) == state_after(*old(state), event),
        *final(kept) == kept_after(*old(state), *old(kept), event),
        reaction.disconnected ==> *final(state) is None && (*old(state) matches Some(application)
            ==> *final(kept) == Some(application.configuration)),
        reaction.disconnected && *old(state) is None ==> *final(kept) == *old(kept),
        !reaction.disconnected ==> *final(state) == *old(state) && *final(kept) == *old(kept),
{
    let part = LOG_PREFIX_BUTTPLUG_SERVER;
    match event {
        Some(event) => match event {
            ClientEvent::DeviceAdded(name) => EventReaction {
                line: LogLine::with_detail(part, "device connected: ", name.as_str(), false),
                disconnected: false,
            },
            ClientEvent::DeviceRemoved(name) => EventReaction {
                line: LogLine::with_detail(part, "device disconnected: ", name.as_str(), false),
                disconnected: false,
            },
            ClientEvent::PingTimeout => EventReaction {
                line: LogLine::about(part, "ping timeout", false),
                disconnected: false,
            },
            ClientEvent::Error(error) => EventReaction {
                line: LogLine::with_detail(part, "server error: ", error.as_str(), false),
                disconnected: false,
            },
            ClientEvent::ScanningFinished => EventReaction {
                line: LogLine::about(part, "device scan finished", false),
                disconnected: false,
            },
            ClientEvent::ServerConnect => EventReaction {
                line: LogLine::about(part, "server connected", false),
                disconnected: false,
            },
            ClientEvent::ServerDisconnect => {
                if let Some(application) = state.take() {
                    *kept = Some(application.configuration);
                }
                EventReaction {
                    line: LogLine::about(part, "server disconnected", false),
                    disconnected: true,
                }
            },
        },
        None => EventReaction {
            line: LogLine::about(part, "error reading haptic event", true),
            disconnected: false,
        },
    }
}

/// What becomes of the promise to say when the first configuration is loaded.
#[derive(Clone, Copy, Debug, PartialEq, Eq, Structural)]
pub enum LoadSignal {
    /// It is kept: a configuration is in force.
    Send,
    /// It is given up: the first attempt to connect has failed.
    GiveUp,
    /// It was kept or given up before.
    Settled,
}

/// The attempts to connect to the device server.
#[derive(Clone, Copy, Debug, PartialEq, Eq, Structural)]
pub struct Reconnector {
    pub attempted: bool,
}

impl Reconnector {
    /// Before any attempt.
    pub open spec fn spec_new() -> Reconnector {
        Reconnector { attempted: false }
    }

    /// What an attempt means for the promise.
    pub open spec fn signal(self, connected: bool) -> LoadSignal {
        if self.attempted {
            LoadSignal::Settled
        } else if connected {
            LoadSignal::Send
        } else {
            LoadSignal::GiveUp
        }
    }

    /// After one more attempt.
    pub open spec fn after(self, connected: bool) -> Reconnector {
        Reconnector { attempted: true }
    }

    /// How long to wait before the next attempt.
    pub open spec fn spec_pause(self) -> u64 {
        BUTTPLUG_SERVER_RECONNECT_DELAY_MILLIS
    }

    /// No attempt has been made.
    pub fn new() -> (reconnector: Reconnector)
        ensures
            reconnector == Reconnector::spec_new(),
    {
        Reconnector { attempted: false }
    }

    /// An attempt to connect has succeeded or failed. Only the first one settles
    /// the promise.
    fn attempt(&mut self, connected: bool) -> (signal: LoadSignal)
        ensures
            signal == old(self).signal(connected),
            *final(self) == old(self).after(connected),
    {
        let signal = if self.attempted {
            LoadSignal::Settled
        } else if connected {
            LoadSignal::Send
        } else {
            LoadSignal::GiveUp
        };
        self.attempted = true;
        signal
    }

    /// An attempt to connect has failed. The promise is given up if this was the
    /// first attempt; it is never kept.
    pub fn connection_failed(&mut self) -> (signal: LoadSignal)
        ensures
            signal == old(self).signal(false),
            signal != LoadSignal::Send,
            *final(self) == old(self).after(false),
    {
        self.attempt(false)
    }

    /// How many milliseconds to wait before the next attempt, once the last one has
    /// failed or its connection has ended.
    pub fn pause(&self) -> (millis: u64)
        ensures
            millis == self.spec_pause(),
    {
        BUTTPLUG_SERVER_RECONNECT_DELAY_MILLIS
    }
}

/// An attempt to connect has succeeded. A configuration comes into force, and then
/// the promise is kept if this was the first attempt: who waits for it finds the
/// configuration. The result is the line to tell, if there is one, and what becomes
/// of the promise.
pub fn connection_made<C>(
    reconnector: &mut Reconnector,
    state: &mut Option<ApplicationState<C>>,
    kept: &mut Option<Configuration>,
    client: C,
    loaded: Option<Result<Configuration, String>>,
) -> (outcome: (Option<LogLine>, LoadSignal))
    requires
        *old(state) is None && *old(kept) is None ==> loaded is Some,
    ensures
        *final(kept) is None,
        *final(state) matches Some(next) && next.client == client && comes_into_force(
            held(*old(state), *old(kept)),
            loaded,
            next.configuration,
            match outcome.0 {
                Some(line) => Some(line@),
                None => None,
            },
        ),
        outcome.1 == old(reconnector).signal(true),
        *final(reconnector) == old(reconnector).after(true),
        outcome.1 == LoadSignal::Send ==> *final(state) is Some,
{
    let fallback = server_connected(state, kept, client, loaded);
    let signal = reconnector.attempt(true);
    (fallback, signal)
}

/// One thing done to stay connected.
pub enum ReconnectStep {
    /// An attempt to connect, with what it means for the promise.
    Attempt(LoadSignal),
    /// A wait of so many milliseconds.
    Wait(u64),
}

/// The attempts after some of them, each of which succeeded or failed.
pub open spec fn reconnector_after(outcomes: Seq<bool>) -> Reconnector
    decreases outcomes.len(),
{
    if outcomes.len() == 0 {
        Reconnector::spec_new()
    } else {
        reconnector_after(outcomes.drop_last()).after(outcomes.last())
    }
}

/// All that is done to stay connected, in order: one attempt after the other, and a
/// wait behind each, whether it failed or its connection ended.
pub open spec fn reconnect_steps(outcomes: Seq<bool>) -> Seq<ReconnectStep>
    decreases outcomes.len(),
{
    if outcomes.len() == 0 {
        Seq::empty()
    } else {
        let before = reconnector_after(outcomes.drop_last());
        reconnect_steps(outcomes.drop_last()).push(
            ReconnectStep::Attempt(before.signal(outcomes.last())),
        ).push(ReconnectStep::Wait(before.after(outcomes.last()).spec_pause()))
    }
}

/// From the start on, attempts and waits take turns. The first attempt settles the
/// promise to say when the first configuration is loaded, and no later one does.
/// Behind each attempt stands the same wait.
pub proof fn law_reconnecting(outcomes: Seq<bool>, i: int)
    requires
        0 <= i < outcomes.len(),
    ensures
        reconnect_steps(outcomes).len() == 2 * outcomes.len(),
        reconnect_steps(outcomes)[2 * i] == ReconnectStep::Attempt(
            if i > 0 {
                LoadSignal::Settled
            } else if outcomes[0] {
                LoadSignal::Send
            } else {
                LoadSignal::GiveUp
            },
        ),
        reconnect_steps(outcomes)[2 * i + 1] == ReconnectStep::Wait(
            BUTTPLUG_SERVER_RECONNECT_DELAY_MILLIS,
        ),
    decreases outcomes.len(),
{
    let shorter = outcomes.drop_last();
    lemma_steps_len(shorter);
    if i < outcomes.len() - 1 {
        law_reconnecting(shorter, i);
    }
    if shorter.len() > 0 {
        assert(reconnector_after(shorter) == reconnector_after(shorter.drop_last()).after(
            shorter.last(),
        ));
    }
}

/// There are two steps per attempt.
proof fn lemma_steps_len(outcomes: Seq<bool>)
    ensures
        reconnect_steps(outcomes).len() == 2 * outcomes.len(),
    decreases outcomes.len(),
{
    if outcomes.len() > 0 {
        lemma_steps_len(outcomes.drop_last());
    }
}

/// The state and the kept configuration after some reports of the device server.
pub open spec fn after_events<C>(
    state: Option<ApplicationState<C>>,
    kept: Option<Configuration>,
    events: Seq<Option<ClientEvent>>,
) -> (Option<ApplicationState<C>>, Option<Configuration>)
    decreases events.len(),
{
    if events.len() == 0 {
        (state, kept)
    } else {
        let before = after_events(state, kept, events.drop_last());
        (
            state_after(before.0, events.last()),
            kept_after(before.0, before.1, events.last()),
        )
    }
}

/// A configuration that is held stays held, whatever the device server reports.
pub proof fn law_configuration_stays_held<C>(
    state: Option<ApplicationState<C>>,
    kept: Option<Configuration>,
    events: Seq<Option<ClientEvent>>,
)
    ensures
        held(
            after_events(state, kept, events).0,
            after_events(state, kept, events).1,
        ) == held(state, kept),
    decreases events.len(),
{
    if events.len() > 0 {
        law_configuration_stays_held(state, kept, events.drop_last());
    }
}

/// A disconnect followed by a connect keeps the configuration, whatever else was
/// reported before and in between, and whatever is on disk.
pub proof fn law_reconnect_keeps_configuration<C>(
    state: Option<ApplicationState<C>>,
    kept: Option<Configuration>,
    events: Seq<Option<ClientEvent>>,
    loaded: Option<Result<Configuration, String>>,
    configuration: Configuration,
    line: Option<crate::log::LineView>,
)
    requires
        held(state, kept) is Some,
        comes_into_force(
            held(
                after_events(state, kept, events).0,
                after_events(state, kept, events).1,
            ),
            loaded,
            configuration,
            line,
        ),
    ensures
        Some(configuration) == held(state, kept),
        line is None,
{
    law_configuration_stays_held(state, kept, events);
}

/// How the connection to the device server stands.
pub struct ConnectionLife<C> {
    pub reconnector: Reconnector,
    pub state: Option<ApplicationState<C>>,
    pub kept: Option<Configuration>,
}

impl<C> ConnectionLife<C> {
    /// Before any attempt to connect.
    pub open spec fn is_new(self) -> bool {
        self.reconnector == Reconnector::spec_new() && self.state is None && self.kept is None
    }

    /// The configuration that is held.
    pub open spec fn held(self) -> Option<Configuration> {
        held(self.state, self.kept)
    }
}

/// What happens to the connection.
pub enum ConnectionStep<C> {
    /// An attempt to connect failed.
    Failed,
    /// An attempt to connect succeeded. It brought this client, and this was loaded
    /// from disk, if anything was.
    Made(C, Option<Result<Configuration, String>>),
    /// The device server reported something, or something that could not be read.
    Reported(Option<ClientEvent>),
    /// The configuration in force was replaced by this one, if one was in force.
    Configured(Configuration),
}

impl<C> ConnectionStep<C> {
    /// Whether the step is an attempt to connect.
    pub open spec fn is_attempt(self) -> bool {
        self is Failed || self is Made
    }
}

/// Whether a step leads from one life to the next.
pub open spec fn leads_to<C>(
    before: ConnectionLife<C>,
    step: ConnectionStep<C>,
    after: ConnectionLife<C>,
) -> bool {
    match step {
        ConnectionStep::Failed => {
            &&& after.reconnector == before.reconnector.after(false)
            &&& after.state == before.state
            &&& after.kept == before.kept
        },
        ConnectionStep::Made(client, loaded) => {
            &&& after.reconnector == before.reconnector.after(true)
            &&& after.kept is None
            &&& after.state matches Some(next) && next.client == client && exists|
                line: Option<crate::log::LineView>,
            |
                comes_into_force(before.held(), loaded, next.configuration, line)
        },
        ConnectionStep::Reported(event) => {
            &&& after.reconnector == before.reconnector
            &&& after.state == state_after(before.state, event)
            &&& after.kept == kept_after(before.state, before.kept, event)
        },
        ConnectionStep::Configured(configuration) => {
            &&& after.reconnector == before.reconnector
            &&& after.kept == before.kept
            &&& match before.state {
                Some(previous) => after.state matches Some(next) && next.client == previous.client
                    && next.configuration@ == configuration@,
                None => after.state is None,
            }
        },
    }
}

/// Whether the steps lead through the lives, from a new one on.
pub open spec fn is_history<C>(
    lives: Seq<ConnectionLife<C>>,
    steps: Seq<ConnectionStep<C>>,
) -> bool {
    &&& lives.len() == steps.len() + 1
    &&& lives[0].is_new()
    &&& forall|i: int|
        0 <= i < steps.len() ==> leads_to(lives[i], #[trigger] steps[i], lives[i + 1])
}

/// In every history, a configuration has to be loaded from disk exactly as long as no
/// connection was made: on the initial connection, and on no later one.
pub proof fn law_disk_is_read_on_the_initial_connection<C>(
    lives: Seq<ConnectionLife<C>>,
    steps: Seq<ConnectionStep<C>>,
    i: int,
)
    requires
        is_history(lives, steps),
        0 <= i <= steps.len(),
    ensures
        lives[i].held() is None <==> forall|j: int| 0 <= j < i ==> !(#[trigger] steps[j] is Made),
    decreases i,
{
    if i > 0 {
        law_disk_is_read_on_the_initial_connection(lives, steps, i - 1);
        assert(leads_to(lives[i - 1], steps[i - 1], lives[i - 1 + 1]));
    }
}

/// The promise is open exactly as long as no attempt to connect was made.
proof fn lemma_attempted<C>(
    lives: Seq<ConnectionLife<C>>,
    steps: Seq<ConnectionStep<C>>,
    i: int,
)
    requires
        is_history(lives, steps),
        0 <= i <= steps.len(),
    ensures
        lives[i].reconnector.attempted <==> exists|j: int|
            0 <= j < i && (#[trigger] steps[j]).is_attempt(),
    decreases i,
{
    if i > 0 {
        lemma_attempted(lives, steps, i - 1);
        assert(leads_to(lives[i - 1], steps[i - 1], lives[i - 1 + 1]));
    }
}

/// In every history, a connection that is made says that the first configuration is
/// loaded exactly if it is the first attempt. Then a configuration is in force.
pub proof fn law_load_signal_finds_a_configuration<C>(
    lives: Seq<ConnectionLife<C>>,
    steps: Seq<ConnectionStep<C>>,
    i: int,
)
    requires
        is_history(lives, steps),
        0 <= i < steps.len(),
        steps[i] is Made,
    ensures
        lives[i].reconnector.signal(true) == LoadSignal::Send <==> forall|j: int|
            0 <= j < i ==> !(#[trigger] steps[j]).is_attempt(),
        lives[i + 1].state is Some,
{
    lemma_attempted(lives, steps, i);
    assert(leads_to(lives[i], steps[i], lives[i + 1]));
}

/// The configuration that is held is the one in force, and without a connection the
/// one that was kept.
pub proof fn law_what_is_held<C>(
    application: ApplicationState<C>,
    kept: Option<Configuration>,
)
    ensures
        held(Some(application), kept) == Some(application.configuration),
        held(None::<ApplicationState<C>>, kept) == kept,
{
}

/// Where none is held, the configuration that was loaded from disk comes into force
/// as it is, with its port and with the motor of every tag, and nothing is told.
pub proof fn law_loaded_configuration_comes_into_force(
    read: Configuration,
    configuration: Configuration,
    line: Option<crate::log::LineView>,
    tag: Seq<char>,
)
    requires
        comes_into_force(None, Some(Ok(read)), configuration, line),
    ensures
        configuration@.port == read@.port,
        configuration@.tags == read@.tags,
        configuration@.tag_map().contains_key(tag) == read@.tag_map().contains_key(tag),
        configuration@.tag_map()[tag] == read@.tag_map()[tag],
        line is None,
{
}

/// Where none is held and none could be loaded, the configuration in force has the
/// usual port and no tags, and the error is told.
pub proof fn law_default_configuration_comes_into_force(
    error: String,
    configuration: Configuration,
    line: Option<crate::log::LineView>,
    tag: Seq<char>,
)
    requires
        comes_into_force(None, Some(Err(error)), configuration, line),
    ensures
        configuration@.port == 3031,
        configuration@.tags.len() == 0,
        !configuration@.tag_map().contains_key(tag),
        line == Some(
            crate::log::LineView {
                text: "falling back to default config due to error: "@ + error@,
                is_error: true,
            },
        ),
{
}

/// Where a configuration is held, it comes into force as it is, whatever was loaded,
/// and nothing is told.
pub proof fn law_held_configuration_comes_into_force(
    previous: Configuration,
    loaded: Option<Result<Configuration, String>>,
    configuration: Configuration,
    line: Option<crate::log::LineView>,
)
    requires
        comes_into_force(Some(previous), loaded, configuration, line),
    ensures
        configuration@.port == previous@.port,
        configuration@.tags == previous@.tags,
        line is None,
{
}

/// Only a disconnect changes anything: it ends the state and keeps the configuration
/// that was in force, or the one that was kept before if none was.
pub proof fn law_only_a_disconnect_ends_the_state<C>(
    state: Option<ApplicationState<C>>,
    kept: Option<Configuration>,
    event: Option<ClientEvent>,
)
    ensures
        event != Some(ClientEvent::ServerDisconnect) ==> state_after(state, event) == state
            && kept_after(state, kept, event) == kept,
        event == Some(ClientEvent::ServerDisconnect) ==> state_after(state, event) is None && (
        match state {
            Some(application) => kept_after(state, kept, event) == Some(application.configuration),
            None => kept_after(state, kept, event) == kept,
        }),
{
}

/// What is told of a report: what it is and whom it is about. Only a report that could
/// not be read goes to the error output.
pub proof fn law_what_is_told_of_a_report(event: Option<ClientEvent>)
    ensures
        ({
            let start = "buttplug_server"@ + ": "@;
            let line = event_line(event);
            &&& line.is_error <==> event is None
            &&& match event {
                Some(ClientEvent::DeviceAdded(name)) => line.text == start + (
                "device connected: "@ + name@),
                Some(ClientEvent::DeviceRemoved(name)) => line.text == start + (
                "device disconnected: "@ + name@),
                Some(ClientEvent::PingTimeout) => line.text == start + "ping timeout"@,
                Some(ClientEvent::Error(error)) => line.text == start + ("server error: "@
                    + error@),
                Some(ClientEvent::ScanningFinished) => line.text == start
                    + "device scan finished"@,
                Some(ClientEvent::ServerConnect) => line.text == start + "server connected"@,
                Some(ClientEvent::ServerDisconnect) => line.text == start + "server disconnected"@,
                None => line.text == start + "error reading haptic event"@,
            }
        }),
{
}

/// The first attempt to connect decides: if it succeeds, the promise is kept, and if it
/// fails, it is given up. After that nothing becomes of it. The wait before the next
/// attempt is five seconds.
pub proof fn law_first_attempt_decides(reconnector: Reconnector, connected: bool, again: bool)
    ensures
        Reconnector::spec_new().signal(true) == LoadSignal::Send,
        Reconnector::spec_new().signal(false) == LoadSignal::GiveUp,
        reconnector.after(connected).signal(again) == LoadSignal::Settled,
        reconnector.spec_pause() == 5000,
{
}

/// Whether a change of configuration came to this result.
pub open spec fn is_updated<C>(
    before: Option<ApplicationState<C>>,
    configuration: Configuration,
    saved: Result<(), String>,
    after: Option<ApplicationState<C>>,
    result: Result<ConfigurationUpdate, String>,
) -> bool {
    match (saved, before) {
        (Ok(_), Some(previous)) => {
            &&& after matches Some(next)
            &&& next.client == previous.client
            &&& next.configuration@ == configuration@
            &&& result matches Ok(update)
            &&& update.configuration@ == configuration@
            &&& update.signal == (if configuration@.port != previous.configuration@.port {
                Some(ShutdownMessage::Restart)
            } else {
                None
            })
        },
        (Ok(_), None) => after is None && result is Err,
        (Err(error), _) => after == before && (result matches Err(message) && message@ == error@),
    }
}

/// A new configuration comes into force with its port and all its tags exactly if it
/// was saved and there is a connection; the client stays. The web server is told to
/// restart exactly if the port is another one.
pub proof fn law_saved_configuration_comes_into_force<C>(
    before: Option<ApplicationState<C>>,
    configuration: Configuration,
    saved: Result<(), String>,
    after: Option<ApplicationState<C>>,
    result: Result<ConfigurationUpdate, String>,
)
    requires
        is_updated(before, configuration, saved, after, result),
    ensures
        result is Ok <==> saved is Ok && before is Some,
        after is Some <==> before is Some,
        before is Some ==> after->0.client == before->0.client,
        result is Err ==> after == before,
        result matches Ok(update) ==> {
            &&& after->0.configuration@.port == configuration@.port
            &&& after->0.configuration@.tags == configuration@.tags
            &&& update.configuration@.port == configuration@.port
            &&& update.configuration@.tags == configuration@.tags
            &&& update.signal == Some(ShutdownMessage::Restart) <==> before->0.configuration@.port
                != configuration@.port
            &&& update.signal is None <==> before->0.configuration@.port == configuration@.port
        },
{
}

/// A change ends well exactly if there was nothing to tell the web server or it could
/// be told, and then with the new configuration; otherwise with the error of telling.
pub proof fn law_change_ends_well_if_told(
    update: ConfigurationUpdate,
    sent: Result<(), String>,
    result: Result<Configuration, String>,
)
    requires
        update.is_concluded(sent, result),
    ensures
        result is Ok <==> update.signal is None || sent is Ok,
        result matches Ok(configuration) ==> configuration@.port == update.configuration@.port
            && configuration@.tags == update.configuration@.tags,
        result matches Err(message) ==> message@ == sent->Err_0@,
{
}

/// A search that could not start is told on the error output with its error, and one
/// that started on the other one.
pub proof fn law_what_is_told_of_a_scan(started: Result<(), String>)
    ensures
        ({
            let start = "buttplug_server"@ + ": "@;
            let line = told_of_scan(started);
            &&& line.is_error <==> started is Err
            &&& started is Ok ==> line.text == start + "starting device scan"@
            &&& started matches Err(error) ==> line.text == start + ("scan failure: "@ + error@)
        }),
{
}

} // verus!
