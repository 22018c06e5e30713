//! The haptic endpoint: what follows from what a client sends.
use crate::application::ApplicationState;
use crate::command::{CommandReport, Reading, read_command};
use crate::integer::decimal_text;
use crate::log::{LineView, LogLine};
use crate::named_map::NamedMap;
use crate::number::Number;
use crate::settings::{MotorSettings, SettingsView};
use std::collections::HashMap;
use vstd::prelude::*;

verus! {

broadcast use vstd::std_specs::hash::group_hash_axioms;

/// How lines about the haptic endpoint start.
pub const LOG_PREFIX_HAPTIC_ENDPOINT: &'static str = "/haptic";

/// A message from a client.
#[derive(Debug)]
pub struct IncomingMessage {
    /// The text, if the message is one.
    pub text: Option<String>,
    pub is_binary: bool,
    pub is_close: bool,
    pub is_ping: bool,
    pub is_pong: bool,
    /// The message in full, for people to read.
    pub description: String,
}

/// What happens on the connection to a client.
#[derive(Debug)]
pub enum SocketEvent {
    /// The client has connected.
    Connected,
    /// A message has come.
    Received(IncomingMessage),
    /// A message could not be read, for the reason described here.
    Failed(String),
    /// There will be no more messages.
    Ended,
}

/// What follows from an event on the connection.
#[derive(Debug)]
pub struct SocketReaction {
    /// What to tell the person who runs the program.
    pub lines: Vec<LogLine>,
    /// A command to follow.
    pub command: Option<String>,
    /// Whether to stop listening to the client.
    pub done: bool,
}

/// What follows from an event on the connection.
#[verifier::ext_equal]
pub struct SocketReactionView {
    pub lines: Seq<LineView>,
    pub command: Option<Seq<char>>,
    pub done: bool,
}

impl View for SocketReaction {
    type V = SocketReactionView;

    open spec fn view(&self) -> SocketReactionView {
        SocketReactionView {
            lines: crate::sorting::views_of(self.lines@),
            command: match self.command {
                Some(command) => Some(command@),
                None => None,
            },
            done: self.done,
        }
    }
}

/// A line about the haptic endpoint.
pub open spec fn haptic_line(text: Seq<char>, is_error: bool) -> LineView {
    crate::log::line(LOG_PREFIX_HAPTIC_ENDPOINT@, text, is_error)
}

/// What follows from a message. Text is a command. A client that closes the
/// connection is not listened to any longer. Pings and pongs are passed over in
/// silence, and anything else with a complaint.
pub open spec fn message_reaction(message: IncomingMessage) -> SocketReactionView {
    let nothing = SocketReactionView { lines: Seq::empty(), command: None, done: false };
    match message.text {
        Some(text) => SocketReactionView { command: Some(text@), ..nothing },
        None => if message.is_binary {
            SocketReactionView {
                lines: seq![
                    haptic_line("received unexpected binary message: "@ + message.description@, true),
                ],
                ..nothing
            }
        } else if message.is_close {
            SocketReactionView {
                lines: seq![haptic_line("client closed connection"@, false)],
                done: true,
                ..nothing
            }
        } else if message.is_ping || message.is_pong {
            nothing
        } else {
            SocketReactionView {
                lines: seq![
                    haptic_line("received unhandled message type: "@ + message.description@, true),
                ],
                ..nothing
            }
        },
    }
}

/// What follows from an event on the connection.
pub open spec fn socket_reaction(event: SocketEvent) -> SocketReactionView {
    match event {
        SocketEvent::Connected => SocketReactionView {
            lines: seq![haptic_line("client connected"@, false)],
            command: None,
            done: false,
        },
        SocketEvent::Received(message) => message_reaction(message),
        SocketEvent::Failed(error) => SocketReactionView {
            lines: seq![
                haptic_line("message read error: "@ + error@, true),
                haptic_line("client connection lost"@, false),
            ],
            command: None,
            done: true,
        },
        SocketEvent::Ended => SocketReactionView {
            lines: seq![haptic_line("client connection lost"@, false)],
            command: None,
            done: true,
        },
    }
}

/// One line as a list.
fn one_line(line: LogLine) -> (lines: Vec<LogLine>)
    ensures
        crate::sorting::views_of(lines@) == seq![line@],
{
    let mut lines: Vec<LogLine> = Vec::new();
    lines.push(line);
    assert(crate::sorting::views_of(lines@) =~= seq![line@]);
    lines
}

/// No lines.
fn no_lines() -> (lines: Vec<LogLine>)
    ensures
        crate::sorting::views_of(lines@) == Seq::<LineView>::empty(),
{
    let lines: Vec<LogLine> = Vec::new();
    assert(crate::sorting::views_of(lines@) =~= Seq::<LineView>::empty());
    lines
}

/// Reacts to an event on the connection to a client.
pub fn handle_socket(event: SocketEvent) -> (reaction: SocketReaction)
    ensures
        reaction@ == socket_reaction(event),
{
    let part = LOG_PREFIX_HAPTIC_ENDPOINT;
    match event {
        SocketEvent::Connected => SocketReaction {
            lines: one_line(LogLine::about(part, "client connected", false)),
            command: None,
            done: false,
        },
        SocketEvent::Received(message) => {
            match message.text {
                Some(text) => SocketReaction {
                    lines: no_lines(),
                    command: Some(text),
                    done: false,
                },
                None => {
                    let detail = message.description.as_str();
                    if message.is_binary {
                        let text = "received unexpected binary message: ";
                        SocketReaction {
                            lines: one_line(LogLine::with_detail(part, text, detail, true)),
                            command: None,
                            done: false,
                        }
                    } else if message.is_close {
                        SocketReaction {
                            lines: one_line(
                                LogLine::about(part, "client closed connection", false),
                            ),
                            command: None,
                            done: true,
                        }
                    } else if message.is_ping || message.is_pong {
                        SocketReaction { lines: no_lines(), command: None, done: false }
                    } else {
                        let text = "received unhandled message type: ";
                        SocketReaction {
                            lines: one_line(LogLine::with_detail(part, text, detail, true)),
                            command: None,
                            done: false,
                        }
                    }
                },
            }
        },
        SocketEvent::Failed(error) => {
            let first = LogLine::with_detail(part, "message read error: ", error.as_str(), true);
            let second = LogLine::about(part, "client connection lost", false);
            let ghost expected = seq![first@, second@];
            let mut lines: Vec<LogLine> = Vec::new();
            lines.push(first);
            lines.push(second);
            assert(crate::sorting::views_of(lines@) =~= expected);
            SocketReaction { lines, command: None, done: true }
        },
        SocketEvent::Ended => SocketReaction {
            lines: one_line(LogLine::about(part, "client connection lost", false)),
            command: None,
            done: true,
        },
    }
}

/// What a device is told to do.
#[derive(Debug, PartialEq)]
pub enum DeviceCommand {
    /// Vibrate: the strength of each motor.
    Vibrate(HashMap<u32, Number>),
    /// Turn: the speed of each motor, and whether it turns clockwise.
    Rotate(HashMap<u32, (Number, bool)>),
    /// Move: the time in milliseconds and the position of each motor.
    Linear(HashMap<u32, (u32, Number)>),
    /// Write these bytes as they are.
    RawWrite(Vec<u8>),
}

/// What a device is told to do.
pub enum DeviceCommandView {
    Vibrate(Map<u32, Number>),
    Rotate(Map<u32, (Number, bool)>),
    Linear(Map<u32, (u32, Number)>),
    RawWrite(Seq<u8>),
}

impl View for DeviceCommand {
    type V = DeviceCommandView;

    open spec fn view(&self) -> DeviceCommandView {
        match self {
            DeviceCommand::Vibrate(speeds) => DeviceCommandView::Vibrate(speeds@),
            DeviceCommand::Rotate(rotations) => DeviceCommandView::Rotate(rotations@),
            DeviceCommand::Linear(positions) => DeviceCommandView::Linear(positions@),
            DeviceCommand::RawWrite(bytes) => DeviceCommandView::RawWrite(bytes@),
        }
    }
}

/// What is written to a device to make it contract.
pub open spec fn contraction_text(level: u8) -> Seq<char> {
    "Air:Level:"@ + crate::integer::decimal(level as nat) + ";"@
}

/// The commands that carry out some settings: one for each kind of motor of which
/// something is asked.
pub open spec fn commands_for(settings: SettingsView) -> Seq<DeviceCommandView> {
    let vibrate = if settings.speeds.is_empty() {
        Seq::empty()
    } else {
        seq![DeviceCommandView::Vibrate(settings.speeds)]
    };
    let rotate = if settings.rotations.is_empty() {
        Seq::empty()
    } else {
        seq![DeviceCommandView::Rotate(settings.rotations)]
    };
    let linear = if settings.positions.is_empty() {
        Seq::empty()
    } else {
        seq![DeviceCommandView::Linear(settings.positions)]
    };
    let contract = match settings.contraction {
        Some(level) => seq![
            DeviceCommandView::RawWrite(vstd::utf8::encode_utf8(contraction_text(level))),
        ],
        None => Seq::empty(),
    };
    vibrate + rotate + linear + contract
}

/// Adds a command to a list.
fn push_command(commands: &mut Vec<DeviceCommand>, command: DeviceCommand)
    ensures
        crate::sorting::views_of(final(commands)@) == crate::sorting::views_of(
            old(commands)@,
        ).push(command@),
{
    let ghost before = commands@;
    commands.push(command);
    assert(crate::sorting::views_of(commands@) =~= crate::sorting::views_of(before).push(command@));
}

/// The commands that carry out some settings.
pub fn settings_to_commands(settings: MotorSettings) -> (commands: Vec<DeviceCommand>)
    ensures
        crate::sorting::views_of(commands@) == commands_for(settings@),
{
    let ghost asked = settings@;
    let MotorSettings { speed_map, rotate_map, linear_map, contraction_hack } = settings;
    let mut commands: Vec<DeviceCommand> = Vec::new();
    assert(crate::sorting::views_of(commands@) =~= Seq::empty());
    if !speed_map.is_empty() {
        push_command(&mut commands, DeviceCommand::Vibrate(speed_map));
    }
    if !rotate_map.is_empty() {
        push_command(&mut commands, DeviceCommand::Rotate(rotate_map));
    }
    if !linear_map.is_empty() {
        push_command(&mut commands, DeviceCommand::Linear(linear_map));
    }
    if let Some(level) = contraction_hack {
        let mut text = "Air:Level:".to_owned();
        text.append(decimal_text(level).as_str());
        text.append(";");
        push_command(&mut commands, DeviceCommand::RawWrite(text.as_str().as_bytes_vec()));
    }
    assert(crate::sorting::views_of(commands@) =~= commands_for(asked));
    commands
}

/// What each of the connected devices is told to do, by its place among them. Of
/// several devices with one name only the first is told anything.
pub open spec fn plan(
    devices: Map<Seq<char>, SettingsView>,
    names: Seq<Seq<char>>,
) -> Seq<Seq<DeviceCommandView>> {
    Seq::new(
        names.len(),
        |i: int|
            if devices.contains_key(names[i]) && !names.take(i).contains(names[i]) {
                commands_for(devices[names[i]])
            } else {
                Seq::empty()
            },
    )
}

/// The views of some lists of commands.
pub open spec fn plan_views(plan: Seq<Vec<DeviceCommand>>) -> Seq<Seq<DeviceCommandView>> {
    plan.map_values(|commands: Vec<DeviceCommand>| crate::sorting::views_of(commands@))
}

/// Some keys taken out of a map.
spec fn without(
    devices: Map<Seq<char>, SettingsView>,
    names: Seq<Seq<char>>,
) -> Map<Seq<char>, SettingsView> {
    devices.remove_keys(names.to_set())
}

/// Says what each of the connected devices is told to do, by its place among them.
pub fn plan_commands(devices: NamedMap<MotorSettings>, names: &Vec<String>) -> (planned: Vec<
    Vec<DeviceCommand>,
>)
    ensures
        plan_views(planned@) == plan(devices@, crate::sorting::views_of(names@)),
{
    let ghost asked = devices@;
    let ghost all = crate::sorting::views_of(names@);
    let ghost whole = plan(asked, all);
    let mut left = devices;
    let mut planned: Vec<Vec<DeviceCommand>> = Vec::new();
    let mut i: usize = 0;
    assert(left@ =~= without(asked, all.take(0)));
    assert(plan_views(planned@) =~= whole.take(0));
    while i < names.len()
        invariant
            i <= names.len(),
            all == crate::sorting::views_of(names@),
            whole == plan(asked, all),
            left@ == without(asked, all.take(i as int)),
            plan_views(planned@) == whole.take(i as int),
        decreases names.len() - i,
    {
        let ghost name = all[i as int];
        let ghost before = left@;
        let ghost shorter = planned@;
        assert(names@[i as int]@ == name);
        let commands: Vec<DeviceCommand> = match left.remove(names[i].as_str()) {
            Some(settings) => settings_to_commands(settings),
            None => {
                let none: Vec<DeviceCommand> = Vec::new();
                assert(crate::sorting::views_of(none@) =~= Seq::empty());
                none
            },
        };
        proof {
            let known = all.take(i as int);
            let longer = all.take(i + 1);
            assert(longer =~= known.push(name));
            assert(before.contains_key(name) == (asked.contains_key(name) && !known.contains(
                name,
            )));
            assert(crate::sorting::views_of(commands@) == whole[i as int]);
            assert(left@ =~= without(asked, longer)) by {
                assert forall|k: Seq<char>| longer.contains(k) == (known.contains(k) || k
                    == name) by {
                    if known.contains(k) {
                        let j = known.index_of(k);
                        assert(longer[j] == k);
                    }
                    assert(longer[i as int] == name);
                }
            }
        }
        planned.push(commands);
        proof {
            assert(plan_views(planned@) =~= plan_views(shorter).push(whole[i as int]));
            assert(whole.take(i + 1) =~= whole.take(i as int).push(whole[i as int]));
        }
        i = i + 1;
    }
    assert(whole.take(i as int) =~= whole);
    planned
}

/// What follows from a command.
#[derive(Debug)]
pub struct CommandReaction {
    /// What to tell the person who runs the program.
    pub lines: Vec<LogLine>,
    /// What each of the connected devices is told to do, by its place among them.
    pub plan: Vec<Vec<DeviceCommand>>,
    /// Whether the client has shown that it is alive.
    pub feed_watchdog: bool,
}

/// The lines about tags that no motor has.
pub open spec fn ignored_lines(tags: Seq<Seq<char>>) -> Seq<LineView> {
    tags.map_values(|tag: Seq<char>| haptic_line("ignoring unknown motor tag "@ + tag, true))
}

/// The lines about a command: the tags that no motor has, and why it was not
/// understood, if so.
pub open spec fn command_lines(progress: crate::command::Progress) -> Seq<LineView> {
    match progress.failure {
        Some(message) => ignored_lines(progress.ignored).push(
            haptic_line("error parsing command: "@ + message, true),
        ),
        None => ignored_lines(progress.ignored),
    }
}

/// What a command meets while there is a connection to the device server: the tags,
/// what was read from its fields, and the names of the connected devices.
pub struct Link {
    pub tags: crate::command::Tags,
    pub readings: crate::command::Readings,
    pub names: Seq<Seq<char>>,
}

/// What a command meets: nothing, if there is no connection.
pub open spec fn link_of<C>(
    state: Option<ApplicationState<C>>,
    readings: crate::command::Readings,
    names: Seq<Seq<char>>,
) -> Option<Link> {
    match state {
        Some(application) => Some(
            Link { tags: application.configuration@.tag_map(), readings, names },
        ),
        None => None,
    }
}

/// What follows from a command.
#[verifier::ext_equal]
pub struct CommandReactionView {
    pub lines: Seq<LineView>,
    pub plan: Seq<Seq<DeviceCommandView>>,
    pub feed_watchdog: bool,
}

impl View for CommandReaction {
    type V = CommandReactionView;

    open spec fn view(&self) -> CommandReactionView {
        CommandReactionView {
            lines: crate::sorting::views_of(self.lines@),
            plan: plan_views(self.plan@),
            feed_watchdog: self.feed_watchdog,
        }
    }
}

/// What follows from a command.
pub open spec fn command_reaction(link: Option<Link>, command: Seq<char>) -> CommandReactionView {
    match link {
        None => CommandReactionView {
            lines: Seq::empty(),
            plan: Seq::empty(),
            feed_watchdog: false,
        },
        Some(link) => {
            let progress = crate::command::follow(
                link.tags,
                link.readings,
                crate::command::lines_of(command),
            );
            CommandReactionView {
                lines: command_lines(progress),
                plan: if progress.failure is None {
                    plan(progress.devices, link.names)
                } else {
                    Seq::empty()
                },
                feed_watchdog: progress.failure is None,
            }
        },
    }
}

/// Reacts to a command. Without a connection to the device server nothing happens.
/// A command that is not understood drives no device and does not count as a sign
/// of life; one that is understood drives the devices that it names.
pub fn handle_command<C>(
    state: &Option<ApplicationState<C>>,
    command: &str,
    readings: &NamedMap<Reading>,
    names: &Vec<String>,
) -> (reaction: CommandReaction)
    requires
        *state matches Some(application) ==> crate::command::all_read(
            application.configuration@.tag_map(),
            crate::command::lines_of(command@),
            readings@,
        ),
    ensures
        reaction@ == command_reaction(
            link_of(*state, readings@, crate::sorting::views_of(names@)),
            command@,
        ),
{
    match state {
        None => {
            let plan: Vec<Vec<DeviceCommand>> = Vec::new();
            assert(plan_views(plan@) =~= Seq::empty());
            CommandReaction { lines: no_lines(), plan, feed_watchdog: false }
        },
        Some(application) => {
            let part = LOG_PREFIX_HAPTIC_ENDPOINT;
            let report = read_command(&application.configuration, command, readings);
            let CommandReport { ignored, outcome } = report;
            let ghost tags = crate::sorting::views_of(ignored@);
            let mut lines: Vec<LogLine> = Vec::new();
            let mut i: usize = 0;
            assert(crate::sorting::views_of(lines@) =~= ignored_lines(tags.take(0)));
            while i < ignored.len()
                invariant
                    i <= ignored.len(),
                    part@ == LOG_PREFIX_HAPTIC_ENDPOINT@,
                    tags == crate::sorting::views_of(ignored@),
                    crate::sorting::views_of(lines@) == ignored_lines(tags.take(i as int)),
                decreases ignored.len() - i,
            {
                let ghost shorter = lines@;
                let text = "ignoring unknown motor tag ";
                let line = LogLine::with_detail(part, text, ignored[i].as_str(), true);
                lines.push(line);
                proof {
                    assert(tags.take(i + 1) =~= tags.take(i as int).push(ignored@[i as int]@));
                    assert(crate::sorting::views_of(lines@) =~= crate::sorting::views_of(
                        shorter,
                    ).push(line@));
                    assert(ignored_lines(tags.take(i + 1)) =~= ignored_lines(
                        tags.take(i as int),
                    ).push(line@));
                }
                i = i + 1;
            }
            assert(tags.take(i as int) =~= tags);
            match outcome {
                Ok(devices) => CommandReaction {
                    lines,
                    plan: plan_commands(devices, names),
                    feed_watchdog: true,
                },
                Err(message) => {
                    let ghost shorter = lines@;
                    let text = "error parsing command: ";
                    let line = LogLine::with_detail(part, text, message.as_str(), true);
                    lines.push(line);
                    assert(crate::sorting::views_of(lines@) =~= crate::sorting::views_of(
                        shorter,
                    ).push(line@));
                    let plan: Vec<Vec<DeviceCommand>> = Vec::new();
                    assert(plan_views(plan@) =~= Seq::empty());
                    CommandReaction { lines, plan, feed_watchdog: false }
                },
            }
        },
    }
}

/// The line for a command that a device did not take.
pub open spec fn told_of_refusal(error: Seq<char>) -> LineView {
    haptic_line("error sending command "@ + error, true)
}

/// The line for a command that a device did not take.
pub fn send_error_line(error: &str) -> (result: LogLine)
    ensures
        result@ == told_of_refusal(error@),
        result@ == haptic_line("error sending command "@ + error@, true),
{
    LogLine::with_detail(LOG_PREFIX_HAPTIC_ENDPOINT, "error sending command ", error, true)
}

/// Of two devices with one name only the first is told anything.
pub proof fn law_one_device_per_name(
    devices: Map<Seq<char>, SettingsView>,
    names: Seq<Seq<char>>,
    i: int,
    j: int,
)
    requires
        0 <= i < j < names.len(),
        names[i] == names[j],
    ensures
        plan(devices, names)[j].len() == 0,
{
    assert(names.take(j)[i] == names[j]);
}

/// A device of which the command asks nothing is told nothing.
pub proof fn law_unnamed_device_is_left_alone(
    devices: Map<Seq<char>, SettingsView>,
    names: Seq<Seq<char>>,
    i: int,
)
    requires
        0 <= i < names.len(),
        !devices.contains_key(names[i]),
    ensures
        plan(devices, names)[i].len() == 0,
{
}

/// Settings that ask nothing need no command, and any others need at least one.
pub proof fn law_commands_iff_asked(settings: SettingsView)
    ensures
        commands_for(settings).len() == 0 <==> settings == SettingsView::nothing(),
{
    if commands_for(settings).len() == 0 {
        assert(settings.speeds.is_empty());
        assert(settings.rotations.is_empty());
        assert(settings.positions.is_empty());
        assert(settings =~= SettingsView::nothing());
    }
}

/// Only a text is taken for a command, and the conversation goes on after it. The
/// conversation ends when the client closes it, when there are no more messages, or
/// when one cannot be read.
pub proof fn law_conversation(event: SocketEvent)
    ensures
        socket_reaction(event).command is Some <==> (event matches SocketEvent::Received(message)
            && message.text is Some),
        socket_reaction(event).command is Some ==> !socket_reaction(event).done,
        socket_reaction(event).done <==> match event {
            SocketEvent::Connected => false,
            SocketEvent::Received(message) => message.text is None && !message.is_binary
                && message.is_close,
            SocketEvent::Failed(_) => true,
            SocketEvent::Ended => true,
        },
{
}

/// Where the parts of some settings are among their commands.
proof fn lemma_commands_hold_parts(settings: SettingsView)
    ensures
        forall|i: int|
            0 <= i < commands_for(settings).len() ==> match #[trigger] commands_for(settings)[i] {
                DeviceCommandView::Vibrate(speeds) => speeds == settings.speeds,
                DeviceCommandView::Rotate(rotations) => rotations == settings.rotations,
                DeviceCommandView::Linear(positions) => positions == settings.positions,
                DeviceCommandView::RawWrite(bytes) => settings.contraction matches Some(level)
                    && bytes == vstd::utf8::encode_utf8(contraction_text(level)),
            },
        settings.speeds.is_empty() || commands_for(settings).contains(
            DeviceCommandView::Vibrate(settings.speeds),
        ),
        settings.rotations.is_empty() || commands_for(settings).contains(
            DeviceCommandView::Rotate(settings.rotations),
        ),
        settings.positions.is_empty() || commands_for(settings).contains(
            DeviceCommandView::Linear(settings.positions),
        ),
        settings.contraction matches Some(level) ==> commands_for(settings).contains(
            DeviceCommandView::RawWrite(vstd::utf8::encode_utf8(contraction_text(level))),
        ),
{
    let commands = commands_for(settings);
    let a: int = if settings.speeds.is_empty() {
        0
    } else {
        1
    };
    let b: int = if settings.rotations.is_empty() {
        a
    } else {
        a + 1
    };
    let c: int = if settings.positions.is_empty() {
        b
    } else {
        b + 1
    };
    if !settings.speeds.is_empty() {
        assert(commands[0] == DeviceCommandView::Vibrate(settings.speeds));
    }
    if !settings.rotations.is_empty() {
        assert(commands[a] == DeviceCommandView::Rotate(settings.rotations));
    }
    if !settings.positions.is_empty() {
        assert(commands[b] == DeviceCommandView::Linear(settings.positions));
    }
    if let Some(level) = settings.contraction {
        assert(commands[c] == DeviceCommandView::RawWrite(
            vstd::utf8::encode_utf8(contraction_text(level)),
        ));
    }
}

/// Whatever is empty in some settings is empty in others with the same commands.
proof fn lemma_same_commands(a: SettingsView, b: SettingsView)
    requires
        commands_for(a) == commands_for(b),
    ensures
        a.speeds.is_empty() || a.speeds == b.speeds,
        a.rotations.is_empty() || a.rotations == b.rotations,
        a.positions.is_empty() || a.positions == b.positions,
        a.contraction matches Some(level) ==> b.contraction matches Some(other)
            && vstd::utf8::encode_utf8(contraction_text(level)) == vstd::utf8::encode_utf8(
            contraction_text(other),
        ),
{
    lemma_commands_hold_parts(a);
    lemma_commands_hold_parts(b);
    let commands = commands_for(a);
    if !a.speeds.is_empty() {
        let k = commands.index_of(DeviceCommandView::Vibrate(a.speeds));
        assert(commands_for(b)[k] == DeviceCommandView::Vibrate(a.speeds));
    }
    if !a.rotations.is_empty() {
        let k = commands.index_of(DeviceCommandView::Rotate(a.rotations));
        assert(commands_for(b)[k] == DeviceCommandView::Rotate(a.rotations));
    }
    if !a.positions.is_empty() {
        let k = commands.index_of(DeviceCommandView::Linear(a.positions));
        assert(commands_for(b)[k] == DeviceCommandView::Linear(a.positions));
    }
    if let Some(level) = a.contraction {
        let write = DeviceCommandView::RawWrite(vstd::utf8::encode_utf8(contraction_text(level)));
        let k = commands.index_of(write);
        assert(commands_for(b)[k] == write);
    }
}

/// The text that makes a device contract tells the level.
proof fn lemma_contraction_text_tells_level(a: u8, b: u8)
    requires
        contraction_text(a) == contraction_text(b),
    ensures
        a == b,
{
    let head = "Air:Level:"@;
    let tail = ";"@;
    let x = crate::integer::decimal(a as nat);
    let y = crate::integer::decimal(b as nat);
    assert(contraction_text(a).len() == head.len() + x.len() + tail.len());
    assert(contraction_text(b).len() == head.len() + y.len() + tail.len());
    assert(x =~= y) by {
        assert forall|i: int| 0 <= i < x.len() implies x[i] == y[i] by {
            assert(contraction_text(a)[head.len() + i] == x[i]);
            assert(contraction_text(b)[head.len() + i] == y[i]);
        }
    }
    crate::integer::law_decimal_reads_back(a as nat);
    crate::integer::law_decimal_reads_back(b as nat);
}

/// The commands for a device carry all that is asked of it: different settings
/// give different commands.
pub proof fn law_commands_carry_settings(a: SettingsView, b: SettingsView)
    requires
        commands_for(a) == commands_for(b),
    ensures
        a == b,
{
    lemma_same_commands(a, b);
    lemma_same_commands(b, a);
    assert(a.speeds =~= b.speeds);
    assert(a.rotations =~= b.rotations);
    assert(a.positions =~= b.positions);
    if let (Some(level), Some(other)) = (a.contraction, b.contraction) {
        vstd::utf8::encode_utf8_decode_utf8(contraction_text(level));
        vstd::utf8::encode_utf8_decode_utf8(contraction_text(other));
        lemma_contraction_text_tells_level(level, other);
    }
}

/// The commands that carry out some settings, and their order: the strengths, then the
/// turns, then the positions, then the contraction, each if any is asked, and each
/// with all that is asked and nothing else.
pub proof fn law_commands_are_what_is_asked(settings: SettingsView)
    ensures
        forall|speeds: Map<u32, Number>| #[trigger]
            commands_for(settings).contains(DeviceCommandView::Vibrate(speeds)) <==> speeds
                == settings.speeds && speeds != Map::<u32, Number>::empty(),
        forall|turns: Map<u32, (Number, bool)>| #[trigger]
            commands_for(settings).contains(DeviceCommandView::Rotate(turns)) <==> turns
                == settings.rotations && turns != Map::<u32, (Number, bool)>::empty(),
        forall|positions: Map<u32, (u32, Number)>| #[trigger]
            commands_for(settings).contains(DeviceCommandView::Linear(positions)) <==> positions
                == settings.positions && positions != Map::<u32, (u32, Number)>::empty(),
        forall|bytes: Seq<u8>| #[trigger]
            commands_for(settings).contains(DeviceCommandView::RawWrite(bytes)) <==> (
            settings.contraction matches Some(level) && bytes == vstd::utf8::encode_utf8(
                "Air:Level:"@ + crate::integer::decimal(level as nat) + ";"@,
            )),
        forall|i: int, j: int|
            0 <= i < j < commands_for(settings).len() ==> {
                let first = #[trigger] commands_for(settings)[i];
                match #[trigger] commands_for(settings)[j] {
                    DeviceCommandView::Vibrate(_) => false,
                    DeviceCommandView::Rotate(_) => first is Vibrate,
                    DeviceCommandView::Linear(_) => first is Vibrate || first is Rotate,
                    DeviceCommandView::RawWrite(_) => !(first is RawWrite),
                }
            },
{
    lemma_commands_hold_parts(settings);
    let commands = commands_for(settings);
    assert forall|speeds: Map<u32, Number>| #[trigger]
        commands.contains(DeviceCommandView::Vibrate(speeds)) <==> speeds == settings.speeds
            && speeds != Map::<u32, Number>::empty() by {
        if settings.speeds.is_empty() {
            assert(settings.speeds =~= Map::<u32, Number>::empty());
        }
        if commands.contains(DeviceCommandView::Vibrate(speeds)) {
            let k = commands.index_of(DeviceCommandView::Vibrate(speeds));
            assert(commands[k] == DeviceCommandView::Vibrate(speeds));
        }
    }
    assert forall|turns: Map<u32, (Number, bool)>| #[trigger]
        commands.contains(DeviceCommandView::Rotate(turns)) <==> turns == settings.rotations
            && turns != Map::<u32, (Number, bool)>::empty() by {
        if settings.rotations.is_empty() {
            assert(settings.rotations =~= Map::<u32, (Number, bool)>::empty());
        }
        if commands.contains(DeviceCommandView::Rotate(turns)) {
            let k = commands.index_of(DeviceCommandView::Rotate(turns));
            assert(commands[k] == DeviceCommandView::Rotate(turns));
        }
    }
    assert forall|positions: Map<u32, (u32, Number)>| #[trigger]
        commands.contains(DeviceCommandView::Linear(positions)) <==> positions
            == settings.positions && positions != Map::<u32, (u32, Number)>::empty() by {
        if settings.positions.is_empty() {
            assert(settings.positions =~= Map::<u32, (u32, Number)>::empty());
        }
        if commands.contains(DeviceCommandView::Linear(positions)) {
            let k = commands.index_of(DeviceCommandView::Linear(positions));
            assert(commands[k] == DeviceCommandView::Linear(positions));
        }
    }
    assert forall|bytes: Seq<u8>| #[trigger]
        commands.contains(DeviceCommandView::RawWrite(bytes)) <==> (settings.contraction matches Some(
        level,
    ) && bytes == vstd::utf8::encode_utf8(
        "Air:Level:"@ + crate::integer::decimal(level as nat) + ";"@,
    )) by {
        if commands.contains(DeviceCommandView::RawWrite(bytes)) {
            let k = commands.index_of(DeviceCommandView::RawWrite(bytes));
            assert(commands[k] == DeviceCommandView::RawWrite(bytes));
        }
    }
}

/// Each connected device is told what the command asks of its name, if no earlier one
/// has that name: its strengths, turns, positions and contraction, each if any is
/// asked, whatever is asked of devices of other names. Every other device is told
/// nothing.
pub proof fn law_each_named_device_is_driven(
    devices: Map<Seq<char>, SettingsView>,
    names: Seq<Seq<char>>,
    i: int,
)
    requires
        0 <= i < names.len(),
    ensures
        plan(devices, names).len() == names.len(),
        ({
            let told = plan(devices, names)[i];
            let asked = devices[names[i]];
            let first = forall|j: int| 0 <= j < i ==> #[trigger] names[j] != names[i];
            &&& !devices.contains_key(names[i]) || !first ==> told.len() == 0
            &&& devices.contains_key(names[i]) && first ==> {
                &&& forall|speeds: Map<u32, Number>| #[trigger]
                    told.contains(DeviceCommandView::Vibrate(speeds)) <==> speeds == asked.speeds
                        && speeds != Map::<u32, Number>::empty()
                &&& forall|turns: Map<u32, (Number, bool)>| #[trigger]
                    told.contains(DeviceCommandView::Rotate(turns)) <==> turns == asked.rotations
                        && turns != Map::<u32, (Number, bool)>::empty()
                &&& forall|positions: Map<u32, (u32, Number)>| #[trigger]
                    told.contains(DeviceCommandView::Linear(positions)) <==> positions
                        == asked.positions && positions != Map::<u32, (u32, Number)>::empty()
                &&& forall|bytes: Seq<u8>| #[trigger]
                    told.contains(DeviceCommandView::RawWrite(bytes)) <==> (
                    asked.contraction matches Some(level) && bytes == vstd::utf8::encode_utf8(
                        "Air:Level:"@ + crate::integer::decimal(level as nat) + ";"@,
                    ))
                &&& forall|p: int, q: int|
                    0 <= p < q < told.len() ==> {
                        let before = #[trigger] told[p];
                        match #[trigger] told[q] {
                            DeviceCommandView::Vibrate(_) => false,
                            DeviceCommandView::Rotate(_) => before is Vibrate,
                            DeviceCommandView::Linear(_) => before is Vibrate || before is Rotate,
                            DeviceCommandView::RawWrite(_) => !(before is RawWrite),
                        }
                    }
            }
        }),
{
    let told = plan(devices, names)[i];
    let known = names.take(i);
    if forall|j: int| 0 <= j < i ==> #[trigger] names[j] != names[i] {
        assert forall|j: int| 0 <= j < known.len() implies known[j] != names[i] by {
            assert(known[j] == names[j]);
        }
        if devices.contains_key(names[i]) {
            law_commands_are_what_is_asked(devices[names[i]]);
            assert(told == commands_for(devices[names[i]]));
        }
    } else {
        let j = choose|j: int| 0 <= j < i && #[trigger] names[j] == names[i];
        assert(known[j] == names[i]);
    }
}

/// A line about the haptic endpoint says so in front.
proof fn lemma_haptic_line(text: Seq<char>, is_error: bool)
    ensures
        haptic_line(text, is_error) == (LineView { text: "/haptic: "@ + text, is_error }),
{
    reveal_strlit("/haptic");
    reveal_strlit(": ");
    reveal_strlit("/haptic: ");
    assert(haptic_line(text, is_error).text =~= "/haptic: "@ + text);
}

/// A text is handed on as the command that it is, without a word. What else comes from
/// a client is told: what was lost goes to the error output with its description, and
/// what is ordinary to the other one. Pings and pongs are not told.
pub proof fn law_what_is_told_of_a_client(event: SocketEvent)
    ensures
        ({
            let reaction = socket_reaction(event);
            match event {
                SocketEvent::Connected => reaction.lines == seq![
                    LineView { text: "/haptic: "@ + "client connected"@, is_error: false },
                ],
                SocketEvent::Ended => reaction.lines == seq![
                    LineView { text: "/haptic: "@ + "client connection lost"@, is_error: false },
                ],
                SocketEvent::Failed(error) => reaction.lines == seq![
                    LineView {
                        text: "/haptic: "@ + ("message read error: "@ + error@),
                        is_error: true,
                    },
                    LineView { text: "/haptic: "@ + "client connection lost"@, is_error: false },
                ],
                SocketEvent::Received(message) => match message.text {
                    Some(text) => reaction.lines.len() == 0 && reaction.command == Some(text@),
                    None => if message.is_binary {
                        reaction.lines == seq![
                            LineView {
                                text: "/haptic: "@ + ("received unexpected binary message: "@
                                    + message.description@),
                                is_error: true,
                            },
                        ]
                    } else if message.is_close {
                        reaction.lines == seq![
                            LineView {
                                text: "/haptic: "@ + "client closed connection"@,
                                is_error: false,
                            },
                        ]
                    } else if message.is_ping || message.is_pong {
                        reaction.lines.len() == 0
                    } else {
                        reaction.lines == seq![
                            LineView {
                                text: "/haptic: "@ + ("received unhandled message type: "@
                                    + message.description@),
                                is_error: true,
                            },
                        ]
                    },
                },
            }
        }),
{
    lemma_haptic_line("client connected"@, false);
    lemma_haptic_line("client connection lost"@, false);
    lemma_haptic_line("client closed connection"@, false);
    match event {
        SocketEvent::Failed(error) => {
            lemma_haptic_line("message read error: "@ + error@, true);
        },
        SocketEvent::Received(message) => {
            lemma_haptic_line(
                "received unexpected binary message: "@ + message.description@,
                true,
            );
            lemma_haptic_line("received unhandled message type: "@ + message.description@, true);
        },
        _ => {},
    }
}

/// What follows from a command while there is a connection: every unknown tag is told,
/// in order. If the command is understood, the devices get what it asks of them and
/// the watchdog is fed; if not, the reason is told last, no device gets anything and
/// the watchdog goes hungry.
pub proof fn law_what_follows_from_a_command(link: Link, command: Seq<char>)
    ensures
        ({
            let progress = crate::command::follow(
                link.tags,
                link.readings,
                crate::command::lines_of(command),
            );
            let reaction = command_reaction(Some(link), command);
            &&& forall|i: int|
                0 <= i < progress.ignored.len() ==> #[trigger] reaction.lines[i] == (LineView {
                    text: "/haptic: "@ + ("ignoring unknown motor tag "@ + progress.ignored[i]),
                    is_error: true,
                })
            &&& match progress.failure {
                None => {
                    &&& reaction.feed_watchdog
                    &&& reaction.plan == plan(progress.devices, link.names)
                    &&& reaction.lines.len() == progress.ignored.len()
                },
                Some(message) => {
                    &&& !reaction.feed_watchdog
                    &&& reaction.plan.len() == 0
                    &&& reaction.lines.len() == progress.ignored.len() + 1
                    &&& reaction.lines.last() == (LineView {
                        text: "/haptic: "@ + ("error parsing command: "@ + message),
                        is_error: true,
                    })
                },
            }
        }),
{
    let progress = crate::command::follow(
        link.tags,
        link.readings,
        crate::command::lines_of(command),
    );
    let reaction = command_reaction(Some(link), command);
    assert forall|i: int| 0 <= i < progress.ignored.len() implies #[trigger] reaction.lines[i] == (
    LineView {
        text: "/haptic: "@ + ("ignoring unknown motor tag "@ + progress.ignored[i]),
        is_error: true,
    }) by {
        lemma_haptic_line("ignoring unknown motor tag "@ + progress.ignored[i], true);
        assert(reaction.lines[i] == ignored_lines(progress.ignored)[i]);
    }
    if let Some(message) = progress.failure {
        lemma_haptic_line("error parsing command: "@ + message, true);
    }
}

/// Without a connection nothing follows from any command.
pub proof fn law_nothing_follows_without_connection(command: Seq<char>)
    ensures
        command_reaction(None, command).lines.len() == 0,
        command_reaction(None, command).plan.len() == 0,
        !command_reaction(None, command).feed_watchdog,
{
}

/// A command meets the motors that the configuration in force gives its tags, what was
/// read for it, and the devices that are connected.
pub proof fn law_a_command_meets_the_configuration<C>(
    state: Option<ApplicationState<C>>,
    readings: crate::command::Readings,
    names: Seq<Seq<char>>,
    i: int,
)
    ensures
        state is None <==> link_of(state, readings, names) is None,
        state matches Some(application) ==> {
            let link = link_of(state, readings, names)->0;
            let tags = application.configuration@.tags;
            &&& link.readings == readings
            &&& link.names == names
            &&& crate::named_map::distinct_names(tags) && 0 <= i < tags.len()
                ==> link.tags.contains_key(tags[i].0) && link.tags[tags[i].0] == tags[i].1
            &&& forall|tag: Seq<char>|
                (#[trigger] link.tags.contains_key(tag)) ==> exists|j: int|
                    0 <= j < tags.len() && (#[trigger] tags[j]).0 == tag
        },
{
    if let Some(application) = state {
        let tags = application.configuration@.tags;
        if crate::named_map::distinct_names(tags) && 0 <= i < tags.len() {
            crate::named_map::lemma_place_is_unique(tags, i);
        }
    }
}

/// The view of a command for a device says all of it.
pub proof fn law_view_of_device_command(command: DeviceCommand)
    ensures
        match command {
            DeviceCommand::Vibrate(speeds) => command@ == DeviceCommandView::Vibrate(speeds@),
            DeviceCommand::Rotate(rotations) => command@ == DeviceCommandView::Rotate(rotations@),
            DeviceCommand::Linear(positions) => command@ == DeviceCommandView::Linear(positions@),
            DeviceCommand::RawWrite(bytes) => command@ == DeviceCommandView::RawWrite(bytes@),
        },
{
}

/// The view of what follows from a command says all of it.
pub proof fn law_view_of_command_reaction(reaction: CommandReaction, i: int, j: int)
    ensures
        reaction@.feed_watchdog == reaction.feed_watchdog,
        reaction@.lines.len() == reaction.lines@.len(),
        0 <= i < reaction.lines@.len() ==> reaction@.lines[i].text == reaction.lines@[i].text@
            && reaction@.lines[i].is_error == reaction.lines@[i].is_error,
        reaction@.plan.len() == reaction.plan@.len(),
        0 <= i < reaction.plan@.len() ==> reaction@.plan[i].len() == reaction.plan@[i]@.len(),
        0 <= i < reaction.plan@.len() && 0 <= j < reaction.plan@[i]@.len() ==> reaction@.plan[i][j]
            == reaction.plan@[i]@[j]@,
{
}

/// The view of what follows from an event says all of it.
pub proof fn law_view_of_socket_reaction(reaction: SocketReaction, i: int)
    ensures
        reaction@.done == reaction.done,
        reaction.command is None <==> reaction@.command is None,
        reaction.command matches Some(command) ==> reaction@.command == Some(command@),
        reaction@.lines.len() == reaction.lines@.len(),
        0 <= i < reaction.lines@.len() ==> reaction@.lines[i].text == reaction.lines@[i].text@
            && reaction@.lines[i].is_error == reaction.lines@[i].is_error,
{
}

/// A command that a device did not take is told on the error output with its error.
pub proof fn law_what_is_told_of_a_refusal(error: Seq<char>)
    ensures
        told_of_refusal(error) == (LineView {
            text: "/haptic: "@ + ("error sending command "@ + error),
            is_error: true,
        }),
{
    lemma_haptic_line("error sending command "@ + error, true);
}

} // verus!
