//! The life of the web server: when it listens, restarts and ends.
use crate::application::ShutdownMessage;
use vstd::prelude::*;

verus! {

/// Where the web server stands.
#[derive(Clone, Copy, Debug, PartialEq, Eq, Structural)]
pub enum ServerPhase {
    /// The first configuration is not loaded yet.
    Starting,
    /// It is about to listen on the configured port.
    Binding,
    /// It is listening.
    Serving,
    /// It has ended for good.
    Stopped,
}

/// What happens to the web server.
#[derive(Clone, Copy, Debug, PartialEq, Eq, Structural)]
pub enum ServerEvent {
    /// The first configuration is loaded.
    ConfigurationLoaded,
    /// It could listen on the port.
    Bound,
    /// It could not listen on the port.
    BindFailed,
    /// It was told something, or nobody is left who could.
    Signal(Option<ShutdownMessage>),
}

/// What has to be done for the web server.
#[derive(Clone, Copy, Debug, PartialEq, Eq, Structural)]
pub struct ServerAction {
    /// Close the server that is listening.
    pub close: bool,
    /// Listen on the port of the configuration in force.
    pub bind: bool,
    /// Open the window.
    pub start_gui: bool,
    /// Say that the web server has ended.
    pub finish: bool,
}

/// The web server: where it stands, and whether the window has been opened.
#[derive(Clone, Copy, Debug, PartialEq, Eq, Structural)]
pub struct WebServer {
    pub phase: ServerPhase,
    pub gui_started: bool,
}

impl WebServer {
    /// Whether an event can happen now.
    pub open spec fn accepts(self, event: ServerEvent) -> bool {
        match event {
            ServerEvent::ConfigurationLoaded => self.phase == ServerPhase::Starting,
            ServerEvent::Bound => self.phase == ServerPhase::Binding,
            ServerEvent::BindFailed => self.phase == ServerPhase::Binding,
            ServerEvent::Signal(_) => self.phase == ServerPhase::Serving,
        }
    }

    /// The web server after an event.
    pub open spec fn after(self, event: ServerEvent) -> WebServer {
        match event {
            ServerEvent::ConfigurationLoaded => WebServer { phase: ServerPhase::Binding, ..self },
            ServerEvent::Bound => WebServer { phase: ServerPhase::Serving, gui_started: true },
            ServerEvent::BindFailed => WebServer { phase: ServerPhase::Stopped, ..self },
            ServerEvent::Signal(Some(ShutdownMessage::Restart)) => WebServer {
                phase: ServerPhase::Binding,
                ..self
            },
            ServerEvent::Signal(_) => WebServer { phase: ServerPhase::Stopped, ..self },
        }
    }

    /// What an event calls for. The window is opened when the server listens for
    /// the first time. A failure to listen, an order to shut down, and the loss of
    /// everyone who could give orders all end the server.
    pub open spec fn action(self, event: ServerEvent) -> ServerAction {
        ServerAction {
            close: event is Signal,
            bind: event == ServerEvent::ConfigurationLoaded || event == ServerEvent::Signal(
                Some(ShutdownMessage::Restart),
            ),
            start_gui: event == ServerEvent::Bound && !self.gui_started,
            finish: self.after(event).phase == ServerPhase::Stopped,
        }
    }

    /// The web server before anything happens.
    pub open spec fn spec_new() -> WebServer {
        WebServer { phase: ServerPhase::Starting, gui_started: false }
    }

    /// The web server before anything happens.
    #[verifier::when_used_as_spec(spec_new)]
    pub fn new() -> (server: WebServer)
        ensures
            server == WebServer::spec_new(),
    {
        WebServer { phase: ServerPhase::Starting, gui_started: false }
    }

    /// Whether an event can happen now.
    pub fn can_happen(&self, event: ServerEvent) -> (result: bool)
        ensures
            result == self.accepts(event),
    {
        match event {
            ServerEvent::ConfigurationLoaded => self.phase == ServerPhase::Starting,
            ServerEvent::Bound => self.phase == ServerPhase::Binding,
            ServerEvent::BindFailed => self.phase == ServerPhase::Binding,
            ServerEvent::Signal(_) => self.phase == ServerPhase::Serving,
        }
    }

    /// Something happens to the web server; the result says what to do.
    pub fn step(&mut self, event: ServerEvent) -> (action: ServerAction)
        requires
            old(self).accepts(event),
        ensures
            *final(self) == old(self).after(event),
            action == old(self).action(event),
    {
        match event {
            ServerEvent::ConfigurationLoaded => {
                self.phase = ServerPhase::Binding;
                ServerAction { close: false, bind: true, start_gui: false, finish: false }
            },
            ServerEvent::Bound => {
                let start_gui = !self.gui_started;
                self.phase = ServerPhase::Serving;
                self.gui_started = true;
                ServerAction { close: false, bind: false, start_gui, finish: false }
            },
            ServerEvent::BindFailed => {
                self.phase = ServerPhase::Stopped;
                ServerAction { close: false, bind: false, start_gui: false, finish: true }
            },
            ServerEvent::Signal(signal) => {
                let message = match signal {
                    Some(message) => message,
                    None => ShutdownMessage::Shutdown,
                };
                match message {
                    ShutdownMessage::Restart => {
                        self.phase = ServerPhase::Binding;
                        ServerAction { close: true, bind: true, start_gui: false, finish: false }
                    },
                    ShutdownMessage::Shutdown => {
                        self.phase = ServerPhase::Stopped;
                        ServerAction { close: true, bind: false, start_gui: false, finish: true }
                    },
                }
            },
        }
    }
}

/// The web server listens on this machine only.
pub fn proxy_server_address(port: u16) -> (address: ([u8; 4], u16))
    ensures
        address.0@ == seq![127u8, 0u8, 0u8, 1u8],
        address.1 == port,
{
    let address: [u8; 4] = [127, 0, 0, 1];
    assert(address@ =~= seq![127u8, 0u8, 0u8, 1u8]);
    (address, port)
}

/// The web server after some events.
pub open spec fn server_after(server: WebServer, events: Seq<ServerEvent>) -> WebServer
    decreases events.len(),
{
    if events.len() == 0 {
        server
    } else {
        server_after(server, events.drop_last()).after(events.last())
    }
}

/// Whether each event can happen when its turn comes.
pub open spec fn possible(server: WebServer, events: Seq<ServerEvent>) -> bool {
    forall|i: int|
        0 <= i < events.len() ==> server_after(server, #[trigger] events.take(i)).accepts(events[i])
}

/// What the event at a place calls for.
pub open spec fn action_at(server: WebServer, events: Seq<ServerEvent>, i: int) -> ServerAction {
    server_after(server, events.take(i)).action(events[i])
}

/// Once the window is open it counts as open.
proof fn lemma_gui_stays_started(server: WebServer, events: Seq<ServerEvent>, i: int, j: int)
    requires
        0 <= i <= j <= events.len(),
        server_after(server, events.take(i)).gui_started,
    ensures
        server_after(server, events.take(j)).gui_started,
    decreases j - i,
{
    if i < j {
        lemma_gui_stays_started(server, events, i, j - 1);
        assert(events.take(j).drop_last() =~= events.take(j - 1));
    }
}

/// However often the web server restarts, the window is opened at most once.
pub proof fn law_gui_starts_at_most_once(events: Seq<ServerEvent>, i: int, j: int)
    requires
        0 <= i < j < events.len(),
        action_at(WebServer::spec_new(), events, i).start_gui,
    ensures
        !action_at(WebServer::spec_new(), events, j).start_gui,
{
    let server = WebServer::spec_new();
    assert(events.take(i + 1).drop_last() =~= events.take(i));
    assert(events.take(i + 1).last() == events[i]);
    lemma_gui_stays_started(server, events, i + 1, j);
}

/// Whenever the server listens, the window has been opened.
pub proof fn law_serving_has_gui(events: Seq<ServerEvent>)
    ensures
        server_after(WebServer::spec_new(), events).phase == ServerPhase::Serving ==> server_after(
            WebServer::spec_new(),
            events,
        ).gui_started,
{
}

/// After the end nothing happens any more: the event that ends the server is the
/// last one.
pub proof fn law_nothing_after_the_end(events: Seq<ServerEvent>, i: int)
    requires
        possible(WebServer::spec_new(), events),
        0 <= i < events.len(),
        action_at(WebServer::spec_new(), events, i).finish,
    ensures
        i == events.len() - 1,
{
    let server = WebServer::spec_new();
    if i < events.len() - 1 {
        assert(events.take(i + 1).drop_last() =~= events.take(i));
        assert(events.take(i + 1).last() == events[i]);
        assert(server_after(server, events.take(i + 1)).accepts(events[i + 1]));
    }
}

/// A server that listens is closed before another one is bound or the end is
/// announced.
pub proof fn law_listening_server_is_closed(server: WebServer, event: ServerEvent)
    requires
        server.accepts(event),
    ensures
        server.action(event).close <==> server.phase == ServerPhase::Serving,
        server.phase == ServerPhase::Serving ==> server.action(event).bind != server.action(
            event,
        ).finish,
{
}

/// What can happen when: first the configuration is loaded; whenever the server is to
/// listen, it can or it cannot; while it listens, it can be told something; and after
/// the end nothing can happen.
pub proof fn law_what_can_happen_next(server: WebServer, event: ServerEvent, next: ServerEvent)
    requires
        server.accepts(event),
    ensures
        WebServer::spec_new().accepts(next) <==> next == ServerEvent::ConfigurationLoaded,
        server.after(event).accepts(next) <==> match event {
            ServerEvent::ConfigurationLoaded => next == ServerEvent::Bound || next
                == ServerEvent::BindFailed,
            ServerEvent::Signal(Some(ShutdownMessage::Restart)) => next == ServerEvent::Bound
                || next == ServerEvent::BindFailed,
            ServerEvent::Bound => next is Signal,
            ServerEvent::BindFailed => false,
            ServerEvent::Signal(_) => false,
        },
{
}

/// The server is to listen once the configuration is loaded and after each order to
/// restart. It ends if it cannot listen, is told to shut down or nobody is left who
/// could tell it anything. Whenever it is told something, it stops listening.
pub proof fn law_what_an_event_calls_for(server: WebServer, event: ServerEvent)
    ensures
        server.action(event).bind <==> event == ServerEvent::ConfigurationLoaded || event
            == ServerEvent::Signal(Some(ShutdownMessage::Restart)),
        server.accepts(event) ==> (server.action(event).finish <==> event
            == ServerEvent::BindFailed || event == ServerEvent::Signal(
            Some(ShutdownMessage::Shutdown),
        ) || event == ServerEvent::Signal(None)),
        server.action(event).close <==> event is Signal,
{
}

/// The window counts as open exactly if the server has listened before.
proof fn lemma_gui_started(events: Seq<ServerEvent>)
    ensures
        server_after(WebServer::spec_new(), events).gui_started <==> exists|i: int|
            0 <= i < events.len() && #[trigger] events[i] == ServerEvent::Bound,
    decreases events.len(),
{
    if events.len() > 0 {
        let shorter = events.drop_last();
        lemma_gui_started(shorter);
        assert(forall|i: int| 0 <= i < shorter.len() ==> #[trigger] events[i] == shorter[i]);
        assert(forall|i: int| 0 <= i < shorter.len() ==> #[trigger] shorter[i] == events[i]);
        assert(events[events.len() - 1] == events.last());
    }
}

/// The window is opened when the server listens for the first time, and at no other
/// time.
pub proof fn law_window_opens_when_first_listening(events: Seq<ServerEvent>, i: int)
    requires
        0 <= i < events.len(),
    ensures
        action_at(WebServer::spec_new(), events, i).start_gui <==> events[i] == ServerEvent::Bound
            && forall|j: int| 0 <= j < i ==> #[trigger] events[j] != ServerEvent::Bound,
{
    let before = events.take(i);
    lemma_gui_started(before);
    assert(forall|j: int| 0 <= j < i ==> #[trigger] events[j] == before[j]);
    assert(forall|j: int| 0 <= j < i ==> #[trigger] before[j] == events[j]);
}

} // verus!
