//! The client's settings form and the decision taken on each of its events.
use vstd::prelude::*;
use crate::protocol::Protocol;

verus! {

/// What the settings form holds.
pub struct SettingsView {
    pub ip_address: Seq<char>,
    pub port: Seq<char>,
    pub is_tcp: bool,
}

/// The server address and port, the protocol, and whether TCP is selected,
/// as the user edits them.
pub struct ClientSettings {
    ip_address: String,
    port: String,
    is_tcp: bool,
}

impl View for ClientSettings {
    type V = SettingsView;

    closed spec fn view(&self) -> SettingsView {
        SettingsView { ip_address: self.ip_address@, port: self.port@, is_tcp: self.is_tcp }
    }
}

/// An event of the settings form.
pub enum SettingsEvent {
    /// The address field now reads this.
    IpAddressChanged(String),
    /// The port field now reads this.
    PortChanged(String),
    /// The protocol toggle is now on (TCP) or off (UDP).
    ProtocolToggled(bool),
    /// The user asked for a test.
    Connect,
}

/// An event with its text as characters.
pub enum EventView {
    IpAddressChanged(Seq<char>),
    PortChanged(Seq<char>),
    ProtocolToggled(bool),
    Connect,
}

impl View for SettingsEvent {
    type V = EventView;

    open spec fn view(&self) -> EventView {
        match self {
            SettingsEvent::IpAddressChanged(s) => EventView::IpAddressChanged(s@),
            SettingsEvent::PortChanged(s) => EventView::PortChanged(s@),
            SettingsEvent::ProtocolToggled(b) => EventView::ProtocolToggled(*b),
            SettingsEvent::Connect => EventView::Connect,
        }
    }
}

/// What the client does after an event.
pub enum ClientAction {
    /// Nothing beyond updating the form.
    Nothing,
    /// Tell the user a test is already running, and start none.
    AlreadyRunning,
    /// Mark a test as running and start one over `protocol` against `address`
    /// (`host:port`).
    StartTest { protocol: Protocol, address: String },
}

/// An action with its text as characters.
pub enum ActionView {
    Nothing,
    AlreadyRunning,
    StartTest { protocol: Protocol, address: Seq<char> },
}

impl View for ClientAction {
    type V = ActionView;

    open spec fn view(&self) -> ActionView {
        match self {
            ClientAction::Nothing => ActionView::Nothing,
            ClientAction::AlreadyRunning => ActionView::AlreadyRunning,
            ClientAction::StartTest { protocol, address } => ActionView::StartTest {
                protocol: *protocol,
                address: address@,
            },
        }
    }
}

/// The protocol the form selects.
pub open spec fn spec_protocol(s: SettingsView) -> Protocol {
    if s.is_tcp {
        Protocol::TCP
    } else {
        Protocol::UDP
    }
}

/// `host:port` from the form.
pub open spec fn spec_address(s: SettingsView) -> Seq<char> {
    s.ip_address + seq![':'] + s.port
}

/// The form after `event`, and what the client does, given whether a test is
/// already `running`.
pub open spec fn spec_update(s: SettingsView, event: EventView, running: bool) -> (
    SettingsView,
    ActionView,
) {
    match event {
        EventView::IpAddressChanged(v) => (SettingsView { ip_address: v, ..s }, ActionView::Nothing),
        EventView::PortChanged(v) => (SettingsView { port: v, ..s }, ActionView::Nothing),
        EventView::ProtocolToggled(b) => (SettingsView { is_tcp: b, ..s }, ActionView::Nothing),
        EventView::Connect => if running {
            (s, ActionView::AlreadyRunning)
        } else {
            (s, ActionView::StartTest { protocol: spec_protocol(s), address: spec_address(s) })
        },
    }
}

/// An edit of one field is undone by the next edit of the same field and
/// leaves the other fields alone; a request for a test leaves the form alone.
pub proof fn lemma_last_edit_wins(s: SettingsView, first: Seq<char>, second: Seq<char>, running: bool)
    ensures
        spec_update(spec_update(s, EventView::IpAddressChanged(first), running).0, EventView::IpAddressChanged(second), running).0
            == spec_update(s, EventView::IpAddressChanged(second), running).0,
        spec_update(spec_update(s, EventView::PortChanged(first), running).0, EventView::PortChanged(second), running).0
            == spec_update(s, EventView::PortChanged(second), running).0,
        spec_update(s, EventView::IpAddressChanged(first), running).0.port == s.port,
        spec_update(s, EventView::IpAddressChanged(first), running).0.is_tcp == s.is_tcp,
        spec_update(s, EventView::PortChanged(first), running).0.ip_address == s.ip_address,
        spec_update(s, EventView::PortChanged(first), running).0.is_tcp == s.is_tcp,
        spec_update(s, EventView::Connect, running).0 == s,
{
}

/// Each edit sets its own field to the new value, whatever the field held
/// before, and leaves the others alone; a request for a test leaves the form
/// alone and, when none is running, starts one over TCP exactly when the
/// toggle is on, against the address, a colon and the port.
pub proof fn lemma_events_set_their_fields(s: SettingsView, v: Seq<char>, b: bool, running: bool)
    ensures
        ({
            let (t, a) = spec_update(s, EventView::IpAddressChanged(v), running);
            t.ip_address == v && t.port == s.port && t.is_tcp == s.is_tcp && a is Nothing
        }),
        ({
            let (t, a) = spec_update(s, EventView::PortChanged(v), running);
            t.port == v && t.ip_address == s.ip_address && t.is_tcp == s.is_tcp && a is Nothing
        }),
        ({
            let (t, a) = spec_update(s, EventView::ProtocolToggled(b), running);
            t.is_tcp == b && t.ip_address == s.ip_address && t.port == s.port && a is Nothing
        }),
        ({
            let (t, a) = spec_update(s, EventView::Connect, running);
            &&& t == s
            &&& running ==> a is AlreadyRunning
            &&& !running ==> a is StartTest
            &&& a matches ActionView::StartTest { protocol, address } ==> {
                &&& (protocol == Protocol::TCP) == s.is_tcp
                &&& address == s.ip_address + seq![':'] + s.port
            }
        }),
{
}

/// A test is started only when none is running, and then with the form's
/// protocol and address.
pub proof fn lemma_connect_starts_at_most_one(s: SettingsView, running: bool)
    ensures
        running ==> spec_update(s, EventView::Connect, running).1 is AlreadyRunning,
        !running ==> spec_update(s, EventView::Connect, running).1 == (ActionView::StartTest {
            protocol: spec_protocol(s),
            address: spec_address(s),
        }),
{
}

impl ClientSettings {
    /// The form as it first appears: `127.0.0.1`, port `8080`, TCP.
    pub fn new() -> (c: ClientSettings)
        ensures
            c@.ip_address == "127.0.0.1"@,
            c@.port == "8080"@,
            c@.is_tcp,
    {
        ClientSettings {
            ip_address: String::from_str("127.0.0.1"),
            port: String::from_str("8080"),
            is_tcp: true,
        }
    }

    /// The address field.
    pub fn ip_address(&self) -> (s: &str)
        ensures
            s@ == self@.ip_address,
    {
        self.ip_address.as_str()
    }

    /// The port field.
    pub fn port(&self) -> (s: &str)
        ensures
            s@ == self@.port,
    {
        self.port.as_str()
    }

    /// Whether TCP is selected.
    pub fn is_tcp(&self) -> (b: bool)
        ensures
            b == self@.is_tcp,
    {
        self.is_tcp
    }

    /// The protocol the form selects.
    pub fn protocol(&self) -> (p: Protocol)
        ensures
            p == spec_protocol(self@),
    {
        Protocol::from_toggle(self.is_tcp)
    }

    /// `host:port` from the form.
    pub fn address(&self) -> (a: String)
        ensures
            a@ == spec_address(self@),
    {
        let mut a = self.ip_address.clone();
        a.append(":");
        a.append(self.port.as_str());
        proof {
            reveal_strlit(":");
        }
        a
    }

    /// Applies `event` to the form and decides what the client does, given
    /// whether a test is already `running`.
    pub fn update(&mut self, event: SettingsEvent, running: bool) -> (a: ClientAction)
        ensures
            (final(self)@, a@) == spec_update(old(self)@, event@, running),
    {
        match event {
            SettingsEvent::IpAddressChanged(v) => {
                self.ip_address = v;
                ClientAction::Nothing
            },
            SettingsEvent::PortChanged(v) => {
                self.port = v;
                ClientAction::Nothing
            },
            SettingsEvent::ProtocolToggled(b) => {
                self.is_tcp = b;
                ClientAction::Nothing
            },
            SettingsEvent::Connect => {
                if running {
                    ClientAction::AlreadyRunning
                } else {
                    ClientAction::StartTest { protocol: self.protocol(), address: self.address() }
                }
            },
        }
    }

    /// The line under the form: `Selected: host:port (TCP)`.
    pub fn selection_label(&self) -> (s: String)
        ensures
            s@ == "Selected: "@ + spec_address(self@) + " ("@ + spec_protocol(self@).spec_name()
                + ")"@,
    {
        let mut s = String::from_str("Selected: ");
        let a = self.address();
        s.append(a.as_str());
        s.append(" (");
        let n = self.protocol().name();
        s.append(n.as_str());
        s.append(")");
        s
    }

    /// The line printed when a test starts: `Connecting to host:port using TCP`.
    pub fn connecting_message(&self) -> (s: String)
        ensures
            s@ == "Connecting to "@ + spec_address(self@) + " using "@ + spec_protocol(
                self@,
            ).spec_name(),
    {
        let mut s = String::from_str("Connecting to ");
        let a = self.address();
        s.append(a.as_str());
        s.append(" using ");
        let n = self.protocol().name();
        s.append(n.as_str());
        s
    }
}

} // verus!
