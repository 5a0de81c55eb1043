use crate::error::ConnectionError;
use vstd::prelude::*;

verus! {

/// A port as the system lists it: the name shown to the user, and the
/// identifier by which the same port is found again later.
#[derive(Debug, Clone, PartialEq, Eq)]
pub struct AvailableMidiPort {
    pub name: String,
    pub index: String,
}

impl AvailableMidiPort {
    /// A copy of this entry.
    pub fn duplicate(&self) -> (copy: AvailableMidiPort)
        ensures
            copy == *self,
    {
        AvailableMidiPort { name: self.name.clone(), index: self.index.clone() }
    }
}

/// Whether `at` is the place of the first port in `ports` whose identifier is
/// `id`.
pub open spec fn is_first_match(ports: Seq<AvailableMidiPort>, id: Seq<char>, at: int) -> bool {
    &&& 0 <= at < ports.len()
    &&& ports[at].index@ == id
    &&& forall|earlier: int| 0 <= earlier < at ==> (#[trigger] ports[earlier]).index@ != id
}

/// The place of the port that `id` names in the listing, if it names one:
/// the first port with that identifier.
pub open spec fn resolve_port(ports: Seq<AvailableMidiPort>, id: Seq<char>) -> Option<int> {
    if exists|at: int| is_first_match(ports, id, at) {
        Some(choose|at: int| is_first_match(ports, id, at))
    } else {
        None
    }
}

/// Looks `id` up in a listing of ports.
pub fn find_port_by_id(ports: &Vec<AvailableMidiPort>, id: &String) -> (found: Option<usize>)
    ensures
        found matches Some(at) ==> resolve_port(ports@, id@) == Some(at as int),
        found is None ==> resolve_port(ports@, id@) is None,
{
    let mut at: usize = 0;
    while at < ports.len()
        invariant
            at <= ports.len(),
            forall|earlier: int| 0 <= earlier < at ==> (#[trigger] ports@[earlier]).index@ != id@,
        decreases ports.len() - at,
    {
        if ports[at].index == *id {
            proof {
                lemma_first_match_is_unique(ports@, id@, at as int);
            }
            return Some(at);
        }
        at += 1;
    }
    None
}

/// At most one place is the first match.
pub proof fn lemma_first_match_is_unique(ports: Seq<AvailableMidiPort>, id: Seq<char>, at: int)
    requires
        is_first_match(ports, id, at),
    ensures
        resolve_port(ports, id) == Some(at),
{
    let chosen = choose|other: int| is_first_match(ports, id, other);
    assert(is_first_match(ports, id, chosen));
    if chosen < at {
        assert(ports[chosen].index@ != id);
    } else if at < chosen {
        assert(ports[at].index@ != id);
    }
}

/// One side of the instrument link, input or output. While disconnected it
/// holds the idle handle from which a connection can be opened; while
/// connected it holds the open connection and the port it leads to. A
/// transition takes the state and gives the next one back, so a handle is never
/// read while it is away and never exists twice.
pub enum ConnectionState<Idle, Live> {
    Disconnected(Idle),
    Connected(Live, AvailableMidiPort),
}

/// Whether `res` is where an attempt to open `port` leaves the link, given
/// what `open` may return for the handle `idle` and the place `at`: connected
/// to `port` with the connection that `open` gave, or disconnected with the
/// idle handle that `open` gave back.
pub open spec fn opened_by<Idle, Live, F: FnOnce(Idle, usize) -> Result<Live, Idle>>(
    open: F,
    idle: Idle,
    at: usize,
    port: AvailableMidiPort,
    res: (ConnectionState<Idle, Live>, Result<AvailableMidiPort, ConnectionError>),
) -> bool {
    match res.0 {
        ConnectionState::Connected(live, to) => {
            &&& open.ensures((idle, at), Ok::<Live, Idle>(live))
            &&& to == port
            &&& res.1 == Ok::<AvailableMidiPort, ConnectionError>(port)
        },
        ConnectionState::Disconnected(back) => {
            &&& open.ensures((idle, at), Err::<Live, Idle>(back))
            &&& res.1 == Err::<AvailableMidiPort, ConnectionError>(
                ConnectionError::HardwareFailure,
            )
        },
    }
}

impl<Idle, Live> ConnectionState<Idle, Live> {
    /// A link that is not connected.
    pub fn new(idle: Idle) -> (state: Self)
        ensures
            state == ConnectionState::<Idle, Live>::Disconnected(idle),
    {
        ConnectionState::Disconnected(idle)
    }

    /// Whether the link is connected.
    pub fn is_connected(&self) -> (connected: bool)
        ensures
            connected == (self is Connected),
    {
        match self {
            ConnectionState::Connected(_, _) => true,
            ConnectionState::Disconnected(_) => false,
        }
    }

    /// The port that the link is connected to, if it is connected.
    pub fn connection_info(&self) -> (info: Option<AvailableMidiPort>)
        ensures
            self matches ConnectionState::Connected(_, port) ==> info == Some(*port),
            self is Disconnected ==> info is None,
    {
        match self {
            ConnectionState::Connected(_, port) => Some(port.duplicate()),
            ConnectionState::Disconnected(_) => None,
        }
    }

    /// The idle handle, while the link is disconnected.
    pub fn idle(&self) -> (handle: Option<&Idle>)
        ensures
            self matches ConnectionState::Disconnected(idle) ==> handle == Some(idle),
            self is Connected ==> handle is None,
    {
        match self {
            ConnectionState::Disconnected(idle) => Some(idle),
            ConnectionState::Connected(_, _) => None,
        }
    }

    /// The ports that can be connected to. While the link is connected the
    /// hardware is not asked and the listing is empty; otherwise it is what
    /// `probe` reads from the idle handle.
    pub fn available_ports<F>(&self, probe: F) -> (ports: Vec<AvailableMidiPort>) where
        F: FnOnce(&Idle) -> Vec<AvailableMidiPort>,

        requires
            self matches ConnectionState::Disconnected(idle) ==> probe.requires((idle,)),
        ensures
            self is Connected ==> ports@.len() == 0,
            self matches ConnectionState::Disconnected(idle) ==> probe.ensures((idle,), ports),
    {
        match self {
            ConnectionState::Connected(_, _) => Vec::new(),
            ConnectionState::Disconnected(idle) => probe(idle),
        }
    }

    /// Opens the port at `at` from the idle handle.
    fn open_port<F>(idle: Idle, ports: &Vec<AvailableMidiPort>, at: usize, open: F) -> (res: (
        Self,
        Result<AvailableMidiPort, ConnectionError>,
    )) where F: FnOnce(Idle, usize) -> Result<Live, Idle>
        requires
            at < ports@.len(),
            open.requires((idle, at)),
        ensures
            opened_by(open, idle, at, ports@[at as int], res),
    {
        let port = ports[at].duplicate();
        match open(idle, at) {
            Ok(live) => {
                let info = port.duplicate();
                (ConnectionState::Connected(live, port), Ok(info))
            },
            Err(back) => (
                ConnectionState::Disconnected(back),
                Err(ConnectionError::HardwareFailure),
            ),
        }
    }

    /// Connects to the port that `id` names in `ports`. Only a disconnected
    /// link can connect, and only to a port that the listing holds: otherwise
    /// the link stays exactly as it was. `open` is handed the idle handle and the
    /// place of the port, and gives back the connection, or the idle handle
    /// when the hardware refuses.
    pub fn connect_with_id<F>(self, ports: &Vec<AvailableMidiPort>, id: &String, open: F) -> (res: (
        Self,
        Result<AvailableMidiPort, ConnectionError>,
    )) where F: FnOnce(Idle, usize) -> Result<Live, Idle>
        requires
            self matches ConnectionState::Disconnected(idle) ==> (resolve_port(ports@, id@) matches Some(
                at,
            ) ==> open.requires((idle, at as usize))),
        ensures
            self is Connected ==> res == (
                self,
                Err::<AvailableMidiPort, ConnectionError>(ConnectionError::AlreadyConnected),
            ),
            self is Disconnected && resolve_port(ports@, id@) is None ==> res == (
                self,
                Err::<AvailableMidiPort, ConnectionError>(ConnectionError::PortNotFound),
            ),
            self matches ConnectionState::Disconnected(idle) ==> (resolve_port(ports@, id@) matches Some(
                at,
            ) ==> opened_by(open, idle, at as usize, ports@[at], res)),
    {
        match self {
            ConnectionState::Connected(live, port) => (
                ConnectionState::Connected(live, port),
                Err(ConnectionError::AlreadyConnected),
            ),
            ConnectionState::Disconnected(idle) => match find_port_by_id(ports, id) {
                None => (ConnectionState::Disconnected(idle), Err(ConnectionError::PortNotFound)),
                Some(at) => Self::open_port(idle, ports, at, open),
            },
        }
    }

    /// Connects to the first port of the listing, for a caller that has no
    /// port in mind. Only a disconnected link can connect, and only when the
    /// listing holds a port: otherwise the link stays exactly as it was.
    pub fn connect_first_available<F>(self, ports: &Vec<AvailableMidiPort>, open: F) -> (res: (
        Self,
        Result<AvailableMidiPort, ConnectionError>,
    )) where F: FnOnce(Idle, usize) -> Result<Live, Idle>
        requires
            self matches ConnectionState::Disconnected(idle) ==> (ports@.len() > 0
                ==> open.requires((idle, 0usize))),
        ensures
            self is Connected ==> res == (
                self,
                Err::<AvailableMidiPort, ConnectionError>(ConnectionError::AlreadyConnected),
            ),
            self is Disconnected && ports@.len() == 0 ==> res == (
                self,
                Err::<AvailableMidiPort, ConnectionError>(ConnectionError::PortNotFound),
            ),
            self matches ConnectionState::Disconnected(idle) ==> (ports@.len() > 0 ==> opened_by(
                open,
                idle,
                0usize,
                ports@[0],
                res,
            )),
    {
        match self {
            ConnectionState::Connected(live, port) => (
                ConnectionState::Connected(live, port),
                Err(ConnectionError::AlreadyConnected),
            ),
            ConnectionState::Disconnected(idle) => {
                if ports.len() == 0 {
                    (ConnectionState::Disconnected(idle), Err(ConnectionError::PortNotFound))
                } else {
                    Self::open_port(idle, ports, 0, open)
                }
            },
        }
    }

    /// Disconnects. `release` is handed the open connection and gives the idle
    /// handle back. A link that is not connected stays exactly as it was.
    pub fn close<F>(self, release: F) -> (res: (Self, bool)) where F: FnOnce(Live) -> Idle
        requires
            self matches ConnectionState::Connected(live, _) ==> release.requires((live,)),
        ensures
            self is Disconnected ==> res == (self, false),
            self matches ConnectionState::Connected(live, _) ==> res.1 && (
            res.0 matches ConnectionState::Disconnected(idle) && release.ensures((live,), idle)),
    {
        match self {
            ConnectionState::Connected(live, _) => (
                ConnectionState::Disconnected(release(live)),
                true,
            ),
            ConnectionState::Disconnected(idle) => (ConnectionState::Disconnected(idle), false),
        }
    }

    /// Sends one message through the open connection. `transmit` is handed the
    /// connection and the message, and gives the connection back with the word
    /// of the hardware on whether the message was taken. A link that is not
    /// connected stays exactly as it was, and nothing is sent.
    pub fn send_out<F>(self, data: &[u8], transmit: F) -> (res: (
        Self,
        Result<(), ConnectionError>,
    )) where F: FnOnce(Live, &[u8]) -> (Live, bool)
        requires
            self matches ConnectionState::Connected(live, _) ==> transmit.requires((live, data)),
        ensures
            self is Disconnected ==> res == (
                self,
                Err::<(), ConnectionError>(ConnectionError::NotConnected),
            ),
            self matches ConnectionState::Connected(live, port) ==> (
            res.0 matches ConnectionState::Connected(after, to) && to == port && match res.1 {
                Ok(_) => transmit.ensures((live, data), (after, true)),
                Err(error) => error == ConnectionError::HardwareFailure && transmit.ensures(
                    (live, data),
                    (after, false),
                ),
            }),
    {
        match self {
            ConnectionState::Connected(live, port) => {
                let (after, taken) = transmit(live, data);
                let outcome = if taken {
                    Ok(())
                } else {
                    Err(ConnectionError::HardwareFailure)
                };
                (ConnectionState::Connected(after, port), outcome)
            },
            ConnectionState::Disconnected(idle) => (
                ConnectionState::Disconnected(idle),
                Err(ConnectionError::NotConnected),
            ),
        }
    }
}

} // verus!
