//! Relay registration, circuit set-up and the per-peer connection state.
use crate::peer::{
    circuit_marker, dial_address, is_multiaddr, is_peer_id, listen_address, p2p_component, PeerKey,
};
use vstd::prelude::*;
use vstd::string::*;

verus! {

/// Whether this process dials a peer through the relay or waits for one.
#[derive(Clone, Copy, Debug, PartialEq, Eq, Structural)]
pub enum Mode {
    Dial,
    Listen,
}

pub const MODE_ERROR: &'static str = "Expected 'dial' or 'listen'";

/// Whether two texts are the same.
fn same_text(a: &str, b: &str) -> (r: bool)
    ensures
        r == (a@ == b@),
{
    let n = a.unicode_len();
    if n != b.unicode_len() {
        return false;
    }
    let mut i: usize = 0;
    while i < n
        invariant
            i <= n,
            n == a@.len(),
            n == b@.len(),
            forall|j: int| 0 <= j < i ==> a@[j] == b@[j],
        decreases n - i,
    {
        if a.get_char(i) != b.get_char(i) {
            return false;
        }
        i = i + 1;
    }
    assert(a@ =~= b@);
    true
}

impl Mode {
    /// Reads a mode from its name: `dial` or `listen`.
    pub fn from_str(s: &str) -> (r: Result<Mode, String>)
        ensures
            (s@ == "dial"@) <==> (r == Ok::<Mode, String>(Mode::Dial)),
            (s@ == "listen"@) <==> (r == Ok::<Mode, String>(Mode::Listen)),
            r matches Err(e) ==> e@ == MODE_ERROR@,
    {
        proof {
            reveal_strlit("dial");
            reveal_strlit("listen");
            assert("dial"@.len() != "listen"@.len());
        }
        if same_text(s, "dial") {
            Ok(Mode::Dial)
        } else if same_text(s, "listen") {
            Ok(Mode::Listen)
        } else {
            Err(String::from_str(MODE_ERROR))
        }
    }
}

/// How far the connection to one peer has come.
#[derive(Clone, Copy, Debug, PartialEq, Eq, Structural)]
pub enum ConnState {
    Unregistered,
    RelayRegistered,
    CircuitEstablished,
    DirectUpgraded,
    Failed,
}

/// What the transport reported about one peer.
#[derive(Clone, Copy, Debug, PartialEq, Eq, Structural)]
pub enum LinkEvent {
    /// The relay was dialled and accepted us.
    RelayReached,
    /// A relayed circuit to the peer is open.
    CircuitUp,
    /// A direct connection is up: the hole punch succeeded, or the peer was
    /// reached without the relay.
    DirectUp,
    /// The hole punch failed; the circuit stays.
    UpgradeFailed,
    /// A heartbeat was answered.
    PingOk,
    /// A heartbeat went unanswered.
    PingTimeout,
    /// A step timed out, the transport failed or the connection closed.
    Lost,
}

/// Unanswered heartbeats in a row after which a connection is given up.
pub const MISSED_LIMIT: u8 = 3;

/// The connection state of one peer with its count of missed heartbeats.
#[derive(Clone, Copy, Debug, PartialEq, Eq, Structural)]
pub struct Link {
    pub state: ConnState,
    pub missed: u8,
}

/// Whether messages can flow to the peer.
pub open spec fn live(s: ConnState) -> bool {
    s == ConnState::CircuitEstablished || s == ConnState::DirectUpgraded
}

/// The link after one event. Registration with the relay is tracked on the
/// relay's own link, so a peer's link may go from `Unregistered` straight to
/// a circuit; a direct connection made without a circuit counts as upgraded.
pub open spec fn link_next(l: Link, e: LinkEvent) -> Link {
    if l.state == ConnState::Failed {
        l
    } else {
        match e {
            LinkEvent::RelayReached => if l.state == ConnState::Unregistered {
                Link { state: ConnState::RelayRegistered, ..l }
            } else {
                l
            },
            LinkEvent::CircuitUp => if l.state == ConnState::Unregistered || l.state
                == ConnState::RelayRegistered {
                Link { state: ConnState::CircuitEstablished, ..l }
            } else {
                l
            },
            LinkEvent::DirectUp => Link { state: ConnState::DirectUpgraded, ..l },
            LinkEvent::UpgradeFailed => l,
            LinkEvent::PingOk => Link { missed: 0, ..l },
            LinkEvent::PingTimeout => if l.missed + 1 >= MISSED_LIMIT {
                Link { state: ConnState::Failed, missed: MISSED_LIMIT }
            } else {
                Link { missed: (l.missed + 1) as u8, ..l }
            },
            LinkEvent::Lost => Link { state: ConnState::Failed, ..l },
        }
    }
}

impl Link {
    pub open spec fn wf(&self) -> bool {
        self.missed <= MISSED_LIMIT
    }

    pub fn new() -> (r: Link)
        ensures
            r.state == ConnState::Unregistered,
            r.missed == 0,
    {
        Link { state: ConnState::Unregistered, missed: 0 }
    }

    /// Applies one event; a failed link stays failed.
    pub fn apply(&mut self, e: LinkEvent)
        requires
            old(self).wf(),
        ensures
            *final(self) == link_next(*old(self), e),
            final(self).wf(),
    {
        if self.state == ConnState::Failed {
            return;
        }
        match e {
            LinkEvent::RelayReached => {
                if self.state == ConnState::Unregistered {
                    self.state = ConnState::RelayRegistered;
                }
            },
            LinkEvent::CircuitUp => {
                if self.state == ConnState::Unregistered || self.state == ConnState::RelayRegistered {
                    self.state = ConnState::CircuitEstablished;
                }
            },
            LinkEvent::DirectUp => {
                self.state = ConnState::DirectUpgraded;
            },
            LinkEvent::UpgradeFailed => {},
            LinkEvent::PingOk => {
                self.missed = 0;
            },
            LinkEvent::PingTimeout => {
                if self.missed + 1 >= MISSED_LIMIT {
                    self.state = ConnState::Failed;
                    self.missed = MISSED_LIMIT;
                } else {
                    self.missed = self.missed + 1;
                }
            },
            LinkEvent::Lost => {
                self.state = ConnState::Failed;
            },
        }
    }

    pub fn is_live(&self) -> (r: bool)
        ensures
            r == live(self.state),
    {
        self.state == ConnState::CircuitEstablished || self.state == ConnState::DirectUpgraded
    }
}

/// Why set-up could not go on.
#[derive(Clone, Copy, Debug, PartialEq, Eq, Structural)]
pub enum SetupError {
    /// The relay could not be reached in time.
    RelayUnreachable,
    /// Dial mode was chosen with no peer to dial.
    MissingTarget,
    /// The relay address or the peer id could not be composed into an address.
    InvalidAddress,
}

/// Takes in the outcome of dialling the relay: the relay's link is
/// registered where it was reached, and `RelayUnreachable` is reported where
/// it was not.
pub fn bootstrap(relay: &mut Link, reached: bool) -> (r: Result<(), SetupError>)
    requires
        old(relay).wf(),
    ensures
        reached ==> r is Ok && *final(relay) == link_next(*old(relay), LinkEvent::RelayReached),
        !reached ==> r == Err::<(), SetupError>(SetupError::RelayUnreachable) && *final(relay)
            == link_next(*old(relay), LinkEvent::Lost),
        final(relay).wf(),
{
    if reached {
        relay.apply(LinkEvent::RelayReached);
        Ok(())
    } else {
        relay.apply(LinkEvent::Lost);
        Err(SetupError::RelayUnreachable)
    }
}

/// Where set-up goes next.
pub enum Circuit {
    /// Dial this address.
    Dial(Vec<u8>),
    /// Listen on this address.
    Listen(Vec<u8>),
}

/// The circuit to set up through the relay: in dial mode to the given peer,
/// which must be there; in listen mode for any peer.
pub fn establish(mode: Mode, relay: &Vec<u8>, remote: &Option<PeerKey>) -> (r: Result<
    Circuit,
    SetupError,
>)
    ensures
        mode == Mode::Dial && remote is None <==> r == Err::<Circuit, SetupError>(
            SetupError::MissingTarget,
        ),
        r matches Ok(c) ==> match c {
            Circuit::Dial(a) => mode == Mode::Dial && (remote matches Some(p) && a@ == relay@
                + circuit_marker() + p2p_component(p@)),
            Circuit::Listen(a) => mode == Mode::Listen && a@ == relay@ + circuit_marker(),
        },
        mode == Mode::Listen ==> (r is Ok <==> is_multiaddr(relay@)),
        (mode == Mode::Dial && remote is Some) ==> (r is Ok <==> (is_multiaddr(relay@)
            && is_peer_id(remote->0@))),
        r matches Err(e) ==> e != SetupError::RelayUnreachable,
{
    match mode {
        Mode::Dial => match remote {
            None => Err(SetupError::MissingTarget),
            Some(p) => match dial_address(relay, p) {
                Some(a) => Ok(Circuit::Dial(a)),
                None => Err(SetupError::InvalidAddress),
            },
        },
        Mode::Listen => match listen_address(relay) {
            Some(a) => Ok(Circuit::Listen(a)),
            None => Err(SetupError::InvalidAddress),
        },
    }
}

} // verus!
