//! The session: the one owner of the remote peer, the links and the open
//! exchanges, stepping from event to actions.
use crate::orchestrator::{link_next, live, ConnState, Link, LinkEvent, Mode};
use crate::peer::PeerKey;
use vstd::prelude::*;

verus! {

/// An exchange that waits for its response.
pub struct Pending {
    pub exchange: u64,
    pub peer: PeerKey,
}

impl View for Pending {
    type V = (u64, Seq<u8>);

    open spec fn view(&self) -> (u64, Seq<u8>) {
        (self.exchange, self.peer@)
    }
}

/// The connection state kept for one peer.
pub struct PeerLink {
    pub peer: PeerKey,
    pub link: Link,
}

impl View for PeerLink {
    type V = (Seq<u8>, Link);

    open spec fn view(&self) -> (Seq<u8>, Link) {
        (self.peer@, self.link)
    }
}

/// How an outbound exchange failed.
#[derive(Clone, Copy, Debug, PartialEq, Eq, Structural)]
pub enum Failure {
    /// No response came in time.
    Timeout,
    /// There was no connection to send it over, or it closed.
    NoConnection,
    /// The transport failed on the stream.
    Transport,
}

/// What the user is told.
pub enum Notice {
    /// A line was typed before any peer was known; it is dropped.
    WaitingForPeer,
    NoConnection,
    Timeout,
    ExchangeAlreadyClosed,
    TransportFailure,
    /// The connection to the remote peer was lost.
    Disconnected(PeerKey),
    /// No exchange number is left to give.
    ExchangesExhausted,
}

/// What happened.
pub enum SessionEvent {
    /// A peer sent us a message.
    Request { from: PeerKey, payload: Vec<u8> },
    /// The answer to one of our exchanges came.
    Response { exchange: u64, payload: Vec<u8> },
    /// One of our exchanges failed.
    Failure { exchange: u64, failure: Failure },
    /// An answer could not be sent: its exchange was closed.
    ResponseRejected,
    /// The user typed a line; its bytes.
    Line(Vec<u8>),
    /// The transport reported on a peer.
    Link { peer: PeerKey, event: LinkEvent },
}

/// What is to be done.
pub enum Action {
    /// Show a message that a peer sent.
    ShowRequest { from: PeerKey, payload: Vec<u8> },
    /// Show the answer that a peer gave.
    ShowResponse { from: PeerKey, payload: Vec<u8> },
    /// Answer the message being handled.
    Respond { to: PeerKey, payload: Vec<u8> },
    /// Open an exchange to a peer.
    Send { exchange: u64, to: PeerKey, payload: Vec<u8> },
    /// Tell the user.
    Notify(Notice),
}

pub enum NoticeModel {
    WaitingForPeer,
    NoConnection,
    Timeout,
    ExchangeAlreadyClosed,
    TransportFailure,
    Disconnected(Seq<u8>),
    ExchangesExhausted,
}

pub enum EventModel {
    Request { from: Seq<u8>, payload: Seq<u8> },
    Response { exchange: u64, payload: Seq<u8> },
    Failure { exchange: u64, failure: Failure },
    ResponseRejected,
    Line(Seq<u8>),
    Link { peer: Seq<u8>, event: LinkEvent },
}

pub enum ActionModel {
    ShowRequest { from: Seq<u8>, payload: Seq<u8> },
    ShowResponse { from: Seq<u8>, payload: Seq<u8> },
    Respond { to: Seq<u8>, payload: Seq<u8> },
    Send { exchange: u64, to: Seq<u8>, payload: Seq<u8> },
    Notify(NoticeModel),
}

impl Notice {
    pub open spec fn model(&self) -> NoticeModel {
        match self {
            Notice::WaitingForPeer => NoticeModel::WaitingForPeer,
            Notice::NoConnection => NoticeModel::NoConnection,
            Notice::Timeout => NoticeModel::Timeout,
            Notice::ExchangeAlreadyClosed => NoticeModel::ExchangeAlreadyClosed,
            Notice::TransportFailure => NoticeModel::TransportFailure,
            Notice::Disconnected(p) => NoticeModel::Disconnected(p@),
            Notice::ExchangesExhausted => NoticeModel::ExchangesExhausted,
        }
    }
}

impl SessionEvent {
    pub open spec fn model(&self) -> EventModel {
        match self {
            SessionEvent::Request { from, payload } => EventModel::Request {
                from: from@,
                payload: payload@,
            },
            SessionEvent::Response { exchange, payload } => EventModel::Response {
                exchange: *exchange,
                payload: payload@,
            },
            SessionEvent::Failure { exchange, failure } => EventModel::Failure {
                exchange: *exchange,
                failure: *failure,
            },
            SessionEvent::ResponseRejected => EventModel::ResponseRejected,
            SessionEvent::Line(b) => EventModel::Line(b@),
            SessionEvent::Link { peer, event } => EventModel::Link { peer: peer@, event: *event },
        }
    }
}

impl Action {
    pub open spec fn model(&self) -> ActionModel {
        match self {
            Action::ShowRequest { from, payload } => ActionModel::ShowRequest {
                from: from@,
                payload: payload@,
            },
            Action::ShowResponse { from, payload } => ActionModel::ShowResponse {
                from: from@,
                payload: payload@,
            },
            Action::Respond { to, payload } => ActionModel::Respond { to: to@, payload: payload@ },
            Action::Send { exchange, to, payload } => ActionModel::Send {
                exchange: *exchange,
                to: to@,
                payload: payload@,
            },
            Action::Notify(n) => ActionModel::Notify(n.model()),
        }
    }
}

pub open spec fn actions_model(v: Seq<Action>) -> Seq<ActionModel> {
    v.map_values(|a: Action| a.model())
}

/// The session as plain values.
pub struct SessionModel {
    pub mode: Mode,
    pub remote: Option<Seq<u8>>,
    pub links: Seq<(Seq<u8>, Link)>,
    pub pending: Seq<(u64, Seq<u8>)>,
    pub next_exchange: u64,
}

/// Where the exchange stands among the pending ones, if it is there.
pub open spec fn pending_index(p: Seq<(u64, Seq<u8>)>, id: u64) -> Option<int> {
    if exists|i: int| 0 <= i < p.len() && p[i].0 == id {
        Some(choose|i: int| 0 <= i < p.len() && p[i].0 == id)
    } else {
        None
    }
}

/// Where the peer stands among the links, if it is there.
pub open spec fn link_index(l: Seq<(Seq<u8>, Link)>, peer: Seq<u8>) -> Option<int> {
    if exists|i: int| 0 <= i < l.len() && l[i].0 == peer {
        Some(choose|i: int| 0 <= i < l.len() && l[i].0 == peer)
    } else {
        None
    }
}

/// The link kept for the peer; a peer not heard of is unregistered.
pub open spec fn link_of(l: Seq<(Seq<u8>, Link)>, peer: Seq<u8>) -> Link {
    match link_index(l, peer) {
        Some(i) => l[i].1,
        None => Link { state: ConnState::Unregistered, missed: 0 },
    }
}

/// The links with the peer's link set to `k`.
pub open spec fn set_link(l: Seq<(Seq<u8>, Link)>, peer: Seq<u8>, k: Link) -> Seq<(Seq<u8>, Link)> {
    match link_index(l, peer) {
        Some(i) => l.update(i, (peer, k)),
        None => l.push((peer, k)),
    }
}

pub open spec fn notice_of(f: Failure) -> NoticeModel {
    match f {
        Failure::Timeout => NoticeModel::Timeout,
        Failure::NoConnection => NoticeModel::NoConnection,
        Failure::Transport => NoticeModel::TransportFailure,
    }
}

/// One step of the session: the state after the event, and the actions.
pub open spec fn step(s: SessionModel, e: EventModel) -> (SessionModel, Seq<ActionModel>) {
    match e {
        EventModel::Request { from, payload } => (
            SessionModel {
                remote: if s.remote is None {
                    Some(from)
                } else {
                    s.remote
                },
                ..s
            },
            seq![
                ActionModel::ShowRequest { from, payload },
                ActionModel::Respond { to: from, payload },
            ],
        ),
        EventModel::Response { exchange, payload } => match pending_index(s.pending, exchange) {
            Some(i) => (
                SessionModel { pending: s.pending.remove(i), ..s },
                seq![ActionModel::ShowResponse { from: s.pending[i].1, payload }],
            ),
            None => (s, seq![]),
        },
        EventModel::Failure { exchange, failure } => match pending_index(s.pending, exchange) {
            Some(i) => (
                SessionModel { pending: s.pending.remove(i), ..s },
                seq![ActionModel::Notify(notice_of(failure))],
            ),
            None => (s, seq![]),
        },
        EventModel::ResponseRejected => (
            s,
            seq![ActionModel::Notify(NoticeModel::ExchangeAlreadyClosed)],
        ),
        EventModel::Line(payload) => match s.remote {
            None => (s, seq![ActionModel::Notify(NoticeModel::WaitingForPeer)]),
            Some(p) => if !live(link_of(s.links, p).state) {
                (s, seq![ActionModel::Notify(NoticeModel::NoConnection)])
            } else if s.next_exchange == u64::MAX {
                (s, seq![ActionModel::Notify(NoticeModel::ExchangesExhausted)])
            } else {
                (
                    SessionModel {
                        pending: s.pending.push((s.next_exchange, p)),
                        next_exchange: (s.next_exchange + 1) as u64,
                        ..s
                    },
                    seq![ActionModel::Send { exchange: s.next_exchange, to: p, payload }],
                )
            },
        },
        EventModel::Link { peer, event } => {
            let before = link_of(s.links, peer);
            let after = link_next(before, event);
            (
                SessionModel { links: set_link(s.links, peer, after), ..s },
                if s.remote == Some(peer) && before.state != ConnState::Failed && after.state
                    == ConnState::Failed {
                    seq![ActionModel::Notify(NoticeModel::Disconnected(peer))]
                } else {
                    seq![]
                },
            )
        },
    }
}

/// The session's state, owned by the one loop that steps it.
pub struct Session {
    pub mode: Mode,
    pub remote: Option<PeerKey>,
    pub links: Vec<PeerLink>,
    pub pending: Vec<Pending>,
    pub next_exchange: u64,
}

impl Session {
    pub open spec fn model(&self) -> SessionModel {
        SessionModel {
            mode: self.mode,
            remote: match self.remote {
                Some(p) => Some(p@),
                None => None,
            },
            links: self.links@.map_values(|l: PeerLink| l@),
            pending: self.pending@.map_values(|p: Pending| p@),
            next_exchange: self.next_exchange,
        }
    }

    /// Peers appear once among the links, exchanges once among the pending,
    /// every pending exchange was numbered before the next one, and every
    /// link counts its missed heartbeats within the limit.
    pub open spec fn wf(&self) -> bool {
        model_wf(self.model())
    }

    /// A session in the given mode; in dial mode with the configured peer
    /// already bound as the remote.
    pub fn new(mode: Mode, remote: Option<PeerKey>) -> (r: Session)
        ensures
            r.wf(),
            r.model().mode == mode,
            r.model().remote == match remote {
                Some(p) => Some(p@),
                None => None::<Seq<u8>>,
            },
            r.model().links.len() == 0,
            r.model().pending.len() == 0,
            r.model().next_exchange == 0,
    {
        let r = Session { mode, remote, links: Vec::new(), pending: Vec::new(), next_exchange: 0 };
        assert(r.model().links =~= Seq::empty());
        assert(r.model().pending =~= Seq::empty());
        r
    }
}

impl Session {
    fn find_pending(&self, id: u64) -> (r: Option<usize>)
        requires
            self.wf(),
        ensures
            r matches Some(i) ==> i < self.pending.len() && pending_index(self.model().pending, id)
                == Some(i as int),
            r is None ==> pending_index(self.model().pending, id) is None,
    {
        let ghost m = self.model().pending;
        let mut i: usize = 0;
        while i < self.pending.len()
            invariant
                i <= self.pending.len(),
                self.wf(),
                m == self.model().pending,
                m.len() == self.pending.len(),
                forall|j: int| 0 <= j < i ==> m[j].0 != id,
            decreases self.pending.len() - i,
        {
            assert(m[i as int] == self.pending@[i as int]@);
            if self.pending[i].exchange == id {
                assert(0 <= i < m.len() && m[i as int].0 == id);
                let ghost c = choose|k: int| 0 <= k < m.len() && m[k].0 == id;
                assert(0 <= c < m.len() && m[c].0 == id);
                assert(c == i) by {
                    if c != i {
                        assert(m[c].0 != m[i as int].0);
                    }
                }
                return Some(i);
            }
            i = i + 1;
        }
        None
    }

    fn find_link(&self, peer: &PeerKey) -> (r: Option<usize>)
        requires
            self.wf(),
        ensures
            r matches Some(i) ==> i < self.links.len() && link_index(self.model().links, peer@)
                == Some(i as int),
            r is None ==> link_index(self.model().links, peer@) is None,
    {
        let ghost m = self.model().links;
        let mut i: usize = 0;
        while i < self.links.len()
            invariant
                i <= self.links.len(),
                self.wf(),
                m == self.model().links,
                m.len() == self.links.len(),
                forall|j: int| 0 <= j < i ==> m[j].0 != peer@,
            decreases self.links.len() - i,
        {
            assert(m[i as int] == self.links@[i as int]@);
            if self.links[i].peer.same(peer) {
                assert(0 <= i < m.len() && m[i as int].0 == peer@);
                let ghost c = choose|k: int| 0 <= k < m.len() && m[k].0 == peer@;
                assert(0 <= c < m.len() && m[c].0 == peer@);
                assert(c == i) by {
                    if c != i {
                        assert(m[c].0 != m[i as int].0);
                    }
                }
                return Some(i);
            }
            i = i + 1;
        }
        None
    }

    /// Handles one event to completion: the new state and the actions are
    /// those of `step`.
    pub fn handle(&mut self, ev: SessionEvent) -> (r: Vec<Action>)
        requires
            old(self).wf(),
        ensures
            final(self).wf(),
            final(self).model() == step(old(self).model(), ev.model()).0,
            actions_model(r@) == step(old(self).model(), ev.model()).1,
    {
        let ghost s0 = self.model();
        let ghost e = ev.model();
        let mut out: Vec<Action> = Vec::new();
        match ev {
            SessionEvent::Request { from, payload } => {
                if self.remote.is_none() {
                    self.remote = Some(from.copy());
                }
                let to = from.copy();
                let p2 = payload.clone();
                out.push(Action::ShowRequest { from, payload });
                out.push(Action::Respond { to, payload: p2 });
                assert(self.model().links =~= s0.links);
                assert(self.model().pending =~= s0.pending);
            },
            SessionEvent::Response { exchange, payload } => {
                match self.find_pending(exchange) {
                    Some(i) => {
                        let p = self.pending.remove(i);
                        assert(self.model().pending =~= s0.pending.remove(i as int));
                        assert(self.model().links =~= s0.links);
                        out.push(Action::ShowResponse { from: p.peer, payload });
                        proof { self.lemma_wf_remove_pending(s0, i as int); }
                    },
                    None => {
                        assert(self.model().links =~= s0.links);
                        assert(self.model().pending =~= s0.pending);
                    },
                }
            },
            SessionEvent::Failure { exchange, failure } => {
                match self.find_pending(exchange) {
                    Some(i) => {
                        let _p = self.pending.remove(i);
                        assert(self.model().pending =~= s0.pending.remove(i as int));
                        assert(self.model().links =~= s0.links);
                        let n = match failure {
                            Failure::Timeout => Notice::Timeout,
                            Failure::NoConnection => Notice::NoConnection,
                            Failure::Transport => Notice::TransportFailure,
                        };
                        out.push(Action::Notify(n));
                        proof { self.lemma_wf_remove_pending(s0, i as int); }
                    },
                    None => {
                        assert(self.model().links =~= s0.links);
                        assert(self.model().pending =~= s0.pending);
                    },
                }
            },
            SessionEvent::ResponseRejected => {
                out.push(Action::Notify(Notice::ExchangeAlreadyClosed));
                assert(self.model().links =~= s0.links);
                assert(self.model().pending =~= s0.pending);
            },
            SessionEvent::Line(payload) => {
                assert(self.model().links =~= s0.links);
                assert(self.model().pending =~= s0.pending);
                match &self.remote {
                    None => {
                        out.push(Action::Notify(Notice::WaitingForPeer));
                    },
                    Some(p) => {
                        let up = match self.find_link(p) {
                            Some(i) => {
                                assert(s0.links[i as int] == self.links@[i as int]@);
                                self.links[i].link.is_live()
                            },
                            None => false,
                        };
                        if !up {
                            out.push(Action::Notify(Notice::NoConnection));
                        } else if self.next_exchange == u64::MAX {
                            out.push(Action::Notify(Notice::ExchangesExhausted));
                        } else {
                            let id = self.next_exchange;
                            let to = p.copy();
                            let to2 = p.copy();
                            self.pending.push(Pending { exchange: id, peer: to });
                            self.next_exchange = id + 1;
                            out.push(Action::Send { exchange: id, to: to2, payload });
                            assert(self.model().pending =~= s0.pending.push((id, s0.remote->0)));
                            assert(self.model().links =~= s0.links);
                        }
                    },
                }
            },
            SessionEvent::Link { peer, event } => {
                match self.find_link(&peer) {
                    Some(i) => {
                        let before = self.links[i].link;
                        assert(s0.links[i as int] == self.links@[i as int]@);
                        let mut after = before;
                        after.apply(event);
                        let gone = before.state != ConnState::Failed && after.state
                            == ConnState::Failed;
                        let is_remote = match &self.remote {
                            Some(r) => r.same(&peer),
                            None => false,
                        };
                        let key = peer.copy();
                        self.links[i] = PeerLink { peer: key, link: after };
                        assert(self.model().links =~= s0.links.update(i as int, (peer@, after)));
                        assert(self.model().pending =~= s0.pending);
                        if is_remote && gone {
                            out.push(Action::Notify(Notice::Disconnected(peer)));
                        }
                        proof { self.lemma_wf_set_link(s0, peer@, after); }
                    },
                    None => {
                        let mut after = Link::new();
                        after.apply(event);
                        let gone = after.state == ConnState::Failed;
                        let is_remote = match &self.remote {
                            Some(r) => r.same(&peer),
                            None => false,
                        };
                        let key = peer.copy();
                        self.links.push(PeerLink { peer: key, link: after });
                        assert(self.model().links =~= s0.links.push((peer@, after)));
                        assert(self.model().pending =~= s0.pending);
                        if is_remote && gone {
                            out.push(Action::Notify(Notice::Disconnected(peer)));
                        }
                        proof { self.lemma_wf_set_link(s0, peer@, after); }
                    },
                }
            },
        }
        assert(actions_model(out@) =~= step(s0, e).1);
        out
    }

    proof fn lemma_wf_remove_pending(&self, s0: SessionModel, i: int)
        requires
            model_wf(s0),
            0 <= i < s0.pending.len(),
            self.model() == (SessionModel { pending: s0.pending.remove(i), ..s0 }),
        ensures
            self.wf(),
    {
        let m = self.model();
        assert forall|a: int, b: int|
            0 <= a < m.pending.len() && 0 <= b < m.pending.len() && a != b implies m.pending[a].0
            != m.pending[b].0 by {
            let a2 = if a < i { a } else { a + 1 };
            let b2 = if b < i { b } else { b + 1 };
            assert(m.pending[a] == s0.pending[a2]);
            assert(m.pending[b] == s0.pending[b2]);
        }
        assert forall|a: int| 0 <= a < m.pending.len() implies m.pending[a].0 < m.next_exchange by {
            let a2 = if a < i { a } else { a + 1 };
            assert(m.pending[a] == s0.pending[a2]);
        }
    }

    proof fn lemma_wf_set_link(&self, s0: SessionModel, peer: Seq<u8>, k: Link)
        requires
            model_wf(s0),
            k.wf(),
            self.model() == (SessionModel { links: set_link(s0.links, peer, k), ..s0 }),
        ensures
            self.wf(),
    {
        let m = self.model();
        match link_index(s0.links, peer) {
            Some(i) => {
                assert forall|a: int| 0 <= a < m.links.len() implies (#[trigger] m.links[a]).1.wf() by {
                    if a != i {
                        assert(m.links[a] == s0.links[a]);
                    }
                }
            },
            None => {
                assert forall|a: int| 0 <= a < m.links.len() implies (#[trigger] m.links[a]).1.wf() by {
                    if a < s0.links.len() {
                        assert(m.links[a] == s0.links[a]);
                    }
                }
            },
        }
    }
}

pub open spec fn model_wf(s: SessionModel) -> bool {
    &&& forall|i: int, j: int|
        #![trigger s.links[i], s.links[j]]
        0 <= i < s.links.len() && 0 <= j < s.links.len() && i != j ==> s.links[i].0
            != s.links[j].0
    &&& forall|i: int, j: int|
        #![trigger s.pending[i], s.pending[j]]
        0 <= i < s.pending.len() && 0 <= j < s.pending.len() && i != j ==> s.pending[i].0
            != s.pending[j].0
    &&& forall|i: int| 0 <= i < s.pending.len() ==> s.pending[i].0 < s.next_exchange
    &&& forall|i: int| 0 <= i < s.links.len() ==> (#[trigger] s.links[i]).1.wf()
}

} // verus!

verus! {

/// After the peer's link is set, the peer's link is the one set.
proof fn lemma_set_link_of(l: Seq<(Seq<u8>, Link)>, peer: Seq<u8>, k: Link)
    requires
        forall|i: int, j: int|
            #![trigger l[i], l[j]]
            0 <= i < l.len() && 0 <= j < l.len() && i != j ==> l[i].0 != l[j].0,
    ensures
        link_of(set_link(l, peer, k), peer) == k,
{
    let l2 = set_link(l, peer, k);
    match link_index(l, peer) {
        Some(i) => {
            assert(0 <= i < l.len() && l[i].0 == peer);
            assert(l2[i].0 == peer);
            let c = choose|c: int| 0 <= c < l2.len() && l2[c].0 == peer;
            assert(0 <= c < l2.len() && l2[c].0 == peer);
            if c != i {
                assert(l2[c] == l[c]);
                assert(l[c].0 != l[i].0);
            }
        },
        None => {
            assert(l2[l.len() as int].0 == peer);
            let c = choose|c: int| 0 <= c < l2.len() && l2[c].0 == peer;
            assert(0 <= c < l2.len() && l2[c].0 == peer);
            if c < l.len() {
                assert(l2[c] == l[c]);
            }
        },
    }
}

/// Every message a peer sends us is answered to that peer with the very same
/// bytes, and with no other answer.
pub proof fn lemma_loopback(s: SessionModel, from: Seq<u8>, payload: Seq<u8>)
    ensures
        ({
            let acts = step(s, EventModel::Request { from, payload }).1;
            &&& acts.contains(ActionModel::Respond { to: from, payload })
            &&& forall|i: int| 0 <= i < acts.len() && (#[trigger] acts[i]) is Respond ==> acts[i]
                == (ActionModel::Respond { to: from, payload })
        }),
{
    let acts = step(s, EventModel::Request { from, payload }).1;
    assert(acts[1] == ActionModel::Respond { to: from, payload });
}

/// Once a remote peer is bound, no event rebinds or clears it; while none is
/// bound, the first message binds its sender.
pub proof fn lemma_remote_bound_once(s: SessionModel, e: EventModel)
    ensures
        s.remote is Some ==> step(s, e).0.remote == s.remote,
        s.remote is None ==> step(s, e).0.remote == match e {
            EventModel::Request { from, .. } => Some(from),
            _ => None::<Seq<u8>>,
        },
{
}

/// A line typed while no remote peer is bound opens no exchange, changes
/// nothing, and yields exactly a notice that we wait for a peer.
pub proof fn lemma_waiting_without_peer(s: SessionModel, line: Seq<u8>)
    requires
        s.remote is None,
    ensures
        step(s, EventModel::Line(line)) == (s, seq![ActionModel::Notify(NoticeModel::WaitingForPeer)]),
{
}

/// An exchange that times out is reported exactly once: its failure yields
/// one timeout notice and removes it, and a second report of it yields
/// nothing.
pub proof fn lemma_timeout_once(s: SessionModel, exchange: u64)
    requires
        model_wf(s),
        pending_index(s.pending, exchange) is Some,
    ensures
        ({
            let e = EventModel::Failure { exchange, failure: Failure::Timeout };
            let (s1, acts) = step(s, e);
            &&& acts == seq![ActionModel::Notify(NoticeModel::Timeout)]
            &&& s1.pending.len() == s.pending.len() - 1
            &&& pending_index(s1.pending, exchange) is None
            &&& step(s1, e) == (s1, Seq::<ActionModel>::empty())
        }),
{
    let i = pending_index(s.pending, exchange)->0;
    assert(0 <= i < s.pending.len() && s.pending[i].0 == exchange);
    let p1 = s.pending.remove(i);
    assert forall|j: int| 0 <= j < p1.len() implies p1[j].0 != exchange by {
        let j2 = if j < i { j } else { j + 1 };
        assert(p1[j] == s.pending[j2]);
        assert(j2 != i);
    }
}

/// When the link to the remote peer is lost, we are told so once, and a line
/// typed afterwards opens no exchange but yields a no-connection notice.
pub proof fn lemma_no_connection_after_loss(s: SessionModel, line: Seq<u8>)
    requires
        model_wf(s),
        s.remote is Some,
    ensures
        ({
            let peer = s.remote->0;
            let (s1, acts) = step(s, EventModel::Link { peer, event: LinkEvent::Lost });
            &&& link_of(s.links, peer).state != ConnState::Failed ==> acts == seq![
                ActionModel::Notify(NoticeModel::Disconnected(peer)),
            ]
            &&& step(s1, EventModel::Line(line)) == (s1, seq![ActionModel::Notify(NoticeModel::NoConnection)])
        }),
{
    let peer = s.remote->0;
    let after = link_next(link_of(s.links, peer), LinkEvent::Lost);
    lemma_set_link_of(s.links, peer, after);
}

} // verus!
