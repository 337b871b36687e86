//! Peer identities and relay-circuit addresses, held as their wire bytes.
use libp2p::multiaddr::Protocol;
use libp2p::{Multiaddr, PeerId};
use vstd::prelude::*;
use vstd::string::*;

verus! {

/// The identity of a participant, as the bytes of its peer id.
pub struct PeerKey {
    pub bytes: Vec<u8>,
}

impl View for PeerKey {
    type V = Seq<u8>;

    open spec fn view(&self) -> Seq<u8> {
        self.bytes@
    }
}

impl PeerKey {
    pub fn new(bytes: Vec<u8>) -> (r: PeerKey)
        ensures
            r@ == bytes@,
    {
        PeerKey { bytes }
    }

    /// Whether two identities are the same.
    pub fn same(&self, other: &PeerKey) -> (r: bool)
        ensures
            r == (self@ == other@),
    {
        if self.bytes.len() != other.bytes.len() {
            return false;
        }
        let mut i: usize = 0;
        while i < self.bytes.len()
            invariant
                i <= self.bytes.len(),
                self.bytes.len() == other.bytes.len(),
                forall|j: int| 0 <= j < i ==> self.bytes@[j] == other.bytes@[j],
            decreases self.bytes.len() - i,
        {
            if self.bytes[i] != other.bytes[i] {
                return false;
            }
            i = i + 1;
        }
        assert(self@ =~= other@);
        true
    }

    pub fn copy(&self) -> (r: PeerKey)
        ensures
            r@ == self@,
    {
        PeerKey { bytes: self.bytes.clone() }
    }
}

/// The base-58 text by which a peer id is shown.
pub uninterp spec fn base58_of(b: Seq<u8>) -> Seq<char>;

/// The text shown for a payload, invalid UTF-8 replaced.
pub uninterp spec fn lossy_text_of(b: Seq<u8>) -> Seq<char>;

/// Whether the bytes parse as a multiaddress.
pub uninterp spec fn is_multiaddr(b: Seq<u8>) -> bool;

/// Whether the bytes parse as a peer id.
pub uninterp spec fn is_peer_id(b: Seq<u8>) -> bool;

/// The address component that marks a relay circuit: protocol code 290 as an
/// unsigned varint.
pub open spec fn circuit_marker() -> Seq<u8> {
    seq![0xa2u8, 0x02u8]
}

/// The address component that names a peer: protocol code 421 as an
/// unsigned varint, the length of the peer id (under 128, so one varint
/// byte), then its bytes.
pub open spec fn p2p_component(peer: Seq<u8>) -> Seq<u8> {
    seq![0xa5u8, 0x03u8, peer.len() as u8] + peer
}

/// Shown in place of a peer id whose bytes do not parse.
pub const UNKNOWN_PEER: &'static str = "?";

/// Relies on libp2p's PeerId::from_bytes and PeerId::to_base58 (the peer id's
/// display form); `None` exactly where the bytes are no peer id.
#[verifier::external_body]
fn base58_text(b: &Vec<u8>) -> (r: Option<String>)
    ensures
        r is Some <==> is_peer_id(b@),
        r matches Some(s) ==> s@ == base58_of(b@),
{
    PeerId::from_bytes(b).ok().map(|p| p.to_base58())
}

/// Relies on String::from_utf8_lossy: a function of the bytes alone; no bytes
/// give no text.
#[verifier::external_body]
fn lossy_text(b: &Vec<u8>) -> (r: String)
    ensures
        r@ == lossy_text_of(b@),
        b@.len() == 0 ==> r@.len() == 0,
{
    String::from_utf8_lossy(b).into_owned()
}

/// Relies on multiaddr's Multiaddr::try_from(Vec<u8>), which succeeds exactly
/// on bytes that parse as components, and Multiaddr::with, which writes the
/// protocol's encoding after the address bytes.
#[verifier::external_body]
fn append_circuit(a: &Vec<u8>) -> (r: Option<Vec<u8>>)
    ensures
        r is Some <==> is_multiaddr(a@),
        r matches Some(v) ==> (v@ == a@ + circuit_marker() && is_multiaddr(v@)),
{
    Multiaddr::try_from(a.clone()).ok().map(|m| m.with(Protocol::P2pCircuit).to_vec())
}

/// Relies on multiaddr's Multiaddr::try_from(Vec<u8>), libp2p's
/// PeerId::from_bytes and Multiaddr::with with a `P2p` component; `None`
/// exactly where either argument does not parse.
#[verifier::external_body]
fn append_peer(a: &Vec<u8>, peer: &Vec<u8>) -> (r: Option<Vec<u8>>)
    ensures
        r is Some <==> (is_multiaddr(a@) && is_peer_id(peer@)),
        r matches Some(v) ==> v@ == a@ + p2p_component(peer@),
{
    match (Multiaddr::try_from(a.clone()), PeerId::from_bytes(peer)) {
        (Ok(m), Ok(p)) => Some(m.with(Protocol::P2p(p)).to_vec()),
        _ => None,
    }
}

/// The address on which to listen for circuits through the relay.
pub fn listen_address(relay: &Vec<u8>) -> (r: Option<Vec<u8>>)
    ensures
        r is Some <==> is_multiaddr(relay@),
        r matches Some(v) ==> v@ == relay@ + circuit_marker(),
{
    append_circuit(relay)
}

/// The address that reaches `target` through the relay.
pub fn dial_address(relay: &Vec<u8>, target: &PeerKey) -> (r: Option<Vec<u8>>)
    ensures
        r is Some <==> (is_multiaddr(relay@) && is_peer_id(target@)),
        r matches Some(v) ==> v@ == relay@ + circuit_marker() + p2p_component(target@),
{
    match append_circuit(relay) {
        Some(c) => append_peer(&c, &target.bytes),
        None => None,
    }
}

/// The label under which a peer is shown: its base-58 id, or `?` for bytes
/// that are no peer id.
pub open spec fn label_of(p: Seq<u8>) -> Seq<char> {
    if is_peer_id(p) {
        base58_of(p)
    } else {
        UNKNOWN_PEER@
    }
}

pub fn peer_label(p: &PeerKey) -> (r: String)
    ensures
        r@ == label_of(p@),
{
    match base58_text(&p.bytes) {
        Some(s) => s,
        None => String::from_str(UNKNOWN_PEER),
    }
}

/// The line shown for a message that `label` sent us.
pub open spec fn incoming_line(label: Seq<char>, text: Seq<char>) -> Seq<char> {
    "["@ + label + " \u{25b6}\u{fe0e} us] "@ + text
}

/// The line shown for the answer that `label` gave us.
pub open spec fn answer_line(label: Seq<char>, text: Seq<char>) -> Seq<char> {
    "[us \u{25b6}\u{fe0e} "@ + label + "] "@ + text
}

pub fn render_incoming(from: &PeerKey, payload: &Vec<u8>) -> (r: String)
    ensures
        r@ == incoming_line(label_of(from@), lossy_text_of(payload@)),
{
    let label = peer_label(from);
    let text = lossy_text(payload);
    let mut s = String::from_str("[");
    s.append(label.as_str());
    s.append(" \u{25b6}\u{fe0e} us] ");
    s.append(text.as_str());
    assert(s@ == incoming_line(label@, lossy_text_of(payload@)));
    s
}

pub fn render_answer(from: &PeerKey, payload: &Vec<u8>) -> (r: String)
    ensures
        r@ == answer_line(label_of(from@), lossy_text_of(payload@)),
{
    let label = peer_label(from);
    let text = lossy_text(payload);
    let mut s = String::from_str("[us \u{25b6}\u{fe0e} ");
    s.append(label.as_str());
    s.append("] ");
    s.append(text.as_str());
    assert(s@ == answer_line(label@, lossy_text_of(payload@)));
    s
}

} // verus!
