//! Transport: who dials whom, the handshake, the table of live connections, what
//! to do with each frame, and when to try again.
//!
//! A connection is established once each side has seen the other's hello, which
//! is encrypted under the key of the pairing code. So a peer without the code
//! cannot complete the handshake. Without a code there is no key, and no
//! connection is made or accepted. When the code changes, a new key is installed
//! and the reset generation is bumped; every live connection drops then and the
//! dialing side connects again with the new key.
use vstd::arithmetic::power2::*;
use vstd::prelude::*;
use vstd::string::*;
use vstd::utf8::*;

use crate::codec;
use crate::crypto;
use crate::pairing;
use crate::pairing::{Cipher, WireMessage};
use crate::registry::Registry;
use crate::text;

verus! {

/// The largest WebSocket message and frame, in bytes: 128 MiB.
pub const WS_SIZE_LIMIT: usize = 134_217_728;

/// How long the frame of a clipboard message is.
pub open spec fn clipboard_frame_length(payload: Seq<u8>) -> nat {
    crypto::NONCE_SIZE as nat + codec::message_length("clipboard"@, payload)
        + crypto::TAG_SIZE as nat
}

/// Which clipboard messages fit in one WebSocket message: those whose payload,
/// with two bytes for each byte from 128 on, leaves room for 44 bytes around it.
pub proof fn law_message_fits_websocket(payload: Seq<u8>)
    ensures
        clipboard_frame_length(payload) <= WS_SIZE_LIMIT <==> payload.len() + codec::high_bytes(
            payload,
        ) <= WS_SIZE_LIMIT - 44,
{
    reveal_strlit("clipboard");
    is_ascii_chars_encode_utf8("clipboard"@);
    payload.lemma_filter_len(|byte: u8| byte >= 128);
}

/// What a clipboard of up to 63 MiB holds fits in one WebSocket message, whatever
/// its bytes are: the message of an item whose type is `text` or `image` and whose
/// hash has 64 bytes.
pub proof fn law_item_fits_websocket(item: codec::Item, payload: Seq<u8>)
    requires
        text::utf8(item.content_type).len() <= 5,
        text::utf8(item.content_hash).len() == 64,
        item.payload_bytes() <= 63 * 1024 * 1024,
        payload.len() <= item.packed_bound(),
    ensures
        clipboard_frame_length(payload) <= WS_SIZE_LIMIT,
{
    law_message_fits_websocket(payload);
    payload.lemma_filter_len(|byte: u8| byte >= 128);
}

/// A live connection to a peer, with what sends to it.
#[derive(Debug)]
pub struct PeerHandle<T> {
    pub peer_id: String,
    pub sender: T,
    /// Tells this connection from others to the same peer.
    pub token: u64,
}

/// A live connection, as a mathematical value.
pub struct HandleView<T> {
    pub peer_id: Seq<char>,
    pub sender: T,
    pub token: u64,
}

impl<T> View for PeerHandle<T> {
    type V = HandleView<T>;

    open spec fn view(&self) -> HandleView<T> {
        HandleView { peer_id: self.peer_id@, sender: self.sender, token: self.token }
    }
}

impl<T: Clone> Clone for PeerHandle<T> {
    fn clone(&self) -> (handle: Self)
        ensures
            handle.peer_id == self.peer_id,
            cloned(self.sender, handle.sender),
            handle.token == self.token,
    {
        PeerHandle {
            peer_id: self.peer_id.clone(),
            sender: self.sender.clone(),
            token: self.token,
        }
    }
}

/// A connection came up or went down.
#[derive(Debug)]
pub enum TransportEvent {
    Connected { peer_id: String, ip: String, port: u16 },
    Disconnected { peer_id: String },
}

impl Clone for TransportEvent {
    fn clone(&self) -> (event: Self)
        ensures
            event == *self,
    {
        match self {
            TransportEvent::Connected { peer_id, ip, port } => TransportEvent::Connected {
                peer_id: peer_id.clone(),
                ip: ip.clone(),
                port: *port,
            },
            TransportEvent::Disconnected { peer_id } => TransportEvent::Disconnected {
                peer_id: peer_id.clone(),
            },
        }
    }
}

/// What to do about a peer that was discovered.
#[derive(Debug, Clone, Copy, PartialEq, Eq, Structural)]
pub enum ConnectDecision {
    /// The peer dials.
    AwaitInbound,
    /// A connect loop for the peer is running already.
    AlreadyRunning,
    /// Start a connect loop.
    StartLoop,
}

/// The instance with the first ID dials the one with the second: its ID sorts
/// first.
pub open spec fn dials(our_id: Seq<char>, peer_id: Seq<char>) -> bool {
    text::sorts_before(text::utf8(our_id), text::utf8(peer_id))
}

/// Of two different instances exactly one dials the other, and none dials itself.
pub proof fn law_exactly_one_dials(a: Seq<char>, b: Seq<char>)
    ensures
        a != b ==> (dials(a, b) <==> !dials(b, a)),
        !dials(a, a),
{
    text::lemma_sorts_before_total(text::utf8(a), text::utf8(b));
    text::lemma_sorts_before_total(text::utf8(a), text::utf8(a));
    if text::utf8(a) == text::utf8(b) {
        text::lemma_utf8_injective(a, b);
    }
}

/// What a discovered peer calls for.
pub open spec fn connect_decision<T>(
    transport: TransportView<T>,
    peer_id: Seq<char>,
) -> ConnectDecision {
    if !dials(transport.instance_id, peer_id) {
        ConnectDecision::AwaitInbound
    } else if transport.connecting.contains(peer_id) {
        ConnectDecision::AlreadyRunning
    } else {
        ConnectDecision::StartLoop
    }
}

/// The state after a discovered peer was decided about.
pub open spec fn after_connect<T>(
    transport: TransportView<T>,
    peer_id: Seq<char>,
) -> TransportView<T> {
    if connect_decision(transport, peer_id) == ConnectDecision::StartLoop {
        TransportView { connecting: transport.connecting.insert(peer_id), ..transport }
    } else {
        transport
    }
}

/// The number after a number of 64 bits, starting over at the end.
pub open spec fn wrapped_next(n: u64) -> u64 {
    if n == u64::MAX {
        0
    } else {
        (n + 1) as u64
    }
}

/// The state of the transport.
pub struct TransportView<T> {
    /// The live connections, by the IDs of the peers.
    pub peers: Map<Seq<char>, HandleView<T>>,
    /// The key of the pairing code, once there is one.
    pub key: Option<Seq<u8>>,
    pub instance_id: Seq<char>,
    pub generation: u64,
    /// The peers for which a connect loop is running.
    pub connecting: Set<Seq<char>>,
    /// The token of the next connection.
    pub next_token: u64,
}

impl<T> TransportView<T> {
    /// The state after a connection was established.
    pub open spec fn registered(self, peer_id: Seq<char>, sender: T) -> TransportView<T> {
        TransportView {
            peers: self.peers.insert(
                peer_id,
                HandleView { peer_id, sender, token: self.next_token },
            ),
            next_token: wrapped_next(self.next_token),
            ..self
        }
    }

    /// The table holds the connection with this token for a peer.
    pub open spec fn owns(self, peer_id: Seq<char>, token: u64) -> bool {
        self.peers.dom().contains(peer_id) && self.peers[peer_id].token == token
    }

    /// The state after a connection ended: only its own entry leaves the table.
    pub open spec fn torn_down(self, peer_id: Seq<char>, token: u64) -> TransportView<T> {
        if self.owns(peer_id, token) {
            TransportView { peers: self.peers.remove(peer_id), ..self }
        } else {
            self
        }
    }

    /// The state after a pairing code was installed.
    pub open spec fn paired(self, code: Seq<char>) -> TransportView<T> {
        TransportView {
            key: Some(pairing::key_of_code(code)),
            generation: wrapped_next(self.generation),
            ..self
        }
    }
}

/// The token that comes a number of connections after another.
pub open spec fn later_token(first: u64, connections: nat) -> u64
    decreases connections,
{
    if connections == 0 {
        first
    } else {
        wrapped_next(later_token(first, (connections - 1) as nat))
    }
}

/// A token comes back only after 2^64 connections.
pub proof fn law_tokens_differ(first: u64, connections: nat)
    requires
        0 < connections <= u64::MAX,
    ensures
        later_token(first, connections) != first,
{
    lemma_later_token(first, connections);
}

proof fn lemma_later_token(first: u64, connections: nat)
    requires
        connections <= u64::MAX,
    ensures
        later_token(first, connections) == (if first + connections <= u64::MAX {
            first + connections
        } else {
            first + connections - u64::MAX - 1
        }),
    decreases connections,
{
    if connections > 0 {
        lemma_later_token(first, (connections - 1) as nat);
    }
}

/// A connection that ends never evicts a newer one to the same peer: once
/// another connection to the peer was established, with its own token, the end of
/// the first changes nothing.
pub proof fn law_newer_connection_survives<T>(
    before: TransportView<T>,
    peer_id: Seq<char>,
    newer: T,
    ended_token: u64,
)
    requires
        ended_token != before.next_token,
    ensures
        ({
            let live = before.registered(peer_id, newer);
            &&& !live.owns(peer_id, ended_token)
            &&& live.torn_down(peer_id, ended_token) == live
        }),
{
}

/// A connection that is established and then ends, with none to the same peer
/// before or in between, leaves the table of live connections as it was.
pub proof fn law_teardown_undoes_registration<T>(
    before: TransportView<T>,
    peer_id: Seq<char>,
    sender: T,
)
    requires
        !before.peers.dom().contains(peer_id),
    ensures
        ({
            let live = before.registered(peer_id, sender);
            &&& live.owns(peer_id, before.next_token)
            &&& live.torn_down(peer_id, before.next_token).peers == before.peers
        }),
{
    let live = before.registered(peer_id, sender);
    assert(live.torn_down(peer_id, before.next_token).peers =~= before.peers);
}

/// The pairing key, the live connections and the connect loops of an instance.
pub struct TransportManager<T> {
    peers: Registry<PeerHandle<T>>,
    cipher: Option<Cipher>,
    instance_id: String,
    generation: u64,
    connecting: Registry<()>,
    next_token: u64,
}

impl<T> View for TransportManager<T> {
    type V = TransportView<T>;

    closed spec fn view(&self) -> TransportView<T> {
        TransportView {
            peers: self.peers@.map_values(|handle: PeerHandle<T>| handle@),
            key: match self.cipher {
                Some(cipher) => Some(cipher@),
                None => None,
            },
            instance_id: self.instance_id@,
            generation: self.generation,
            connecting: self.connecting@.dom(),
            next_token: self.next_token,
        }
    }
}

impl<T> TransportManager<T> {
    /// Each peer is in the table once, under its ID.
    pub closed spec fn wf(&self) -> bool {
        &&& self.peers.wf()
        &&& self.connecting.wf()
        &&& forall|id: Seq<char>| #[trigger]
            self.peers@.dom().contains(id) ==> self.peers@[id].peer_id@ == id
    }

    /// A transport that is not paired and has no connection.
    pub fn new(instance_id: String) -> (manager: Self)
        ensures
            manager.wf(),
            manager@ == (TransportView::<T> {
                peers: Map::empty(),
                key: None,
                instance_id: instance_id@,
                generation: 0,
                connecting: Set::empty(),
                next_token: 0,
            }),
    {
        let manager = TransportManager {
            peers: Registry::new(),
            cipher: None,
            instance_id,
            generation: 0,
            connecting: Registry::new(),
            next_token: 0,
        };
        proof {
            assert(manager@.peers =~= Map::<Seq<char>, HandleView<T>>::empty());
            assert(manager@.connecting =~= Set::<Seq<char>>::empty());
        }
        manager
    }

    /// The ID of this instance.
    pub fn instance_id(&self) -> (id: &str)
        ensures
            id@ == self@.instance_id,
    {
        self.instance_id.as_str()
    }

    /// The reset generation. A connection that was made in another one drops.
    pub fn generation(&self) -> (generation: u64)
        ensures
            generation == self@.generation,
    {
        self.generation
    }

    /// Installs the key of a pairing code, or replaces it, and bumps the reset
    /// generation, even for the same code.
    pub fn set_pairing_code(&mut self, code: &str)
        requires
            old(self).wf(),
        ensures
            final(self).wf(),
            final(self)@ == old(self)@.paired(code@),
            final(self)@.generation != old(self)@.generation,
    {
        self.cipher = Some(Cipher::from_pairing_code(code));
        self.generation = self.generation.wrapping_add(1);
    }

    /// The cipher of the current pairing code.
    pub fn current_cipher(&self) -> (cipher: Option<Cipher>)
        ensures
            match cipher {
                Some(cipher) => self@.key == Some(cipher@),
                None => self@.key is None,
            },
    {
        match &self.cipher {
            Some(cipher) => Some(cipher.duplicate()),
            None => None,
        }
    }

    /// Whether to go on with a connection that came in: only with a key.
    pub fn gate_incoming(&self) -> (result: Result<Cipher, String>)
        ensures
            match result {
                Ok(cipher) => self@.key == Some(cipher@),
                Err(text) => self@.key is None && text@ == "not paired (no cipher); rejecting"@,
            },
    {
        match &self.cipher {
            Some(cipher) => Ok(cipher.duplicate()),
            None => Err("not paired (no cipher); rejecting".to_string()),
        }
    }

    /// Decides what to do about a peer. Only the instance whose ID sorts first
    /// dials, and one connect loop for a peer is enough.
    pub fn connect_to_peer(&mut self, peer_id: &str) -> (decision: ConnectDecision)
        requires
            old(self).wf(),
        ensures
            final(self).wf(),
            decision == connect_decision(old(self)@, peer_id@),
            final(self)@ == after_connect(old(self)@, peer_id@),
            decision == (if !dials(old(self)@.instance_id, peer_id@) {
                ConnectDecision::AwaitInbound
            } else if old(self)@.connecting.contains(peer_id@) {
                ConnectDecision::AlreadyRunning
            } else {
                ConnectDecision::StartLoop
            }),
            final(self)@ == (TransportView {
                connecting: if dials(old(self)@.instance_id, peer_id@) {
                    old(self)@.connecting.insert(peer_id@)
                } else {
                    old(self)@.connecting
                },
                ..old(self)@
            }),
    {
        if !text::text_sorts_before(self.instance_id.as_str(), peer_id) {
            return ConnectDecision::AwaitInbound;
        }
        if self.connecting.contains(peer_id) {
            proof {
                assert(self@.connecting =~= self@.connecting.insert(peer_id@));
                assert(self@ == after_connect(old(self)@, peer_id@));
            }
            return ConnectDecision::AlreadyRunning;
        }
        self.connecting.insert(peer_id.to_string(), ());
        proof {
            assert(self@.connecting =~= old(self)@.connecting.insert(peer_id@));
        }
        ConnectDecision::StartLoop
    }

    /// The live connection to a peer.
    pub fn get_peer(&self, peer_id: &str) -> (handle: Option<&PeerHandle<T>>)
        requires
            self.wf(),
        ensures
            match handle {
                Some(handle) => {
                    &&& self@.peers.dom().contains(peer_id@)
                    &&& self@.peers[peer_id@] == handle@
                    &&& handle@.peer_id == peer_id@
                },
                None => !self@.peers.dom().contains(peer_id@),
            },
    {
        self.peers.get(peer_id)
    }

    /// The IDs of the peers with a live connection, each once.
    pub fn connected_peer_ids(&self) -> (ids: Vec<String>)
        requires
            self.wf(),
        ensures
            forall|i: int, j: int|
                0 <= i < j < ids@.len() ==> #[trigger] ids@[i]@ != #[trigger] ids@[j]@,
            forall|i: int| 0 <= i < ids@.len() ==> self@.peers.dom().contains(#[trigger] ids@[i]@),
            forall|id: Seq<char>| #[trigger]
                self@.peers.dom().contains(id) ==> exists|i: int|
                    0 <= i < ids@.len() && #[trigger] ids@[i]@ == id,
            ids@.len() == self@.peers.dom().len(),
    {
        proof {
            assert(self@.peers.dom() =~= self.peers@.dom());
        }
        self.peers.keys()
    }

    /// Takes in a connection that was established, and hands out its token and
    /// the event to report. It takes the place of an earlier one to the same peer.
    pub fn register(&mut self, peer_id: &str, sender: T, ip: &str, port: u16) -> (registered: (
        u64,
        TransportEvent,
    ))
        requires
            old(self).wf(),
        ensures
            final(self).wf(),
            final(self)@ == old(self)@.registered(peer_id@, sender),
            registered.0 == old(self)@.next_token,
            registered.1 matches TransportEvent::Connected { peer_id: id, ip: address, port: seen }
                && id@ == peer_id@ && address@ == ip@ && seen == port,
    {
        let token: u64 = self.next_token;
        self.next_token = self.next_token.wrapping_add(1);
        let handle = PeerHandle { peer_id: peer_id.to_string(), sender, token };
        self.peers.insert(peer_id.to_string(), handle);
        proof {
            assert(self@.peers =~= old(self)@.registered(peer_id@, sender).peers);
        }
        (
            token,
            TransportEvent::Connected { peer_id: peer_id.to_string(), ip: ip.to_string(), port },
        )
    }

    /// Takes out a connection that ended, if the table still holds it and not
    /// another one to the same peer. Only then is there an event to report.
    pub fn teardown(&mut self, peer_id: &str, token: u64) -> (event: Option<TransportEvent>)
        requires
            old(self).wf(),
        ensures
            final(self).wf(),
            final(self)@ == old(self)@.torn_down(peer_id@, token),
            match event {
                Some(event) => {
                    &&& old(self)@.owns(peer_id@, token)
                    &&& event matches TransportEvent::Disconnected { peer_id: id } && id@ == peer_id@
                },
                None => !old(self)@.owns(peer_id@, token),
            },
    {
        let ours = match self.peers.get(peer_id) {
            Some(handle) => handle.token == token,
            None => false,
        };
        if ours {
            self.peers.remove(peer_id);
            proof {
                assert(self@.peers =~= old(self)@.peers.remove(peer_id@));
            }
            Some(TransportEvent::Disconnected { peer_id: peer_id.to_string() })
        } else {
            None
        }
    }
}

/// Encrypts the hello of an instance. The peer with the same key learns the ID
/// from it.
pub fn hello_frame(our_id: &str, cipher: &Cipher) -> (result: Result<Vec<u8>, String>)
    requires
        text::utf8(our_id@).len() <= codec::max_length(),
    ensures
        match result {
            Ok(frame) => {
                &&& greeted(cipher@, frame@) == Ok::<_, Seq<char>>(our_id@)
                &&& forall|side: Side, first: FirstFrame|
                    first matches FirstFrame::Binary(data) && data@ == frame@
                        ==> #[trigger] handshaken(side, first, cipher@) == Ok::<_, Seq<char>>(
                        our_id@,
                    )
                &&& frame@ == pairing::frame(
                    cipher@,
                    frame@.subrange(0, crypto::NONCE_SIZE as int),
                    codec::packed_message("hello"@, text::utf8(our_id@)),
                )
            },
            Err(text) => {
                exists|cause: Seq<char>|
                    text@ == #[trigger] ("MessagePack serialize error: "@ + cause)
            },
        },
{
    let message = WireMessage::new("hello", vstd::slice::slice_to_vec(our_id.as_bytes()));
    proof {
        reveal_strlit("hello");
        is_ascii_chars_encode_utf8("hello"@);
        encode_utf8_valid_utf8(our_id@);
        encode_utf8_decode_utf8(our_id@);
    }
    message.to_encrypted(cipher)
}

/// The ID that a hello frame carries under a key, or the text of the error.
pub open spec fn greeted(key: Seq<u8>, data: Seq<u8>) -> Result<Seq<char>, Seq<char>> {
    match pairing::received(key, data) {
        Err(text) => Err("hello decrypt error (wrong pairing code?): "@ + text),
        Ok(message) => if message.0 != "hello"@ {
            Err("expected 'hello', got '"@ + message.0 + "'"@)
        } else if !valid_utf8(message.1) {
            Err("invalid peer id: "@ + text::utf8_error(message.1))
        } else {
            Ok(decode_utf8(message.1))
        },
    }
}

/// Reads a hello frame. It gives an ID only for a frame that was encrypted under
/// the same key.
pub fn read_hello(data: &[u8], cipher: &Cipher) -> (result: Result<String, String>)
    ensures
        match result {
            Ok(peer_id) => {
                &&& greeted(cipher@, data@) == Ok::<_, Seq<char>>(peer_id@)
                &&& pairing::is_sealed(cipher@, data@, ("hello"@, text::utf8(peer_id@)))
            },
            Err(text) => greeted(cipher@, data@) == Err::<Seq<char>, _>(text@),
        },
{
    match WireMessage::from_encrypted(data, cipher) {
        Err(text) => Err(
            text::joined("hello decrypt error (wrong pairing code?): ", text.as_str()),
        ),
        Ok(message) => {
            if !text::same_text(message.msg_type.as_str(), "hello") {
                let mut text = text::joined("expected 'hello', got '", message.msg_type.as_str());
                text.append("'");
                return Err(text);
            }
            let ghost payload = message.payload@;
            match text::text_of_utf8(message.payload) {
                Ok(peer_id) => {
                    proof {
                        decode_utf8_encode_utf8(payload);
                    }
                    Ok(peer_id)
                },
                Err(text) => Err(text::joined("invalid peer id: ", text.as_str())),
            }
        },
    }
}

/// The two sides of a handshake.
#[derive(Debug, Clone, Copy, PartialEq, Eq, Structural)]
pub enum Side {
    /// The side that dialed.
    Client,
    /// The side that accepted.
    Server,
}

/// What came in place of the peer's hello.
pub enum FirstFrame {
    /// A binary frame.
    Binary(Vec<u8>),
    /// Something else: how it reads in a log.
    Other(String),
}

/// The peer's ID out of the first frame, or the text of the error.
pub open spec fn handshaken(side: Side, first: FirstFrame, key: Seq<u8>) -> Result<
    Seq<char>,
    Seq<char>,
> {
    match first {
        FirstFrame::Binary(data) => greeted(key, data@),
        FirstFrame::Other(shown) => Err(
            (match side {
                Side::Server => "no hello received: "@,
                Side::Client => "no hello response: "@,
            }) + shown@,
        ),
    }
}

/// Reads the peer's hello from the first frame of a connection.
pub fn finish_handshake(side: Side, first: &FirstFrame, cipher: &Cipher) -> (result: Result<
    String,
    String,
>)
    ensures
        match result {
            Ok(peer_id) => {
                &&& handshaken(side, *first, cipher@) == Ok::<_, Seq<char>>(peer_id@)
                &&& first matches FirstFrame::Binary(data) && pairing::is_sealed(
                    cipher@,
                    data@,
                    ("hello"@, text::utf8(peer_id@)),
                )
            },
            Err(text) => handshaken(side, *first, cipher@) == Err::<Seq<char>, _>(text@),
        },
{
    match first {
        FirstFrame::Binary(data) => read_hello(data.as_slice(), cipher),
        FirstFrame::Other(shown) => match side {
            Side::Server => Err(text::joined("no hello received: ", shown.as_str())),
            Side::Client => Err(text::joined("no hello response: ", shown.as_str())),
        },
    }
}

/// What happened on an established connection.
pub enum ReadEvent {
    /// The pairing code changed, or the program is ending.
    Reset,
    /// A binary frame came in.
    Binary(Vec<u8>),
    /// A close frame came in.
    Close,
    /// The stream ended.
    End,
    /// Reading failed.
    Failed,
    /// A frame of another kind came in.
    Other,
}

/// What to do on an established connection.
pub enum ReadAction {
    /// Drop the connection.
    Stop,
    /// Hand a message to the engine.
    Deliver(WireMessage),
    /// Report a frame that cannot be read, and go on.
    Report(String),
    /// Go on.
    Ignore,
}

/// What to do on an established connection, as a mathematical value.
pub enum ReadView {
    Stop,
    Deliver((Seq<char>, Seq<u8>)),
    Report(Seq<char>),
    Ignore,
}

impl View for ReadAction {
    type V = ReadView;

    open spec fn view(&self) -> ReadView {
        match self {
            ReadAction::Stop => ReadView::Stop,
            ReadAction::Deliver(message) => ReadView::Deliver(message@),
            ReadAction::Report(text) => ReadView::Report(text@),
            ReadAction::Ignore => ReadView::Ignore,
        }
    }
}

/// What an event on an established connection calls for, under the connection's key.
pub open spec fn read_decision(event: ReadEvent, key: Seq<u8>) -> ReadView {
    match event {
        ReadEvent::Binary(data) => match pairing::received(key, data@) {
            Ok(message) => ReadView::Deliver(message),
            Err(text) => ReadView::Report(text),
        },
        ReadEvent::Other => ReadView::Ignore,
        _ => ReadView::Stop,
    }
}

/// Decides what to do about an event on an established connection. A frame that
/// cannot be decrypted is dropped and the connection stays.
pub fn read_step(event: &ReadEvent, cipher: &Cipher) -> (action: ReadAction)
    ensures
        action@ == read_decision(*event, cipher@),
        match event {
            ReadEvent::Binary(data) => match pairing::received(cipher@, data@) {
                Ok(message) => action matches ReadAction::Deliver(delivered) && delivered@ == message
                    && pairing::is_sealed(cipher@, data@, message),
                Err(text) => action matches ReadAction::Report(shown) && shown@ == text,
            },
            ReadEvent::Other => action is Ignore,
            _ => action is Stop,
        },
{
    match event {
        ReadEvent::Binary(data) => match WireMessage::from_encrypted(data.as_slice(), cipher) {
            Ok(message) => ReadAction::Deliver(message),
            Err(text) => ReadAction::Report(text),
        },
        ReadEvent::Other => ReadAction::Ignore,
        ReadEvent::Reset => ReadAction::Stop,
        ReadEvent::Close => ReadAction::Stop,
        ReadEvent::End => ReadAction::Stop,
        ReadEvent::Failed => ReadAction::Stop,
    }
}

/// The longest wait before another attempt, in seconds.
pub const MAX_BACKOFF: u64 = 60;

/// What a connect loop is to do next.
#[derive(Debug, Clone, Copy, PartialEq, Eq, Structural)]
pub enum ConnectPhase {
    /// Look whether there is a key.
    CheckKey,
    /// Wait for a pairing reset, or a second.
    AwaitKey,
    /// Dial the peer and shake hands.
    Dial,
    /// Run the connection until it ends.
    Run,
    /// Wait for a pairing reset, or as long as the backoff says.
    Pause,
}

/// What happened in a connect loop.
#[derive(Debug, Clone, Copy, PartialEq, Eq, Structural)]
pub enum ConnectEvent {
    /// There is a key.
    KeyFound,
    /// There is no key.
    KeyMissing,
    /// The handshake succeeded.
    Connected,
    /// Dialing or the handshake failed.
    Failed,
    /// The connection ended.
    Ended,
    /// The pairing code changed during a wait.
    Reset,
    /// A wait was over.
    Elapsed,
}

/// The state of a connect loop: what it is to do next, and the seconds to wait
/// before another attempt.
#[derive(Debug, Clone, Copy, PartialEq, Eq, Structural)]
pub struct ConnectLoop {
    pub phase: ConnectPhase,
    pub backoff: u64,
}

/// The wait after a wait: twice as long, up to the longest.
pub open spec fn longer_backoff(backoff: int) -> int {
    if backoff * 2 < MAX_BACKOFF {
        backoff * 2
    } else {
        MAX_BACKOFF as int
    }
}

/// The state of a connect loop after an event. An event that does not belong to
/// what the loop is doing changes nothing.
pub open spec fn connect_stepped(state: ConnectLoop, event: ConnectEvent) -> ConnectLoop {
    match (state.phase, event) {
        (ConnectPhase::CheckKey, ConnectEvent::KeyFound) => ConnectLoop {
            phase: ConnectPhase::Dial,
            ..state
        },
        (ConnectPhase::CheckKey, ConnectEvent::KeyMissing) => ConnectLoop {
            phase: ConnectPhase::AwaitKey,
            ..state
        },
        (ConnectPhase::AwaitKey, ConnectEvent::Reset) => ConnectLoop {
            phase: ConnectPhase::CheckKey,
            ..state
        },
        (ConnectPhase::AwaitKey, ConnectEvent::Elapsed) => ConnectLoop {
            phase: ConnectPhase::CheckKey,
            ..state
        },
        (ConnectPhase::Dial, ConnectEvent::Connected) => ConnectLoop {
            phase: ConnectPhase::Run,
            backoff: 1,
        },
        (ConnectPhase::Dial, ConnectEvent::Failed) => ConnectLoop {
            phase: ConnectPhase::Pause,
            ..state
        },
        (ConnectPhase::Run, ConnectEvent::Ended) => ConnectLoop {
            phase: ConnectPhase::Pause,
            ..state
        },
        (ConnectPhase::Pause, ConnectEvent::Reset) => ConnectLoop {
            phase: ConnectPhase::CheckKey,
            backoff: 1,
        },
        (ConnectPhase::Pause, ConnectEvent::Elapsed) => ConnectLoop {
            phase: ConnectPhase::CheckKey,
            backoff: longer_backoff(state.backoff as int) as u64,
        },
        _ => state,
    }
}

impl ConnectLoop {
    /// The wait is between one second and the longest.
    pub open spec fn wf(self) -> bool {
        1 <= self.backoff <= MAX_BACKOFF
    }

    /// A connect loop that starts.
    pub fn start() -> (state: Self)
        ensures
            state.wf(),
            state == (ConnectLoop { phase: ConnectPhase::CheckKey, backoff: 1 }),
    {
        ConnectLoop { phase: ConnectPhase::CheckKey, backoff: 1 }
    }

    /// Takes in an event.
    pub fn step(&mut self, event: ConnectEvent)
        requires
            old(self).wf(),
        ensures
            final(self).wf(),
            *final(self) == connect_stepped(*old(self), event),
    {
        match (self.phase, event) {
            (ConnectPhase::CheckKey, ConnectEvent::KeyFound) => {
                self.phase = ConnectPhase::Dial;
            },
            (ConnectPhase::CheckKey, ConnectEvent::KeyMissing) => {
                self.phase = ConnectPhase::AwaitKey;
            },
            (ConnectPhase::AwaitKey, ConnectEvent::Reset) => {
                self.phase = ConnectPhase::CheckKey;
            },
            (ConnectPhase::AwaitKey, ConnectEvent::Elapsed) => {
                self.phase = ConnectPhase::CheckKey;
            },
            (ConnectPhase::Dial, ConnectEvent::Connected) => {
                self.phase = ConnectPhase::Run;
                self.backoff = 1;
            },
            (ConnectPhase::Dial, ConnectEvent::Failed) => {
                self.phase = ConnectPhase::Pause;
            },
            (ConnectPhase::Run, ConnectEvent::Ended) => {
                self.phase = ConnectPhase::Pause;
            },
            (ConnectPhase::Pause, ConnectEvent::Reset) => {
                self.phase = ConnectPhase::CheckKey;
                self.backoff = 1;
            },
            (ConnectPhase::Pause, ConnectEvent::Elapsed) => {
                self.phase = ConnectPhase::CheckKey;
                if self.backoff * 2 < MAX_BACKOFF {
                    self.backoff = self.backoff * 2;
                } else {
                    self.backoff = MAX_BACKOFF;
                }
            },
            _ => {},
        }
    }
}

/// The state of a connect loop after one attempt that failed and the wait after
/// it.
pub open spec fn after_failure(state: ConnectLoop) -> ConnectLoop {
    connect_stepped(
        connect_stepped(connect_stepped(state, ConnectEvent::KeyFound), ConnectEvent::Failed),
        ConnectEvent::Elapsed,
    )
}

/// The state of a connect loop after a number of attempts that failed.
pub open spec fn after_failures(attempts: nat) -> ConnectLoop
    decreases attempts,
{
    if attempts == 0 {
        ConnectLoop { phase: ConnectPhase::CheckKey, backoff: 1 }
    } else {
        after_failure(after_failures((attempts - 1) as nat))
    }
}

/// The waits between failing attempts grow exponentially: one second, two, four,
/// and so on, up to a minute.
pub proof fn law_exponential_backoff(attempts: nat)
    ensures
        after_failures(attempts).phase == ConnectPhase::CheckKey,
        after_failures(attempts).backoff == (if pow2(attempts) < MAX_BACKOFF {
            pow2(attempts)
        } else {
            MAX_BACKOFF as nat
        }),
    decreases attempts,
{
    lemma2_to64();
    if attempts > 0 {
        law_exponential_backoff((attempts - 1) as nat);
        lemma_pow2_unfold(attempts);
    }
}

/// A wait starts over at one second after a connection that came up, and after a
/// change of the pairing code during a wait.
pub proof fn law_backoff_starts_over(state: ConnectLoop)
    ensures
        state.phase == ConnectPhase::Dial ==> connect_stepped(state, ConnectEvent::Connected).backoff
            == 1,
        state.phase == ConnectPhase::Pause ==> connect_stepped(state, ConnectEvent::Reset).backoff
            == 1,
{
}

/// A connection that ended is made again: after the wait, or at once when the
/// pairing code changes, the loop looks for a key and dials.
pub proof fn law_dials_again(state: ConnectLoop, wait_over: ConnectEvent)
    requires
        state.phase == ConnectPhase::Run,
        wait_over == ConnectEvent::Elapsed || wait_over == ConnectEvent::Reset,
    ensures
        connect_stepped(
            connect_stepped(connect_stepped(state, ConnectEvent::Ended), wait_over),
            ConnectEvent::KeyFound,
        ).phase == ConnectPhase::Dial,
{
}

/// Without a key nothing is dialed: a connect loop comes to dial only from a look
/// that found a key, and to run a connection only from dialing.
pub proof fn law_no_dial_without_key(state: ConnectLoop, event: ConnectEvent)
    ensures
        ({
            let next = connect_stepped(state, event);
            &&& next.phase == ConnectPhase::Dial && state.phase != ConnectPhase::Dial ==> {
                &&& state.phase == ConnectPhase::CheckKey
                &&& event == ConnectEvent::KeyFound
            }
            &&& next.phase == ConnectPhase::Run && state.phase != ConnectPhase::Run ==> {
                &&& state.phase == ConnectPhase::Dial
                &&& event == ConnectEvent::Connected
            }
        }),
{
}

/// An instance dials another just if its ID sorts first: in the first byte in which
/// the two IDs differ it has the smaller one, or it is the beginning of the other.
pub proof fn law_smaller_id_dials(our_id: Seq<char>, peer_id: Seq<char>)
    ensures
        dials(our_id, peer_id) <==> {
            let ours = encode_utf8(our_id);
            let theirs = encode_utf8(peer_id);
            exists|n: int| #[trigger]
                ours.take(n) == theirs.take(n) && 0 <= n <= ours.len() && n < theirs.len() && (n
                    == ours.len() || ours[n] < theirs[n])
        },
{
    text::law_sorts_by_first_difference(encode_utf8(our_id), encode_utf8(peer_id));
}

/// What a hello gives: the ID that its payload spells, under the key that it was
/// encrypted with, whatever its length; a text for each way in which it can fail.
pub proof fn law_greeted(key: Seq<u8>, data: Seq<u8>, plaintext: Seq<u8>)
    requires
        28 <= data.len() <= 274_877_906_844,
        crypto::opened(key, data.subrange(0, 12), data.subrange(12, data.len() as int)) == Some(
            plaintext,
        ),
    ensures
        match codec::unpacked_message(plaintext) {
            Err(text) => greeted(key, data) == Err::<Seq<char>, _>(
                "hello decrypt error (wrong pairing code?): "@ + ("MessagePack deserialize error: "@
                    + text),
            ),
            Ok(message) => {
                &&& message.0 == "hello"@ && valid_utf8(message.1) ==> greeted(key, data) == Ok::<
                    _,
                    Seq<char>,
                >(decode_utf8(message.1))
                &&& message.0 == "hello"@ && !valid_utf8(message.1) ==> greeted(key, data)
                    == Err::<Seq<char>, _>("invalid peer id: "@ + text::utf8_error(message.1))
                &&& message.0 != "hello"@ ==> greeted(key, data) == Err::<Seq<char>, _>(
                    "expected 'hello', got '"@ + message.0 + "'"@,
                )
            },
        },
{
    pairing::law_received(key, data);
}

/// A hello that cannot be decrypted gives no ID.
pub proof fn law_undecryptable_hello(key: Seq<u8>, data: Seq<u8>)
    requires
        28 <= data.len() <= 274_877_906_844,
        crypto::opened(key, data.subrange(0, 12), data.subrange(12, data.len() as int)) is None,
    ensures
        greeted(key, data) == Err::<Seq<char>, _>(
            "hello decrypt error (wrong pairing code?): "@ + ("Decryption error: "@
                + "aead::Error"@),
        ),
{
    pairing::law_received(key, data);
}

/// The handshake is complete: on either side, a first frame that decrypts under the
/// shared key to a hello with an ID is accepted with that ID, whatever the ID and the
/// length of the frame.
pub proof fn law_handshake_is_complete(
    side: Side,
    first: FirstFrame,
    key: Seq<u8>,
    id: Seq<char>,
    plaintext: Seq<u8>,
)
    requires
        first matches FirstFrame::Binary(data) && 28 <= data@.len() <= 274_877_906_844
            && crypto::opened(
            key,
            data@.subrange(0, 12),
            data@.subrange(12, data@.len() as int),
        ) == Some(plaintext),
        codec::unpacked_message(plaintext) == Ok::<_, Seq<char>>(("hello"@, encode_utf8(id))),
    ensures
        handshaken(side, first, key) == Ok::<_, Seq<char>>(id),
{
    let data = first->Binary_0;
    law_greeted(key, data@, plaintext);
    encode_utf8_valid_utf8(id);
    encode_utf8_decode_utf8(id);
}

/// A binary first frame gives on either side what the hello in it gives, and any
/// other first frame is an error that shows it.
pub proof fn law_handshake_reads_the_hello(side: Side, first: FirstFrame, key: Seq<u8>)
    ensures
        first matches FirstFrame::Binary(data) ==> handshaken(side, first, key) == greeted(
            key,
            data@,
        ),
        first matches FirstFrame::Other(shown) && side == Side::Server ==> handshaken(
            side,
            first,
            key,
        ) == Err::<Seq<char>, _>("no hello received: "@ + first->Other_0@),
        first matches FirstFrame::Other(shown) && side == Side::Client ==> handshaken(
            side,
            first,
            key,
        ) == Err::<Seq<char>, _>("no hello response: "@ + first->Other_0@),
{
}

/// A connection that was established is in the table under its peer's ID, with what
/// sends to it and a token that the next connection does not get; nothing else in the
/// table changes.
pub proof fn law_registration<T>(before: TransportView<T>, peer_id: Seq<char>, sender: T, other: Seq<char>)
    ensures
        ({
            let after = before.registered(peer_id, sender);
            &&& after.peers.dom().contains(peer_id)
            &&& after.peers[peer_id] == (HandleView {
                peer_id,
                sender,
                token: before.next_token,
            })
            &&& other != peer_id ==> {
                &&& after.peers.dom().contains(other) <==> before.peers.dom().contains(other)
                &&& before.peers.dom().contains(other) ==> after.peers[other]
                    == before.peers[other]
            }
            &&& after.next_token != before.next_token
            &&& after.key == before.key
            &&& after.instance_id == before.instance_id
            &&& after.generation == before.generation
            &&& after.connecting == before.connecting
        }),
{
}

/// A connection that ended leaves the table just if the table holds the one with its
/// token; nothing else changes.
pub proof fn law_teardown<T>(before: TransportView<T>, peer_id: Seq<char>, token: u64, other: Seq<char>)
    ensures
        ({
            let after = before.torn_down(peer_id, token);
            let ours = before.peers.dom().contains(peer_id) && before.peers[peer_id].token == token;
            &&& before.owns(peer_id, token) <==> ours
            &&& ours ==> !after.peers.dom().contains(peer_id)
            &&& !ours ==> after == before
            &&& other != peer_id ==> {
                &&& after.peers.dom().contains(other) <==> before.peers.dom().contains(other)
                &&& before.peers.dom().contains(other) ==> after.peers[other]
                    == before.peers[other]
            }
            &&& after.next_token == before.next_token
            &&& after.key == before.key
            &&& after.instance_id == before.instance_id
            &&& after.generation == before.generation
            &&& after.connecting == before.connecting
        }),
{
}

/// Installing a code installs its key, whatever was installed before, and moves to
/// another generation, so that every live connection drops; connections and loops
/// stay in their tables until then.
pub proof fn law_pairing_installs_key<T>(before: TransportView<T>, code: Seq<char>)
    ensures
        ({
            let after = before.paired(code);
            &&& after.key == Some(
                crypto::hkdf_sha256(
                    encode_utf8("clipsync-pairing-v1"@),
                    encode_utf8(code),
                    Seq::empty(),
                    32,
                ),
            )
            &&& after.generation != before.generation
            &&& before.generation < u64::MAX ==> after.generation == before.generation + 1
            &&& before.generation == u64::MAX ==> after.generation == 0
            &&& after.peers == before.peers
            &&& after.instance_id == before.instance_id
            &&& after.connecting == before.connecting
            &&& after.next_token == before.next_token
        }),
{
    pairing::law_key_of_code(code);
}

/// The wait after a wait is twice as long, and a minute where that would be longer.
pub proof fn law_wait_doubles(backoff: int)
    ensures
        backoff * 2 <= 60 ==> longer_backoff(backoff) == backoff * 2,
        backoff * 2 >= 60 ==> longer_backoff(backoff) == 60,
{
}

/// What a connect loop does next. It looks for a key, dials with one and waits
/// without; it runs a connection that came up and waits after one that failed or
/// ended; after a wait it looks for a key again, with a longer wait ahead if time
/// was up and the shortest if the code changed.
pub proof fn law_connect_loop(state: ConnectLoop)
    requires
        1 <= state.backoff <= 60,
    ensures
        state.phase == ConnectPhase::CheckKey ==> {
            &&& connect_stepped(state, ConnectEvent::KeyFound) == (ConnectLoop {
                phase: ConnectPhase::Dial,
                backoff: state.backoff,
            })
            &&& connect_stepped(state, ConnectEvent::KeyMissing) == (ConnectLoop {
                phase: ConnectPhase::AwaitKey,
                backoff: state.backoff,
            })
        },
        state.phase == ConnectPhase::AwaitKey ==> {
            &&& connect_stepped(state, ConnectEvent::Reset) == (ConnectLoop {
                phase: ConnectPhase::CheckKey,
                backoff: state.backoff,
            })
            &&& connect_stepped(state, ConnectEvent::Elapsed) == (ConnectLoop {
                phase: ConnectPhase::CheckKey,
                backoff: state.backoff,
            })
        },
        state.phase == ConnectPhase::Dial ==> {
            &&& connect_stepped(state, ConnectEvent::Connected) == (ConnectLoop {
                phase: ConnectPhase::Run,
                backoff: 1,
            })
            &&& connect_stepped(state, ConnectEvent::Failed) == (ConnectLoop {
                phase: ConnectPhase::Pause,
                backoff: state.backoff,
            })
        },
        state.phase == ConnectPhase::Run ==> connect_stepped(state, ConnectEvent::Ended) == (
        ConnectLoop { phase: ConnectPhase::Pause, backoff: state.backoff }),
        state.phase == ConnectPhase::Pause ==> {
            &&& connect_stepped(state, ConnectEvent::Reset) == (ConnectLoop {
                phase: ConnectPhase::CheckKey,
                backoff: 1,
            })
            &&& connect_stepped(state, ConnectEvent::Elapsed).phase == ConnectPhase::CheckKey
            &&& state.backoff <= 30 ==> connect_stepped(state, ConnectEvent::Elapsed).backoff
                == state.backoff * 2
            &&& state.backoff > 30 ==> connect_stepped(state, ConnectEvent::Elapsed).backoff == 60
        },
{
}

/// An event that does not belong to what a connect loop is doing changes nothing.
pub proof fn law_stray_events_change_nothing(state: ConnectLoop, event: ConnectEvent)
    requires
        event == ConnectEvent::KeyFound || event == ConnectEvent::KeyMissing ==> state.phase
            != ConnectPhase::CheckKey,
        event == ConnectEvent::Connected || event == ConnectEvent::Failed ==> state.phase
            != ConnectPhase::Dial,
        event == ConnectEvent::Ended ==> state.phase != ConnectPhase::Run,
        event == ConnectEvent::Reset || event == ConnectEvent::Elapsed ==> state.phase
            != ConnectPhase::AwaitKey && state.phase != ConnectPhase::Pause,
    ensures
        connect_stepped(state, event) == state,
{
}

/// A live connection stands for all of its fields.
pub proof fn law_handle_view<T>(handle: PeerHandle<T>)
    ensures
        handle@.peer_id == handle.peer_id@,
        handle@.sender == handle.sender,
        handle@.token == handle.token,
{
}

/// Of two different instances that discover each other, and have no connect loop for
/// each other yet, just one starts one; asked again, neither starts another; and a
/// loop for one peer is no loop for another.
pub proof fn law_one_connect_loop<T>(a: TransportView<T>, b: TransportView<T>, other: Seq<char>)
    requires
        a.instance_id != b.instance_id,
        !a.connecting.contains(b.instance_id),
        !b.connecting.contains(a.instance_id),
        other != b.instance_id,
    ensures
        ({
            let of_a = connect_decision(a, b.instance_id);
            let of_b = connect_decision(b, a.instance_id);
            let a_after = after_connect(a, b.instance_id);
            let b_after = after_connect(b, a.instance_id);
            &&& of_a == ConnectDecision::StartLoop <==> of_b == ConnectDecision::AwaitInbound
            &&& of_a == ConnectDecision::AwaitInbound <==> of_b == ConnectDecision::StartLoop
            &&& connect_decision(a_after, b.instance_id) != ConnectDecision::StartLoop
            &&& connect_decision(b_after, a.instance_id) != ConnectDecision::StartLoop
            &&& of_a == ConnectDecision::StartLoop ==> connect_decision(a_after, b.instance_id)
                == ConnectDecision::AlreadyRunning
            &&& connect_decision(a_after, other) == connect_decision(a, other)
        }),
{
    law_exactly_one_dials(a.instance_id, b.instance_id);
}

/// A connect loop starts just for a peer whose ID sorts after ours and that has none,
/// and is then the only thing that changed.
pub proof fn law_connect_decision<T>(transport: TransportView<T>, peer_id: Seq<char>)
    ensures
        ({
            let ours = encode_utf8(transport.instance_id);
            let theirs = encode_utf8(peer_id);
            let smaller = exists|n: int| #[trigger]
                ours.take(n) == theirs.take(n) && 0 <= n <= ours.len() && n < theirs.len() && (n
                    == ours.len() || ours[n] < theirs[n]);
            let decision = connect_decision(transport, peer_id);
            let after = after_connect(transport, peer_id);
            &&& decision == ConnectDecision::AwaitInbound <==> !smaller
            &&& decision == ConnectDecision::AlreadyRunning <==> smaller
                && transport.connecting.contains(peer_id)
            &&& decision == ConnectDecision::StartLoop <==> smaller
                && !transport.connecting.contains(peer_id)
            &&& decision == ConnectDecision::StartLoop ==> after.connecting
                == transport.connecting.insert(peer_id)
            &&& decision != ConnectDecision::StartLoop ==> after == transport
            &&& after.peers == transport.peers
            &&& after.key == transport.key
            &&& after.instance_id == transport.instance_id
            &&& after.generation == transport.generation
            &&& after.next_token == transport.next_token
        }),
{
    law_smaller_id_dials(transport.instance_id, peer_id);
}

/// A binary frame that decrypts under the connection's key to a message delivers that
/// message, whatever its type and size; one that does not is reported, and the
/// connection goes on. It stops just at a reset, a close, the end and a failure.
pub proof fn law_read_decision(event: ReadEvent, key: Seq<u8>)
    ensures
        read_decision(event, key) is Stop <==> event is Reset || event is Close || event is End
            || event is Failed,
        event is Other ==> read_decision(event, key) is Ignore,
        event matches ReadEvent::Binary(data) && 28 <= data@.len() <= 274_877_906_844 ==> {
            let data = event->Binary_0@;
            match crypto::opened(key, data.subrange(0, 12), data.subrange(12, data.len() as int)) {
                None => read_decision(event, key) == ReadView::Report(
                    "Decryption error: "@ + "aead::Error"@,
                ),
                Some(plaintext) => match codec::unpacked_message(plaintext) {
                    Ok(message) => read_decision(event, key) == ReadView::Deliver(message),
                    Err(text) => read_decision(event, key) == ReadView::Report(
                        "MessagePack deserialize error: "@ + text,
                    ),
                },
            }
        },
        event matches ReadEvent::Binary(data) && data@.len() < 28 ==> read_decision(event, key)
            == ReadView::Report("Wire data too short for decryption"@),
{
    if event is Binary {
        pairing::law_received(key, event->Binary_0@);
    }
}

/// What to do stands for the same in mathematical values.
pub proof fn law_read_view(action: ReadAction)
    ensures
        action is Stop <==> action@ is Stop,
        action is Ignore <==> action@ is Ignore,
        action matches ReadAction::Deliver(message) ==> action@ == ReadView::Deliver(message@),
        action matches ReadAction::Report(text) ==> action@ == ReadView::Report(text@),
{
}

/// A WebSocket message may have 128 MiB, and a clipboard message fits if its payload,
/// counting the bytes from 128 on twice, is at least 44 bytes shorter.
pub proof fn law_websocket_takes(payload: Seq<u8>)
    ensures
        WS_SIZE_LIMIT == 128 * 1024 * 1024,
        payload.len() * 2 + 44 <= 128 * 1024 * 1024 ==> clipboard_frame_length(payload)
            <= WS_SIZE_LIMIT,
        payload.len() + 44 > 128 * 1024 * 1024 ==> clipboard_frame_length(payload) > WS_SIZE_LIMIT,
{
    payload.lemma_filter_len(|byte: u8| byte >= 128);
    law_message_fits_websocket(payload);
}

} // verus!
