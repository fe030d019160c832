//! The sync engine: what to do about a local clipboard change, a message from a
//! peer, a discovered peer, and a connection that came up or went down.
//!
//! Each decision is a function of the engine's state and of what happened. The
//! program around it reads and writes the clipboard, sends, and saves.
use vstd::prelude::*;
use vstd::string::*;
use vstd::utf8::*;

use crate::clipboard;
use crate::clipboard::ClipboardContent;
use crate::codec;
use crate::crypto;
use crate::config;
use crate::config::{AppConfig, AppConfigView, ClipboardPriority, PeerInfo, PeerInfoView};
use crate::discovery::DiscoveredPeer;
use crate::guard;
use crate::guard::{GuardView, SyncGuard};
use crate::pairing;
use crate::pairing::WireMessage;
use crate::registry::Registry;
use crate::text;
use crate::transport::TransportEvent;

verus! {

/// What a local clipboard change leads to.
pub enum LocalOutcome {
    /// Sync is paused.
    Paused,
    /// The content came from a peer a moment ago.
    Echo,
    /// The content was sent a moment ago.
    Duplicate,
    /// The content could not be serialized.
    Unserializable(String),
    /// The message to send to every connected peer.
    Broadcast(WireMessage),
}

/// What a local clipboard change calls for.
#[derive(Debug, Clone, Copy, PartialEq, Eq, Structural)]
pub enum LocalDecision {
    Paused,
    Echo,
    Duplicate,
    Send,
}

/// Decides about a local clipboard change.
pub open spec fn local_decision(
    guard: GuardView,
    hash: Seq<char>,
    paused: bool,
    now: u128,
) -> LocalDecision {
    if paused {
        LocalDecision::Paused
    } else if guard::remembers(guard.applied, hash, now) {
        LocalDecision::Echo
    } else if guard::remembers(guard.sent, hash, now) {
        LocalDecision::Duplicate
    } else {
        LocalDecision::Send
    }
}

/// The guard after content was sent.
pub open spec fn sent(guard: GuardView, hash: Seq<char>, now: u128) -> GuardView {
    GuardView { sent: guard.purged(now).sent.push((hash, now)), ..guard.purged(now) }
}

/// A kind of message that is not clipboard content.
#[derive(Debug, Clone, Copy, PartialEq, Eq, Structural)]
pub enum IgnoredKind {
    Hello,
    Ping,
    Unknown,
}

/// What a message from a peer leads to.
pub enum IncomingOutcome {
    /// It is not clipboard content.
    Ignored(IgnoredKind),
    /// Sync is paused.
    Paused,
    /// It cannot be read: the text of the error.
    Malformed(String),
    /// It is larger than the limit: how many bytes it has.
    TooLarge(u128),
    /// It was applied a moment ago.
    AlreadyApplied,
    /// It is to be written to the clipboard.
    Apply(ClipboardContent),
}

/// What a message from a peer leads to, as a mathematical value.
pub enum IncomingView {
    Ignored(IgnoredKind),
    Paused,
    Malformed(Seq<char>),
    TooLarge(nat),
    AlreadyApplied,
    Apply(codec::Item),
}

impl View for IncomingOutcome {
    type V = IncomingView;

    open spec fn view(&self) -> IncomingView {
        match self {
            IncomingOutcome::Ignored(kind) => IncomingView::Ignored(*kind),
            IncomingOutcome::Paused => IncomingView::Paused,
            IncomingOutcome::Malformed(text) => IncomingView::Malformed(text@),
            IncomingOutcome::TooLarge(size) => IncomingView::TooLarge(*size as nat),
            IncomingOutcome::AlreadyApplied => IncomingView::AlreadyApplied,
            IncomingOutcome::Apply(content) => IncomingView::Apply(content@),
        }
    }
}

/// Decides about a message from a peer.
pub open spec fn incoming_decision(
    guard: GuardView,
    message: (Seq<char>, Seq<u8>),
    paused: bool,
    limit_bytes: u64,
    now: u128,
) -> IncomingView {
    if message.0 == "hello"@ {
        IncomingView::Ignored(IgnoredKind::Hello)
    } else if message.0 == "ping"@ {
        IncomingView::Ignored(IgnoredKind::Ping)
    } else if message.0 != "clipboard"@ {
        IncomingView::Ignored(IgnoredKind::Unknown)
    } else if paused {
        IncomingView::Paused
    } else {
        match clipboard::unpacked(message.1) {
            Err(text) => IncomingView::Malformed(text),
            Ok(item) => if item.payload_bytes() > limit_bytes {
                IncomingView::TooLarge(item.payload_bytes())
            } else if guard::remembers(guard.applied, item.content_hash, now) {
                IncomingView::AlreadyApplied
            } else {
                IncomingView::Apply(item)
            },
        }
    }
}

/// The guard after a hash was recorded as applied. An empty hash is no content.
pub open spec fn marked(guard: GuardView, hash: Seq<char>, now: u128) -> GuardView {
    GuardView { applied: guard.applied + guard::new_marks(seq![hash], now), ..guard }
}

/// The guard after a message from a peer was decided about. What is to be written
/// is marked before it is written.
pub open spec fn guard_after_incoming(
    guard: GuardView,
    decision: IncomingView,
    now: u128,
) -> GuardView {
    match decision {
        IncomingView::AlreadyApplied => guard.purged(now),
        IncomingView::Apply(item) => marked(guard.purged(now), item.content_hash, now),
        _ => guard,
    }
}

/// How writing to the clipboard ended.
pub enum WriteReport {
    /// It failed.
    Failed,
    /// It succeeded; the hash of what the clipboard holds now, if it can be read.
    Written(Option<String>),
}

/// The guard after writing to the clipboard ended. After a failure the content
/// is not guarded; otherwise what landed is guarded too, under its own hash.
pub open spec fn guard_after_write(
    guard: GuardView,
    hash: Seq<char>,
    report: WriteReport,
    now: u128,
) -> GuardView {
    match report {
        WriteReport::Failed => GuardView { applied: guard::without(guard.applied, hash), ..guard },
        WriteReport::Written(None) => guard,
        WriteReport::Written(Some(landed)) => if landed@ == hash {
            guard
        } else {
            marked(guard, landed@, now)
        },
    }
}

/// What to show about a peer.
pub enum PeerNotice {
    Joined { id: String, name: String },
    Left { id: String },
}

/// What a connection that came up or went down leads to.
pub struct EventOutcome {
    /// What to show.
    pub notice: PeerNotice,
    /// Whether to save the settings.
    pub save: bool,
    /// How many peers are connected.
    pub connected: usize,
    /// Whether sync is paused.
    pub paused: bool,
}

/// The first eight characters of an ID.
pub open spec fn short_form(id: Seq<char>) -> Seq<char> {
    if id.len() <= 8 {
        id
    } else {
        id.take(8)
    }
}

/// The first eight characters of an ID.
pub fn short_id(id: &str) -> (short: String)
    ensures
        short@ == short_form(id@),
{
    if id.unicode_len() <= 8 {
        id.to_string()
    } else {
        let short = id.substring_char(0, 8);
        assert(short@ =~= id@.take(8));
        short.to_string()
    }
}

/// The name and the port to list a connected peer under: those that were
/// discovered, or else a short form of its ID and the port of the connection.
pub open spec fn listed_as(
    known: Map<Seq<char>, DiscoveredPeer>,
    peer_id: Seq<char>,
    port: u16,
) -> (Seq<char>, u16) {
    if known.dom().contains(peer_id) {
        (known[peer_id].name@, known[peer_id].port)
    } else {
        (short_form(peer_id), port)
    }
}

/// The entry of a connected peer in the list of paired peers.
pub open spec fn connected_entry(
    known: Map<Seq<char>, DiscoveredPeer>,
    peer_id: Seq<char>,
    ip: Seq<char>,
    port: u16,
    seen_at: u64,
) -> PeerInfoView {
    PeerInfoView {
        name: listed_as(known, peer_id, port).0,
        id: peer_id,
        address: ip,
        port: listed_as(known, peer_id, port).1,
        last_seen: seen_at,
    }
}

/// The state of the engine.
pub struct EngineView {
    pub guard: GuardView,
    /// The peers that were discovered, by their IDs.
    pub known: Map<Seq<char>, DiscoveredPeer>,
    /// The IDs of the peers with a live connection.
    pub connected: Set<Seq<char>>,
}

/// What a local clipboard change at a given time leads to, and how the state of
/// the engine changes by it. Whether content can be serialized is open: it fails
/// where no memory is left.
pub open spec fn local_result(
    before: EngineView,
    after: EngineView,
    item: codec::Item,
    paused: bool,
    now: u128,
    outcome: LocalOutcome,
) -> bool {
    let decision = local_decision(before.guard, item.content_hash, paused, now);
    let purged = EngineView { guard: before.guard.purged(now), ..before };
    match outcome {
        LocalOutcome::Paused => decision is Paused && after == before,
        LocalOutcome::Echo => decision is Echo && after == purged,
        LocalOutcome::Duplicate => decision is Duplicate && after == purged,
        LocalOutcome::Unserializable(_) => decision is Send && after == purged,
        LocalOutcome::Broadcast(message) => {
            &&& decision is Send
            &&& after == (EngineView {
                guard: sent(before.guard, item.content_hash, now),
                ..before
            })
            &&& message@.0 == "clipboard"@
            &&& message@.1 == codec::packed_item(
                item.content_type,
                item.text,
                item.image_data,
                item.content_hash,
            )
            &&& item.fits() ==> {
                &&& message@.1.len() <= item.packed_bound()
                &&& clipboard::unpacked(message@.1) == Ok::<_, Seq<char>>(item)
            }
        },
    }
}

/// What a connection that came up or went down leads to, and how the state of the
/// engine and the settings change by it.
pub open spec fn event_result(
    before: EngineView,
    after: EngineView,
    config_before: AppConfigView,
    config_after: AppConfigView,
    event: TransportEvent,
    seen_at: u64,
    outcome: EventOutcome,
) -> bool {
    &&& after.guard == before.guard
    &&& after.known == before.known
    &&& after.connected.finite()
    &&& outcome.connected == after.connected.len()
    &&& outcome.paused == config_before.sync_paused
    &&& match event {
        TransportEvent::Connected { peer_id, ip, port } => {
            let entry = connected_entry(before.known, peer_id@, ip@, port, seen_at);
            &&& after.connected == before.connected.insert(peer_id@)
            &&& config_after == (AppConfigView {
                paired_peers: config::upserted(config_before.paired_peers, entry),
                ..config_before
            })
            &&& outcome.save == config::upsert_changes(config_before.paired_peers, entry)
            &&& outcome.notice matches PeerNotice::Joined { id, name } && id@ == peer_id@ && name@
                == entry.name
        },
        TransportEvent::Disconnected { peer_id } => {
            &&& after.connected == before.connected.remove(peer_id@)
            &&& config_after == config_before
            &&& !outcome.save
            &&& outcome.notice matches PeerNotice::Left { id } && id@ == peer_id@
        },
    }
}

/// Coordinates the clipboard, the peers and the settings.
pub struct SyncEngine {
    guard: SyncGuard,
    known: Registry<DiscoveredPeer>,
    connected: Registry<()>,
}

impl View for SyncEngine {
    type V = EngineView;

    closed spec fn view(&self) -> EngineView {
        EngineView {
            guard: self.guard@,
            known: self.known@,
            connected: self.connected@.dom(),
        }
    }
}

impl SyncEngine {
    /// Each peer is known once and connected once.
    pub closed spec fn wf(&self) -> bool {
        self.known.wf() && self.connected.wf()
    }

    /// An engine that remembers nothing and knows no peer.
    pub fn new() -> (engine: Self)
        ensures
            engine.wf(),
            engine@.guard.applied == Seq::<(Seq<char>, u128)>::empty(),
            engine@.guard.sent == Seq::<(Seq<char>, u128)>::empty(),
            engine@.known == Map::<Seq<char>, DiscoveredPeer>::empty(),
            engine@.connected == Set::<Seq<char>>::empty(),
    {
        let engine = SyncEngine {
            guard: SyncGuard::new(),
            known: Registry::new(),
            connected: Registry::new(),
        };
        proof {
            assert(engine@.connected =~= Set::<Seq<char>>::empty());
        }
        engine
    }

    /// The time of the engine's clock, in nanoseconds.
    pub fn now(&self) -> (now: u128) {
        self.guard.now()
    }

    /// Decides whether to send a local clipboard change, by its hash, at a given
    /// time.
    pub fn decide_local_change_at(&mut self, content_hash: &str, paused: bool, now: u128) -> (
        decision: LocalDecision)
        requires
            old(self).wf(),
        ensures
            final(self).wf(),
            decision == local_decision(old(self)@.guard, content_hash@, paused, now),
            final(self)@ == (if paused {
                old(self)@
            } else {
                EngineView { guard: old(self)@.guard.purged(now), ..old(self)@ }
            }),
    {
        if paused {
            return LocalDecision::Paused;
        }
        let ghost before = self@.guard;
        proof {
            guard::lemma_fresh_twice(before.applied, now);
            guard::lemma_fresh_twice(before.sent, now);
            guard::lemma_fresh_earlier(before.sent, content_hash@, now, now);
        }
        if self.guard.is_applied_at(content_hash, now) {
            return LocalDecision::Echo;
        }
        if self.guard.was_recently_sent_at(content_hash, now) {
            return LocalDecision::Duplicate;
        }
        LocalDecision::Send
    }

    /// Makes the message of content that is to be sent and was serialized, and
    /// remembers that it is sent; or passes on why it was not serialized.
    pub fn finish_local_change_at(
        &mut self,
        content_hash: &str,
        payload: Result<Vec<u8>, String>,
        now: u128,
    ) -> (outcome: LocalOutcome)
        requires
            old(self).wf(),
        ensures
            final(self).wf(),
            match payload {
                Ok(payload) => {
                    &&& outcome matches LocalOutcome::Broadcast(message) && message@ == (
                        "clipboard"@,
                        payload@,
                    )
                    &&& final(self)@ == (EngineView {
                        guard: GuardView {
                            sent: old(self)@.guard.sent.push((content_hash@, now)),
                            ..old(self)@.guard
                        },
                        ..old(self)@
                    })
                },
                Err(text) => {
                    &&& outcome matches LocalOutcome::Unserializable(cause) && cause@ == text@
                    &&& final(self)@ == old(self)@
                },
            },
    {
        match payload {
            Ok(payload) => {
                self.guard.mark_sent_at(content_hash, now);
                LocalOutcome::Broadcast(WireMessage::new("clipboard", payload))
            },
            Err(text) => LocalOutcome::Unserializable(text),
        }
    }

    /// Decides about a local clipboard change at a given time.
    pub fn handle_local_change_at(
        &mut self,
        content: &ClipboardContent,
        paused: bool,
        now: u128,
    ) -> (outcome: LocalOutcome)
        requires
            old(self).wf(),
        ensures
            final(self).wf(),
            local_result(old(self)@, final(self)@, content@, paused, now, outcome),
    {
        let hash = content.content_hash.as_str();
        match self.decide_local_change_at(hash, paused, now) {
            LocalDecision::Paused => LocalOutcome::Paused,
            LocalDecision::Echo => LocalOutcome::Echo,
            LocalDecision::Duplicate => LocalOutcome::Duplicate,
            LocalDecision::Send => self.finish_local_change_at(hash, content.to_payload(), now),
        }
    }

    /// Decides about a local clipboard change now.
    pub fn handle_local_change(&mut self, content: &ClipboardContent, paused: bool) -> (outcome:
        LocalOutcome)
        requires
            old(self).wf(),
        ensures
            final(self).wf(),
            exists|now: u128| #[trigger]
                local_result(old(self)@, final(self)@, content@, paused, now, outcome),
    {
        let now: u128 = self.now();
        self.handle_local_change_at(content, paused, now)
    }

    /// Decides about a message from a peer at a given time. Content that is to be
    /// written is guarded from here on.
    pub fn handle_incoming_message_at(
        &mut self,
        message: &WireMessage,
        paused: bool,
        limit_bytes: u64,
        now: u128,
    ) -> (outcome: IncomingOutcome)
        requires
            old(self).wf(),
        ensures
            final(self).wf(),
            outcome@ == incoming_decision(old(self)@.guard, message@, paused, limit_bytes, now),
            final(self)@ == (EngineView {
                guard: guard_after_incoming(old(self)@.guard, outcome@, now),
                ..old(self)@
            }),
    {
        if text::same_text(message.msg_type.as_str(), "hello") {
            return IncomingOutcome::Ignored(IgnoredKind::Hello);
        }
        if text::same_text(message.msg_type.as_str(), "ping") {
            return IncomingOutcome::Ignored(IgnoredKind::Ping);
        }
        if !text::same_text(message.msg_type.as_str(), "clipboard") {
            return IncomingOutcome::Ignored(IgnoredKind::Unknown);
        }
        if paused {
            return IncomingOutcome::Paused;
        }
        let content = match ClipboardContent::from_payload(message.payload.as_slice()) {
            Ok(content) => content,
            Err(text) => {
                return IncomingOutcome::Malformed(text);
            },
        };
        let size: u128 = content.payload_size();
        if size > limit_bytes as u128 {
            return IncomingOutcome::TooLarge(size);
        }
        if self.guard.is_applied_at(content.content_hash.as_str(), now) {
            return IncomingOutcome::AlreadyApplied;
        }
        self.mark(content.content_hash.clone(), now);
        IncomingOutcome::Apply(content)
    }

    /// Guards a hash.
    fn mark(&mut self, hash: String, now: u128)
        requires
            old(self).wf(),
        ensures
            final(self).wf(),
            final(self)@ == (EngineView { guard: marked(old(self)@.guard, hash@, now), ..old(self)@
            }),
    {
        let ghost hash_view = hash@;
        let hashes: Vec<String> = vec![hash];
        self.guard.mark_applied_at(hashes.as_slice(), now);
        proof {
            assert(guard::texts(hashes@) =~= seq![hash_view]);
        }
    }

    /// Decides about a message from a peer now.
    pub fn handle_incoming_message(
        &mut self,
        message: &WireMessage,
        paused: bool,
        limit_bytes: u64,
    ) -> (outcome: IncomingOutcome)
        requires
            old(self).wf(),
        ensures
            final(self).wf(),
            exists|now: u128| {
                &&& outcome@ == #[trigger] incoming_decision(
                    old(self)@.guard,
                    message@,
                    paused,
                    limit_bytes,
                    now,
                )
                &&& final(self)@ == (EngineView {
                    guard: guard_after_incoming(old(self)@.guard, outcome@, now),
                    ..old(self)@
                })
            },
    {
        let now: u128 = self.now();
        self.handle_incoming_message_at(message, paused, limit_bytes, now)
    }

    /// Takes in how writing content to the clipboard ended, at a given time.
    pub fn finish_write_at(&mut self, content_hash: &str, report: &WriteReport, now: u128)
        requires
            old(self).wf(),
        ensures
            final(self).wf(),
            final(self)@ == (EngineView {
                guard: guard_after_write(old(self)@.guard, content_hash@, *report, now),
                ..old(self)@
            }),
    {
        match report {
            WriteReport::Failed => {
                self.guard.clear_applied(content_hash);
            },
            WriteReport::Written(None) => {},
            WriteReport::Written(Some(landed)) => {
                if !clipboard::hashes_equal(landed.as_str(), content_hash) {
                    self.mark(landed.clone(), now);
                }
            },
        }
    }

    /// Takes in how writing content to the clipboard ended.
    pub fn finish_write(&mut self, content_hash: &str, report: &WriteReport)
        requires
            old(self).wf(),
        ensures
            final(self).wf(),
            exists|now: u128|
                final(self)@ == (EngineView {
                    guard: #[trigger] guard_after_write(
                        old(self)@.guard,
                        content_hash@,
                        *report,
                        now,
                    ),
                    ..old(self)@
                }),
    {
        let now: u128 = self.now();
        self.finish_write_at(content_hash, report, now);
    }

    /// Takes in a peer that was discovered.
    pub fn handle_discovered(&mut self, peer: &DiscoveredPeer)
        requires
            old(self).wf(),
        ensures
            final(self).wf(),
            final(self)@ == (EngineView {
                known: old(self)@.known.insert(peer@.id, *peer),
                ..old(self)@
            }),
    {
        self.known.insert(peer.id.clone(), peer.clone());
    }

    /// Takes in a connection that came up or went down at a given Unix time. A
    /// peer whose connection came up is listed as paired; the settings are to be
    /// saved if the list of paired peers changed.
    pub fn handle_transport_event_at(
        &mut self,
        event: &TransportEvent,
        config: &mut AppConfig,
        seen_at: u64,
    ) -> (outcome: EventOutcome)
        requires
            old(self).wf(),
        ensures
            final(self).wf(),
            event_result(
                old(self)@,
                final(self)@,
                old(config)@,
                final(config)@,
                *event,
                seen_at,
                outcome,
            ),
            final(self)@.guard == old(self)@.guard,
            final(self)@.known == old(self)@.known,
            final(self)@.connected.finite(),
            outcome.connected == final(self)@.connected.len(),
            outcome.paused == old(config)@.sync_paused,
            match event {
                TransportEvent::Connected { peer_id, ip, port } => {
                    let entry = connected_entry(
                        old(self)@.known,
                        peer_id@,
                        ip@,
                        *port,
                        seen_at,
                    );
                    &&& final(self)@.connected == old(self)@.connected.insert(peer_id@)
                    &&& final(config)@ == (AppConfigView {
                        paired_peers: config::upserted(old(config)@.paired_peers, entry),
                        ..old(config)@
                    })
                    &&& outcome.save == config::upsert_changes(old(config)@.paired_peers, entry)
                    &&& outcome.notice matches PeerNotice::Joined { id, name } && id@ == peer_id@
                        && name@ == entry.name
                },
                TransportEvent::Disconnected { peer_id } => {
                    &&& final(self)@.connected == old(self)@.connected.remove(peer_id@)
                    &&& final(config)@ == old(config)@
                    &&& !outcome.save
                    &&& outcome.notice matches PeerNotice::Left { id } && id@ == peer_id@
                },
            },
    {
        match event {
            TransportEvent::Connected { peer_id, ip, port } => {
                self.connected.insert(peer_id.clone(), ());
                proof {
                    assert(self@.connected =~= old(self)@.connected.insert(peer_id@));
                }
                let (name, listed_port): (String, u16) = match self.known.get(peer_id.as_str()) {
                    Some(peer) => (peer.name.clone(), peer.port),
                    None => (short_id(peer_id.as_str()), *port),
                };
                let entry = PeerInfo {
                    name: name.clone(),
                    id: peer_id.clone(),
                    address: ip.clone(),
                    port: listed_port,
                    last_seen: seen_at,
                };
                let save = config::upsert_peer(config, entry);
                EventOutcome {
                    notice: PeerNotice::Joined { id: peer_id.clone(), name },
                    save,
                    connected: self.connected.len(),
                    paused: config.sync_paused,
                }
            },
            TransportEvent::Disconnected { peer_id } => {
                self.connected.remove(peer_id.as_str());
                proof {
                    assert(self@.connected =~= old(self)@.connected.remove(peer_id@));
                }
                EventOutcome {
                    notice: PeerNotice::Left { id: peer_id.clone() },
                    save: false,
                    connected: self.connected.len(),
                    paused: config.sync_paused,
                }
            },
        }
    }

    /// Takes in a connection that came up or went down now.
    pub fn handle_transport_event(&mut self, event: &TransportEvent, config: &mut AppConfig) -> (
        outcome: EventOutcome)
        requires
            old(self).wf(),
        ensures
            final(self).wf(),
            final(self)@.guard == old(self)@.guard,
            final(self)@.known == old(self)@.known,
            final(self)@.connected.finite(),
            outcome.connected == final(self)@.connected.len(),
            outcome.paused == old(config)@.sync_paused,
            match event {
                TransportEvent::Connected { peer_id, ip, port } => {
                    &&& final(self)@.connected == old(self)@.connected.insert(peer_id@)
                    &&& exists|seen_at: u64| {
                        let entry = #[trigger] connected_entry(
                            old(self)@.known,
                            peer_id@,
                            ip@,
                            *port,
                            seen_at,
                        );
                        &&& final(config)@ == (AppConfigView {
                            paired_peers: config::upserted(old(config)@.paired_peers, entry),
                            ..old(config)@
                        })
                        &&& outcome.save == config::upsert_changes(
                            old(config)@.paired_peers,
                            entry,
                        )
                    }
                    &&& outcome.notice matches PeerNotice::Joined { id, name } && id@ == peer_id@
                        && name@ == listed_as(old(self)@.known, peer_id@, *port).0
                },
                TransportEvent::Disconnected { peer_id } => {
                    &&& final(self)@.connected == old(self)@.connected.remove(peer_id@)
                    &&& final(config)@ == old(config)@
                    &&& !outcome.save
                    &&& outcome.notice matches PeerNotice::Left { id } && id@ == peer_id@
                },
            },
    {
        let seen_at: u64 = config::now_unix();
        self.handle_transport_event_at(event, config, seen_at)
    }
}

/// Something that happened and changed what the guard remembers.
pub enum GuardStep {
    /// A local clipboard change, and whether its content could be serialized.
    Local { hash: Seq<char>, paused: bool, serialized: bool, now: u128 },
    /// A message from a peer.
    Incoming { message: (Seq<char>, Seq<u8>), paused: bool, limit_bytes: u64, now: u128 },
    /// Writing content to the clipboard ended.
    Write { hash: Seq<char>, report: WriteReport, now: u128 },
}

impl GuardStep {
    /// When it happened.
    pub open spec fn time(self) -> u128 {
        match self {
            GuardStep::Local { now, .. } => now,
            GuardStep::Incoming { now, .. } => now,
            GuardStep::Write { now, .. } => now,
        }
    }

    /// It was a failed write of content with this hash.
    pub open spec fn clears(self, hash: Seq<char>) -> bool {
        self matches GuardStep::Write { hash: written, report, .. } && written == hash
            && report is Failed
    }
}

/// The guard after something happened.
pub open spec fn guard_stepped(guard: GuardView, step: GuardStep) -> GuardView {
    match step {
        GuardStep::Local { hash, paused, serialized, now } => match local_decision(
            guard,
            hash,
            paused,
            now,
        ) {
            LocalDecision::Paused => guard,
            LocalDecision::Echo => guard.purged(now),
            LocalDecision::Duplicate => guard.purged(now),
            LocalDecision::Send => if serialized {
                sent(guard, hash, now)
            } else {
                guard.purged(now)
            },
        },
        GuardStep::Incoming { message, paused, limit_bytes, now } => guard_after_incoming(
            guard,
            incoming_decision(guard, message, paused, limit_bytes, now),
            now,
        ),
        GuardStep::Write { hash, report, now } => guard_after_write(guard, hash, report, now),
    }
}

/// The guard after a number of things happened, one after the other.
pub open spec fn guard_run(guard: GuardView, steps: Seq<GuardStep>) -> GuardView
    decreases steps.len(),
{
    if steps.len() == 0 {
        guard
    } else {
        guard_stepped(guard_run(guard, steps.drop_last()), steps.last())
    }
}

/// Everything happened before a time.
pub open spec fn all_before(steps: Seq<GuardStep>, now: u128) -> bool {
    forall|i: int| 0 <= i < steps.len() ==> (#[trigger] steps[i]).time() <= now
}

/// No write of content with this hash failed.
pub open spec fn none_clears(steps: Seq<GuardStep>, hash: Seq<char>) -> bool {
    forall|i: int| 0 <= i < steps.len() ==> !(#[trigger] steps[i]).clears(hash)
}

/// Marking a hash keeps what was remembered and adds the hash, unless it is empty.
proof fn lemma_marked(guard: GuardView, marked_hash: Seq<char>, at: u128, hash: Seq<char>, now: u128)
    ensures
        guard::remembers(marked(guard, marked_hash, at).applied, hash, now) <==> {
            ||| guard::remembers(guard.applied, hash, now)
            ||| marked_hash.len() > 0 && marked_hash == hash && guard::is_fresh(at, now)
        },
{
    let one = seq![marked_hash];
    reveal_with_fuel(guard::new_marks, 2);
    assert(one.drop_last() =~= Seq::empty());
    if marked_hash.len() == 0 {
        assert(marked(guard, marked_hash, at).applied =~= guard.applied);
    } else {
        assert(marked(guard, marked_hash, at).applied =~= guard.applied.push((marked_hash, at)));
        guard::lemma_remembers_push(guard.applied, (marked_hash, at), hash, now);
    }
}

/// What was applied and is still remembered at a time stays remembered until
/// then, whatever happens before, unless writing it failed.
pub proof fn law_applied_stays_guarded(
    guard: GuardView,
    steps: Seq<GuardStep>,
    hash: Seq<char>,
    now: u128,
)
    requires
        guard::remembers(guard.applied, hash, now),
        all_before(steps, now),
        none_clears(steps, hash),
    ensures
        guard::remembers(guard_run(guard, steps).applied, hash, now),
    decreases steps.len(),
{
    if steps.len() > 0 {
        let rest = steps.drop_last();
        let step = steps.last();
        assert(steps[steps.len() - 1] == step);
        assert forall|i: int| 0 <= i < rest.len() implies (#[trigger] rest[i]).time() <= now
            && !rest[i].clears(hash) by {
            assert(rest[i] == steps[i]);
        }
        law_applied_stays_guarded(guard, rest, hash, now);
        let before = guard_run(guard, rest);
        guard::lemma_fresh_earlier(before.applied, hash, step.time(), now);
        match step {
            GuardStep::Local { .. } => {},
            GuardStep::Incoming { message, paused, limit_bytes, now: at } => {
                let decision = incoming_decision(before, message, paused, limit_bytes, at);
                if decision is Apply {
                    lemma_marked(before.purged(at), decision->Apply_0.content_hash, at, hash, now);
                }
            },
            GuardStep::Write { hash: written, report, now: at } => {
                guard::lemma_without(before.applied, written, hash, now);
                if let WriteReport::Written(Some(landed)) = report {
                    lemma_marked(before, landed@, at, hash, now);
                }
            },
        }
    }
}

/// What was sent and is still remembered at a time stays remembered until then,
/// whatever happens before.
pub proof fn law_sent_stays_guarded(
    guard: GuardView,
    steps: Seq<GuardStep>,
    hash: Seq<char>,
    now: u128,
)
    requires
        guard::remembers(guard.sent, hash, now),
        all_before(steps, now),
    ensures
        guard::remembers(guard_run(guard, steps).sent, hash, now),
    decreases steps.len(),
{
    if steps.len() > 0 {
        let rest = steps.drop_last();
        let step = steps.last();
        assert(steps[steps.len() - 1] == step);
        assert forall|i: int| 0 <= i < rest.len() implies (#[trigger] rest[i]).time() <= now by {
            assert(rest[i] == steps[i]);
        }
        law_sent_stays_guarded(guard, rest, hash, now);
        let before = guard_run(guard, rest);
        guard::lemma_fresh_earlier(before.sent, hash, step.time(), now);
        if let GuardStep::Local { hash: changed, now: at, .. } = step {
            guard::lemma_remembers_push(before.purged(at).sent, (changed, at), hash, now);
        }
    }
}

/// No echo: once content of a peer is to be written, a local change to the same
/// content within the guard window is taken for its echo and not sent back, and
/// another copy of the content from a peer is not applied again. This holds
/// whatever else happens in between, unless writing the content failed.
pub proof fn law_no_echo(
    guard: GuardView,
    message: (Seq<char>, Seq<u8>),
    limit_bytes: u64,
    applied_at: u128,
    steps: Seq<GuardStep>,
    now: u128,
)
    requires
        incoming_decision(guard, message, false, limit_bytes, applied_at) is Apply,
        incoming_decision(guard, message, false, limit_bytes, applied_at)->Apply_0.content_hash.len()
            > 0,
        now < applied_at + 2_000_000_000,
        all_before(steps, now),
        none_clears(
            steps,
            incoming_decision(guard, message, false, limit_bytes, applied_at)->Apply_0.content_hash,
        ),
    ensures
        ({
            let decision = incoming_decision(guard, message, false, limit_bytes, applied_at);
            let later = guard_run(guard_after_incoming(guard, decision, applied_at), steps);
            &&& local_decision(later, decision->Apply_0.content_hash, false, now) is Echo
            &&& incoming_decision(later, message, false, limit_bytes, now) is AlreadyApplied
        }),
{
    let decision = incoming_decision(guard, message, false, limit_bytes, applied_at);
    let hash = decision->Apply_0.content_hash;
    lemma_marked(guard.purged(applied_at), hash, applied_at, hash, now);
    law_applied_stays_guarded(
        guard_after_incoming(guard, decision, applied_at),
        steps,
        hash,
        now,
    );
}

/// No echo of what landed: where the clipboard holds something else after a write
/// than what was written (as an image that was encoded again), a local change to
/// that within the guard window is taken for an echo, too.
pub proof fn law_no_echo_of_landed(
    guard: GuardView,
    hash: Seq<char>,
    landed: String,
    written_at: u128,
    steps: Seq<GuardStep>,
    now: u128,
)
    requires
        landed@ != hash,
        landed@.len() > 0,
        now < written_at + 2_000_000_000,
        all_before(steps, now),
        none_clears(steps, landed@),
    ensures
        local_decision(
            guard_run(
                guard_after_write(guard, hash, WriteReport::Written(Some(landed)), written_at),
                steps,
            ),
            landed@,
            false,
            now,
        ) is Echo,
{
    lemma_marked(guard, landed@, written_at, landed@, now);
    law_applied_stays_guarded(
        guard_after_write(guard, hash, WriteReport::Written(Some(landed)), written_at),
        steps,
        landed@,
        now,
    );
}

/// No second sending: content that was sent is not sent again within the guard
/// window, whatever else happens in between.
pub proof fn law_no_resend(
    guard: GuardView,
    hash: Seq<char>,
    sent_at: u128,
    steps: Seq<GuardStep>,
    now: u128,
)
    requires
        now < sent_at + 2_000_000_000,
        all_before(steps, now),
    ensures
        !(local_decision(guard_run(sent(guard, hash, sent_at), steps), hash, false, now) is Send),
{
    guard::lemma_remembers_push(guard.purged(sent_at).sent, (hash, sent_at), hash, now);
    law_sent_stays_guarded(sent(guard, hash, sent_at), steps, hash, now);
}

/// The guard lasts for a window only: content whose marks are all as old as the
/// window is sent, unless sync is paused.
pub proof fn law_forgotten_after_window(guard: GuardView, hash: Seq<char>, now: u128)
    requires
        forall|i: int|
            0 <= i < guard.applied.len() && (#[trigger] guard.applied[i]).0 == hash ==> now
                - guard.applied[i].1 >= 2_000_000_000,
        forall|i: int|
            0 <= i < guard.sent.len() && (#[trigger] guard.sent[i]).0 == hash ==> now
                - guard.sent[i].1 >= 2_000_000_000,
    ensures
        local_decision(guard, hash, false, now) is Send,
{
}

/// Content whose writing failed is not guarded: another copy of it is applied, and
/// a local change to it is no echo.
pub proof fn law_failed_write_unguards(guard: GuardView, hash: Seq<char>, at: u128, now: u128)
    ensures
        ({
            let after = guard_after_write(guard, hash, WriteReport::Failed, at);
            &&& !guard::remembers(after.applied, hash, now)
            &&& !(local_decision(after, hash, false, now) is Echo)
        }),
{
    guard::lemma_without(guard.applied, hash, hash, now);
}

/// While sync is paused, neither a local change nor a message from a peer leads to
/// anything or is remembered.
pub proof fn law_pause_changes_nothing(
    guard: GuardView,
    hash: Seq<char>,
    serialized: bool,
    message: (Seq<char>, Seq<u8>),
    limit_bytes: u64,
    now: u128,
)
    ensures
        local_decision(guard, hash, true, now) is Paused,
        guard_stepped(guard, GuardStep::Local { hash, paused: true, serialized, now }) == guard,
        !(incoming_decision(guard, message, true, limit_bytes, now) is Apply),
        guard_stepped(guard, GuardStep::Incoming { message, paused: true, limit_bytes, now })
            == guard,
{
}

/// A clipboard item crosses: of a frame that carries a broadcast of an item, the
/// receiver with the same key applies the same item, unless sync is paused there,
/// the item is over the limit there or was applied there a moment ago.
pub proof fn law_item_crosses(
    key: Seq<u8>,
    data: Seq<u8>,
    payload: Seq<u8>,
    item: codec::Item,
    guard: GuardView,
    limit_bytes: u64,
    now: u128,
)
    requires
        pairing::received(key, data) == Ok::<_, Seq<char>>(("clipboard"@, payload)),
        clipboard::unpacked(payload) == Ok::<_, Seq<char>>(item),
        item.payload_bytes() <= limit_bytes,
        !guard::remembers(guard.applied, item.content_hash, now),
    ensures
        incoming_decision(guard, pairing::received(key, data)->Ok_0, false, limit_bytes, now)
            == IncomingView::Apply(item),
{
    reveal_strlit("clipboard");
    reveal_strlit("hello");
    reveal_strlit("ping");
    assert("clipboard"@.len() != "hello"@.len());
    assert("clipboard"@.len() != "ping"@.len());
}

/// Copy on one machine, paste on the other: of a frame that carries a broadcast of
/// what a clipboard holds, the receiver puts the text or the image that the
/// sender's priority picked on its own clipboard, as it was.
pub proof fn law_copy_arrives(
    text: Option<Seq<char>>,
    image: Option<clipboard::ImageView>,
    priority: ClipboardPriority,
    key: Seq<u8>,
    data: Seq<u8>,
    payload: Seq<u8>,
    guard: GuardView,
    limit_bytes: u64,
    now: u128,
)
    requires
        image matches Some(shown) ==> 0 <= shown.width <= u32::MAX && 0 <= shown.height <= u32::MAX,
        pairing::received(key, data) == Ok::<_, Seq<char>>(("clipboard"@, payload)),
        clipboard::unpacked(payload) == Ok::<_, Seq<char>>(
            clipboard::clipboard_item(text, image, priority),
        ),
        clipboard::clipboard_item(text, image, priority).payload_bytes() <= limit_bytes,
        !guard::remembers(
            guard.applied,
            clipboard::clipboard_item(text, image, priority).content_hash,
            now,
        ),
    ensures
        ({
            let decision = incoming_decision(
                guard,
                pairing::received(key, data)->Ok_0,
                false,
                limit_bytes,
                now,
            );
            let choice = clipboard::selected(text, clipboard::container_of(image), priority);
            &&& decision is Apply
            &&& clipboard::planned(decision->Apply_0) == Ok::<_, Seq<char>>(
                if choice.1 is Some {
                    clipboard::WriteView::Image(image.unwrap())
                } else if choice.0 is Some {
                    clipboard::WriteView::Text(text.unwrap())
                } else {
                    clipboard::WriteView::Nothing
                },
            )
        }),
{
    law_item_crosses(
        key,
        data,
        payload,
        clipboard::clipboard_item(text, image, priority),
        guard,
        limit_bytes,
        now,
    );
    clipboard::law_item_lands(text, image, priority);
}

/// A local change is held back just while sync is paused, while content with its
/// hash was applied less than two seconds ago, or while such content was sent less
/// than two seconds ago, looked at in this order. Any other is sent.
pub proof fn law_local_decision(guard: GuardView, hash: Seq<char>, paused: bool, now: u128)
    ensures
        ({
            let decision = local_decision(guard, hash, paused, now);
            let applied = exists|i: int|
                0 <= i < guard.applied.len() && (#[trigger] guard.applied[i]).0 == hash && now
                    < guard.applied[i].1 + 2_000_000_000;
            let repeated = exists|i: int|
                0 <= i < guard.sent.len() && (#[trigger] guard.sent[i]).0 == hash && now
                    < guard.sent[i].1 + 2_000_000_000;
            &&& decision is Paused <==> paused
            &&& decision is Echo <==> !paused && applied
            &&& decision is Duplicate <==> !paused && !applied && repeated
            &&& decision is Send <==> !paused && !applied && !repeated
        }),
{
    guard::law_remembers(guard.applied, hash, now);
    guard::law_remembers(guard.sent, hash, now);
}

/// Sending content adds a mark of it to what was sent, and touches nothing else but
/// what is two seconds old.
pub proof fn law_sending_is_remembered(guard: GuardView, hash: Seq<char>, now: u128)
    ensures
        sent(guard, hash, now).applied == guard.applied.filter(
            |mark: (Seq<char>, u128)| now < mark.1 + 2_000_000_000,
        ),
        sent(guard, hash, now).sent == guard.sent.filter(
            |mark: (Seq<char>, u128)| now < mark.1 + 2_000_000_000,
        ).push((hash, now)),
        sent(guard, hash, now).clock == guard.clock,
{
    guard::law_purge_keeps_two_seconds(guard, now);
}

/// What a local change leads to, whatever the size and the kind of its content: it
/// is held back just where sync is paused or its hash was applied or sent less than
/// two seconds ago. Otherwise the message carries all four fields and the hash is
/// remembered as sent, or there was no memory to serialize it and nothing is.
pub proof fn law_local_outcome(
    before: EngineView,
    after: EngineView,
    item: codec::Item,
    paused: bool,
    now: u128,
    outcome: LocalOutcome,
)
    requires
        local_result(before, after, item, paused, now, outcome),
    ensures
        ({
            let guard = before.guard;
            let hash = item.content_hash;
            let applied = exists|i: int|
                0 <= i < guard.applied.len() && (#[trigger] guard.applied[i]).0 == hash && now
                    < guard.applied[i].1 + 2_000_000_000;
            let repeated = exists|i: int|
                0 <= i < guard.sent.len() && (#[trigger] guard.sent[i]).0 == hash && now
                    < guard.sent[i].1 + 2_000_000_000;
            let young = |mark: (Seq<char>, u128)| now < mark.1 + 2_000_000_000;
            &&& outcome is Paused <==> paused
            &&& outcome is Echo <==> !paused && applied
            &&& outcome is Duplicate <==> !paused && !applied && repeated
            &&& (outcome is Broadcast || outcome is Unserializable) <==> !paused && !applied
                && !repeated
            &&& outcome matches LocalOutcome::Broadcast(message) ==> {
                &&& message.msg_type@ == "clipboard"@
                &&& message.payload@ == codec::packed_item(
                    item.content_type,
                    item.text,
                    item.image_data,
                    item.content_hash,
                )
                &&& after.guard.sent == guard.sent.filter(young).push((hash, now))
            }
            &&& paused ==> after == before
            &&& !paused ==> after.guard.applied == guard.applied.filter(young)
            &&& !paused && !(outcome is Broadcast) ==> after.guard.sent == guard.sent.filter(young)
            &&& after.guard.clock == guard.clock
            &&& after.known == before.known
            &&& after.connected == before.connected
        }),
{
    law_local_decision(before.guard, item.content_hash, paused, now);
    law_sending_is_remembered(before.guard, item.content_hash, now);
    guard::law_purge_keeps_two_seconds(before.guard, now);
}

/// What a message from a peer leads to. Only clipboard messages count; while sync
/// is paused they lead to nothing; otherwise one that can be read is applied as it
/// is, unless its text and image together have more bytes than the limit or content
/// with its hash was applied less than two seconds ago.
pub proof fn law_incoming_decision(
    guard: GuardView,
    message: (Seq<char>, Seq<u8>),
    paused: bool,
    limit_bytes: u64,
    now: u128,
)
    ensures
        ({
            let decision = incoming_decision(guard, message, paused, limit_bytes, now);
            &&& decision is Ignored <==> message.0 != "clipboard"@
            &&& decision == IncomingView::Ignored(IgnoredKind::Hello) <==> message.0 == "hello"@
            &&& decision == IncomingView::Ignored(IgnoredKind::Ping) <==> message.0 == "ping"@
            &&& decision is Paused <==> message.0 == "clipboard"@ && paused
            &&& message.0 == "clipboard"@ && !paused ==> match codec::unpacked_item(message.1) {
                Err(text) => decision == IncomingView::Malformed(text),
                Ok((content_type, text, image_data, content_hash)) => {
                    let text_size: nat = match text {
                        Some(t) => encode_utf8(t).len(),
                        None => 0,
                    };
                    let image_size: nat = match image_data {
                        Some(d) => d.len(),
                        None => 0,
                    };
                    let applied = exists|i: int|
                        0 <= i < guard.applied.len() && (#[trigger] guard.applied[i]).0
                            == content_hash && now < guard.applied[i].1 + 2_000_000_000;
                    &&& text_size + image_size > limit_bytes ==> decision == IncomingView::TooLarge(
                        text_size + image_size,
                    )
                    &&& text_size + image_size <= limit_bytes && applied ==> decision
                        is AlreadyApplied
                    &&& text_size + image_size <= limit_bytes && !applied ==> decision
                        == IncomingView::Apply(
                        codec::Item { content_type, text, image_data, content_hash },
                    )
                },
            }
        }),
{
    reveal_strlit("clipboard");
    reveal_strlit("hello");
    reveal_strlit("ping");
    assert("clipboard"@.len() == 9 && "hello"@.len() == 5 && "ping"@.len() == 4);
    if let Ok(item) = codec::unpacked_item(message.1) {
        guard::law_remembers(guard.applied, item.3, now);
    }
}

/// Content that is to be written is marked with its hash, unless that is empty;
/// other messages mark nothing. What is sent stays as it was, but for what is two
/// seconds old.
pub proof fn law_applying_is_remembered(guard: GuardView, decision: IncomingView, now: u128)
    ensures
        ({
            let after = guard_after_incoming(guard, decision, now);
            let young = |mark: (Seq<char>, u128)| now < mark.1 + 2_000_000_000;
            &&& decision matches IncomingView::Apply(item) ==> {
                &&& item.content_hash.len() > 0 ==> after.applied == guard.applied.filter(
                    young,
                ).push((item.content_hash, now))
                &&& item.content_hash.len() == 0 ==> after.applied == guard.applied.filter(young)
                &&& after.sent == guard.sent.filter(young)
            }
            &&& decision is AlreadyApplied ==> {
                &&& after.applied == guard.applied.filter(young)
                &&& after.sent == guard.sent.filter(young)
            }
            &&& !(decision is Apply) && !(decision is AlreadyApplied) ==> after == guard
            &&& after.clock == guard.clock
        }),
{
    guard::law_purge_keeps_two_seconds(guard, now);
    if let IncomingView::Apply(item) = decision {
        lemma_one_mark(guard.purged(now), item.content_hash, now);
    }
}

/// Marking adds one mark at the end, or none for an empty hash.
proof fn lemma_one_mark(guard: GuardView, hash: Seq<char>, now: u128)
    ensures
        hash.len() > 0 ==> marked(guard, hash, now).applied == guard.applied.push((hash, now)),
        hash.len() == 0 ==> marked(guard, hash, now).applied == guard.applied,
{
    reveal_with_fuel(guard::new_marks, 2);
    assert(seq![hash].drop_last() =~= Seq::empty());
    if hash.len() > 0 {
        assert(marked(guard, hash, now).applied =~= guard.applied.push((hash, now)));
    } else {
        assert(marked(guard, hash, now).applied =~= guard.applied);
    }
}

/// After a write, what landed is marked under its own hash where that is another
/// than the hash received; after a failed write every mark of the hash received is
/// gone. Nothing else changes.
pub proof fn law_write_is_remembered(
    guard: GuardView,
    hash: Seq<char>,
    report: WriteReport,
    now: u128,
)
    ensures
        ({
            let after = guard_after_write(guard, hash, report, now);
            &&& report is Failed ==> forall|mark: (Seq<char>, u128)| #[trigger]
                after.applied.contains(mark) <==> guard.applied.contains(mark) && mark.0 != hash
            &&& report matches WriteReport::Written(Some(landed)) ==> {
                &&& landed@ != hash && landed@.len() > 0 ==> after.applied == guard.applied.push(
                    (landed@, now),
                )
                &&& landed@ == hash || landed@.len() == 0 ==> after.applied == guard.applied
            }
            &&& report matches WriteReport::Written(None) ==> after.applied == guard.applied
            &&& after.sent == guard.sent
            &&& after.clock == guard.clock
        }),
{
    guard::law_clearing_drops_one_hash(guard.applied, hash, (hash, now));
    if let WriteReport::Written(Some(landed)) = report {
        lemma_one_mark(guard, landed@, now);
    }
}

/// No echo, from the wire on: of every readable clipboard message within the limit
/// and with a hash that was not applied in the last two seconds, the content is
/// applied; and at every time less than two seconds later a local change with its
/// hash is an echo, and the same message is not applied again.
pub proof fn law_applied_for_two_seconds(
    guard: GuardView,
    content_type: Seq<char>,
    text: Option<Seq<char>>,
    image_data: Option<Seq<u8>>,
    hash: Seq<char>,
    payload: Seq<u8>,
    limit_bytes: u64,
    applied_at: u128,
    now: u128,
)
    requires
        codec::unpacked_item(payload) == Ok::<_, Seq<char>>((content_type, text, image_data, hash)),
        hash.len() > 0,
        (match text {
            Some(t) => encode_utf8(t).len(),
            None => 0,
        }) + (match image_data {
            Some(d) => d.len(),
            None => 0,
        }) <= limit_bytes,
        forall|i: int|
            0 <= i < guard.applied.len() && (#[trigger] guard.applied[i]).0 == hash ==> applied_at
                >= guard.applied[i].1 + 2_000_000_000,
        applied_at <= now < applied_at + 2_000_000_000,
    ensures
        ({
            let message = ("clipboard"@, payload);
            let decision = incoming_decision(guard, message, false, limit_bytes, applied_at);
            let after = guard_after_incoming(guard, decision, applied_at);
            &&& decision == IncomingView::Apply(
                codec::Item { content_type, text, image_data, content_hash: hash },
            )
            &&& local_decision(after, hash, false, now) is Echo
            &&& incoming_decision(after, message, false, limit_bytes, now) is AlreadyApplied
        }),
{
    let message = ("clipboard"@, payload);
    let decision = incoming_decision(guard, message, false, limit_bytes, applied_at);
    law_incoming_decision(guard, message, false, limit_bytes, applied_at);
    let after = guard_after_incoming(guard, decision, applied_at);
    law_applying_is_remembered(guard, decision, applied_at);
    let last = after.applied.len() - 1;
    assert(after.applied[last] == (hash, applied_at));
    law_local_decision(after, hash, false, now);
    law_incoming_decision(after, message, false, limit_bytes, now);
}

/// No second sending: a local change that is sent is not sent again at any time
/// less than two seconds later, and is sent again from then on, if nothing else
/// happened in between.
pub proof fn law_sent_once_in_two_seconds(
    guard: GuardView,
    hash: Seq<char>,
    sent_at: u128,
    now: u128,
)
    requires
        local_decision(guard, hash, false, sent_at) is Send,
        sent_at <= now,
    ensures
        local_decision(sent(guard, hash, sent_at), hash, false, now) is Send <==> now >= sent_at
            + 2_000_000_000,
{
    law_local_decision(guard, hash, false, sent_at);
    let after = sent(guard, hash, sent_at);
    law_sending_is_remembered(guard, hash, sent_at);
    law_local_decision(after, hash, false, now);
    let last = after.sent.len() - 1;
    assert(after.sent[last] == (hash, sent_at));
    let young = |mark: (Seq<char>, u128)| sent_at < mark.1 + 2_000_000_000;
    assert forall|i: int| 0 <= i < last implies (#[trigger] after.sent[i]).0 != hash by {
        assert(after.sent[i] == guard.sent.filter(young)[i]);
        guard::lemma_filter_origin(guard.sent, young, i);
    }
    assert forall|i: int| 0 <= i < after.applied.len() implies (#[trigger] after.applied[i]).0
        != hash by {
        guard::lemma_filter_origin(guard.applied, young, i);
    }
}

/// A short ID is the beginning of the ID: all of it up to eight characters, and
/// eight characters of a longer one.
pub proof fn law_short_form(id: Seq<char>)
    ensures
        short_form(id).is_prefix_of(id),
        id.len() <= 8 ==> short_form(id).len() == id.len(),
        id.len() > 8 ==> short_form(id).len() == 8,
{
}

/// A connected peer is listed under its ID, the address of the connection and the
/// time it was seen; under the name and the port that it was discovered with, if it
/// was, and otherwise under the beginning of its ID and the port of the connection.
pub proof fn law_connected_entry(
    known: Map<Seq<char>, DiscoveredPeer>,
    peer_id: Seq<char>,
    ip: Seq<char>,
    port: u16,
    seen_at: u64,
)
    ensures
        ({
            let entry = connected_entry(known, peer_id, ip, port, seen_at);
            &&& entry.id == peer_id
            &&& entry.address == ip
            &&& entry.last_seen == seen_at
            &&& known.dom().contains(peer_id) ==> entry.name == known[peer_id].name@ && entry.port
                == known[peer_id].port
            &&& !known.dom().contains(peer_id) ==> entry.port == port && entry.name.is_prefix_of(
                peer_id,
            ) && entry.name.len() == (if peer_id.len() < 8 {
                peer_id.len()
            } else {
                8
            })
            &&& entry.name == listed_as(known, peer_id, port).0
        }),
{
    law_short_form(peer_id);
}

/// Copy on one machine, paste on the other, from what the clipboard holds to what
/// is written: of a frame that carries the four fields of a clipboard item, the
/// receiver writes the image or the text that the sender's priority picks of what
/// was there, as it was.
pub proof fn law_picked_content_arrives(
    text: Option<Seq<char>>,
    image: Option<clipboard::ImageView>,
    priority: ClipboardPriority,
    key: Seq<u8>,
    data: Seq<u8>,
    plaintext: Seq<u8>,
    payload: Seq<u8>,
    guard: GuardView,
    limit_bytes: u64,
    now: u128,
)
    requires
        image matches Some(shown) ==> 0 <= shown.width <= u32::MAX && 0 <= shown.height <= u32::MAX,
        28 <= data.len() <= 274_877_906_844,
        crypto::opened(key, data.subrange(0, 12), data.subrange(12, data.len() as int)) == Some(
            plaintext,
        ),
        codec::unpacked_message(plaintext) == Ok::<_, Seq<char>>(("clipboard"@, payload)),
        ({
            let item = clipboard::clipboard_item(text, image, priority);
            &&& codec::unpacked_item(payload) == Ok::<_, Seq<char>>(
                (item.content_type, item.text, item.image_data, item.content_hash),
            )
            &&& item.payload_bytes() <= limit_bytes
            &&& forall|i: int|
                0 <= i < guard.applied.len() && (#[trigger] guard.applied[i]).0
                    == item.content_hash ==> now >= guard.applied[i].1 + 2_000_000_000
        }),
    ensures
        ({
            let received = pairing::received(key, data);
            let decision = incoming_decision(guard, received->Ok_0, false, limit_bytes, now);
            let shown = image is Some && image.unwrap().pixels.len() > 0;
            let picks_image = shown && match priority {
                ClipboardPriority::ImageFirst => true,
                ClipboardPriority::TextFirst => text is None,
                ClipboardPriority::TextOnly => false,
                ClipboardPriority::ImageOnly => true,
            };
            let picks_text = text is Some && match priority {
                ClipboardPriority::ImageFirst => !shown,
                ClipboardPriority::TextFirst => true,
                ClipboardPriority::TextOnly => true,
                ClipboardPriority::ImageOnly => false,
            };
            &&& received is Ok
            &&& decision is Apply
            &&& picks_image ==> clipboard::planned(decision->Apply_0) == Ok::<_, Seq<char>>(
                clipboard::WriteView::Image(image.unwrap()),
            )
            &&& picks_text ==> clipboard::planned(decision->Apply_0) == Ok::<_, Seq<char>>(
                clipboard::WriteView::Text(text.unwrap()),
            )
        }),
{
    pairing::law_received(key, data);
    law_incoming_decision(guard, ("clipboard"@, payload), false, limit_bytes, now);
    clipboard::law_payload_bytes(clipboard::clipboard_item(text, image, priority));
    clipboard::law_what_lands(text, image, priority);
}

/// What a message leads to stands for the same in mathematical values.
pub proof fn law_incoming_view(outcome: IncomingOutcome)
    ensures
        outcome matches IncomingOutcome::Ignored(kind) ==> outcome@ == IncomingView::Ignored(kind),
        outcome is Paused ==> outcome@ is Paused,
        outcome matches IncomingOutcome::Malformed(text) ==> outcome@ == IncomingView::Malformed(
            text@,
        ),
        outcome matches IncomingOutcome::TooLarge(size) ==> outcome@ == IncomingView::TooLarge(
            size as nat,
        ),
        outcome is AlreadyApplied ==> outcome@ is AlreadyApplied,
        outcome matches IncomingOutcome::Apply(content) ==> outcome@ == IncomingView::Apply(
            content@,
        ),
{
}

/// Every peer whose connection comes up is connected and listed as paired, with its
/// address and the time, under the name it was discovered with, if it was; everyone
/// who was listed stays listed; the settings are saved just if they changed; and the
/// peer is announced under its ID. A connection that goes down only takes its peer off
/// the connected ones. The other settings, the guard and the known peers stay.
pub proof fn law_event_outcome(
    before: EngineView,
    after: EngineView,
    config_before: AppConfigView,
    config_after: AppConfigView,
    event: TransportEvent,
    seen_at: u64,
    outcome: EventOutcome,
    other: Seq<char>,
)
    requires
        event_result(before, after, config_before, config_after, event, seen_at, outcome),
    ensures
        after.guard == before.guard,
        after.known == before.known,
        outcome.connected == after.connected.len(),
        outcome.paused == config_before.sync_paused,
        outcome.save <==> config_after != config_before,
        config_after == (AppConfigView {
            paired_peers: config_after.paired_peers,
            ..config_before
        }),
        event matches TransportEvent::Connected { peer_id, ip, port } ==> {
            &&& after.connected.contains(peer_id@)
            &&& other != peer_id@ ==> (after.connected.contains(other)
                <==> before.connected.contains(other))
            &&& exists|i: int| {
                &&& 0 <= i < config_after.paired_peers.len()
                &&& (#[trigger] config_after.paired_peers[i]).id == peer_id@
                &&& config_after.paired_peers[i].address == ip@
                &&& config_after.paired_peers[i].last_seen == seen_at
                &&& before.known.dom().contains(peer_id@) ==> config_after.paired_peers[i].name
                    == before.known[peer_id@].name@ && config_after.paired_peers[i].port
                    == before.known[peer_id@].port
                &&& !before.known.dom().contains(peer_id@) ==> config_after.paired_peers[i].port
                    == port && config_after.paired_peers[i].name.is_prefix_of(peer_id@)
            }
            &&& forall|j: int|
                0 <= j < config_before.paired_peers.len() && config_before.paired_peers[j].id
                    != peer_id@ ==> config_after.paired_peers[j]
                    == #[trigger] config_before.paired_peers[j]
            &&& outcome.notice matches PeerNotice::Joined { id, name } && id@ == peer_id@
        },
        event matches TransportEvent::Disconnected { peer_id } ==> {
            &&& !after.connected.contains(peer_id@)
            &&& other != peer_id@ ==> (after.connected.contains(other)
                <==> before.connected.contains(other))
            &&& config_after == config_before
            &&& outcome.notice matches PeerNotice::Left { id } && id@ == peer_id@
        },
{
    match event {
        TransportEvent::Connected { peer_id, ip, port } => {
            let entry = connected_entry(before.known, peer_id@, ip@, port, seen_at);
            let peers = config_before.paired_peers;
            law_connected_entry(before.known, peer_id@, ip@, port, seen_at);
            config::lemma_position(peers, peer_id@);
            config::law_upsert_changes(peers, entry);
            config::law_upsert_lists(peers, entry, peer_id@);
            let i = config::position(peers, peer_id@);
            assert(config_after.paired_peers[i] == entry);
        },
        TransportEvent::Disconnected { peer_id } => {},
    }
}

} // verus!
