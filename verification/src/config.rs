//! Settings, the list of paired peers, and what the window may change of them.
use vstd::prelude::*;
use vstd::string::*;

use crate::codec;
use crate::pairing;
use crate::random;
use crate::text;

pub use crate::clock::now_unix;

verus! {

/// Which clipboard format to prefer.
#[derive(Debug, Clone, Copy, PartialEq, Eq, Structural)]
pub enum ClipboardPriority {
    /// Prefer image, fall back to text.
    ImageFirst,
    /// Prefer text, fall back to image.
    TextFirst,
    /// Only sync text.
    TextOnly,
    /// Only sync images.
    ImageOnly,
}

impl Default for ClipboardPriority {
    fn default() -> (priority: Self)
        ensures
            priority == ClipboardPriority::ImageFirst,
    {
        ClipboardPriority::ImageFirst
    }
}

/// A paired peer.
#[derive(Debug)]
pub struct PeerInfo {
    /// Human-readable name.
    pub name: String,
    /// Unique peer ID.
    pub id: String,
    /// IP address from the last connection.
    pub address: String,
    /// Port from the last connection.
    pub port: u16,
    /// When this peer was last seen (Unix timestamp).
    pub last_seen: u64,
}

/// A paired peer, as a mathematical value.
pub struct PeerInfoView {
    pub name: Seq<char>,
    pub id: Seq<char>,
    pub address: Seq<char>,
    pub port: u16,
    pub last_seen: u64,
}

impl View for PeerInfo {
    type V = PeerInfoView;

    open spec fn view(&self) -> PeerInfoView {
        PeerInfoView {
            name: self.name@,
            id: self.id@,
            address: self.address@,
            port: self.port,
            last_seen: self.last_seen,
        }
    }
}

impl Clone for PeerInfo {
    fn clone(&self) -> (peer: Self)
        ensures
            peer@ == self@,
    {
        PeerInfo {
            name: self.name.clone(),
            id: self.id.clone(),
            address: self.address.clone(),
            port: self.port,
            last_seen: self.last_seen,
        }
    }
}

/// A list of peers as mathematical values.
pub open spec fn peers_view(peers: Seq<PeerInfo>) -> Seq<PeerInfoView> {
    Seq::new(peers.len(), |i: int| peers[i]@)
}

/// The index of the first peer with an ID, or the number of peers.
pub open spec fn position(peers: Seq<PeerInfoView>, id: Seq<char>) -> int
    decreases peers.len(),
{
    if peers.len() == 0 {
        0
    } else if peers[0].id == id {
        0
    } else {
        1 + position(peers.drop_first(), id)
    }
}

/// Whether some peer has an ID.
pub open spec fn is_listed(peers: Seq<PeerInfoView>, id: Seq<char>) -> bool {
    exists|i: int| 0 <= i < peers.len() && (#[trigger] peers[i]).id == id
}

/// The first index with an ID is the one that no earlier peer has.
pub proof fn lemma_position(peers: Seq<PeerInfoView>, id: Seq<char>)
    ensures
        0 <= position(peers, id) <= peers.len(),
        position(peers, id) < peers.len() ==> peers[position(peers, id)].id == id,
        forall|i: int| 0 <= i < position(peers, id) ==> (#[trigger] peers[i]).id != id,
        is_listed(peers, id) <==> position(peers, id) < peers.len(),
    decreases peers.len(),
{
    if peers.len() > 0 && peers[0].id != id {
        let rest = peers.drop_first();
        lemma_position(rest, id);
        assert forall|i: int| 0 <= i < position(peers, id) implies (#[trigger] peers[i]).id != id by {
            if i > 0 {
                assert(rest[i - 1] == peers[i]);
            }
        }
        if is_listed(peers, id) {
            let i = choose|i: int| 0 <= i < peers.len() && (#[trigger] peers[i]).id == id;
            assert(rest[i - 1].id == id);
        }
    }
}

/// Finds the first peer with an ID.
pub(crate) fn peer_index(peers: &[PeerInfo], id: &str) -> (index: usize)
    ensures
        index == position(peers_view(peers@), id@),
        index <= peers@.len(),
{
    let ghost all = peers_view(peers@);
    proof {
        lemma_position(all, id@);
    }
    let mut i: usize = 0;
    while i < peers.len()
        invariant
            i <= peers@.len(),
            all == peers_view(peers@),
            i <= position(all, id@) <= all.len(),
            position(all, id@) < all.len() ==> all[position(all, id@)].id == id@,
            forall|j: int| 0 <= j < position(all, id@) ==> (#[trigger] all[j]).id != id@,
        decreases peers@.len() - i,
    {
        if text::same_text(peers[i].id.as_str(), id) {
            assert(all[i as int].id == id@);
            return i;
        }
        assert(all[i as int].id != id@);
        i += 1;
    }
    i
}

/// The settings.
#[derive(Debug)]
pub struct AppConfig {
    /// Maximum payload size in megabytes.
    pub payload_limit_mb: u32,
    /// Time between two looks at the clipboard, in milliseconds.
    pub debounce_ms: u64,
    /// Clipboard format priority.
    pub clipboard_priority: ClipboardPriority,
    /// Whether sync is paused.
    pub sync_paused: bool,
    /// The paired peers.
    pub paired_peers: Vec<PeerInfo>,
    /// The ID of this instance.
    pub instance_id: String,
    /// The pairing code, once there is one. The key is derived from it.
    pub pairing_code: Option<String>,
}

/// The settings, as a mathematical value.
pub struct AppConfigView {
    pub payload_limit_mb: u32,
    pub debounce_ms: u64,
    pub clipboard_priority: ClipboardPriority,
    pub sync_paused: bool,
    pub paired_peers: Seq<PeerInfoView>,
    pub instance_id: Seq<char>,
    pub pairing_code: Option<Seq<char>>,
}

impl View for AppConfig {
    type V = AppConfigView;

    open spec fn view(&self) -> AppConfigView {
        AppConfigView {
            payload_limit_mb: self.payload_limit_mb,
            debounce_ms: self.debounce_ms,
            clipboard_priority: self.clipboard_priority,
            sync_paused: self.sync_paused,
            paired_peers: peers_view(self.paired_peers@),
            instance_id: self.instance_id@,
            pairing_code: codec::text_view(self.pairing_code),
        }
    }
}

/// A copy of a list of peers.
fn copied_peers(peers: &[PeerInfo]) -> (copy: Vec<PeerInfo>)
    ensures
        peers_view(copy@) == peers_view(peers@),
{
    let mut copy: Vec<PeerInfo> = Vec::new();
    let mut i: usize = 0;
    while i < peers.len()
        invariant
            i <= peers@.len(),
            copy@.len() == i,
            forall|j: int| 0 <= j < i ==> (#[trigger] copy@[j])@ == peers@[j]@,
        decreases peers@.len() - i,
    {
        copy.push(peers[i].clone());
        i += 1;
    }
    proof {
        assert(peers_view(copy@) =~= peers_view(peers@));
    }
    copy
}

impl Clone for AppConfig {
    fn clone(&self) -> (config: Self)
        ensures
            config@ == self@,
    {
        AppConfig {
            payload_limit_mb: self.payload_limit_mb,
            debounce_ms: self.debounce_ms,
            clipboard_priority: self.clipboard_priority,
            sync_paused: self.sync_paused,
            paired_peers: copied_peers(self.paired_peers.as_slice()),
            instance_id: self.instance_id.clone(),
            pairing_code: self.pairing_code.clone(),
        }
    }
}

/// The settings of a first start: everything but the random instance ID is fixed.
pub open spec fn is_first_start(config: AppConfigView) -> bool {
    &&& config.payload_limit_mb == 25
    &&& config.debounce_ms == 200
    &&& config.clipboard_priority == ClipboardPriority::ImageFirst
    &&& !config.sync_paused
    &&& config.paired_peers == Seq::<PeerInfoView>::empty()
    &&& random::is_uuid_v4(config.instance_id)
    &&& config.pairing_code is None
}

impl Default for AppConfig {
    fn default() -> (config: Self)
        ensures
            is_first_start(config@),
    {
        let config = AppConfig {
            payload_limit_mb: 25,
            debounce_ms: 200,
            clipboard_priority: ClipboardPriority::default(),
            sync_paused: false,
            paired_peers: Vec::new(),
            instance_id: random::new_uuid_text(),
            pairing_code: None,
        };
        proof {
            assert(config@.paired_peers =~= Seq::empty());
        }
        config
    }
}

/// What was found in place of the settings file.
pub enum ConfigFile {
    /// There is no directory for settings on this machine.
    NoDirectory,
    /// The file is not there or cannot be read.
    Missing,
    /// The file does not hold settings.
    Unparsable,
    /// The settings that the file holds.
    Parsed(AppConfig),
}

/// The settings to start with.
pub struct LoadedConfig {
    pub config: AppConfig,
    /// Whether to write them to the settings file.
    pub save: bool,
}

/// The settings that are found, and whether to save them: those of a file, with
/// another ID in place of an empty one, and fresh ones else.
pub open spec fn settled(found: ConfigFile, config: AppConfigView, save: bool) -> bool {
    match found {
        ConfigFile::Parsed(parsed) => {
            &&& !save
            &&& config == (AppConfigView { instance_id: config.instance_id, ..parsed@ })
            &&& if parsed@.instance_id.len() == 0 {
                random::is_uuid_v4(config.instance_id)
            } else {
                config.instance_id == parsed@.instance_id
            }
        },
        ConfigFile::NoDirectory => !save && is_first_start(config),
        ConfigFile::Missing => save && is_first_start(config),
        ConfigFile::Unparsable => save && is_first_start(config),
    }
}

/// Settles the settings to start with: those of the file, with an instance ID
/// made up if it is empty, or fresh ones, which are saved if there is a place for
/// them.
pub fn settle_config(found: ConfigFile) -> (loaded: LoadedConfig)
    ensures
        loaded.save <==> (found is Missing || found is Unparsable),
        loaded.config@.instance_id.len() > 0,
        settled(found, loaded.config@, loaded.save),
        match found {
            ConfigFile::Parsed(config) => {
                &&& config@.instance_id.len() > 0 ==> loaded.config@ == config@
                &&& config@.instance_id.len() == 0 ==> {
                    &&& random::is_uuid_v4(loaded.config@.instance_id)
                    &&& loaded.config@ == (AppConfigView {
                        instance_id: loaded.config@.instance_id,
                        ..config@
                    })
                }
            },
            _ => is_first_start(loaded.config@),
        },
{
    match found {
        ConfigFile::Parsed(config) => {
            let mut config = config;
            if config.instance_id.as_str().is_empty() {
                config.instance_id = random::new_uuid_text();
            }
            LoadedConfig { config, save: false }
        },
        ConfigFile::NoDirectory => LoadedConfig { config: AppConfig::default(), save: false },
        ConfigFile::Missing => LoadedConfig { config: AppConfig::default(), save: true },
        ConfigFile::Unparsable => LoadedConfig { config: AppConfig::default(), save: true },
    }
}

/// The list of peers after one was seen: in its place if its ID is listed, at the
/// end if not.
pub open spec fn upserted(peers: Seq<PeerInfoView>, peer: PeerInfoView) -> Seq<PeerInfoView> {
    let i = position(peers, peer.id);
    if i < peers.len() {
        peers.update(i, peer)
    } else {
        peers.push(peer)
    }
}

/// Whether the list changes: the peer is new, or its entry differs in some field.
pub open spec fn upsert_changes(peers: Seq<PeerInfoView>, peer: PeerInfoView) -> bool {
    let i = position(peers, peer.id);
    ||| i == peers.len()
    ||| peers[i].name != peer.name
    ||| peers[i].address != peer.address
    ||| peers[i].port != peer.port
    ||| peers[i].last_seen != peer.last_seen
}

/// Inserts or updates a peer in the list, by its ID, and says whether the list
/// changed.
pub fn upsert_peer(config: &mut AppConfig, peer: PeerInfo) -> (changed: bool)
    ensures
        changed == (final(config)@.paired_peers != old(config)@.paired_peers),
        changed == upsert_changes(old(config)@.paired_peers, peer@),
        final(config)@ == (AppConfigView {
            paired_peers: upserted(old(config)@.paired_peers, peer@),
            ..old(config)@
        }),
{
    let ghost before = config@.paired_peers;
    let ghost seen = peer@;
    proof {
        lemma_position(before, peer@.id);
    }
    let i: usize = peer_index(config.paired_peers.as_slice(), peer.id.as_str());
    if i < config.paired_peers.len() {
        let existing = &config.paired_peers[i];
        let changed = !text::same_text(existing.name.as_str(), peer.name.as_str())
            || !text::same_text(existing.address.as_str(), peer.address.as_str()) || existing.port
            != peer.port || existing.last_seen != peer.last_seen;
        config.paired_peers.set(i, peer);
        proof {
            assert(config@.paired_peers =~= before.update(i as int, seen));
            assert(config@.paired_peers[i as int] == seen);
            if before[i as int] == seen {
                assert(config@.paired_peers =~= before);
            }
        }
        changed
    } else {
        config.paired_peers.push(peer);
        proof {
            assert(config@.paired_peers =~= before.push(seen));
            assert(config@.paired_peers.len() != before.len());
        }
        true
    }
}

/// No ID is listed twice.
pub open spec fn unique_ids(peers: Seq<PeerInfoView>) -> bool {
    forall|i: int, j: int|
        0 <= i < j < peers.len() ==> (#[trigger] peers[i]).id != (#[trigger] peers[j]).id
}

/// A peer that was seen is listed as it was seen, every peer that was listed stays
/// listed, and nobody else is listed.
pub proof fn law_upsert_lists(peers: Seq<PeerInfoView>, peer: PeerInfoView, id: Seq<char>)
    ensures
        upserted(peers, peer)[position(peers, peer.id)] == peer,
        is_listed(upserted(peers, peer), id) <==> is_listed(peers, id) || id == peer.id,
{
    lemma_position(peers, peer.id);
    let at = position(peers, peer.id);
    let after = upserted(peers, peer);
    assert(after[at].id == peer.id);
    if is_listed(peers, id) {
        let i = choose|i: int| 0 <= i < peers.len() && (#[trigger] peers[i]).id == id;
        assert(after[i].id == id);
    }
    if is_listed(after, id) && id != peer.id {
        let i = choose|i: int| 0 <= i < after.len() && (#[trigger] after[i]).id == id;
        assert(peers[i].id == id);
    }
}

/// Where no ID is listed twice, none is after a peer was seen.
pub proof fn law_upsert_keeps_unique(peers: Seq<PeerInfoView>, peer: PeerInfoView)
    requires
        unique_ids(peers),
    ensures
        unique_ids(upserted(peers, peer)),
{
    lemma_position(peers, peer.id);
    let after = upserted(peers, peer);
    assert forall|i: int, j: int| 0 <= i < j < after.len() implies (#[trigger] after[i]).id != (
    #[trigger] after[j]).id by {
        if position(peers, peer.id) < peers.len() {
            assert(after[i].id == peers[i].id && after[j].id == peers[j].id);
        }
    }
}

/// The list changes exactly where it comes out different.
pub proof fn law_upsert_changes(peers: Seq<PeerInfoView>, peer: PeerInfoView)
    ensures
        upsert_changes(peers, peer) <==> upserted(peers, peer) != peers,
{
    lemma_position(peers, peer.id);
    let at = position(peers, peer.id);
    if at == peers.len() {
        assert(upserted(peers, peer).len() != peers.len());
    } else {
        assert(upserted(peers, peer)[at] == peer);
        if peers[at] == peer {
            assert(upserted(peers, peer) =~= peers);
        }
    }
}

/// A peer that is seen again under the same name, address and port and at the
/// same time changes nothing.
pub proof fn law_upsert_settles(peers: Seq<PeerInfoView>, peer: PeerInfoView, again: PeerInfoView)
    requires
        again.id == peer.id,
        again.name == peer.name,
        again.address == peer.address,
        again.port == peer.port,
        again.last_seen == peer.last_seen,
    ensures
        !upsert_changes(upserted(peers, peer), again),
{
    let after = upserted(peers, peer);
    lemma_position(peers, peer.id);
    lemma_position(after, peer.id);
    let at = position(peers, peer.id);
    assert(after[at].id == peer.id);
    assert(is_listed(after, peer.id));
    let found = position(after, peer.id);
    if found < at {
        assert(after[found] == peers[found]);
    }
}

/// Changes that the settings form asks for.
#[derive(Debug)]
pub struct ConfigUpdate {
    pub payload_limit_mb: Option<u32>,
    pub debounce_ms: Option<u64>,
    pub clipboard_priority: Option<String>,
    pub sync_paused: Option<bool>,
}

/// The priority that a name in the settings form stands for.
pub open spec fn priority_of_name(name: Seq<char>) -> Option<ClipboardPriority> {
    if name == "image_first"@ {
        Some(ClipboardPriority::ImageFirst)
    } else if name == "text_first"@ {
        Some(ClipboardPriority::TextFirst)
    } else if name == "text_only"@ {
        Some(ClipboardPriority::TextOnly)
    } else if name == "image_only"@ {
        Some(ClipboardPriority::ImageOnly)
    } else {
        None
    }
}

/// Reads the name of a priority.
pub fn parse_priority(name: &str) -> (priority: Option<ClipboardPriority>)
    ensures
        priority == priority_of_name(name@),
{
    if text::same_text(name, "image_first") {
        Some(ClipboardPriority::ImageFirst)
    } else if text::same_text(name, "text_first") {
        Some(ClipboardPriority::TextFirst)
    } else if text::same_text(name, "text_only") {
        Some(ClipboardPriority::TextOnly)
    } else if text::same_text(name, "image_only") {
        Some(ClipboardPriority::ImageOnly)
    } else {
        None
    }
}

/// A new value if there is one, the old value if not.
pub open spec fn updated<T>(new: Option<T>, old_value: T) -> T {
    match new {
        Some(value) => value,
        None => old_value,
    }
}

/// The settings after the fields that come before the priority were taken over.
pub open spec fn sizes_updated(config: AppConfigView, update: ConfigUpdate) -> AppConfigView {
    AppConfigView {
        payload_limit_mb: updated(update.payload_limit_mb, config.payload_limit_mb),
        debounce_ms: updated(update.debounce_ms, config.debounce_ms),
        ..config
    }
}

/// The error of an update, if it has one.
pub open spec fn update_error(update: ConfigUpdate) -> Option<Seq<char>> {
    match update.clipboard_priority {
        Some(name) if priority_of_name(name@) is None => Some(
            "Unknown clipboard priority: "@ + name@,
        ),
        _ => None,
    }
}

/// The settings after an update, with or without an error.
pub open spec fn config_updated(config: AppConfigView, update: ConfigUpdate) -> AppConfigView {
    let sizes = sizes_updated(config, update);
    if update_error(update) is Some {
        sizes
    } else {
        AppConfigView {
            clipboard_priority: match update.clipboard_priority {
                Some(name) => priority_of_name(name@).unwrap(),
                None => config.clipboard_priority,
            },
            sync_paused: updated(update.sync_paused, config.sync_paused),
            ..sizes
        }
    }
}

impl AppConfig {
    /// Takes over the changes of the settings form. At a priority of an unknown
    /// name it stops: the limit and the debounce time before it stay changed, the
    /// priority and the pause after it do not change.
    pub fn apply_update(&mut self, update: &ConfigUpdate) -> (result: Result<(), String>)
        ensures
            final(self)@ == config_updated(old(self)@, *update),
            match result {
                Ok(_) => update_error(*update) is None,
                Err(text) => update_error(*update) == Some(text@),
            },
            match update.clipboard_priority {
                Some(name) if priority_of_name(name@) is None => {
                    &&& result matches Err(text) && text@ == "Unknown clipboard priority: "@ + name@
                    &&& final(self)@ == sizes_updated(old(self)@, *update)
                },
                _ => {
                    &&& result is Ok
                    &&& final(self)@ == (AppConfigView {
                        clipboard_priority: match update.clipboard_priority {
                            Some(name) => priority_of_name(name@).unwrap(),
                            None => old(self)@.clipboard_priority,
                        },
                        sync_paused: updated(update.sync_paused, old(self)@.sync_paused),
                        ..sizes_updated(old(self)@, *update)
                    })
                },
            },
    {
        if let Some(limit) = update.payload_limit_mb {
            self.payload_limit_mb = limit;
        }
        if let Some(debounce) = update.debounce_ms {
            self.debounce_ms = debounce;
        }
        if let Some(name) = &update.clipboard_priority {
            match parse_priority(name.as_str()) {
                Some(priority) => {
                    self.clipboard_priority = priority;
                },
                None => {
                    return Err(text::joined("Unknown clipboard priority: ", name.as_str()));
                },
            }
        }
        if let Some(paused) = update.sync_paused {
            self.sync_paused = paused;
        }
        Ok(())
    }

    /// Flips between paused and running, and says which it is now.
    pub fn toggle_pause(&mut self) -> (paused: bool)
        ensures
            paused == !old(self)@.sync_paused,
            final(self)@ == (AppConfigView { sync_paused: paused, ..old(self)@ }),
    {
        self.sync_paused = !self.sync_paused;
        self.sync_paused
    }

    /// Keeps a pairing code.
    pub fn adopt_code(&mut self, code: &str)
        ensures
            final(self)@ == (AppConfigView { pairing_code: Some(code@), ..old(self)@ }),
    {
        self.pairing_code = Some(code.to_string());
    }

    /// Keeps a pairing code that was typed in, if it has six digits. If not,
    /// nothing changes.
    pub fn pair_with_code(&mut self, code: &str) -> (result: Result<(), String>)
        ensures
            match result {
                Ok(_) => {
                    &&& pairing::valid_code(code@)
                    &&& final(self)@ == (AppConfigView { pairing_code: Some(code@), ..old(self)@ })
                },
                Err(text) => {
                    &&& !pairing::valid_code(code@)
                    &&& text@ == "Invalid pairing code: must be 6 digits."@
                    &&& final(self)@ == old(self)@
                },
            },
    {
        if !pairing::is_valid_pairing_code(code) {
            return Err("Invalid pairing code: must be 6 digits.".to_string());
        }
        self.adopt_code(code);
        Ok(())
    }

    /// Makes up a pairing code and keeps it.
    pub fn generate_code(&mut self) -> (code: String)
        ensures
            pairing::valid_code(code@),
            final(self)@ == (AppConfigView { pairing_code: Some(code@), ..old(self)@ }),
    {
        let code = pairing::generate_pairing_code();
        self.adopt_code(code.as_str());
        code
    }

    /// The largest payload in bytes.
    pub fn payload_limit_bytes(&self) -> (limit: u64)
        ensures
            limit == self@.payload_limit_mb * 1024 * 1024,
    {
        self.payload_limit_mb as u64 * 1024 * 1024
    }

    /// The paired peers for the window, each with whether it is connected.
    pub fn frontend_peers(&self, connected: &[String]) -> (peers: Vec<FrontendPeer>)
        ensures
            peers@.len() == self@.paired_peers.len(),
            forall|i: int|
                0 <= i < peers@.len() ==> {
                    &&& (#[trigger] peers@[i]).name@ == self@.paired_peers[i].name
                    &&& peers@[i].id@ == self@.paired_peers[i].id
                    &&& peers@[i].connected == is_among(connected@, self@.paired_peers[i].id)
                },
    {
        let mut peers: Vec<FrontendPeer> = Vec::new();
        let mut i: usize = 0;
        while i < self.paired_peers.len()
            invariant
                i <= self.paired_peers@.len(),
                peers@.len() == i,
                forall|j: int|
                    0 <= j < i ==> {
                        &&& (#[trigger] peers@[j]).name@ == self@.paired_peers[j].name
                        &&& peers@[j].id@ == self@.paired_peers[j].id
                        &&& peers@[j].connected == is_among(connected@, self@.paired_peers[j].id)
                    },
            decreases self.paired_peers@.len() - i,
        {
            let peer = &self.paired_peers[i];
            peers.push(
                FrontendPeer {
                    name: peer.name.clone(),
                    id: peer.id.clone(),
                    connected: contains_text(connected, peer.id.as_str()),
                },
            );
            i += 1;
        }
        peers
    }

    /// The state of synchronisation, for the window.
    pub fn status(&self, connected_peers: usize) -> (status: SyncStatus)
        ensures
            status.instance_id@ == self@.instance_id,
            status.sync_paused == self@.sync_paused,
            status.paired_peers_count == self@.paired_peers.len(),
            status.connected_peers == connected_peers,
    {
        SyncStatus {
            instance_id: self.instance_id.clone(),
            sync_paused: self.sync_paused,
            paired_peers_count: self.paired_peers.len(),
            connected_peers,
        }
    }
}

/// Whether a text is among some strings.
pub open spec fn is_among(strings: Seq<String>, text: Seq<char>) -> bool {
    exists|i: int| 0 <= i < strings.len() && (#[trigger] strings[i])@ == text
}

/// Whether a text is among some strings.
fn contains_text(strings: &[String], text: &str) -> (found: bool)
    ensures
        found == is_among(strings@, text@),
{
    let mut i: usize = 0;
    while i < strings.len()
        invariant
            i <= strings@.len(),
            forall|j: int| 0 <= j < i ==> (#[trigger] strings@[j])@ != text@,
        decreases strings@.len() - i,
    {
        if text::same_text(strings[i].as_str(), text) {
            return true;
        }
        i += 1;
    }
    false
}

/// The settings for the window.
#[derive(Debug)]
pub struct FrontendConfig {
    pub payload_limit_mb: u32,
    pub debounce_ms: u64,
    pub clipboard_priority: String,
    pub sync_paused: bool,
    pub instance_id: String,
    /// The pairing code, shown so that it can be shared. Empty when not paired.
    pub pairing_code: String,
}

impl Clone for FrontendConfig {
    fn clone(&self) -> (shown: Self)
        ensures
            shown == *self,
    {
        FrontendConfig {
            payload_limit_mb: self.payload_limit_mb,
            debounce_ms: self.debounce_ms,
            clipboard_priority: self.clipboard_priority.clone(),
            sync_paused: self.sync_paused,
            instance_id: self.instance_id.clone(),
            pairing_code: self.pairing_code.clone(),
        }
    }
}

/// The label of a priority in the window.
pub open spec fn priority_label(priority: ClipboardPriority) -> Seq<char> {
    match priority {
        ClipboardPriority::ImageFirst => "imagefirst"@,
        ClipboardPriority::TextFirst => "textfirst"@,
        ClipboardPriority::TextOnly => "textonly"@,
        ClipboardPriority::ImageOnly => "imageonly"@,
    }
}

impl<'a> vstd::std_specs::convert::FromSpecImpl<&'a AppConfig> for FrontendConfig {
    open spec fn obeys_from_spec() -> bool {
        false
    }

    open spec fn from_spec(config: &'a AppConfig) -> Self {
        arbitrary()
    }
}

impl<'a> From<&'a AppConfig> for FrontendConfig {
    fn from(config: &'a AppConfig) -> (shown: Self)
        ensures
            shown.payload_limit_mb == config@.payload_limit_mb,
            shown.debounce_ms == config@.debounce_ms,
            shown.clipboard_priority@ == priority_label(config@.clipboard_priority),
            shown.sync_paused == config@.sync_paused,
            shown.instance_id@ == config@.instance_id,
            shown.pairing_code@ == (match config@.pairing_code {
                Some(code) => code,
                None => Seq::<char>::empty(),
            }),
    {
        let label = match config.clipboard_priority {
            ClipboardPriority::ImageFirst => "imagefirst",
            ClipboardPriority::TextFirst => "textfirst",
            ClipboardPriority::TextOnly => "textonly",
            ClipboardPriority::ImageOnly => "imageonly",
        };
        let pairing_code = match &config.pairing_code {
            Some(code) => code.clone(),
            None => String::new(),
        };
        FrontendConfig {
            payload_limit_mb: config.payload_limit_mb,
            debounce_ms: config.debounce_ms,
            clipboard_priority: label.to_string(),
            sync_paused: config.sync_paused,
            instance_id: config.instance_id.clone(),
            pairing_code,
        }
    }
}

/// A paired peer for the window.
#[derive(Debug)]
pub struct FrontendPeer {
    pub name: String,
    pub id: String,
    pub connected: bool,
}

impl Clone for FrontendPeer {
    fn clone(&self) -> (peer: Self)
        ensures
            peer == *self,
    {
        FrontendPeer {
            name: self.name.clone(),
            id: self.id.clone(),
            connected: self.connected,
        }
    }
}

/// The state of synchronisation, for the window.
#[derive(Debug)]
pub struct SyncStatus {
    pub instance_id: String,
    pub sync_paused: bool,
    pub paired_peers_count: usize,
    pub connected_peers: usize,
}

/// A peer that was seen takes the place of the first entry with its ID, if there is
/// one, and comes at the end if there is none. No other entry changes.
pub proof fn law_upsert_entries(peers: Seq<PeerInfoView>, peer: PeerInfoView, i: int)
    ensures
        0 <= i < peers.len() && peers[i].id == peer.id && (forall|j: int|
            0 <= j < i ==> (#[trigger] peers[j]).id != peer.id) ==> {
            &&& upserted(peers, peer).len() == peers.len()
            &&& upserted(peers, peer)[i] == peer
            &&& forall|j: int|
                0 <= j < peers.len() && j != i ==> #[trigger] upserted(peers, peer)[j] == peers[j]
        },
        (forall|j: int| 0 <= j < peers.len() ==> (#[trigger] peers[j]).id != peer.id) ==> upserted(
            peers,
            peer,
        ) == peers.push(peer),
{
    lemma_position(peers, peer.id);
}

/// A peer is listed just if its ID is among those of the list; and the first index
/// with an ID is the one that no earlier entry has.
pub proof fn law_listed(peers: Seq<PeerInfoView>, id: Seq<char>, i: int)
    ensures
        is_listed(peers, id) <==> peers.map_values(|peer: PeerInfoView| peer.id).contains(id),
        0 <= i < peers.len() && peers[i].id == id && (forall|j: int|
            0 <= j < i ==> (#[trigger] peers[j]).id != id) ==> position(peers, id) == i,
        (forall|j: int| 0 <= j < peers.len() ==> (#[trigger] peers[j]).id != id) ==> position(
            peers,
            id,
        ) == peers.len(),
{
    lemma_position(peers, id);
    let ids = peers.map_values(|peer: PeerInfoView| peer.id);
    if is_listed(peers, id) {
        let j = choose|j: int| 0 <= j < peers.len() && (#[trigger] peers[j]).id == id;
        assert(ids[j] == id);
    }
    if ids.contains(id) {
        let j = choose|j: int| 0 <= j < ids.len() && ids[j] == id;
        assert(peers[j].id == id);
    }
}

/// The names of the priorities, each with one of its own, and no others.
pub proof fn law_priority_names(name: Seq<char>)
    ensures
        priority_of_name("image_first"@) == Some(ClipboardPriority::ImageFirst),
        priority_of_name("text_first"@) == Some(ClipboardPriority::TextFirst),
        priority_of_name("text_only"@) == Some(ClipboardPriority::TextOnly),
        priority_of_name("image_only"@) == Some(ClipboardPriority::ImageOnly),
        priority_of_name(name) is Some ==> name == "image_first"@ || name == "text_first"@ || name
            == "text_only"@ || name == "image_only"@,
{
    reveal_strlit("image_first");
    reveal_strlit("text_first");
    reveal_strlit("text_only");
    reveal_strlit("image_only");
    assert("image_first"@.len() == 11 && "text_first"@.len() == 10);
    assert("text_only"@.len() == 9 && "image_only"@.len() == 10);
    assert("text_first"@[0] == 't' && "image_only"@[0] == 'i');
}

/// The labels of the priorities in the window.
pub proof fn law_priority_labels()
    ensures
        priority_label(ClipboardPriority::ImageFirst) == "imagefirst"@,
        priority_label(ClipboardPriority::TextFirst) == "textfirst"@,
        priority_label(ClipboardPriority::TextOnly) == "textonly"@,
        priority_label(ClipboardPriority::ImageOnly) == "imageonly"@,
{
}

/// An update of the sizes takes over the limit and the wait that it names, keeps
/// those that it does not, and touches nothing else.
pub proof fn law_sizes_updated(config: AppConfigView, update: ConfigUpdate, paused: bool)
    ensures
        ({
            let after = sizes_updated(config, update);
            &&& update.payload_limit_mb is Some ==> after.payload_limit_mb
                == update.payload_limit_mb.unwrap()
            &&& update.payload_limit_mb is None ==> after.payload_limit_mb
                == config.payload_limit_mb
            &&& update.debounce_ms is Some ==> after.debounce_ms == update.debounce_ms.unwrap()
            &&& update.debounce_ms is None ==> after.debounce_ms == config.debounce_ms
            &&& after.clipboard_priority == config.clipboard_priority
            &&& after.sync_paused == config.sync_paused
            &&& after.paired_peers == config.paired_peers
            &&& after.instance_id == config.instance_id
            &&& after.pairing_code == config.pairing_code
        }),
        update.sync_paused is Some ==> updated(update.sync_paused, paused)
            == update.sync_paused.unwrap(),
        update.sync_paused is None ==> updated(update.sync_paused, paused) == paused,
{
}

/// A first start has a limit of 25 MB and looks every 200 milliseconds, images first;
/// it is running, paired with nobody, and has a random ID of 36 characters.
pub proof fn law_first_start(config: AppConfigView)
    requires
        is_first_start(config),
    ensures
        config.payload_limit_mb == 25,
        config.debounce_ms == 200,
        config.clipboard_priority == ClipboardPriority::ImageFirst,
        !config.sync_paused,
        config.paired_peers.len() == 0,
        config.instance_id.len() == 36,
        config.pairing_code is None,
{
}

/// A text is among strings just if it is one of them.
pub proof fn law_among(strings: Seq<String>, text: Seq<char>)
    ensures
        is_among(strings, text) <==> strings.map_values(|string: String| string@).contains(text),
{
    let all = strings.map_values(|string: String| string@);
    if is_among(strings, text) {
        let i = choose|i: int| 0 <= i < strings.len() && (#[trigger] strings[i])@ == text;
        assert(all[i] == text);
    }
    if all.contains(text) {
        let i = choose|i: int| 0 <= i < all.len() && all[i] == text;
        assert(strings[i]@ == text);
    }
}

/// Settings and peers stand for all of their fields.
pub proof fn law_config_views(config: AppConfig, peers: Seq<PeerInfo>, i: int)
    ensures
        config@.payload_limit_mb == config.payload_limit_mb,
        config@.debounce_ms == config.debounce_ms,
        config@.clipboard_priority == config.clipboard_priority,
        config@.sync_paused == config.sync_paused,
        config@.paired_peers == peers_view(config.paired_peers@),
        config@.instance_id == config.instance_id@,
        config@.pairing_code is Some <==> config.pairing_code is Some,
        config.pairing_code is Some ==> config@.pairing_code.unwrap()
            == config.pairing_code.unwrap()@,
        peers_view(peers).len() == peers.len(),
        0 <= i < peers.len() ==> {
            let peer = peers_view(peers)[i];
            &&& peer.name == peers[i].name@
            &&& peer.id == peers[i].id@
            &&& peer.address == peers[i].address@
            &&& peer.port == peers[i].port
            &&& peer.last_seen == peers[i].last_seen
        },
{
}

/// What an update changes, by what it names. Only a priority that is none of the four
/// is an error; it leaves the priority and the pause as they were, while the limit and
/// the wait are taken over all the same. Nothing else ever changes.
pub proof fn law_config_updated(config: AppConfigView, update: ConfigUpdate)
    ensures
        ({
            let after = config_updated(config, update);
            let named = update.clipboard_priority is Some;
            let name = update.clipboard_priority.unwrap()@;
            let known = name == "image_first"@ || name == "text_first"@ || name == "text_only"@
                || name == "image_only"@;
            &&& update_error(update) is Some <==> named && !known
            &&& named && !known ==> update_error(update) == Some(
                "Unknown clipboard priority: "@ + name,
            )
            &&& named && name == "image_first"@ ==> after.clipboard_priority
                == ClipboardPriority::ImageFirst
            &&& named && name == "text_first"@ ==> after.clipboard_priority
                == ClipboardPriority::TextFirst
            &&& named && name == "text_only"@ ==> after.clipboard_priority
                == ClipboardPriority::TextOnly
            &&& named && name == "image_only"@ ==> after.clipboard_priority
                == ClipboardPriority::ImageOnly
            &&& !named || !known ==> after.clipboard_priority == config.clipboard_priority
            &&& (!named || known) && update.sync_paused is Some ==> after.sync_paused
                == update.sync_paused.unwrap()
            &&& named && !known || update.sync_paused is None ==> after.sync_paused
                == config.sync_paused
            &&& update.payload_limit_mb is Some ==> after.payload_limit_mb
                == update.payload_limit_mb.unwrap()
            &&& update.payload_limit_mb is None ==> after.payload_limit_mb
                == config.payload_limit_mb
            &&& update.debounce_ms is Some ==> after.debounce_ms == update.debounce_ms.unwrap()
            &&& update.debounce_ms is None ==> after.debounce_ms == config.debounce_ms
            &&& after.paired_peers == config.paired_peers
            &&& after.instance_id == config.instance_id
            &&& after.pairing_code == config.pairing_code
        }),
{
    if update.clipboard_priority is Some {
        law_priority_names(update.clipboard_priority.unwrap()@);
    }
}

/// The settings of a file are kept, the pairing code and the peers among them; only
/// an empty ID is replaced. Without a file that can be read, the settings are those of
/// a first start, and are saved if there is a place for them.
pub proof fn law_settled(found: ConfigFile, config: AppConfigView, save: bool)
    requires
        settled(found, config, save),
    ensures
        save <==> found is Missing || found is Unparsable,
        config.instance_id.len() > 0,
        found matches ConfigFile::Parsed(parsed) ==> {
            &&& config.payload_limit_mb == parsed@.payload_limit_mb
            &&& config.debounce_ms == parsed@.debounce_ms
            &&& config.clipboard_priority == parsed@.clipboard_priority
            &&& config.sync_paused == parsed@.sync_paused
            &&& config.paired_peers == parsed@.paired_peers
            &&& config.pairing_code == parsed@.pairing_code
            &&& parsed@.instance_id.len() > 0 ==> config.instance_id == parsed@.instance_id
        },
        !(found is Parsed) ==> config.payload_limit_mb == 25 && config.debounce_ms == 200
            && config.clipboard_priority == ClipboardPriority::ImageFirst && !config.sync_paused
            && config.paired_peers.len() == 0 && config.pairing_code is None,
{
}

} // verus!
