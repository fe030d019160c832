//! Discovery: what an instance advertises over mDNS, which services are peers,
//! and which peers left.
use vstd::prelude::*;
use vstd::string::*;
use vstd::utf8::*;

use crate::codec;
use crate::random;
use crate::registry::Registry;
use crate::text;

verus! {

/// The service type that instances advertise and browse for.
pub fn service_type() -> (name: &'static str)
    ensures
        name@ == "_clipsync._tcp.local."@,
{
    "_clipsync._tcp.local."
}

/// A peer found over mDNS.
#[derive(Debug)]
pub struct DiscoveredPeer {
    /// Its instance ID.
    pub id: String,
    /// Human-readable name.
    pub name: String,
    /// Its IP address.
    pub ip: String,
    /// The port of its WebSocket server.
    pub port: u16,
}

/// A peer found over mDNS, as a mathematical value.
pub struct DiscoveredPeerView {
    pub id: Seq<char>,
    pub name: Seq<char>,
    pub ip: Seq<char>,
    pub port: u16,
}

impl View for DiscoveredPeer {
    type V = DiscoveredPeerView;

    open spec fn view(&self) -> DiscoveredPeerView {
        DiscoveredPeerView { id: self.id@, name: self.name@, ip: self.ip@, port: self.port }
    }
}

impl Clone for DiscoveredPeer {
    fn clone(&self) -> (peer: Self)
        ensures
            peer == *self,
    {
        DiscoveredPeer {
            id: self.id.clone(),
            name: self.name.clone(),
            ip: self.ip.clone(),
            port: self.port,
        }
    }
}

/// A text is the part of an ID that fills its first eight bytes.
pub open spec fn is_tag(id: Seq<char>, tag: Seq<char>) -> bool {
    &&& tag.len() <= id.len()
    &&& tag == id.take(tag.len() as int)
    &&& text::utf8(tag).len() == 8
}

/// The first eight bytes of an ID end between two characters.
pub open spec fn has_tag(id: Seq<char>) -> bool {
    exists|tag: Seq<char>| is_tag(id, tag)
}

/// The part of an ID that fills its first eight bytes.
pub open spec fn tag_of(id: Seq<char>) -> Seq<char> {
    choose|tag: Seq<char>| is_tag(id, tag)
}

/// A longer part of a text has more bytes.
proof fn lemma_prefix_grows(id: Seq<char>, short: int, long: int)
    requires
        0 <= short < long <= id.len(),
    ensures
        text::utf8(id.take(short)).len() < text::utf8(id.take(long)).len(),
{
    let more = id.subrange(short, long);
    assert(id.take(long) =~= id.take(short) + more);
    text::lemma_utf8_concat(id.take(short), more);
    text::lemma_utf8_length(more);
}

/// There is one tag of an ID at most.
proof fn lemma_tag_unique(id: Seq<char>, tag: Seq<char>)
    requires
        is_tag(id, tag),
    ensures
        tag_of(id) == tag,
{
    let other = tag_of(id);
    if other.len() < tag.len() {
        lemma_prefix_grows(id, other.len() as int, tag.len() as int);
    } else if tag.len() < other.len() {
        lemma_prefix_grows(id, tag.len() as int, other.len() as int);
    }
}

/// The part of an ID that fills its first eight bytes, if they end between two
/// characters.
pub fn id_tag(id: &str) -> (tag: Option<String>)
    ensures
        match tag {
            Some(tag) => has_tag(id@) && tag@ == tag_of(id@),
            None => !has_tag(id@),
        },
{
    let length: usize = id.unicode_len();
    let mut n: usize = 0;
    while n <= length && n <= 8
        invariant
            length == id@.len(),
            n <= 9,
            forall|m: int| 0 <= m < n && m <= length ==> text::utf8(#[trigger] id@.take(m)).len() < 8,
        decreases 9 - n,
    {
        let part = id.substring_char(0, n);
        assert(part@ =~= id@.take(n as int));
        let size: usize = part.as_bytes().len();
        if size == 8 {
            proof {
                assert(is_tag(id@, part@));
                lemma_tag_unique(id@, part@);
            }
            return Some(part.to_string());
        }
        if size > 8 {
            proof {
                assert forall|tag: Seq<char>| !is_tag(id@, tag) by {
                    if is_tag(id@, tag) && n < tag.len() {
                        lemma_prefix_grows(id@, n as int, tag.len() as int);
                    }
                }
            }
            return None;
        }
        n += 1;
    }
    proof {
        assert forall|tag: Seq<char>| !is_tag(id@, tag) by {
            if is_tag(id@, tag) && tag.len() > 8 {
                text::lemma_utf8_length(tag);
            }
        }
    }
    None
}

/// A random UUID has a tag: its first eight characters.
pub proof fn law_uuid_has_tag(id: Seq<char>)
    requires
        random::is_uuid_v4(id),
    ensures
        has_tag(id),
        tag_of(id) == id.take(8),
{
    let tag = id.take(8);
    assert(is_ascii_chars(tag)) by {
        assert forall|i: int| 0 <= i < tag.len() implies 0 <= #[trigger] tag[i] as nat && (tag[i]
            as nat) < 128 by {
            assert(random::is_hex_lower(id[i]));
        }
    }
    is_ascii_chars_encode_utf8(tag);
    assert(is_tag(id, tag));
    lemma_tag_unique(id, tag);
}

/// What an instance advertises.
pub struct Advert {
    /// The name of the service instance.
    pub instance_name: String,
    /// The property `id`.
    pub id: String,
    /// The property `name`.
    pub name: String,
    /// The IPv4 address of this machine on the local network.
    pub address: String,
    /// The port of the WebSocket server.
    pub port: u16,
}

/// An address that can be advertised: neither the one that stands for every
/// interface nor one of the machine to itself.
pub open spec fn is_lan_address(address: Seq<char>) -> bool {
    address.len() > 0 && address != "0.0.0.0"@ && !"127."@.is_prefix_of(address)
}

/// Whether an address can be advertised.
fn can_advertise(address: &str) -> (yes: bool)
    ensures
        yes == is_lan_address(address@),
{
    proof {
        reveal_strlit("127.");
    }
    if address.is_empty() || text::same_text(address, "0.0.0.0") {
        return false;
    }
    if address.unicode_len() < 4 {
        return true;
    }
    !text::same_text(address.substring_char(0, 4), "127.")
}

/// Picks the address to advertise: the first of some that can be.
pub fn pick_lan_address(addresses: &[String]) -> (picked: Option<String>)
    ensures
        match picked {
            Some(address) => exists|i: int| {
                &&& 0 <= i < addresses@.len()
                &&& (#[trigger] addresses@[i])@ == address@
                &&& is_lan_address(address@)
                &&& forall|j: int| 0 <= j < i ==> !is_lan_address((#[trigger] addresses@[j])@)
            },
            None => forall|j: int|
                0 <= j < addresses@.len() ==> !is_lan_address((#[trigger] addresses@[j])@),
        },
{
    let mut i: usize = 0;
    while i < addresses.len()
        invariant
            i <= addresses@.len(),
            forall|j: int| 0 <= j < i ==> !is_lan_address((#[trigger] addresses@[j])@),
        decreases addresses@.len() - i,
    {
        if can_advertise(addresses[i].as_str()) {
            assert(is_lan_address(addresses@[i as int]@));
            return Some(addresses[i].clone());
        }
        i += 1;
    }
    None
}

/// Makes the advert of an instance. Its service instance is named by the host
/// and the tag of its ID.
pub fn make_advert(instance_id: &str, hostname: &str, lan_ip: &str, port: u16) -> (advert: Advert)
    requires
        has_tag(instance_id@),
    ensures
        advert.instance_name@ == hostname@ + "_"@ + tag_of(instance_id@),
        advert.id@ == instance_id@,
        advert.name@ == hostname@,
        advert.address@ == lan_ip@,
        advert.port == port,
{
    let tag = id_tag(instance_id).unwrap();
    let mut instance_name = hostname.to_string();
    instance_name.append("_");
    instance_name.append(tag.as_str());
    Advert {
        instance_name,
        id: instance_id.to_string(),
        name: hostname.to_string(),
        address: lan_ip.to_string(),
        port,
    }
}

/// A service that was resolved over mDNS.
pub struct ServiceRecord {
    /// The property `id`.
    pub id: Option<String>,
    /// The property `name`.
    pub name: Option<String>,
    /// The port.
    pub port: u16,
    /// The IPv4 addresses.
    pub addresses_v4: Vec<String>,
    /// The IPv6 addresses.
    pub addresses_v6: Vec<String>,
}

/// The address to use of those of a service: the first IPv4 address, or else the
/// first IPv6 address.
pub open spec fn preferred_address(record: ServiceRecord) -> Option<Seq<char>> {
    if record.addresses_v4@.len() > 0 {
        Some(record.addresses_v4@[0]@)
    } else if record.addresses_v6@.len() > 0 {
        Some(record.addresses_v6@[0]@)
    } else {
        None
    }
}

/// The peer that a resolved service is: none without an ID or an address, and not
/// the instance itself.
pub open spec fn resolved(record: ServiceRecord, our_id: Seq<char>) -> Option<DiscoveredPeerView> {
    match (codec::text_view(record.id), preferred_address(record)) {
        (Some(id), Some(ip)) => if id == our_id {
            None
        } else {
            Some(
                DiscoveredPeerView {
                    id,
                    name: match record.name {
                        Some(name) => name@,
                        None => "unknown"@,
                    },
                    ip,
                    port: record.port,
                },
            )
        },
        _ => None,
    }
}

/// Finds the peer that a resolved service is.
pub fn resolve_peer(record: &ServiceRecord, our_id: &str) -> (peer: Option<DiscoveredPeer>)
    ensures
        match peer {
            Some(peer) => resolved(*record, our_id@) == Some(peer@),
            None => resolved(*record, our_id@) is None,
        },
{
    let id = match &record.id {
        Some(id) => id,
        None => {
            return None;
        },
    };
    if text::same_text(id.as_str(), our_id) {
        return None;
    }
    let name = match &record.name {
        Some(name) => name.clone(),
        None => "unknown".to_string(),
    };
    let ip = if record.addresses_v4.len() > 0 {
        record.addresses_v4[0].clone()
    } else if record.addresses_v6.len() > 0 {
        record.addresses_v6[0].clone()
    } else {
        return None;
    };
    Some(DiscoveredPeer { id: id.clone(), name, ip, port: record.port })
}

/// An instance that is advertised is found by every other instance under its ID,
/// its name, its address and its port, and not by itself.
pub proof fn law_advert_resolves(advert: Advert, record: ServiceRecord, our_id: Seq<char>)
    requires
        codec::text_view(record.id) == Some(advert.id@),
        codec::text_view(record.name) == Some(advert.name@),
        record.port == advert.port,
        preferred_address(record) == Some(advert.address@),
    ensures
        our_id == advert.id@ ==> resolved(record, our_id) is None,
        our_id != advert.id@ ==> resolved(record, our_id) == Some(
            DiscoveredPeerView {
                id: advert.id@,
                name: advert.name@,
                ip: advert.address@,
                port: advert.port,
            },
        ),
{
}

/// The name of a service instance, without the service type that its full name
/// ends with.
pub fn service_label(full_name: &str) -> (label: String)
    ensures
        "._clipsync._tcp.local."@.is_suffix_of(full_name@) ==> label@ + "._clipsync._tcp.local."@
            == full_name@,
        !"._clipsync._tcp.local."@.is_suffix_of(full_name@) ==> label@ == full_name@,
{
    let end = "._clipsync._tcp.local.";
    let length: usize = full_name.unicode_len();
    let end_length: usize = end.unicode_len();
    if end_length <= length {
        let start: usize = length - end_length;
        let tail = full_name.substring_char(start, length);
        if text::same_text(tail, end) {
            let label = full_name.substring_char(0, start);
            proof {
                assert(label@ + end@ =~= full_name@);
            }
            return label.to_string();
        }
    }
    full_name.to_string()
}

/// A service instance that was removed is the one of an ID: its name ends with
/// the tag of the ID.
pub open spec fn names_peer(instance_name: Seq<char>, id: Seq<char>) -> bool {
    text::utf8(tag_of(id)).is_suffix_of(text::utf8(instance_name))
}

/// The name of the service instance that an instance advertises names the peer
/// that it is.
pub proof fn law_advert_names_peer(hostname: Seq<char>, id: Seq<char>)
    ensures
        names_peer(hostname + "_"@ + tag_of(id), id),
{
    text::lemma_utf8_concat(hostname + "_"@, tag_of(id));
    let whole = text::utf8(hostname + "_"@ + tag_of(id));
    let end = text::utf8(tag_of(id));
    assert(end =~= whole.subrange(whole.len() - end.len(), whole.len() as int));
}

/// Whether the bytes of a text end with those of another.
fn ends_with(whole: &str, end: &str) -> (yes: bool)
    ensures
        yes == text::utf8(end@).is_suffix_of(text::utf8(whole@)),
{
    let w = whole.as_bytes();
    let e = end.as_bytes();
    if e.len() > w.len() {
        return false;
    }
    let offset: usize = w.len() - e.len();
    let mut i: usize = 0;
    while i < e.len()
        invariant
            i <= e@.len(),
            offset + e@.len() == w@.len(),
            w@.len() <= usize::MAX,
            w@ == text::utf8(whole@),
            e@ == text::utf8(end@),
            forall|j: int| 0 <= j < i ==> e@[j] == w@[offset + j],
        decreases e@.len() - i,
    {
        if e[i] != w[offset + i] {
            proof {
                assert(w@.subrange(w@.len() - e@.len(), w@.len() as int)[i as int] == w@[offset + i]);
            }
            return false;
        }
        i += 1;
    }
    proof {
        assert(e@ =~= w@.subrange(w@.len() - e@.len(), w@.len() as int));
    }
    true
}

/// The peers that are on the network, by their IDs.
pub struct PeerDirectory {
    peers: Registry<DiscoveredPeer>,
}

impl View for PeerDirectory {
    type V = Map<Seq<char>, DiscoveredPeer>;

    closed spec fn view(&self) -> Map<Seq<char>, DiscoveredPeer> {
        self.peers@
    }
}

/// Every known ID has a tag.
pub open spec fn all_tagged(peers: Map<Seq<char>, DiscoveredPeer>) -> bool {
    forall|id: Seq<char>| #[trigger] peers.dom().contains(id) ==> has_tag(id)
}

/// The IDs of the known peers that a removed service instance names.
pub open spec fn named_ids(
    peers: Map<Seq<char>, DiscoveredPeer>,
    instance_name: Seq<char>,
) -> Set<Seq<char>> {
    peers.dom().filter(|id: Seq<char>| names_peer(instance_name, id))
}

impl PeerDirectory {
    /// Every ID is known once, with the peer of that ID.
    pub closed spec fn wf(&self) -> bool {
        &&& self.peers.wf()
        &&& forall|id: Seq<char>| #[trigger]
            self.peers@.dom().contains(id) ==> self.peers@[id].id@ == id
    }

    /// No peer is known.
    pub fn new() -> (directory: Self)
        ensures
            directory.wf(),
            directory@ == Map::<Seq<char>, DiscoveredPeer>::empty(),
    {
        PeerDirectory { peers: Registry::new() }
    }

    /// Takes in a service that was resolved, and hands out the peer that it is.
    pub fn on_resolved(&mut self, record: &ServiceRecord, our_id: &str) -> (peer: Option<
        DiscoveredPeer,
    >)
        requires
            old(self).wf(),
        ensures
            final(self).wf(),
            match peer {
                Some(peer) => {
                    &&& resolved(*record, our_id@) == Some(peer@)
                    &&& final(self)@ == old(self)@.insert(peer@.id, peer)
                },
                None => resolved(*record, our_id@) is None && final(self)@ == old(self)@,
            },
    {
        match resolve_peer(record, our_id) {
            Some(peer) => {
                self.peers.insert(peer.id.clone(), peer.clone());
                Some(peer)
            },
            None => None,
        }
    }

    /// Whether every known ID has a tag.
    pub fn is_tagged(&self) -> (tagged: bool)
        requires
            self.wf(),
        ensures
            tagged == all_tagged(self@),
    {
        let ids = self.peers.keys();
        let mut i: usize = 0;
        while i < ids.len()
            invariant
                i <= ids@.len(),
                forall|j: int| 0 <= j < ids@.len() ==> self@.dom().contains(#[trigger] ids@[j]@),
                forall|j: int| 0 <= j < i ==> has_tag(#[trigger] ids@[j]@),
            decreases ids@.len() - i,
        {
            if id_tag(ids[i].as_str()).is_none() {
                assert(self@.dom().contains(ids@[i as int]@));
                return false;
            }
            i += 1;
        }
        proof {
            assert forall|id: Seq<char>| #[trigger] self@.dom().contains(id) implies has_tag(id) by {
                let j = choose|j: int| 0 <= j < ids@.len() && #[trigger] ids@[j]@ == id;
                assert(has_tag(ids@[j]@));
            }
        }
        true
    }

    /// Forgets the peers that a removed service instance names, and hands them
    /// out.
    pub fn on_removed(&mut self, instance_name: &str) -> (left: Vec<DiscoveredPeer>)
        requires
            old(self).wf(),
            all_tagged(old(self)@),
        ensures
            final(self).wf(),
            final(self)@ == old(self)@.remove_keys(named_ids(old(self)@, instance_name@)),
            forall|i: int|
                #![trigger left@[i]]
                0 <= i < left@.len() ==> {
                    &&& named_ids(old(self)@, instance_name@).contains(left@[i]@.id)
                    &&& left@[i] == old(self)@[left@[i]@.id]
                },
            forall|i: int, j: int|
                0 <= i < j < left@.len() ==> (#[trigger] left@[i])@.id != (#[trigger] left@[j])@.id,
            forall|id: Seq<char>| #[trigger]
                named_ids(old(self)@, instance_name@).contains(id) ==> exists|i: int|
                    0 <= i < left@.len() && (#[trigger] left@[i])@.id == id,
    {
        let ids = self.peers.keys();
        let mut left: Vec<DiscoveredPeer> = Vec::new();
        let mut i: usize = 0;
        let ghost before = self@;
        let ghost named = named_ids(before, instance_name@);
        let ghost seen: Set<Seq<char>> = Set::empty();
        proof {
            assert(self@ =~= before.remove_keys(named.intersect(seen)));
        }
        while i < ids.len()
            invariant
                i <= ids@.len(),
                self.wf(),
                before == old(self)@,
                old(self).wf(),
                all_tagged(before),
                named == named_ids(before, instance_name@),
                forall|a: int, b: int|
                    0 <= a < b < ids@.len() ==> #[trigger] ids@[a]@ != #[trigger] ids@[b]@,
                forall|a: int| 0 <= a < ids@.len() ==> before.dom().contains(#[trigger] ids@[a]@),
                seen == Set::new(
                    |id: Seq<char>| exists|a: int| 0 <= a < i && #[trigger] ids@[a]@ == id,
                ),
                self@ == before.remove_keys(named.intersect(seen)),
                forall|a: int|
                    #![trigger left@[a]]
                    0 <= a < left@.len() ==> {
                        &&& named.contains(left@[a]@.id)
                        &&& seen.contains(left@[a]@.id)
                        &&& left@[a] == before[left@[a]@.id]
                    },
                forall|a: int, b: int|
                    0 <= a < b < left@.len() ==> (#[trigger] left@[a])@.id != (#[trigger] left@[b])@.id,
                forall|id: Seq<char>| #[trigger]
                    named.contains(id) && seen.contains(id) ==> exists|a: int|
                        0 <= a < left@.len() && (#[trigger] left@[a])@.id == id,
            decreases ids@.len() - i,
        {
            let ghost id = ids@[i as int]@;
            let ghost left_before = left@;
            let ghost seen_before = seen;
            let named_here = match id_tag(ids[i].as_str()) {
                Some(tag) => ends_with(instance_name, tag.as_str()),
                None => false,
            };
            assert(named_here == named.contains(id));
            assert(!seen.contains(id));
            if named_here {
                if let Some(peer) = self.peers.remove(ids[i].as_str()) {
                    left.push(peer);
                }
                assert(left@.len() == left_before.len() + 1);
                assert(left@.last()@.id == id);
            }
            proof {
                seen = Set::new(
                    |id: Seq<char>| exists|a: int| 0 <= a < i + 1 && #[trigger] ids@[a]@ == id,
                );
                assert(seen =~= seen_before.insert(id)) by {
                    assert forall|k: Seq<char>| #[trigger] seen.contains(k) <==> seen_before.insert(
                        id,
                    ).contains(k) by {
                        if k == id {
                            assert(ids@[i as int]@ == id);
                        }
                    }
                }
                assert(self@ =~= before.remove_keys(named.intersect(seen)));
                assert forall|k: Seq<char>| #[trigger] named.contains(k) && seen.contains(k) implies exists|
                    a: int,
                | 0 <= a < left@.len() && (#[trigger] left@[a])@.id == k by {
                    if k == id {
                        assert(left@[left@.len() - 1]@.id == k);
                    } else {
                        let a = choose|a: int|
                            0 <= a < left_before.len() && (#[trigger] left_before[a])@.id == k;
                        assert(left@[a] == left_before[a]);
                    }
                }
            }
            i += 1;
        }
        proof {
            assert(named.intersect(seen) =~= named) by {
                assert forall|k: Seq<char>| #[trigger] named.contains(k) implies seen.contains(k) by {
                    assert(before.dom().contains(k));
                }
            }
        }
        left
    }
}

/// The tag of an ID is its beginning of eight bytes; an ID has one just if some of its
/// first characters take eight bytes together.
pub proof fn law_tag(id: Seq<char>, n: int)
    requires
        0 <= n <= id.len(),
    ensures
        encode_utf8(id.take(n)).len() == 8 ==> has_tag(id) && tag_of(id) == id.take(n),
        has_tag(id) ==> tag_of(id).is_prefix_of(id) && encode_utf8(tag_of(id)).len() == 8,
{
    if encode_utf8(id.take(n)).len() == 8 {
        assert(is_tag(id, id.take(n)));
        lemma_tag_unique(id, id.take(n));
    }
    if has_tag(id) {
        assert(is_tag(id, tag_of(id)));
        assert(tag_of(id) =~= id.subrange(0, tag_of(id).len() as int));
    }
}

/// An address is advertised just if it is there, does not stand for every interface
/// and does not start with `127.`.
pub proof fn law_lan_address(address: Seq<char>)
    ensures
        is_lan_address(address) <==> {
            &&& address.len() != 0
            &&& !(address == "0.0.0.0"@)
            &&& address.len() < 4 || address.take(4) != "127."@
        },
{
    reveal_strlit("127.");
    if address.len() >= 4 {
        assert(address.take(4) =~= address.subrange(0, 4));
    }
}

/// Which peer a resolved service is. With an ID other than ours and an IPv4 address it
/// is a peer at the first of these, whatever IPv6 addresses it has; without one, at
/// the first IPv6 address. It is none just without an ID, with ours, or without any
/// address. Its name is the one it gives, or `unknown`.
pub proof fn law_resolved(record: ServiceRecord, our_id: Seq<char>)
    ensures
        resolved(record, our_id) is None <==> {
            ||| record.id is None
            ||| record.id.unwrap()@ == our_id
            ||| record.addresses_v4@.len() == 0 && record.addresses_v6@.len() == 0
        },
        resolved(record, our_id) matches Some(peer) ==> {
            &&& peer.id == record.id.unwrap()@
            &&& record.name is Some ==> peer.name == record.name.unwrap()@
            &&& record.name is None ==> peer.name == "unknown"@
            &&& peer.port == record.port
            &&& record.addresses_v4@.len() > 0 ==> peer.ip == record.addresses_v4@[0]@
            &&& record.addresses_v4@.len() == 0 ==> peer.ip == record.addresses_v6@[0]@
        },
{
}

/// IPv6 addresses make no difference where there is an IPv4 address.
pub proof fn law_ipv4_is_preferred(record: ServiceRecord, other: ServiceRecord, our_id: Seq<char>)
    requires
        record.addresses_v4@.len() > 0,
        other.addresses_v4@ == record.addresses_v4@,
        other.id == record.id,
        other.name == record.name,
        other.port == record.port,
    ensures
        resolved(other, our_id) == resolved(record, our_id),
        preferred_address(record) == Some(record.addresses_v4@[0]@),
{
}

/// An instance that advertises one IPv4 address is found by every other instance at
/// it, and not by itself.
pub proof fn law_advertised_address_is_found(
    advert: Advert,
    record: ServiceRecord,
    our_id: Seq<char>,
)
    requires
        record.id is Some && record.id.unwrap()@ == advert.id@,
        record.name is Some && record.name.unwrap()@ == advert.name@,
        record.port == advert.port,
        record.addresses_v4@.len() > 0 && record.addresses_v4@[0]@ == advert.address@,
    ensures
        our_id == advert.id@ ==> resolved(record, our_id) is None,
        our_id != advert.id@ ==> resolved(record, our_id) == Some(
            DiscoveredPeerView {
                id: advert.id@,
                name: advert.name@,
                ip: advert.address@,
                port: advert.port,
            },
        ),
{
}

/// A removed service names a peer just if its name ends, byte for byte, with the tag
/// of the peer's ID; the peers to forget are the known ones that it names.
pub proof fn law_removed_service_names(
    peers: Map<Seq<char>, DiscoveredPeer>,
    instance_name: Seq<char>,
    id: Seq<char>,
)
    ensures
        names_peer(instance_name, id) <==> {
            let name = encode_utf8(instance_name);
            let tag = encode_utf8(tag_of(id));
            tag.len() <= name.len() && name.skip(name.len() - tag.len()) == tag
        },
        named_ids(peers, instance_name).contains(id) <==> peers.dom().contains(id) && names_peer(
            instance_name,
            id,
        ),
{
    let name = encode_utf8(instance_name);
    let tag = encode_utf8(tag_of(id));
    if tag.len() <= name.len() {
        assert(name.skip(name.len() - tag.len()) =~= name.subrange(
            name.len() - tag.len(),
            name.len() as int,
        ));
    }
}

/// A peer stands for all of its fields.
pub proof fn law_peer_view(peer: DiscoveredPeer)
    ensures
        peer@.id == peer.id@,
        peer@.name == peer.name@,
        peer@.ip == peer.ip@,
        peer@.port == peer.port,
{
}

} // verus!
