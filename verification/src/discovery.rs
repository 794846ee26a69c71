//! What a peer advertises over mDNS, what is read back from another peer's
//! advertisement, and the table of peers currently seen on the network.
use crate::protocol::{
    OperatingSystem, AUDIO_PORT, CLIPBOARD_PORT, CONTROL_PORT, INPUT_PORT, VIDEO_PORT,
};
use crate::text::{
    format_resolution, lemma_resolution_roundtrip, parse_resolution, resolution_of, resolution_text,
};
use vstd::prelude::*;

verus! {

/// What a peer advertises of itself and what is learnt of a discovered peer.
#[derive(Debug)]
pub struct PeerAdvert {
    pub hostname: String,
    pub os: OperatingSystem,
    pub screen_width: u32,
    pub screen_height: u32,
    pub app_version: String,
    pub control_port: u16,
    pub video_port: u16,
    pub input_port: u16,
    pub clipboard_port: u16,
    pub audio_port: u16,
}

impl Clone for PeerAdvert {
    fn clone(&self) -> (copy: Self)
        ensures
            copy == *self,
    {
        PeerAdvert {
            hostname: self.hostname.clone(),
            os: self.os,
            screen_width: self.screen_width,
            screen_height: self.screen_height,
            app_version: self.app_version.clone(),
            control_port: self.control_port,
            video_port: self.video_port,
            input_port: self.input_port,
            clipboard_port: self.clipboard_port,
            audio_port: self.audio_port,
        }
    }
}

/// The description of this machine that it advertises: its host name (`unknown`
/// when it cannot be read), a 1920x1080 screen and the default ports.
pub fn local_peer(hostname: Option<String>, os: OperatingSystem, app_version: String) -> (peer:
    PeerAdvert)
    ensures
        peer.hostname@ == (match hostname {
            Some(h) => h@,
            None => "unknown"@,
        }),
        peer.os == os,
        peer.screen_width == 1920,
        peer.screen_height == 1080,
        peer.app_version == app_version,
        peer.control_port == CONTROL_PORT,
        peer.video_port == VIDEO_PORT,
        peer.input_port == INPUT_PORT,
        peer.clipboard_port == CLIPBOARD_PORT,
        peer.audio_port == AUDIO_PORT,
{
    let hostname = match hostname {
        Some(h) => h,
        None => "unknown".to_owned(),
    };
    PeerAdvert {
        hostname,
        os,
        screen_width: 1920,
        screen_height: 1080,
        app_version,
        control_port: CONTROL_PORT,
        video_port: VIDEO_PORT,
        input_port: INPUT_PORT,
        clipboard_port: CLIPBOARD_PORT,
        audio_port: AUDIO_PORT,
    }
}

/// How an operating system is named in an advertisement (its `Debug` name).
pub open spec fn os_label_text(os: OperatingSystem) -> Seq<char> {
    match os {
        OperatingSystem::Windows => "Windows"@,
        OperatingSystem::MacOS => "MacOS"@,
        OperatingSystem::Linux => "Linux"@,
    }
}

/// The operating system that an advertised `os` value names: `Windows` and `MacOS`
/// are recognised, anything else counts as Windows.
pub open spec fn os_of_label(label: Seq<char>) -> OperatingSystem {
    if label == "Windows"@ {
        OperatingSystem::Windows
    } else if label == "MacOS"@ {
        OperatingSystem::MacOS
    } else {
        OperatingSystem::Windows
    }
}

/// Names an operating system for an advertisement.
pub fn os_label(os: OperatingSystem) -> (label: String)
    ensures
        label@ == os_label_text(os),
{
    match os {
        OperatingSystem::Windows => "Windows".to_owned(),
        OperatingSystem::MacOS => "MacOS".to_owned(),
        OperatingSystem::Linux => "Linux".to_owned(),
    }
}

/// Reads the operating system from an advertised `os` value.
pub fn os_from_label(label: &String) -> (os: OperatingSystem)
    ensures
        os == os_of_label(label@),
{
    if *label == "Windows".to_owned() {
        OperatingSystem::Windows
    } else if *label == "MacOS".to_owned() {
        OperatingSystem::MacOS
    } else {
        OperatingSystem::Windows
    }
}

/// The mDNS instance name of a host: `mac2win-<hostname>`.
pub fn service_instance_name(hostname: &String) -> (name: String)
    ensures
        name@ == "mac2win-"@ + hostname@,
{
    let mut name = "mac2win-".to_owned();
    name.append(hostname.as_str());
    name
}

/// The mDNS host name of a host: `<hostname>.local.`.
pub fn service_host_name(hostname: &String) -> (name: String)
    ensures
        name@ == hostname@ + ".local."@,
{
    let mut name = hostname.clone();
    name.append(".local.");
    name
}

/// The TXT properties that a peer advertises: its operating system, its version and
/// its screen size.
pub fn advert_properties(peer: &PeerAdvert) -> (props: Vec<(String, String)>)
    ensures
        props@.len() == 3,
        props@[0].0@ == "os"@ && props@[0].1@ == os_label_text(peer.os),
        props@[1].0@ == "version"@ && props@[1].1@ == peer.app_version@,
        props@[2].0@ == "resolution"@ && props@[2].1@ == resolution_text(
            peer.screen_width,
            peer.screen_height,
        ),
{
    let mut props: Vec<(String, String)> = Vec::new();
    props.push(("os".to_owned(), os_label(peer.os)));
    props.push(("version".to_owned(), peer.app_version.clone()));
    props.push(("resolution".to_owned(), format_resolution(peer.screen_width, peer.screen_height)));
    props
}

/// The characters of an optional text, empty when there is none.
pub open spec fn text_or_empty(text: Option<String>) -> Seq<char> {
    match text {
        Some(t) => t@,
        None => Seq::empty(),
    }
}

/// What is learnt of a peer from its resolved service: the service's host name and
/// port, and the values of its `os`, `version` and `resolution` properties (each
/// `None` when absent, and read as empty text). The screen size is read as
/// [`resolution_of`] says; the media ports are the default ones.
pub fn peer_from_service(
    hostname: String,
    port: u16,
    os: Option<String>,
    version: Option<String>,
    resolution: Option<String>,
) -> (peer: PeerAdvert)
    ensures
        peer.hostname == hostname,
        peer.os == os_of_label(text_or_empty(os)),
        peer.app_version@ == text_or_empty(version),
        (peer.screen_width, peer.screen_height) == resolution_of(
            vstd::utf8::encode_utf8(text_or_empty(resolution)),
        ),
        peer.control_port == port,
        peer.video_port == VIDEO_PORT,
        peer.input_port == INPUT_PORT,
        peer.clipboard_port == CLIPBOARD_PORT,
        peer.audio_port == AUDIO_PORT,
{
    let os_text = match os {
        Some(t) => t,
        None => String::new(),
    };
    let version_text = match version {
        Some(t) => t,
        None => String::new(),
    };
    let resolution_value = match resolution {
        Some(t) => t,
        None => String::new(),
    };
    let (w, h) = parse_resolution(resolution_value.as_str());
    PeerAdvert {
        hostname,
        os: os_from_label(&os_text),
        screen_width: w,
        screen_height: h,
        app_version: version_text,
        control_port: port,
        video_port: VIDEO_PORT,
        input_port: INPUT_PORT,
        clipboard_port: CLIPBOARD_PORT,
        audio_port: AUDIO_PORT,
    }
}


/// What one peer advertises, another reads back: the operating system (for Windows
/// and macOS; Linux is read back as Windows) and the screen size.
pub proof fn lemma_advert_read_back(peer: PeerAdvert)
    ensures
        peer.os != OperatingSystem::Linux ==> os_of_label(os_label_text(peer.os)) == peer.os,
        peer.os == OperatingSystem::Linux ==> os_of_label(os_label_text(peer.os))
            == OperatingSystem::Windows,
        resolution_of(vstd::utf8::encode_utf8(resolution_text(peer.screen_width, peer.screen_height)))
            == (peer.screen_width, peer.screen_height),
{
    reveal_strlit("Windows");
    reveal_strlit("MacOS");
    reveal_strlit("Linux");
    assert("Windows"@.len() == 7 && "MacOS"@.len() == 5 && "Linux"@.len() == 5);
    assert("Linux"@[0] != "MacOS"@[0]);
    lemma_resolution_roundtrip(peer.screen_width, peer.screen_height);
}

/// The peers in `entries`, by id; a later entry for an id replaces an earlier one.
pub open spec fn entries_map(entries: Seq<(String, PeerAdvert)>) -> Map<Seq<char>, PeerAdvert>
    decreases entries.len(),
{
    if entries.len() == 0 {
        Map::empty()
    } else {
        entries_map(entries.drop_last()).insert(entries.last().0@, entries.last().1)
    }
}

/// No id occurs twice in `entries`.
pub open spec fn ids_unique(entries: Seq<(String, PeerAdvert)>) -> bool {
    forall|i: int, j: int|
        0 <= i < entries.len() && 0 <= j < entries.len() && i != j ==> #[trigger] entries[i].0@
            != #[trigger] entries[j].0@
}

/// With unique ids, the map holds exactly the entries' ids, each with its entry's peer.
proof fn lemma_entries_map(entries: Seq<(String, PeerAdvert)>)
    requires
        ids_unique(entries),
    ensures
        forall|k: Seq<char>|
            #[trigger] entries_map(entries).contains_key(k) <==> exists|i: int|
                0 <= i < entries.len() && #[trigger] entries[i].0@ == k,
        forall|i: int|
            0 <= i < entries.len() ==> #[trigger] entries_map(entries)[entries[i].0@]
                == entries[i].1,
    decreases entries.len(),
{
    if entries.len() > 0 {
        let prefix = entries.drop_last();
        assert(ids_unique(prefix)) by {
            assert forall|i: int, j: int|
                0 <= i < prefix.len() && 0 <= j < prefix.len() && i != j implies #[trigger] prefix[i].0@
                != #[trigger] prefix[j].0@ by {
                assert(prefix[i] == entries[i] && prefix[j] == entries[j]);
            }
        }
        lemma_entries_map(prefix);
        let last = entries.len() - 1;
        assert(entries.last() == entries[last]);
        assert(entries_map(entries) == entries_map(prefix).insert(entries[last].0@, entries[last].1));
        assert forall|k: Seq<char>|
            #[trigger] entries_map(entries).contains_key(k) <==> exists|i: int|
                0 <= i < entries.len() && #[trigger] entries[i].0@ == k by {
            if entries_map(entries).contains_key(k) && k != entries[last].0@ {
                let i = choose|i: int| 0 <= i < prefix.len() && #[trigger] prefix[i].0@ == k;
                assert(entries[i].0@ == k);
            }
            if exists|i: int| 0 <= i < entries.len() && #[trigger] entries[i].0@ == k {
                let i = choose|i: int| 0 <= i < entries.len() && #[trigger] entries[i].0@ == k;
                if i < last {
                    assert(prefix[i].0@ == k);
                }
            }
        }
        assert forall|i: int| 0 <= i < entries.len() implies #[trigger] entries_map(
            entries,
        )[entries[i].0@] == entries[i].1 by {
            if i < last {
                assert(prefix[i] == entries[i]);
                assert(entries[i].0@ != entries[last].0@);
            }
        }
    }
}

/// Two maps with the same keys and the same value at each key are equal.
proof fn lemma_maps_equal(a: Map<Seq<char>, PeerAdvert>, b: Map<Seq<char>, PeerAdvert>)
    requires
        forall|k: Seq<char>| a.contains_key(k) <==> b.contains_key(k),
        forall|k: Seq<char>| a.contains_key(k) ==> a[k] == b[k],
    ensures
        a == b,
{
    assert(a =~= b);
}

/// The position of the entry with service id `id`, if any.
fn position(entries: &Vec<(String, PeerAdvert)>, id: &String) -> (pos: Option<usize>)
    ensures
        match pos {
            Some(i) => i < entries@.len() && entries@[i as int].0@ == id@,
            None => forall|i: int| 0 <= i < entries@.len() ==> #[trigger] entries@[i].0@ != id@,
        },
{
    let mut i: usize = 0;
    while i < entries.len()
        invariant
            i <= entries@.len(),
            forall|j: int| 0 <= j < i ==> #[trigger] entries@[j].0@ != id@,
        decreases entries@.len() - i,
    {
        if entries[i].0 == *id {
            return Some(i);
        }
        i = i + 1;
    }
    None
}

/// The peers seen on the network, by service id.
pub struct PeerTable {
    entries: Vec<(String, PeerAdvert)>,
}

impl View for PeerTable {
    type V = Map<Seq<char>, PeerAdvert>;

    /// The peers in the table, by service id.
    closed spec fn view(&self) -> Map<Seq<char>, PeerAdvert> {
        entries_map(self.entries@)
    }
}

impl PeerTable {
    /// The table's internal invariant: no service id occurs twice.
    #[verifier::type_invariant]
    spec fn wf(&self) -> bool {
        ids_unique(self.entries@)
    }

    /// An empty table.
    pub fn new() -> (table: Self)
        ensures
            table.view() == Map::<Seq<char>, PeerAdvert>::empty(),
    {
        PeerTable { entries: Vec::new() }
    }

    /// Records a peer whose service was resolved: it is now the peer under `id`.
    pub fn record_found(&mut self, id: String, peer: PeerAdvert)
        ensures
            final(self).view() == old(self).view().insert(id@, peer),
    {
        proof {
            use_type_invariant(&*self);
        }
        let mut entries: Vec<(String, PeerAdvert)> = Vec::new();
        std::mem::swap(&mut entries, &mut self.entries);
        let ghost old_entries = entries@;
        proof { lemma_entries_map(old_entries); }
        match position(&entries, &id) {
            Some(i) => {
                let ghost key = id@;
                entries.set(i, (id, peer));
                proof {
                    let e = entries@;
                    assert(ids_unique(e)) by {
                        assert forall|a: int, b: int|
                            0 <= a < e.len() && 0 <= b < e.len() && a != b implies #[trigger] e[a].0@
                            != #[trigger] e[b].0@ by {
                            assert(e[a].0@ == old_entries[a].0@);
                            assert(e[b].0@ == old_entries[b].0@);
                        }
                    }
                    lemma_entries_map(e);
                    let expected = entries_map(old_entries).insert(key, peer);
                    assert forall|k: Seq<char>| entries_map(e).contains_key(k) <==> expected.contains_key(k) by {
                        if expected.contains_key(k) && k != key {
                            let j = choose|j: int| 0 <= j < old_entries.len() && #[trigger] old_entries[j].0@ == k;
                            assert(e[j].0@ == k);
                        }
                        if k == key {
                            assert(e[i as int].0@ == key);
                        }
                        if entries_map(e).contains_key(k) {
                            let j = choose|j: int| 0 <= j < e.len() && #[trigger] e[j].0@ == k;
                            assert(old_entries[j].0@ == k);
                        }
                    }
                    assert forall|k: Seq<char>| entries_map(e).contains_key(k) implies entries_map(e)[k] == expected[k] by {
                        let j = choose|j: int| 0 <= j < e.len() && #[trigger] e[j].0@ == k;
                        assert(old_entries[j].0@ == k);
                    }
                    lemma_maps_equal(entries_map(e), expected);
                }
            },
            None => {
                let ghost key = id@;
                entries.push((id, peer));
                proof {
                    let e = entries@;
                    assert(e.drop_last() =~= old_entries);
                    assert(ids_unique(e)) by {
                        assert forall|a: int, b: int|
                            0 <= a < e.len() && 0 <= b < e.len() && a != b implies #[trigger] e[a].0@
                            != #[trigger] e[b].0@ by {
                            if a < old_entries.len() {
                                assert(e[a] == old_entries[a]);
                            }
                            if b < old_entries.len() {
                                assert(e[b] == old_entries[b]);
                            }
                        }
                    }
                }
            },
        }
        self.entries = entries;
    }

    /// Records a peer whose service was removed; returns whether it was in the table.
    pub fn record_lost(&mut self, id: &String) -> (was_present: bool)
        ensures
            final(self).view() == old(self).view().remove(id@),
            was_present == old(self).view().contains_key(id@),
    {
        proof {
            use_type_invariant(&*self);
        }
        let mut entries: Vec<(String, PeerAdvert)> = Vec::new();
        std::mem::swap(&mut entries, &mut self.entries);
        let ghost old_entries = entries@;
        proof { lemma_entries_map(old_entries); }
        let was_present = match position(&entries, id) {
            Some(i) => {
                entries.remove(i);
                proof {
                    let e = entries@;
                    assert forall|a: int| 0 <= a < e.len() implies #[trigger] e[a] == old_entries[if a < i { a } else { a + 1 }] by {}
                    assert(ids_unique(e)) by {
                        assert forall|a: int, b: int|
                            0 <= a < e.len() && 0 <= b < e.len() && a != b implies #[trigger] e[a].0@
                            != #[trigger] e[b].0@ by {
                            assert(e[a] == old_entries[if a < i { a } else { a + 1 }]);
                            assert(e[b] == old_entries[if b < i { b } else { b + 1 }]);
                        }
                    }
                    lemma_entries_map(e);
                    let expected = entries_map(old_entries).remove(id@);
                    assert forall|k: Seq<char>| entries_map(e).contains_key(k) <==> expected.contains_key(k) by {
                        if expected.contains_key(k) {
                            let j = choose|j: int| 0 <= j < old_entries.len() && #[trigger] old_entries[j].0@ == k;
                            assert(j != i);
                            let a = if j < i { j } else { j - 1 };
                            assert(e[a] == old_entries[j]);
                        }
                        if entries_map(e).contains_key(k) {
                            let a = choose|a: int| 0 <= a < e.len() && #[trigger] e[a].0@ == k;
                            let j = if a < i { a } else { a + 1 };
                            assert(e[a] == old_entries[j]);
                            assert(j != i);
                        }
                    }
                    assert forall|k: Seq<char>| entries_map(e).contains_key(k) implies entries_map(e)[k] == expected[k] by {
                        let a = choose|a: int| 0 <= a < e.len() && #[trigger] e[a].0@ == k;
                        let j = if a < i { a } else { a + 1 };
                        assert(e[a] == old_entries[j]);
                    }
                    lemma_maps_equal(entries_map(e), expected);
                }
                true
            },
            None => {
                proof {
                    assert(entries_map(old_entries).remove(id@) =~= entries_map(old_entries));
                }
                false
            },
        };
        self.entries = entries;
        was_present
    }

    /// The peers in the table, each with its service id, each once.
    pub fn peers(&self) -> (list: Vec<(String, PeerAdvert)>)
        ensures
            ids_unique(list@),
            entries_map(list@) == self.view(),
            list@.len() == self.view().len(),
    {
        proof {
            use_type_invariant(self);
        }
        let mut list: Vec<(String, PeerAdvert)> = Vec::new();
        let mut i: usize = 0;
        while i < self.entries.len()
            invariant
                i <= self.entries@.len(),
                list@ == self.entries@.take(i as int),
            decreases self.entries@.len() - i,
        {
            let entry = (self.entries[i].0.clone(), self.entries[i].1.clone());
            list.push(entry);
            i = i + 1;
            assert(list@ =~= self.entries@.take(i as int));
        }
        assert(list@ =~= self.entries@);
        proof { lemma_entries_map_len(self.entries@); }
        list
    }
}

/// A peer recorded as found is listed under its id with what was learnt of it, and
/// once recorded as lost it is no longer listed; other peers stay as they were.
pub proof fn lemma_found_then_lost(
    peers: Map<Seq<char>, PeerAdvert>,
    id: Seq<char>,
    peer: PeerAdvert,
)
    ensures
        peers.insert(id, peer).contains_key(id),
        peers.insert(id, peer)[id] == peer,
        !peers.insert(id, peer).remove(id).contains_key(id),
        forall|other: Seq<char>|
            other != id ==> (#[trigger] peers.insert(id, peer).remove(id).contains_key(other)
                <==> peers.contains_key(other)),
        forall|other: Seq<char>|
            other != id && peers.contains_key(other) ==> #[trigger] peers.insert(id, peer).remove(
                id,
            )[other] == peers[other],
{
}

/// The peers after a sequence of changes, each a service id with the peer found
/// under it (`Some`) or the mark that it was lost (`None`), applied in order to
/// the peers `start`, as `record_found` and `record_lost` apply them.
pub open spec fn after_changes(
    start: Map<Seq<char>, PeerAdvert>,
    changes: Seq<(Seq<char>, Option<PeerAdvert>)>,
) -> Map<Seq<char>, PeerAdvert>
    decreases changes.len(),
{
    if changes.len() == 0 {
        start
    } else {
        let before = after_changes(start, changes.drop_last());
        match changes.last().1 {
            Some(peer) => before.insert(changes.last().0, peer),
            None => before.remove(changes.last().0),
        }
    }
}

/// The last change among `changes` for service id `id`, if there is one.
pub open spec fn last_change_of(changes: Seq<(Seq<char>, Option<PeerAdvert>)>, id: Seq<char>) -> Option<
    Option<PeerAdvert>,
>
    decreases changes.len(),
{
    if changes.len() == 0 {
        None
    } else if changes.last().0 == id {
        Some(changes.last().1)
    } else {
        last_change_of(changes.drop_last(), id)
    }
}

/// After any sequence of found and lost changes, a service id is listed exactly
/// when its last change found a peer (or, when it had no change, when it was
/// listed before), and then with the peer of that last change.
pub proof fn lemma_changes_keep_last_peer(
    start: Map<Seq<char>, PeerAdvert>,
    changes: Seq<(Seq<char>, Option<PeerAdvert>)>,
)
    ensures
        forall|id: Seq<char>|
            match #[trigger] last_change_of(changes, id) {
                None => (after_changes(start, changes).contains_key(id) <==> start.contains_key(
                    id,
                )) && (start.contains_key(id) ==> after_changes(start, changes)[id] == start[id]),
                Some(None) => !after_changes(start, changes).contains_key(id),
                Some(Some(peer)) => after_changes(start, changes).contains_key(id) && after_changes(
                    start,
                    changes,
                )[id] == peer,
            },
    decreases changes.len(),
{
    if changes.len() > 0 {
        lemma_changes_keep_last_peer(start, changes.drop_last());
        assert forall|id: Seq<char>|
            match #[trigger] last_change_of(changes, id) {
                None => (after_changes(start, changes).contains_key(id) <==> start.contains_key(
                    id,
                )) && (start.contains_key(id) ==> after_changes(start, changes)[id] == start[id]),
                Some(None) => !after_changes(start, changes).contains_key(id),
                Some(Some(peer)) => after_changes(start, changes).contains_key(id) && after_changes(
                    start,
                    changes,
                )[id] == peer,
            } by {
            let _ = last_change_of(changes.drop_last(), id);
        }
    }
}

/// With unique ids, the map has one key for each entry.
proof fn lemma_entries_map_len(entries: Seq<(String, PeerAdvert)>)
    requires
        ids_unique(entries),
    ensures
        entries_map(entries).len() == entries.len(),
        entries_map(entries).dom().finite(),
    decreases entries.len(),
{
    if entries.len() > 0 {
        let prefix = entries.drop_last();
        assert(ids_unique(prefix)) by {
            assert forall|i: int, j: int|
                0 <= i < prefix.len() && 0 <= j < prefix.len() && i != j implies #[trigger] prefix[i].0@
                != #[trigger] prefix[j].0@ by {
                assert(prefix[i] == entries[i] && prefix[j] == entries[j]);
            }
        }
        lemma_entries_map_len(prefix);
        lemma_entries_map(prefix);
        let last = entries.len() - 1;
        if entries_map(prefix).contains_key(entries[last].0@) {
            let i = choose|i: int| 0 <= i < prefix.len() && #[trigger] prefix[i].0@ == entries[last].0@;
            assert(entries[i].0@ == entries[last].0@);
        }
    }
}

} // verus!
