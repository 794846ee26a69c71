//! Clipboard synchronisation: which incoming updates are applied, when a local
//! change is announced, and how clipboard content is read and written.
use crate::hashing::{
    bytes_hash, hash_bytes, hash_str, hash_str_pair, hash_strs, pair_hash, str_hash, strs_hash,
};
use crate::imaging::{
    decoded_rgba8, png_encoding, rgba_dimensions, rgba_from_raw, rgba_into_raw,
    rgba_load_from_memory, rgba_write_png,
};
use crate::protocol::{ClipboardContent, ClipboardDirection, ClipboardSettings};
use crate::text::{join_lines, joined_lines, string_views};
use vstd::prelude::*;

verus! {

/// Something that happened to the clipboard.
#[derive(Debug, Clone)]
pub enum ClipboardEvent {
    LocalChanged { content: ClipboardContent, sequence: u64 },
    RemoteReceived { content: ClipboardContent, sequence: u64 },
    SyncToggled { enabled: bool },
    Error(String),
}

/// Number of bytes of the UTF-8 encoding of a text, as `str::len` gives it.
pub open spec fn byte_len(s: Seq<char>) -> nat {
    (vstd::utf8::encode_utf8(s).len() as usize) as nat
}

/// Total number of UTF-8 bytes of the texts.
pub open spec fn total_byte_len(parts: Seq<Seq<char>>) -> nat
    decreases parts.len(),
{
    if parts.len() == 0 {
        0
    } else {
        total_byte_len(parts.drop_last()) + byte_len(parts.last())
    }
}

/// Size in bytes of clipboard content: the text's bytes, the HTML's and the plain
/// text's bytes together, the image data's bytes, or the bytes of all file paths.
pub open spec fn content_size(content: ClipboardContent) -> nat {
    match content {
        ClipboardContent::Text(s) => byte_len(s@),
        ClipboardContent::RichText { html, plain } => byte_len(html@) + byte_len(plain@),
        ClipboardContent::Image { data, .. } => data@.len(),
        ClipboardContent::FileList { paths } => total_byte_len(string_views(paths@)),
    }
}

/// A size, capped at `u64::MAX`.
pub open spec fn saturated(n: nat) -> u64 {
    if n <= u64::MAX {
        n as u64
    } else {
        u64::MAX
    }
}

/// Size in bytes of clipboard content, saturating at `u64::MAX`.
pub fn content_size_of(content: &ClipboardContent) -> (size: u64)
    ensures
        size == saturated(content_size(*content)),
{
    match content {
        ClipboardContent::Text(s) => s.as_str().len() as u64,
        ClipboardContent::RichText { html, plain } => {
            (html.as_str().len() as u64).saturating_add(plain.as_str().len() as u64)
        },
        ClipboardContent::Image { data, .. } => data.len() as u64,
        ClipboardContent::FileList { paths } => {
            let mut total: u64 = 0;
            let mut i: usize = 0;
            while i < paths.len()
                invariant
                    i <= paths@.len(),
                    total == saturated(total_byte_len(string_views(paths@.take(i as int)))),
                decreases paths@.len() - i,
            {
                let n = paths[i].as_str().len() as u64;
                proof {
                    let v = string_views(paths@.take(i + 1));
                    assert(v.drop_last() =~= string_views(paths@.take(i as int)));
                    assert(v.last() == paths@[i as int]@);
                }
                total = total.saturating_add(n);
                i = i + 1;
            }
            assert(paths@.take(i as int) =~= paths@);
            total
        },
    }
}

/// What is done with clipboard content received from the peer.
#[derive(Debug, Clone, Copy, PartialEq, Eq, Structural)]
pub enum IncomingDecision {
    /// Sharing is off, or content only flows from this machine to the peer.
    NotAccepted,
    /// The content is an image while image syncing is off, or a file list while
    /// file syncing is off.
    KindNotSynced,
    /// The content is larger than the configured maximum.
    TooLarge,
    /// The sequence number is not newer than that of the last applied update.
    Stale,
    /// The content is written to the local clipboard.
    Apply,
}

/// Whether content of this kind is shared under `settings`: images only while image
/// syncing is on, file lists only while file syncing is on, texts always.
pub open spec fn kind_synced(settings: ClipboardSettings, content: ClipboardContent) -> bool {
    match content {
        ClipboardContent::Image { .. } => settings.sync_images,
        ClipboardContent::FileList { .. } => settings.sync_files,
        _ => true,
    }
}

/// Whether local content may be sent to the peer under `settings`: its kind is
/// synced and its size is at most the configured maximum.
pub open spec fn outgoing_allowed(settings: ClipboardSettings, content: ClipboardContent) -> bool {
    kind_synced(settings, content) && content_size(content) <= settings.max_content_size
}

/// The decision on an update with `content` and `sequence`, under `settings`, when
/// the last applied update had sequence number `remote_sequence`.
pub open spec fn incoming_decision(
    settings: ClipboardSettings,
    remote_sequence: u64,
    content: ClipboardContent,
    sequence: u64,
) -> IncomingDecision {
    if !settings.enabled || settings.direction == ClipboardDirection::LocalToRemote {
        IncomingDecision::NotAccepted
    } else if !kind_synced(settings, content) {
        IncomingDecision::KindNotSynced
    } else if content_size(content) > settings.max_content_size {
        IncomingDecision::TooLarge
    } else if sequence <= remote_sequence {
        IncomingDecision::Stale
    } else {
        IncomingDecision::Apply
    }
}

/// The state of clipboard synchronisation on one machine.
#[derive(Debug, Clone, Copy, PartialEq, Eq, Structural)]
pub struct ClipboardSync {
    pub settings: ClipboardSettings,
    /// Sequence number of the last local change announced to the peer.
    pub local_sequence: u64,
    /// Sequence number of the last update from the peer that was applied.
    pub remote_sequence: u64,
    /// Fingerprint of the local clipboard content when it was last read, if any.
    pub last_hash: Option<u64>,
}

impl ClipboardSync {
    /// The decision on an incoming update in this state.
    pub open spec fn incoming(self, content: ClipboardContent, sequence: u64) -> IncomingDecision {
        incoming_decision(self.settings, self.remote_sequence, content, sequence)
    }

    /// The state after an incoming update was decided on: an applied update's
    /// sequence number becomes the last applied one.
    pub open spec fn after_incoming(self, content: ClipboardContent, sequence: u64) -> Self {
        if self.incoming(content, sequence) == IncomingDecision::Apply {
            ClipboardSync { remote_sequence: sequence, ..self }
        } else {
            self
        }
    }

    /// The state after the local clipboard was read (`None` when it held nothing
    /// readable, else the content and its fingerprint), and the sequence number
    /// under which the content is announced to the peer: only content that changed
    /// and may be sent (see [`outgoing_allowed`]) is announced. A change that may
    /// not be sent is remembered, so it is not weighed again while it stays.
    pub open spec fn observed(self, reading: Option<(ClipboardContent, u64)>) -> (Self, Option<u64>) {
        match reading {
            None => (ClipboardSync { last_hash: None, ..self }, None),
            Some((content, h)) => if self.last_hash == Some(h) {
                (self, None)
            } else if outgoing_allowed(self.settings, content) {
                let next = (self.local_sequence + 1) as u64;
                (ClipboardSync { local_sequence: next, last_hash: Some(h), ..self }, Some(next))
            } else {
                (ClipboardSync { last_hash: Some(h), ..self }, None)
            },
        }
    }

    /// Whether the local clipboard is read on a polling round: sharing is on and
    /// content may flow from this machine to the peer.
    pub open spec fn polls(self) -> bool {
        self.settings.enabled && self.settings.direction != ClipboardDirection::RemoteToLocal
    }

    /// A polling round that read `reading` when the clipboard is read: the new state
    /// and the sequence number announced, if any. A round that does not read the
    /// clipboard changes nothing and announces nothing.
    pub open spec fn poll_round(self, reading: Option<(ClipboardContent, u64)>) -> (Self, Option<
        u64,
    >) {
        if self.polls() {
            self.observed(reading)
        } else {
            (self, None)
        }
    }

    /// Polling rounds in order: the final state and what each round announced.
    pub open spec fn poll_rounds(self, readings: Seq<Option<(ClipboardContent, u64)>>) -> (
        Self,
        Seq<Option<u64>>,
    )
        decreases readings.len(),
    {
        if readings.len() == 0 {
            (self, Seq::empty())
        } else {
            let (before, announced) = self.poll_rounds(readings.drop_last());
            let (after, last) = before.poll_round(readings.last());
            (after, announced.push(last))
        }
    }

    /// Fresh synchronisation state with the given settings.
    pub fn new(settings: ClipboardSettings) -> (sync: Self)
        ensures
            sync.settings == settings,
            sync.local_sequence == 0,
            sync.remote_sequence == 0,
            sync.last_hash is None,
    {
        ClipboardSync { settings, local_sequence: 0, remote_sequence: 0, last_hash: None }
    }

    /// Whether the local clipboard is to be read on this polling round: sharing is
    /// on and content may flow from this machine to the peer.
    pub fn polling_enabled(&self) -> (enabled: bool)
        ensures
            enabled == self.polls(),
            enabled <==> self.settings.enabled && (self.settings.direction
                == ClipboardDirection::LocalToRemote || self.settings.direction
                == ClipboardDirection::Bidirectional),
    {
        self.settings.enabled && self.settings.direction != ClipboardDirection::RemoteToLocal
    }

    /// Whether a local file list is to be read when the clipboard holds no text and
    /// no image.
    pub fn file_reading_enabled(&self) -> (enabled: bool)
        ensures
            enabled == self.settings.sync_files,
    {
        self.settings.sync_files
    }

    /// Whether a local image is to be read when the clipboard holds no text.
    pub fn image_reading_enabled(&self) -> (enabled: bool)
        ensures
            enabled == self.settings.sync_images,
    {
        self.settings.sync_images
    }

    /// Decides on clipboard content received from the peer with a sequence number.
    pub fn accept_incoming(&mut self, content: &ClipboardContent, sequence: u64) -> (decision:
        IncomingDecision)
        ensures
            decision == old(self).incoming(*content, sequence),
            *final(self) == old(self).after_incoming(*content, sequence),
            decision == IncomingDecision::NotAccepted <==> !old(self).settings.enabled
                || old(self).settings.direction == ClipboardDirection::LocalToRemote,
            decision == IncomingDecision::KindNotSynced <==> old(self).settings.enabled
                && old(self).settings.direction != ClipboardDirection::LocalToRemote && ((
            *content is Image && !old(self).settings.sync_images) || (*content is FileList
                && !old(self).settings.sync_files)),
            decision == IncomingDecision::Apply <==> old(self).settings.enabled
                && old(self).settings.direction != ClipboardDirection::LocalToRemote && (
            *content is Image ==> old(self).settings.sync_images) && (*content is FileList
                ==> old(self).settings.sync_files) && content_size(*content)
                <= old(self).settings.max_content_size && sequence > old(self).remote_sequence,
            final(self).remote_sequence == (if decision == IncomingDecision::Apply {
                sequence
            } else {
                old(self).remote_sequence
            }),
    {
        if !self.settings.enabled || self.settings.direction == ClipboardDirection::LocalToRemote {
            return IncomingDecision::NotAccepted;
        }
        let synced = match content {
            ClipboardContent::Image { .. } => self.settings.sync_images,
            ClipboardContent::FileList { .. } => self.settings.sync_files,
            _ => true,
        };
        if !synced {
            return IncomingDecision::KindNotSynced;
        }
        let size = content_size_of(content);
        if size > self.settings.max_content_size as u64 {
            return IncomingDecision::TooLarge;
        }
        if sequence <= self.remote_sequence {
            return IncomingDecision::Stale;
        }
        self.remote_sequence = sequence;
        IncomingDecision::Apply
    }

    /// Whether local content may be sent to the peer under the current settings.
    pub fn outgoing_allowed(&self, content: &ClipboardContent) -> (allowed: bool)
        ensures
            allowed == outgoing_allowed(self.settings, *content),
            allowed <==> content_size(*content) <= self.settings.max_content_size && (
            *content is Image ==> self.settings.sync_images) && (*content is FileList
                ==> self.settings.sync_files),
    {
        let synced = match content {
            ClipboardContent::Image { .. } => self.settings.sync_images,
            ClipboardContent::FileList { .. } => self.settings.sync_files,
            _ => true,
        };
        synced && content_size_of(content) <= self.settings.max_content_size as u64
    }

    /// Records a reading of the local clipboard; returns the sequence number under
    /// which a changed content is announced to the peer.
    pub fn observe_local(&mut self, reading: &Option<(ClipboardContent, u64)>) -> (announced:
        Option<u64>)
        requires
            *reading matches Some((c, h)) && old(self).last_hash != Some(h) && outgoing_allowed(
                old(self).settings,
                c,
            ) ==> old(self).local_sequence < u64::MAX,
        ensures
            (*final(self), announced) == old(self).observed(*reading),
    {
        match reading {
            None => {
                self.last_hash = None;
                None
            },
            Some((content, h)) => {
                if self.last_hash == Some(*h) {
                    None
                } else if self.outgoing_allowed(content) {
                    self.local_sequence = self.local_sequence + 1;
                    self.last_hash = Some(*h);
                    Some(self.local_sequence)
                } else {
                    self.last_hash = Some(*h);
                    None
                }
            },
        }
    }

    /// Replaces the settings; returns the new `enabled` flag when it changed.
    pub fn update_settings(&mut self, new_settings: ClipboardSettings) -> (toggled: Option<bool>)
        ensures
            *final(self) == (ClipboardSync { settings: new_settings, ..*old(self) }),
            toggled == (if old(self).settings.enabled != new_settings.enabled {
                Some(new_settings.enabled)
            } else {
                None
            }),
    {
        let was_enabled = self.settings.enabled;
        self.settings = new_settings;
        if was_enabled != new_settings.enabled {
            Some(new_settings.enabled)
        } else {
            None
        }
    }
}

/// An update that was applied is not applied again: received a second time, it is
/// stale.
pub proof fn lemma_incoming_replay_is_stale(
    sync: ClipboardSync,
    content: ClipboardContent,
    sequence: u64,
)
    requires
        sync.incoming(content, sequence) == IncomingDecision::Apply,
    ensures
        sync.after_incoming(content, sequence).incoming(content, sequence)
            == IncomingDecision::Stale,
{
}

/// The sequence number of the last applied update never decreases, and an applied
/// update is newer than every update applied before it.
pub proof fn lemma_incoming_sequences_increase(
    sync: ClipboardSync,
    content: ClipboardContent,
    sequence: u64,
)
    ensures
        sync.after_incoming(content, sequence).remote_sequence >= sync.remote_sequence,
        sync.incoming(content, sequence) == IncomingDecision::Apply ==> sequence
            > sync.remote_sequence,
{
}

/// Nothing received is applied while sharing is off or flows only from this machine
/// to the peer, and the state stays as it was.
pub proof fn lemma_one_way_or_disabled_ignores_peer(
    sync: ClipboardSync,
    content: ClipboardContent,
    sequence: u64,
)
    requires
        !sync.settings.enabled || sync.settings.direction == ClipboardDirection::LocalToRemote,
    ensures
        sync.incoming(content, sequence) == IncomingDecision::NotAccepted,
        sync.after_incoming(content, sequence) == sync,
{
}

/// An update from the peer is refused outright exactly when sharing is off or
/// content only flows from this machine to the peer; receive-only and
/// bidirectional sharing decide every update alike.
pub proof fn lemma_incoming_refused_only_when_off_or_push_only(
    sync: ClipboardSync,
    content: ClipboardContent,
    sequence: u64,
)
    ensures
        sync.incoming(content, sequence) == IncomingDecision::NotAccepted <==> !sync.settings.enabled
            || sync.settings.direction == ClipboardDirection::LocalToRemote,
        (ClipboardSync {
            settings: ClipboardSettings { direction: ClipboardDirection::RemoteToLocal, ..sync.settings },
            ..sync
        }).incoming(content, sequence) == (ClipboardSync {
            settings: ClipboardSettings { direction: ClipboardDirection::Bidirectional, ..sync.settings },
            ..sync
        }).incoming(content, sequence),
{
}

/// With sharing on and content allowed to flow from the peer, an update whose
/// kind is synced (images while image syncing is on, file lists while file syncing
/// is on, texts and rich texts always), whose size is within the maximum and whose
/// sequence number is newer than the last applied one is applied: its sequence
/// number becomes the last applied one and nothing else changes.
pub proof fn lemma_receiving_applies_newer_content(
    sync: ClipboardSync,
    content: ClipboardContent,
    sequence: u64,
)
    requires
        sync.settings.enabled,
        sync.settings.direction == ClipboardDirection::RemoteToLocal || sync.settings.direction
            == ClipboardDirection::Bidirectional,
        content is Image ==> sync.settings.sync_images,
        content is FileList ==> sync.settings.sync_files,
        content_size(content) <= sync.settings.max_content_size,
        sequence > sync.remote_sequence,
    ensures
        sync.incoming(content, sequence) == IncomingDecision::Apply,
        sync.after_incoming(content, sequence) == (ClipboardSync {
            remote_sequence: sequence,
            ..sync
        }),
{
}

/// An update that sharing lets in is dropped for its kind exactly when it is an
/// image while image syncing is off, or a file list while file syncing is off.
pub proof fn lemma_incoming_kind_check(
    sync: ClipboardSync,
    content: ClipboardContent,
    sequence: u64,
)
    ensures
        sync.incoming(content, sequence) == IncomingDecision::KindNotSynced <==> sync.settings.enabled
            && sync.settings.direction != ClipboardDirection::LocalToRemote && ((content is Image
            && !sync.settings.sync_images) || (content is FileList && !sync.settings.sync_files)),
        content is Text || content is RichText ==> sync.incoming(content, sequence)
            != IncomingDecision::KindNotSynced,
{
}

/// The decision on an incoming image does not depend on file syncing, that on a
/// file list does not depend on image syncing, and that on a text or rich text
/// depends on neither.
pub proof fn lemma_incoming_kind_flags_independent(
    sync: ClipboardSync,
    content: ClipboardContent,
    sequence: u64,
    sync_images: bool,
    sync_files: bool,
)
    ensures
        content is Image ==> (ClipboardSync {
            settings: ClipboardSettings { sync_files, ..sync.settings },
            ..sync
        }).incoming(content, sequence) == sync.incoming(content, sequence),
        content is FileList ==> (ClipboardSync {
            settings: ClipboardSettings { sync_images, ..sync.settings },
            ..sync
        }).incoming(content, sequence) == sync.incoming(content, sequence),
        content is Text || content is RichText ==> (ClipboardSync {
            settings: ClipboardSettings { sync_images, sync_files, ..sync.settings },
            ..sync
        }).incoming(content, sequence) == sync.incoming(content, sequence),
{
}

/// Local content may be sent exactly when its size is within the maximum and it is
/// not an image while image syncing is off, nor a file list while file syncing is
/// off; whether an image may be sent does not depend on file syncing, whether a
/// file list may be sent does not depend on image syncing, and texts and rich
/// texts depend on neither.
pub proof fn lemma_outgoing_kinds(
    settings: ClipboardSettings,
    content: ClipboardContent,
    sync_images: bool,
    sync_files: bool,
)
    ensures
        outgoing_allowed(settings, content) <==> content_size(content) <= settings.max_content_size
            && (content is Image ==> settings.sync_images) && (content is FileList
            ==> settings.sync_files),
        content is Image ==> outgoing_allowed(ClipboardSettings { sync_files, ..settings }, content)
            == outgoing_allowed(settings, content),
        content is FileList ==> outgoing_allowed(ClipboardSettings { sync_images, ..settings }, content)
            == outgoing_allowed(settings, content),
        content is Text || content is RichText ==> outgoing_allowed(
            ClipboardSettings { sync_images, sync_files, ..settings },
            content,
        ) == outgoing_allowed(settings, content),
{
}

/// The local clipboard is polled exactly when sharing is on and content may flow
/// from this machine to the peer: push-only or bidirectional.
pub proof fn lemma_push_directions_poll(sync: ClipboardSync)
    ensures
        sync.polls() <==> sync.settings.enabled && (sync.settings.direction
            == ClipboardDirection::LocalToRemote || sync.settings.direction
            == ClipboardDirection::Bidirectional),
{
}

/// With sharing on and content allowed to flow to the peer, a polling round that
/// reads changed content of a synced kind within the maximum size announces it
/// with the next sequence number and remembers its fingerprint.
pub proof fn lemma_changed_local_content_announced(
    sync: ClipboardSync,
    content: ClipboardContent,
    hash: u64,
)
    requires
        sync.settings.enabled,
        sync.settings.direction == ClipboardDirection::LocalToRemote || sync.settings.direction
            == ClipboardDirection::Bidirectional,
        sync.last_hash != Some(hash),
        content is Image ==> sync.settings.sync_images,
        content is FileList ==> sync.settings.sync_files,
        content_size(content) <= sync.settings.max_content_size,
        sync.local_sequence < u64::MAX,
    ensures
        sync.poll_round(Some((content, hash))) == (
            ClipboardSync {
                local_sequence: (sync.local_sequence + 1) as u64,
                last_hash: Some(hash),
                ..sync
            },
            Some((sync.local_sequence + 1) as u64),
        ),
        sync.observed(Some((content, hash))).1 == Some((sync.local_sequence + 1) as u64),
{
}

/// Content that was announced is not announced again while it stays on the
/// clipboard, each announcement carries the next sequence number, and after a
/// reading of nothing the same content is announced anew.
pub proof fn lemma_local_change_announced_once(
    sync: ClipboardSync,
    content: ClipboardContent,
    hash: u64,
)
    requires
        sync.last_hash != Some(hash),
        outgoing_allowed(sync.settings, content),
        sync.local_sequence + 2 <= u64::MAX,
    ensures
        sync.observed(Some((content, hash))).1 == Some((sync.local_sequence + 1) as u64),
        sync.observed(Some((content, hash))).0.observed(Some((content, hash))).1 is None,
        sync.observed(Some((content, hash))).0.observed(None).0.observed(Some((content, hash))).1
            == Some((sync.local_sequence + 2) as u64),
{
}

/// Local content that may not be sent (its kind is not synced, or it is larger than
/// the configured maximum) is never announced, and the sequence number stays.
pub proof fn lemma_unsendable_content_not_announced(
    sync: ClipboardSync,
    content: ClipboardContent,
    hash: u64,
)
    requires
        !outgoing_allowed(sync.settings, content),
    ensures
        sync.observed(Some((content, hash))).1 is None,
        sync.observed(Some((content, hash))).0.local_sequence == sync.local_sequence,
{
}

/// While the clipboard is not polled (sharing off, or receive-only), any number of
/// polling rounds leaves the state as it is, so the sequence number and the last
/// fingerprint are kept, and nothing is announced.
pub proof fn lemma_unpolled_rounds_keep_state(
    sync: ClipboardSync,
    readings: Seq<Option<(ClipboardContent, u64)>>,
)
    requires
        !sync.polls(),
    ensures
        sync.poll_rounds(readings).0 == sync,
        sync.poll_rounds(readings).1 == Seq::new(readings.len(), |i: int| None::<u64>),
    decreases readings.len(),
{
    if readings.len() > 0 {
        lemma_unpolled_rounds_keep_state(sync, readings.drop_last());
        assert(sync.poll_rounds(readings).1 =~= Seq::new(readings.len(), |i: int| None::<u64>));
    }
}

/// Content already announced is not announced again when polling resumes with any
/// settings while it is still on the clipboard.
pub proof fn lemma_resumed_polling_does_not_resend(
    sync: ClipboardSync,
    settings: ClipboardSettings,
    content: ClipboardContent,
    hash: u64,
)
    requires
        sync.last_hash == Some(hash),
    ensures
        (ClipboardSync { settings, ..sync }).poll_round(Some((content, hash))) == (
            ClipboardSync { settings, ..sync },
            None::<u64>,
        ),
{
}

/// Number of announcements among what polling rounds announced.
pub open spec fn announcement_count(announced: Seq<Option<u64>>) -> nat
    decreases announced.len(),
{
    if announced.len() == 0 {
        0
    } else {
        announcement_count(announced.drop_last()) + if announced.last() is Some {
            1nat
        } else {
            0nat
        }
    }
}

/// Over any polling rounds, the announcements carry the sequence numbers that
/// follow the starting one, in order, without gap or repeat; the final sequence
/// number is that of the last announcement; and a round announces only content
/// that may be sent and whose fingerprint differs from the one remembered before
/// that round.
pub proof fn lemma_poll_rounds_number_consecutively(
    sync: ClipboardSync,
    readings: Seq<Option<(ClipboardContent, u64)>>,
)
    requires
        sync.local_sequence + readings.len() <= u64::MAX,
    ensures
        sync.poll_rounds(readings).1.len() == readings.len(),
        sync.poll_rounds(readings).0.local_sequence == sync.local_sequence + announcement_count(
            sync.poll_rounds(readings).1,
        ),
        sync.poll_rounds(readings).0.settings == sync.settings,
        sync.poll_rounds(readings).0.remote_sequence == sync.remote_sequence,
        forall|i: int|
            0 <= i < readings.len() && (#[trigger] sync.poll_rounds(readings).1[i]) is Some ==> {
                &&& sync.poll_rounds(readings).1[i] == Some(
                    (sync.local_sequence + announcement_count(
                        sync.poll_rounds(readings).1.take(i + 1),
                    )) as u64,
                )
                &&& sync.polls()
                &&& readings[i] matches Some((c, h)) && outgoing_allowed(sync.settings, c)
                    && sync.poll_rounds(readings.take(i)).0.last_hash != Some(h)
            },
    decreases readings.len(),
{
    if readings.len() > 0 {
        let prev = readings.drop_last();
        lemma_poll_rounds_number_consecutively(sync, prev);
        let (before, ann) = sync.poll_rounds(prev);
        let (after, last) = before.poll_round(readings.last());
        let all = ann.push(last);
        assert(sync.poll_rounds(readings) == (after, all));
        assert(all.drop_last() =~= ann);
        assert(announcement_count(ann) <= prev.len()) by {
            lemma_announcement_count_bound(ann);
        }
        assert forall|i: int| 0 <= i < readings.len() && (#[trigger] all[i]) is Some implies {
            &&& all[i] == Some((sync.local_sequence + announcement_count(all.take(i + 1))) as u64)
            &&& sync.polls()
            &&& readings[i] matches Some((c, h)) && outgoing_allowed(sync.settings, c)
                && sync.poll_rounds(readings.take(i)).0.last_hash != Some(h)
        } by {
            if i < prev.len() {
                assert(all.take(i + 1) =~= ann.take(i + 1));
                assert(readings.take(i) =~= prev.take(i));
                assert(all[i] == ann[i]);
                assert(readings[i] == prev[i]);
            } else {
                assert(all.take(i + 1) =~= all);
                assert(readings.take(i) =~= prev);
            }
        }
    }
}

/// There are no more announcements than rounds.
proof fn lemma_announcement_count_bound(announced: Seq<Option<u64>>)
    ensures
        announcement_count(announced) <= announced.len(),
    decreases announced.len(),
{
    if announced.len() > 0 {
        lemma_announcement_count_bound(announced.drop_last());
    }
}

/// The RGBA subpixels of a clipboard image, four bytes to a pixel in the order the
/// clipboard holds them (red, green, blue, alpha); a trailing group of fewer than
/// four bytes becomes four zero bytes.
#[verifier::opaque]
pub open spec fn padded_pixels(bytes: Seq<u8>) -> Seq<u8> {
    Seq::new(
        ((bytes.len() + 3) / 4 * 4) as nat,
        |i: int|
            if i - i % 4 + 4 <= bytes.len() {
                bytes[i]
            } else {
                0u8
            },
    )
}

/// Inside a complete group of four, the padded pixels are the bytes themselves;
/// inside a trailing incomplete group they are zero.
proof fn lemma_padded_group(bytes: Seq<u8>, start: int)
    requires
        0 <= start < bytes.len(),
        start % 4 == 0,
    ensures
        padded_pixels(bytes).len() >= start + 4,
        padded_pixels(bytes).len() == (bytes.len() + 3) / 4 * 4,
        start + 4 <= bytes.len() ==> forall|i: int|
            start <= i < start + 4 ==> #[trigger] padded_pixels(bytes)[i] == bytes[i],
        start + 4 > bytes.len() ==> forall|i: int|
            start <= i < start + 4 ==> #[trigger] padded_pixels(bytes)[i] == 0u8,
{
    reveal(padded_pixels);
    assert forall|i: int| start <= i < start + 4 implies #[trigger] padded_pixels(bytes)[i] == (
        if start + 4 <= bytes.len() {
            bytes[i]
        } else {
            0u8
        }) by {
        assert(i - i % 4 == start);
    }
}

/// The RGBA subpixels of a clipboard image, by pixel.
pub fn pad_pixels(bytes: &[u8]) -> (rgba: Vec<u8>)
    ensures
        rgba@ == padded_pixels(bytes@),
{
    let len = bytes.len();
    let mut rgba: Vec<u8> = Vec::new();
    let mut start: usize = 0;
    while start < len
        invariant
            len == bytes@.len(),
            start <= len,
            start % 4 == 0 || start == len,
            rgba@.len() == (if start % 4 == 0 { start as int } else { (start + 3) / 4 * 4 }),
            forall|i: int| 0 <= i < rgba@.len() ==> #[trigger] rgba@[i] == padded_pixels(bytes@)[i],
        decreases len - start,
    {
        proof {
            lemma_padded_group(bytes@, start as int);
        }
        let ghost before = rgba@;
        if len - start >= 4 {
            rgba.push(bytes[start]);
            rgba.push(bytes[start + 1]);
            rgba.push(bytes[start + 2]);
            rgba.push(bytes[start + 3]);
            assert(rgba@ =~= before + bytes@.subrange(start as int, start + 4));
            start = start + 4;
        } else {
            rgba.push(0u8);
            rgba.push(0u8);
            rgba.push(0u8);
            rgba.push(0u8);
            assert(rgba@ =~= before + seq![0u8, 0u8, 0u8, 0u8]);
            start = len;
        }
    }
    proof {
        reveal(padded_pixels);
    }
    assert(rgba@ =~= padded_pixels(bytes@));
    rgba
}

/// Clipboard text as read locally, with its fingerprint; empty text counts as no
/// text.
pub fn text_snapshot(text: String) -> (snap: Option<(ClipboardContent, u64)>)
    ensures
        text@.len() == 0 ==> snap is None,
        text@.len() > 0 ==> snap == Some((ClipboardContent::Text(text), str_hash(text@))),
{
    if text.as_str().is_empty() {
        None
    } else {
        let hash = hash_str(text.as_str());
        Some((ClipboardContent::Text(text), hash))
    }
}

/// Clipboard rich text as read locally (its HTML and its plain text), with its
/// fingerprint; empty HTML counts as no rich text.
pub fn rich_text_snapshot(html: String, plain: String) -> (snap: Option<(ClipboardContent, u64)>)
    ensures
        html@.len() == 0 ==> snap is None,
        html@.len() > 0 ==> snap == Some(
            (ClipboardContent::RichText { html, plain }, pair_hash(html@, plain@)),
        ),
{
    if html.as_str().is_empty() {
        None
    } else {
        let hash = hash_str_pair(html.as_str(), plain.as_str());
        Some((ClipboardContent::RichText { html, plain }, hash))
    }
}

/// Clipboard file list as read locally (the files' paths), with its fingerprint; an
/// empty list counts as no file list.
pub fn file_list_snapshot(paths: Vec<String>) -> (snap: Option<(ClipboardContent, u64)>)
    ensures
        paths@.len() == 0 ==> snap is None,
        paths@.len() > 0 ==> (snap matches Some((content, hash)) && content == (
        ClipboardContent::FileList { paths }) && (hash == strs_hash(string_views(paths@), false)
            || hash == strs_hash(string_views(paths@), true))),
{
    if paths.len() == 0 {
        None
    } else {
        let hash = hash_strs(&paths);
        Some((ClipboardContent::FileList { paths }, hash))
    }
}

/// Clipboard image content made of a PNG file of the given size, with its
/// fingerprint.
pub fn png_snapshot(png: Vec<u8>, width: u32, height: u32) -> (snap: (ClipboardContent, u64))
    ensures
        snap.0 == (ClipboardContent::Image { data: png, width, height }),
        snap.1 == bytes_hash(png@, false) || snap.1 == bytes_hash(png@, true),
{
    let hash = hash_bytes(png.as_slice());
    (ClipboardContent::Image { data: png, width, height }, hash)
}

/// Clipboard image as read locally (its width, its height, its RGBA bytes), as PNG
/// content with its fingerprint: the sizes are truncated to `u32` and the pixels
/// encoded. There is content exactly when both truncated sizes are non-zero and the
/// pixels are enough for the image's size.
pub fn image_snapshot(width: usize, height: usize, pixels: &[u8]) -> (snap: Option<
    (ClipboardContent, u64),
>)
    ensures
        4 * (width as u32) * (height as u32) > padded_pixels(pixels@).len() ==> snap is None,
        (width as u32) == 0 || (height as u32) == 0 ==> snap is None,
        4 * (width as u32) <= usize::MAX && 4 * (width as u32) * (height as u32)
            <= padded_pixels(pixels@).len() && (width as u32) != 0 && (height as u32) != 0
            ==> snap is Some,
        snap matches Some((content, hash)) ==> {
            &&& content matches ClipboardContent::Image { data, width: w, height: h }
            &&& w == width as u32
            &&& h == height as u32
            &&& data@ == png_encoding(w, h, padded_pixels(pixels@))
            &&& (hash == bytes_hash(data@, false) || hash == bytes_hash(data@, true))
        },
{
    let w = #[verifier::truncate] (width as u32);
    let h = #[verifier::truncate] (height as u32);
    let rgba = pad_pixels(pixels);
    match rgba_from_raw(w, h, rgba) {
        None => None,
        Some(img) => match rgba_write_png(&img) {
            None => None,
            Some(png) => Some(png_snapshot(png, w, h)),
        },
    }
}

/// What is written to the local clipboard for received content.
#[derive(Debug, Clone)]
pub enum ClipboardWrite {
    /// Set the clipboard's text.
    Text(String),
    /// Set the clipboard's HTML, with its plain-text form as the alternative text.
    Html { html: String, plain: String },
    /// Set the clipboard's image from RGBA pixels.
    Image { width: u32, height: u32, rgba: Vec<u8> },
    /// Leave the clipboard as it is.
    Nothing,
}

/// What is written for a received image, given its decoding (width, height, RGBA
/// pixels), or `None` when it could not be decoded.
pub fn decoded_image_write(decoded: Option<(u32, u32, Vec<u8>)>) -> (write: ClipboardWrite)
    ensures
        match decoded {
            None => write is Nothing,
            Some((w, h, px)) => write == (ClipboardWrite::Image { width: w, height: h, rgba: px }),
        },
{
    match decoded {
        None => ClipboardWrite::Nothing,
        Some((width, height, rgba)) => ClipboardWrite::Image { width, height, rgba },
    }
}

/// What is written to the local clipboard for received content: a text as it is,
/// rich text as HTML with its plain-text form, a decoded image, or the file paths
/// one per line.
pub fn write_plan(content: &ClipboardContent) -> (write: ClipboardWrite)
    ensures
        match *content {
            ClipboardContent::Text(t) => write matches ClipboardWrite::Text(s) && s@ == t@,
            ClipboardContent::RichText { html, plain } => write matches ClipboardWrite::Html {
                html: h,
                plain: p,
            } && h@ == html@ && p@ == plain@,
            ClipboardContent::Image { data, .. } => match decoded_rgba8(data@) {
                None => write is Nothing,
                Some((w, h, px)) => write matches ClipboardWrite::Image { width, height, rgba }
                    && width == w && height == h && rgba@ == px,
            },
            ClipboardContent::FileList { paths } => write matches ClipboardWrite::Text(s) && s@
                == joined_lines(string_views(paths@)),
        },
{
    match content {
        ClipboardContent::Text(text) => ClipboardWrite::Text(text.clone()),
        ClipboardContent::RichText { html, plain } => ClipboardWrite::Html {
            html: html.clone(),
            plain: plain.clone(),
        },
        ClipboardContent::Image { data, .. } => {
            match rgba_load_from_memory(data.as_slice()) {
                None => decoded_image_write(None),
                Some(img) => {
                    let (w, h) = rgba_dimensions(&img);
                    let px = rgba_into_raw(img);
                    decoded_image_write(Some((w, h, px)))
                },
            }
        },
        ClipboardContent::FileList { paths } => ClipboardWrite::Text(join_lines(paths)),
    }
}

} // verus!
