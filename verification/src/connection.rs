//! Framing of the control channel (length-prefixed messages over TCP) and of the
//! media datagrams (length-prefixed header, payload, split into numbered UDP chunks).
use vstd::prelude::*;

verus! {

/// Largest control message body that a receiver accepts, in bytes (10 MiB).
pub const MAX_CONTROL_MESSAGE: usize = 10485760;

/// Largest part of a media packet carried by one datagram, in bytes.
pub const DATAGRAM_CHUNK: usize = 60000;

/// Little-endian bytes of a `u32`.
pub open spec fn le_bytes_u32(n: u32) -> Seq<u8> {
    seq![
        (n % 256) as u8,
        ((n / 256) % 256) as u8,
        ((n / 65536) % 256) as u8,
        (n / 16777216) as u8,
    ]
}

/// Little-endian bytes of a `u16`.
pub open spec fn le_bytes_u16(n: u16) -> Seq<u8> {
    seq![(n % 256) as u8, (n / 256) as u8]
}

/// The `u32` whose little-endian bytes are the first four of `b`.
pub open spec fn le_value_u32(b: Seq<u8>) -> int {
    b[0] + 256 * b[1] + 65536 * b[2] + 16777216 * b[3]
}

/// The `u16` whose little-endian bytes are the first two of `b`.
pub open spec fn le_value_u16(b: Seq<u8>) -> int {
    b[0] + 256 * b[1]
}

/// Reading back the little-endian bytes of a `u32` gives the number.
pub proof fn lemma_le_u32_roundtrip(n: u32)
    ensures
        le_bytes_u32(n).len() == 4,
        le_value_u32(le_bytes_u32(n)) == n,
{
    let b = le_bytes_u32(n);
    assert(n == (n % 256) + 256 * ((n / 256) % 256) + 65536 * ((n / 65536) % 256) + 16777216 * (n
        / 16777216)) by (nonlinear_arith);
    assert(b[0] == n % 256);
    assert(b[1] == (n / 256) % 256);
    assert(b[2] == (n / 65536) % 256);
    assert(n / 16777216 < 256) by (nonlinear_arith);
    assert(b[3] == n / 16777216);
}

/// Reading back the little-endian bytes of a `u16` gives the number.
pub proof fn lemma_le_u16_roundtrip(n: u16)
    ensures
        le_bytes_u16(n).len() == 2,
        le_value_u16(le_bytes_u16(n)) == n,
{
    let b = le_bytes_u16(n);
    assert(n == (n % 256) + 256 * (n / 256)) by (nonlinear_arith);
    assert(b[0] == n % 256);
    assert(n / 256 < 256) by (nonlinear_arith);
    assert(b[1] == n / 256);
}

/// Appends the little-endian bytes of `n`.
fn push_u32_le(out: &mut Vec<u8>, n: u32)
    ensures
        final(out)@ == old(out)@ + le_bytes_u32(n),
{
    out.push((n % 256) as u8);
    out.push(((n / 256) % 256) as u8);
    out.push(((n / 65536) % 256) as u8);
    out.push((n / 16777216) as u8);
    assert(final(out)@ =~= old(out)@ + le_bytes_u32(n));
}

/// Appends the little-endian bytes of `n`.
fn push_u16_le(out: &mut Vec<u8>, n: u16)
    ensures
        final(out)@ == old(out)@ + le_bytes_u16(n),
{
    out.push((n % 256) as u8);
    out.push((n / 256) as u8);
    assert(final(out)@ =~= old(out)@ + le_bytes_u16(n));
}

/// Appends all of `src`.
fn push_all(out: &mut Vec<u8>, src: &[u8])
    ensures
        final(out)@ == old(out)@ + src@,
{
    let ghost start = out@;
    let mut i: usize = 0;
    while i < src.len()
        invariant
            i <= src@.len(),
            out@ == start + src@.take(i as int),
        decreases src@.len() - i,
    {
        out.push(src[i]);
        i = i + 1;
        assert(out@ =~= start + src@.take(i as int));
    }
    assert(src@.take(i as int) =~= src@);
}

/// The value of a four-byte little-endian length prefix.
pub fn u32_from_le(prefix: [u8; 4]) -> (n: u32)
    ensures
        n == le_value_u32(prefix@),
{
    let b0 = prefix[0] as u32;
    let b1 = prefix[1] as u32;
    let b2 = prefix[2] as u32;
    let b3 = prefix[3] as u32;
    b0 + 256 * b1 + 65536 * b2 + 16777216 * b3
}

/// A control message as written on the TCP stream: the body's length, truncated
/// to `u32`, in little-endian order, then the body.
pub open spec fn control_frame(body: Seq<u8>) -> Seq<u8> {
    le_bytes_u32(body.len() as u32) + body
}

/// What a receiver does with a length prefix: read a body of that many bytes, or,
/// when it exceeds [`MAX_CONTROL_MESSAGE`], stop reading from the peer.
pub open spec fn accepted_body_length(prefix: Seq<u8>) -> Option<int> {
    if le_value_u32(prefix) <= MAX_CONTROL_MESSAGE {
        Some(le_value_u32(prefix))
    } else {
        None
    }
}

/// Frames a serialised control message for the TCP stream.
pub fn frame_control_message(body: &[u8]) -> (frame: Vec<u8>)
    ensures
        frame@ == control_frame(body@),
{
    let mut frame: Vec<u8> = Vec::new();
    push_u32_le(&mut frame, body.len() as u32);
    push_all(&mut frame, body);
    frame
}

/// The length of the body that follows `prefix`, or `None` when the peer announces
/// more than [`MAX_CONTROL_MESSAGE`] bytes and the connection is to be dropped.
pub fn control_body_length(prefix: [u8; 4]) -> (len: Option<usize>)
    ensures
        match len {
            Some(n) => accepted_body_length(prefix@) == Some(n as int),
            None => accepted_body_length(prefix@) is None,
        },
{
    let n = u32_from_le(prefix);
    if n as usize > MAX_CONTROL_MESSAGE {
        None
    } else {
        Some(n as usize)
    }
}


/// The bytes of a media packet: the header's length, truncated to `u32`, in
/// little-endian order, the serialised header, then the payload.
pub open spec fn media_packet(header: Seq<u8>, data: Seq<u8>) -> Seq<u8> {
    le_bytes_u32(header.len() as u32) + header + data
}

/// Number of datagrams that a packet of `len` bytes is split into.
pub open spec fn chunk_count(len: int) -> int {
    (len + DATAGRAM_CHUNK - 1) / (DATAGRAM_CHUNK as int)
}

/// The chunk total that every datagram of a packet of `len` bytes announces:
/// `len / DATAGRAM_CHUNK + 1`, truncated to `u16`.
pub open spec fn announced_chunks(len: int) -> u16 {
    (len / (DATAGRAM_CHUNK as int) + 1) as u16
}

/// The `i`-th chunk of `packet`.
pub open spec fn chunk_of(packet: Seq<u8>, i: int) -> Seq<u8> {
    let start = i * DATAGRAM_CHUNK;
    let end = if (i + 1) * DATAGRAM_CHUNK < packet.len() {
        (i + 1) * DATAGRAM_CHUNK
    } else {
        packet.len() as int
    };
    packet.subrange(start, end)
}

/// The `i`-th datagram of `packet`: the chunk index truncated to `u16`, the announced
/// chunk total, both little-endian, then the chunk.
pub open spec fn datagram(packet: Seq<u8>, i: int) -> Seq<u8> {
    le_bytes_u16(i as u16) + le_bytes_u16(announced_chunks(packet.len() as int)) + chunk_of(
        packet,
        i,
    )
}

/// How the reading of a peer's control stream ended when its length prefix could
/// not be read.
#[derive(Debug, Clone)]
pub enum LinkDrop {
    /// The peer closed the stream.
    Disconnected { reason: String },
    /// Reading failed for another reason, described by the text.
    Error(String),
}

/// The event that ends the reading of a control stream whose length prefix could not
/// be read: a stream that ended early means the peer disconnected, any other failure
/// is reported with its description.
pub fn header_read_failure(unexpected_eof: bool, error_text: String) -> (drop: LinkDrop)
    ensures
        unexpected_eof ==> (drop matches LinkDrop::Disconnected { reason } && reason@
            == "Connection closed"@),
        !unexpected_eof ==> (drop matches LinkDrop::Error(text) && text@ == error_text@),
{
    if unexpected_eof {
        LinkDrop::Disconnected { reason: "Connection closed".to_owned() }
    } else {
        LinkDrop::Error(error_text)
    }
}

/// The bytes of a control stream that carries the given message bodies in order.
pub open spec fn control_stream(bodies: Seq<Seq<u8>>) -> Seq<u8>
    decreases bodies.len(),
{
    if bodies.len() == 0 {
        Seq::empty()
    } else {
        control_frame(bodies[0]) + control_stream(bodies.drop_first())
    }
}

/// The message bodies that a receiver reads from a control stream: frame after
/// frame, until the stream ends, a length prefix is refused, or a body is cut short.
pub open spec fn read_control_stream(stream: Seq<u8>) -> Seq<Seq<u8>>
    decreases stream.len(),
{
    if stream.len() < 4 {
        Seq::empty()
    } else {
        match accepted_body_length(stream.take(4)) {
            None => Seq::empty(),
            Some(n) => if 0 <= n && 4 + n <= stream.len() {
                seq![stream.subrange(4, 4 + n)] + read_control_stream(stream.skip(4 + n))
            } else {
                Seq::empty()
            },
        }
    }
}

/// A receiver reads back, in order, exactly the messages that were framed onto a
/// control stream, when none is longer than [`MAX_CONTROL_MESSAGE`] bytes.
pub proof fn lemma_control_stream_read_back(bodies: Seq<Seq<u8>>)
    requires
        forall|i: int| 0 <= i < bodies.len() ==> (#[trigger] bodies[i]).len() <= MAX_CONTROL_MESSAGE,
    ensures
        read_control_stream(control_stream(bodies)) == bodies,
    decreases bodies.len(),
{
    if bodies.len() == 0 {
        assert(read_control_stream(Seq::<u8>::empty()) =~= Seq::<Seq<u8>>::empty());
    } else {
        let b = bodies[0];
        let rest = bodies.drop_first();
        assert forall|i: int| 0 <= i < rest.len() implies (#[trigger] rest[i]).len()
            <= MAX_CONTROL_MESSAGE by {
            assert(rest[i] == bodies[i + 1]);
        }
        lemma_control_stream_read_back(rest);
        lemma_control_frame_roundtrip(b);
        let stream = control_stream(bodies);
        let f = control_frame(b);
        assert(stream == f + control_stream(rest));
        assert(stream.take(4) =~= f.take(4));
        assert(stream.subrange(4, 4 + b.len() as int) =~= f.skip(4));
        assert(stream.skip(4 + b.len() as int) =~= control_stream(rest));
        assert(seq![b] + rest =~= bodies);
    }
}

/// What is done with a frame received on a control connection.
#[derive(Debug, Clone, Copy, PartialEq, Eq, Structural)]
pub enum Admission {
    /// The frame is reported.
    Report,
    /// The frame is not reported, and the connection is dropped.
    Close,
}

/// The admission state of one control connection: whether a valid handshake is
/// required before anything is reported, whether it has arrived, and whether the
/// connection was refused.
#[derive(Debug, Clone, Copy, PartialEq, Eq, Structural)]
pub struct ControlAdmission {
    pub require_auth: bool,
    pub authenticated: bool,
    pub closed: bool,
}

impl ControlAdmission {
    /// The state after a frame was received, and what is done with it, given
    /// whether the frame is a handshake and whether its token is valid. Without
    /// required authentication every frame is reported. With it, frames are reported
    /// only after a handshake with a valid token, that handshake included; any other
    /// frame before it refuses the connection, and nothing is reported after that.
    pub open spec fn admitted(self, is_handshake: bool, token_valid: bool) -> (Self, Admission) {
        if self.closed {
            (self, Admission::Close)
        } else if !self.require_auth || self.authenticated {
            (self, Admission::Report)
        } else if is_handshake && token_valid {
            (ControlAdmission { authenticated: true, ..self }, Admission::Report)
        } else {
            (ControlAdmission { closed: true, ..self }, Admission::Close)
        }
    }

    /// Frames received in order (each: whether it is a handshake, whether its token
    /// is valid): the final state and what was done with each.
    pub open spec fn admissions(self, frames: Seq<(bool, bool)>) -> (Self, Seq<Admission>)
        decreases frames.len(),
    {
        if frames.len() == 0 {
            (self, Seq::empty())
        } else {
            let (before, done) = self.admissions(frames.drop_last());
            let (after, last) = before.admitted(frames.last().0, frames.last().1);
            (after, done.push(last))
        }
    }

    /// The admission state of a new connection.
    pub fn new(require_auth: bool) -> (admission: Self)
        ensures
            admission == (ControlAdmission { require_auth, authenticated: false, closed: false }),
    {
        ControlAdmission { require_auth, authenticated: false, closed: false }
    }

    /// Decides on a received frame.
    pub fn decide(&mut self, is_handshake: bool, token_valid: bool) -> (admission: Admission)
        ensures
            (*final(self), admission) == old(self).admitted(is_handshake, token_valid),
    {
        if self.closed {
            Admission::Close
        } else if !self.require_auth || self.authenticated {
            Admission::Report
        } else if is_handshake && token_valid {
            self.authenticated = true;
            Admission::Report
        } else {
            self.closed = true;
            Admission::Close
        }
    }
}

/// Whether a handshake's token is the expected one; with no expected token, no
/// token is valid.
pub fn handshake_token_valid(received: &[u8; 32], expected: &Option<[u8; 32]>) -> (valid: bool)
    ensures
        valid == (expected is Some && expected->0@ == received@),
{
    match *expected {
        None => false,
        Some(e) => {
            let mut i: usize = 0;
            while i < 32
                invariant
                    i <= 32,
                    *expected == Some(e),
                    e@.len() == 32,
                    received@.len() == 32,
                    forall|j: int| 0 <= j < i ==> e@[j] == received@[j],
                decreases 32 - i,
            {
                if e[i] != received[i] {
                    assert(e@[i as int] != received@[i as int]);
                    assert(e@ != received@);
                    return false;
                }
                i = i + 1;
            }
            assert(e@ =~= received@);
            true
        },
    }
}

/// On a connection that requires authentication, every reported frame comes at or
/// after a handshake with a valid token, and once a frame is refused no later frame
/// is reported.
pub proof fn lemma_reports_follow_valid_handshake(
    admission: ControlAdmission,
    frames: Seq<(bool, bool)>,
)
    requires
        admission.require_auth,
        !admission.authenticated,
        !admission.closed,
    ensures
        admission.admissions(frames).1.len() == frames.len(),
        forall|i: int|
            0 <= i < frames.len() && #[trigger] admission.admissions(frames).1[i]
                == Admission::Report ==> exists|j: int| 0 <= j <= i && #[trigger] frames[j] == (true, true),
        forall|i: int, k: int|
            0 <= i < k < frames.len() && #[trigger] admission.admissions(frames).1[i]
                == Admission::Close ==> #[trigger] admission.admissions(frames).1[k]
                == Admission::Close,
        admission.admissions(frames).0.require_auth,
        admission.admissions(frames).0.authenticated ==> exists|j: int|
            0 <= j < frames.len() && #[trigger] frames[j] == (true, true),
        admission.admissions(frames).0.closed ==> frames.len() > 0
            && admission.admissions(frames).1[frames.len() - 1] == Admission::Close,
        !admission.admissions(frames).0.closed ==> forall|i: int|
            0 <= i < frames.len() ==> admission.admissions(frames).1[i] == Admission::Report,
    decreases frames.len(),
{
    if frames.len() > 0 {
        let prev = frames.drop_last();
        lemma_reports_follow_valid_handshake(admission, prev);
        let (before, done) = admission.admissions(prev);
        let all = done.push(before.admitted(frames.last().0, frames.last().1).1);
        assert(admission.admissions(frames).1 == all);
        assert forall|j: int| 0 <= j < prev.len() implies #[trigger] frames[j] == prev[j] by {}
        if before.authenticated {
            let j = choose|j: int| 0 <= j < prev.len() && #[trigger] prev[j] == (true, true);
            assert(frames[j] == (true, true));
        }
        let n = frames.len() - 1;
        if frames[n] == (true, true) {
            assert(frames[n] == (true, true));
        }
        assert forall|i: int|
            0 <= i < frames.len() && #[trigger] all[i] == Admission::Report implies exists|j: int|
            0 <= j <= i && #[trigger] frames[j] == (true, true) by {
            if i < n {
                assert(all[i] == done[i]);
                let j = choose|j: int| 0 <= j <= i && #[trigger] prev[j] == (true, true);
                assert(frames[j] == (true, true));
            } else {
                if before.authenticated {
                    let j = choose|j: int| 0 <= j < prev.len() && #[trigger] prev[j] == (true, true);
                    assert(frames[j] == (true, true));
                } else {
                    assert(frames[n] == (true, true));
                }
            }
        }
        assert forall|i: int, k: int|
            0 <= i < k < frames.len() && #[trigger] all[i] == Admission::Close implies #[trigger] all[k]
            == Admission::Close by {
            assert(all[i] == done[i]);
            if k < n {
                assert(all[k] == done[k]);
            }
        }
    }
}

/// Builds the packet of a media frame from its serialised header and its payload.
pub fn build_media_packet(header: &[u8], data: &[u8]) -> (packet: Vec<u8>)
    ensures
        packet@ == media_packet(header@, data@),
{
    let mut packet: Vec<u8> = Vec::new();
    push_u32_le(&mut packet, header.len() as u32);
    push_all(&mut packet, header);
    push_all(&mut packet, data);
    assert(packet@ =~= media_packet(header@, data@));
    packet
}

/// Splits a packet into the datagrams that carry it, in order.
pub fn split_datagrams(packet: &[u8]) -> (datagrams: Vec<Vec<u8>>)
    ensures
        datagrams@.len() == chunk_count(packet@.len() as int),
        forall|i: int|
            0 <= i < datagrams@.len() ==> #[trigger] datagrams@[i]@ == datagram(packet@, i),
{
    let len = packet.len();
    let total = #[verifier::truncate] ((len / DATAGRAM_CHUNK + 1) as u16);
    let mut datagrams: Vec<Vec<u8>> = Vec::new();
    let mut start: usize = 0;
    let mut i: usize = 0;
    while start < len
        invariant
            len == packet@.len(),
            total == announced_chunks(len as int),
            start <= len,
            start == (if i * DATAGRAM_CHUNK < len { i * DATAGRAM_CHUNK } else { len as int }),
            i > 0 ==> (i - 1) * DATAGRAM_CHUNK < len,
            datagrams@.len() == i,
            forall|k: int| 0 <= k < i ==> #[trigger] datagrams@[k]@ == datagram(packet@, k),
        decreases len - start,
    {
        let end = if len - start > DATAGRAM_CHUNK {
            start + DATAGRAM_CHUNK
        } else {
            len
        };
        let mut d: Vec<u8> = Vec::new();
        push_u16_le(&mut d, #[verifier::truncate] (i as u16));
        push_u16_le(&mut d, total);
        let chunk = vstd::slice::slice_subrange(packet, start, end);
        push_all(&mut d, chunk);
        assert(d@ == datagram(packet@, i as int));
        datagrams.push(d);
        start = end;
        i = i + 1;
    }
    datagrams
}

/// The datagrams that carry a media frame with the given serialised header and payload.
pub fn media_datagrams(header: &[u8], data: &[u8]) -> (datagrams: Vec<Vec<u8>>)
    ensures
        datagrams@.len() == chunk_count(media_packet(header@, data@).len() as int),
        forall|i: int|
            0 <= i < datagrams@.len() ==> #[trigger] datagrams@[i]@ == datagram(
                media_packet(header@, data@),
                i,
            ),
{
    let packet = build_media_packet(header, data);
    split_datagrams(packet.as_slice())
}


/// What the receiver reads back of a framed control message: a body of at most
/// [`MAX_CONTROL_MESSAGE`] bytes is announced by its length prefix, accepted, and
/// followed by exactly the body that was framed.
pub proof fn lemma_control_frame_roundtrip(body: Seq<u8>)
    requires
        body.len() <= MAX_CONTROL_MESSAGE,
    ensures
        control_frame(body).len() == body.len() + 4,
        accepted_body_length(control_frame(body).take(4)) == Some(body.len() as int),
        control_frame(body).skip(4) == body,
{
    lemma_le_u32_roundtrip(body.len() as u32);
    assert(control_frame(body).take(4) =~= le_bytes_u32(body.len() as u32));
    assert(control_frame(body).skip(4) =~= body);
}

/// A framed control message longer than [`MAX_CONTROL_MESSAGE`] bytes (whose length
/// still fits the `u32` prefix) is refused by the receiver.
pub proof fn lemma_control_frame_oversized(body: Seq<u8>)
    requires
        MAX_CONTROL_MESSAGE < body.len() <= u32::MAX,
    ensures
        accepted_body_length(control_frame(body).take(4)) is None,
{
    lemma_le_u32_roundtrip(body.len() as u32);
    assert(control_frame(body).take(4) =~= le_bytes_u32(body.len() as u32));
}

/// A media packet yields back its parts: the length prefix announces the header's
/// length, the header follows it, and the payload follows the header.
pub proof fn lemma_media_packet_parts(header: Seq<u8>, data: Seq<u8>)
    requires
        header.len() <= u32::MAX,
    ensures
        media_packet(header, data).len() == 4 + header.len() + data.len(),
        le_value_u32(media_packet(header, data).take(4)) == header.len(),
        media_packet(header, data).subrange(4, 4 + header.len() as int) == header,
        media_packet(header, data).skip(4 + header.len() as int) == data,
{
    let p = media_packet(header, data);
    lemma_le_u32_roundtrip(header.len() as u32);
    assert(p.take(4) =~= le_bytes_u32(header.len() as u32));
    assert(p.subrange(4, 4 + header.len() as int) =~= header);
    assert(p.skip(4 + header.len() as int) =~= data);
}

/// The first `k` chunks of a packet, joined, are its first `k` chunk-sizes of bytes.
proof fn lemma_chunks_prefix(packet: Seq<u8>, k: int)
    requires
        0 <= k <= chunk_count(packet.len() as int),
    ensures
        Seq::new(k as nat, |i: int| chunk_of(packet, i)).flatten_alt() == packet.take(
            if k * DATAGRAM_CHUNK < packet.len() {
                k * DATAGRAM_CHUNK
            } else {
                packet.len() as int
            },
        ),
    decreases k,
{
    let s = Seq::new(k as nat, |i: int| chunk_of(packet, i));
    if k == 0 {
        assert(packet.take(0) =~= Seq::<u8>::empty());
    } else {
        let prev = Seq::new((k - 1) as nat, |i: int| chunk_of(packet, i));
        assert(s.drop_last() =~= prev);
        lemma_chunks_prefix(packet, k - 1);
        assert((k - 1) * DATAGRAM_CHUNK < packet.len()) by (nonlinear_arith)
            requires
                0 < k <= (packet.len() + DATAGRAM_CHUNK - 1) / (DATAGRAM_CHUNK as int),
        ;
        let end = if k * DATAGRAM_CHUNK < packet.len() {
            k * DATAGRAM_CHUNK
        } else {
            packet.len() as int
        };
        assert(packet.take((k - 1) * DATAGRAM_CHUNK) + chunk_of(packet, k - 1) =~= packet.take(
            end,
        ));
    }
}

/// Each datagram carries at most [`DATAGRAM_CHUNK`] bytes of the packet after a
/// four-byte chunk header whose first field is the chunk's index, and the parts
/// that the datagrams carry, joined in order, are the whole packet.
pub proof fn lemma_datagrams_reassemble(packet: Seq<u8>)
    ensures
        Seq::new(
            chunk_count(packet.len() as int) as nat,
            |i: int| datagram(packet, i).skip(4),
        ).flatten() == packet,
        forall|i: int|
            0 <= i < chunk_count(packet.len() as int) ==> {
                &&& #[trigger] datagram(packet, i).len() <= DATAGRAM_CHUNK + 4
                &&& datagram(packet, i).skip(4) == chunk_of(packet, i)
                &&& (i <= u16::MAX ==> le_value_u16(datagram(packet, i).take(2)) == i)
            },
{
    let n = chunk_count(packet.len() as int);
    assert(n >= 0);
    assert forall|i: int| 0 <= i < n implies {
        &&& #[trigger] datagram(packet, i).len() <= DATAGRAM_CHUNK + 4
        &&& datagram(packet, i).skip(4) == chunk_of(packet, i)
        &&& (i <= u16::MAX ==> le_value_u16(datagram(packet, i).take(2)) == i)
    } by {
        assert(i * DATAGRAM_CHUNK < packet.len()) by (nonlinear_arith)
            requires
                0 <= i < (packet.len() + DATAGRAM_CHUNK - 1) / (DATAGRAM_CHUNK as int),
        ;
        assert(datagram(packet, i).skip(4) =~= chunk_of(packet, i));
        lemma_le_u16_roundtrip(i as u16);
        assert(datagram(packet, i).take(2) =~= le_bytes_u16(i as u16));
    }
    let payloads = Seq::new(n as nat, |i: int| datagram(packet, i).skip(4));
    let chunks = Seq::new(n as nat, |i: int| chunk_of(packet, i));
    assert(payloads =~= chunks);
    lemma_chunks_prefix(packet, n);
    assert(n * DATAGRAM_CHUNK >= packet.len()) by (nonlinear_arith)
        requires
            n == (packet.len() + DATAGRAM_CHUNK - 1) / (DATAGRAM_CHUNK as int),
    ;
    assert(packet.take(packet.len() as int) =~= packet);
    chunks.lemma_flatten_and_flatten_alt_are_equivalent();
}

/// The chunk total announced in every datagram equals the number of datagrams
/// sent, except when the packet's length is a multiple of [`DATAGRAM_CHUNK`]:
/// then it announces one more.
pub proof fn lemma_announced_chunks(len: int)
    requires
        0 < len,
        len / (DATAGRAM_CHUNK as int) + 1 <= u16::MAX,
    ensures
        len % (DATAGRAM_CHUNK as int) != 0 ==> announced_chunks(len) == chunk_count(len),
        len % (DATAGRAM_CHUNK as int) == 0 ==> announced_chunks(len) == chunk_count(len) + 1,
{
}

} // verus!
