//! The wire codec: a closed set of message variants, each framed as a
//! 4-byte magic header, a fixed-layout little-endian payload, and a
//! trailing CRC-32/ISCSI over header and payload.
//!
//! Decoding bytes whose header matches no known variant is a *successful*
//! outcome, `Message::DecodeError`, so that a receive loop sharing its port
//! with foreign traffic keeps running.

use crate::checksum::{crc32_iscsi, crc32_iscsi_of};
use crate::epoch::Epoch;
use vstd::bytes::{
    lemma_auto_spec_u32_to_from_le_bytes, lemma_auto_spec_u64_to_from_le_bytes,
    spec_u32_from_le_bytes, spec_u32_to_le_bytes, spec_u64_from_le_bytes, spec_u64_to_le_bytes,
    u32_from_le_bytes, u32_to_le_bytes, u64_from_le_bytes, u64_to_le_bytes,
};
use vstd::prelude::*;

verus! {

/// A telemetry timestamp: the corrected absolute time beside the sender's
/// raw monotonic tick and the latest clock-synchronization metadata.
#[derive(Clone, Copy, Debug, PartialEq, Eq, Structural)]
pub struct TimeStamp {
    pub epoch: Epoch,
    /// Strictly increasing per-sender sequence number; receivers may use
    /// gaps to detect loss.
    pub counter: u64,
    /// The sender's local monotonic tick at send time, in milliseconds,
    /// deliberately unperturbed by clock corrections.
    pub tick_ms: u64,
    /// Remote-minus-local clock skew, in microseconds.
    pub ntp_offset: i64,
    pub ntp_seconds: u32,
    pub ntp_seconds_fraction: u32,
    pub ntp_roundtrip: u64,
}

/// A fixed-size opaque payload used for loopback and diagnostic testing.
#[derive(Clone, Copy, Debug, Eq)]
pub struct SmallArray {
    pub data: [u8; 32],
}

impl PartialEq for SmallArray {
    fn eq(&self, other: &SmallArray) -> bool {
        let mut i: usize = 0;
        while i < 32
            invariant
                i <= 32,
                forall|j: int| 0 <= j < i ==> self.data@[j] == other.data@[j],
            decreases 32 - i,
        {
            if self.data[i] != other.data[i] {
                return false;
            }
            i = i + 1;
        }
        proof {
            assert(self.data@ =~= other.data@);
        }
        true
    }
}

impl vstd::std_specs::cmp::PartialEqSpecImpl for SmallArray {
    open spec fn obeys_eq_spec() -> bool {
        true
    }

    open spec fn eq_spec(&self, other: &SmallArray) -> bool {
        self.data@ == other.data@
    }
}

/// The closed variant set of the protocol. `DecodeError` is a sentinel
/// decode outcome, never transmitted: it has no magic header and cannot be
/// encoded.
#[derive(Clone, Copy, Debug, Eq)]
pub enum Message {
    TimeStamp(TimeStamp),
    Array(SmallArray),
    DecodeError,
}

impl PartialEq for Message {
    fn eq(&self, other: &Message) -> bool {
        match (self, other) {
            (Message::TimeStamp(a), Message::TimeStamp(b)) => *a == *b,
            (Message::Array(a), Message::Array(b)) => *a == *b,
            (Message::DecodeError, Message::DecodeError) => true,
            _ => false,
        }
    }
}

impl vstd::std_specs::cmp::PartialEqSpecImpl for Message {
    open spec fn obeys_eq_spec() -> bool {
        true
    }

    open spec fn eq_spec(&self, other: &Message) -> bool {
        self@ == other@
    }
}

/// How encoding or decoding a frame can fail. `DecodeError` traffic is not
/// among these: an unknown header is a successful decode outcome.
#[derive(Clone, Copy, Debug, PartialEq, Eq, Structural)]
pub enum CodecError {
    /// Encoding was asked for the receive-only `DecodeError` sentinel.
    Unencodable,
    /// The encoded frame would not fit the caller's buffer capacity.
    BufferFull,
    /// Fewer bytes than the minimum frame of header plus CRC trailer.
    Truncated,
    /// The recomputed CRC disagrees with the trailer.
    IntegrityMismatch,
    /// The integrity check passed but the payload has the wrong length
    /// for its variant's fixed layout.
    MalformedPayload,
}

/// The mathematical shape of a message: payloads as plain byte sequences.
pub enum MessageView {
    TimeStamp(TimeStamp),
    Array(Seq<u8>),
    DecodeError,
}

impl View for Message {
    type V = MessageView;

    open spec fn view(&self) -> MessageView {
        match self {
            Message::TimeStamp(t) => MessageView::TimeStamp(*t),
            Message::Array(a) => MessageView::Array(a.data@),
            Message::DecodeError => MessageView::DecodeError,
        }
    }
}

/// The magic header announcing a timestamp frame.
pub open spec fn spec_timestamp_magic() -> Seq<u8> {
    seq![0x5eu8, 0xa7u8, 0x00u8, 0x01u8]
}

/// The magic header announcing an array frame.
pub open spec fn spec_array_magic() -> Seq<u8> {
    seq![0x5eu8, 0xa7u8, 0x00u8, 0x02u8]
}

/// The fixed little-endian payload layout of a timestamp message:
/// 52 bytes of scalar fields in declaration order.
pub open spec fn spec_timestamp_payload(t: TimeStamp) -> Seq<u8> {
    spec_u64_to_le_bytes(t.epoch.seconds) + spec_u32_to_le_bytes(t.epoch.nanoseconds)
        + spec_u64_to_le_bytes(t.counter) + spec_u64_to_le_bytes(t.tick_ms)
        + spec_u64_to_le_bytes(t.ntp_offset as u64) + spec_u32_to_le_bytes(t.ntp_seconds)
        + spec_u32_to_le_bytes(t.ntp_seconds_fraction) + spec_u64_to_le_bytes(t.ntp_roundtrip)
}

/// Magic header plus payload: everything the CRC trailer covers.
pub open spec fn spec_body(m: Message) -> Seq<u8>
    recommends
        !(m is DecodeError),
{
    match m {
        Message::TimeStamp(t) => spec_timestamp_magic() + spec_timestamp_payload(t),
        Message::Array(a) => spec_array_magic() + a.data@,
        Message::DecodeError => Seq::empty(),
    }
}

/// The complete wire frame: body followed by the little-endian CRC-32/ISCSI
/// of the body.
pub open spec fn spec_frame(m: Message) -> Seq<u8> {
    spec_body(m) + spec_u32_to_le_bytes(crc32_iscsi_of(spec_body(m)))
}

/// Reads the 52-byte timestamp payload back into its fields.
pub open spec fn spec_parse_timestamp(p: Seq<u8>) -> TimeStamp
    recommends
        p.len() == 52,
{
    TimeStamp {
        epoch: Epoch {
            seconds: spec_u64_from_le_bytes(p.subrange(0, 8)),
            nanoseconds: spec_u32_from_le_bytes(p.subrange(8, 12)),
        },
        counter: spec_u64_from_le_bytes(p.subrange(12, 20)),
        tick_ms: spec_u64_from_le_bytes(p.subrange(20, 28)),
        ntp_offset: spec_u64_from_le_bytes(p.subrange(28, 36)) as i64,
        ntp_seconds: spec_u32_from_le_bytes(p.subrange(36, 40)),
        ntp_seconds_fraction: spec_u32_from_le_bytes(p.subrange(40, 44)),
        ntp_roundtrip: spec_u64_from_le_bytes(p.subrange(44, 52)),
    }
}

/// What decoding a byte sequence yields, in full: every error case and the
/// exact decoded value are pinned down.
pub open spec fn spec_decode(b: Seq<u8>) -> Result<MessageView, CodecError> {
    if b.len() < 8 {
        Err(CodecError::Truncated)
    } else if b.subrange(0, 4) != spec_timestamp_magic() && b.subrange(0, 4)
        != spec_array_magic() {
        Ok(MessageView::DecodeError)
    } else if spec_u32_from_le_bytes(b.subrange(b.len() - 4, b.len() as int)) != crc32_iscsi_of(
        b.subrange(0, b.len() - 4),
    ) {
        Err(CodecError::IntegrityMismatch)
    } else if b.subrange(0, 4) == spec_timestamp_magic() {
        if b.len() == 60 {
            Ok(MessageView::TimeStamp(spec_parse_timestamp(b.subrange(4, 56))))
        } else {
            Err(CodecError::MalformedPayload)
        }
    } else {
        if b.len() == 40 {
            Ok(MessageView::Array(b.subrange(4, 36)))
        } else {
            Err(CodecError::MalformedPayload)
        }
    }
}

/// Lifts an executable decode result to the view level, where it can be
/// compared against `spec_decode`.
pub open spec fn decode_result_view(r: Result<Message, CodecError>) -> Result<
    MessageView,
    CodecError,
> {
    match r {
        Ok(m) => Ok(m@),
        Err(e) => Err(e),
    }
}

/// Appends the 8-byte little-endian form of `x`.
fn push_u64_le(v: &mut Vec<u8>, x: u64)
    ensures
        final(v)@ == old(v)@ + spec_u64_to_le_bytes(x),
{
    let mut b: Vec<u8> = u64_to_le_bytes(x);
    v.append(&mut b);
}

/// Appends the 4-byte little-endian form of `x`.
fn push_u32_le(v: &mut Vec<u8>, x: u32)
    ensures
        final(v)@ == old(v)@ + spec_u32_to_le_bytes(x),
{
    let mut b: Vec<u8> = u32_to_le_bytes(x);
    v.append(&mut b);
}

impl Message {
    /// Encodes this message as a complete wire frame, refusing frames that
    /// would exceed `max_frame_size` (a hard capacity contract for no-heap
    /// embedded buffers) and refusing the receive-only sentinel.
    pub fn encode(&self, max_frame_size: usize) -> (r: Result<Vec<u8>, CodecError>)
        ensures
            *self is DecodeError ==> r == Err::<Vec<u8>, CodecError>(CodecError::Unencodable),
            !(*self is DecodeError) && spec_frame(*self).len() > max_frame_size ==> r == Err::<
                Vec<u8>,
                CodecError,
            >(CodecError::BufferFull),
            !(*self is DecodeError) && spec_frame(*self).len() <= max_frame_size ==> (r matches Ok(
                v,
            ) && v@ == spec_frame(*self)),
    {
        proof {
            lemma_auto_spec_u64_to_from_le_bytes();
            lemma_auto_spec_u32_to_from_le_bytes();
        }
        match self {
            Message::DecodeError => Err(CodecError::Unencodable),
            Message::TimeStamp(t) => {
                if max_frame_size < 60 {
                    return Err(CodecError::BufferFull);
                }
                let mut v: Vec<u8> = Vec::new();
                v.push(0x5e);
                v.push(0xa7);
                v.push(0x00);
                v.push(0x01);
                push_u64_le(&mut v, t.epoch.seconds);
                push_u32_le(&mut v, t.epoch.nanoseconds);
                push_u64_le(&mut v, t.counter);
                push_u64_le(&mut v, t.tick_ms);
                push_u64_le(&mut v, t.ntp_offset as u64);
                push_u32_le(&mut v, t.ntp_seconds);
                push_u32_le(&mut v, t.ntp_seconds_fraction);
                push_u64_le(&mut v, t.ntp_roundtrip);
                proof {
                    assert(v@ =~= spec_body(*self));
                }
                let c: u32 = crc32_iscsi(v.as_slice());
                push_u32_le(&mut v, c);
                proof {
                    assert(v@ =~= spec_frame(*self));
                }
                Ok(v)
            },
            Message::Array(a) => {
                if max_frame_size < 40 {
                    return Err(CodecError::BufferFull);
                }
                let mut v: Vec<u8> = Vec::new();
                v.push(0x5e);
                v.push(0xa7);
                v.push(0x00);
                v.push(0x02);
                let mut i: usize = 0;
                while i < 32
                    invariant
                        i <= 32,
                        v@ == spec_array_magic() + a.data@.subrange(0, i as int),
                    decreases 32 - i,
                {
                    let byte: u8 = a.data[i];
                    v.push(byte);
                    proof {
                        assert(v@ =~= spec_array_magic() + a.data@.subrange(0, i + 1));
                    }
                    i = i + 1;
                }
                proof {
                    assert(a.data@.subrange(0, 32) =~= a.data@);
                    assert(v@ =~= spec_body(*self));
                }
                let c: u32 = crc32_iscsi(v.as_slice());
                push_u32_le(&mut v, c);
                proof {
                    assert(v@ =~= spec_frame(*self));
                }
                Ok(v)
            },
        }
    }

    /// Decodes a received datagram. Too-short input is `Truncated`; an
    /// unknown header is the successful `DecodeError` outcome; a known
    /// header is checked against the CRC trailer and then against its
    /// variant's fixed payload length. The exact result for every input is
    /// given by `spec_decode`.
    pub fn decode(bytes: &[u8]) -> (r: Result<Message, CodecError>)
        ensures
            decode_result_view(r) == spec_decode(bytes@),
    {
        let n: usize = bytes.len();
        if n < 8 {
            return Err(CodecError::Truncated);
        }
        let h0: u8 = bytes[0];
        let h1: u8 = bytes[1];
        let h2: u8 = bytes[2];
        let h3: u8 = bytes[3];
        let is_ts: bool = h0 == 0x5e && h1 == 0xa7 && h2 == 0x00 && h3 == 0x01;
        let is_arr: bool = h0 == 0x5e && h1 == 0xa7 && h2 == 0x00 && h3 == 0x02;
        if !is_ts && !is_arr {
            proof {
                if bytes@.subrange(0, 4) == spec_timestamp_magic() {
                    assert(bytes@.subrange(0, 4)[0] == 0x5e);
                    assert(bytes@.subrange(0, 4)[1] == 0xa7);
                    assert(bytes@.subrange(0, 4)[2] == 0x00);
                    assert(bytes@.subrange(0, 4)[3] == 0x01);
                }
                if bytes@.subrange(0, 4) == spec_array_magic() {
                    assert(bytes@.subrange(0, 4)[0] == 0x5e);
                    assert(bytes@.subrange(0, 4)[1] == 0xa7);
                    assert(bytes@.subrange(0, 4)[2] == 0x00);
                    assert(bytes@.subrange(0, 4)[3] == 0x02);
                }
            }
            return Ok(Message::DecodeError);
        }
        proof {
            if is_ts {
                assert(bytes@.subrange(0, 4) =~= spec_timestamp_magic());
            } else {
                assert(bytes@.subrange(0, 4) =~= spec_array_magic());
            }
        }
        let computed: u32 = crc32_iscsi(&bytes[0..n - 4]);
        let stored: u32 = u32_from_le_bytes(&bytes[n - 4..n]);
        if stored != computed {
            return Err(CodecError::IntegrityMismatch);
        }
        if is_ts {
            if n != 60 {
                return Err(CodecError::MalformedPayload);
            }
            let seconds: u64 = u64_from_le_bytes(&bytes[4..12]);
            let nanoseconds: u32 = u32_from_le_bytes(&bytes[12..16]);
            let counter: u64 = u64_from_le_bytes(&bytes[16..24]);
            let tick_ms: u64 = u64_from_le_bytes(&bytes[24..32]);
            let ntp_offset: i64 = u64_from_le_bytes(&bytes[32..40]) as i64;
            let ntp_seconds: u32 = u32_from_le_bytes(&bytes[40..44]);
            let ntp_seconds_fraction: u32 = u32_from_le_bytes(&bytes[44..48]);
            let ntp_roundtrip: u64 = u64_from_le_bytes(&bytes[48..56]);
            let t = TimeStamp {
                epoch: Epoch { seconds, nanoseconds },
                counter,
                tick_ms,
                ntp_offset,
                ntp_seconds,
                ntp_seconds_fraction,
                ntp_roundtrip,
            };
            proof {
                let p = bytes@.subrange(4, 56);
                assert(p.subrange(0, 8) =~= bytes@.subrange(4, 12));
                assert(p.subrange(8, 12) =~= bytes@.subrange(12, 16));
                assert(p.subrange(12, 20) =~= bytes@.subrange(16, 24));
                assert(p.subrange(20, 28) =~= bytes@.subrange(24, 32));
                assert(p.subrange(28, 36) =~= bytes@.subrange(32, 40));
                assert(p.subrange(36, 40) =~= bytes@.subrange(40, 44));
                assert(p.subrange(40, 44) =~= bytes@.subrange(44, 48));
                assert(p.subrange(44, 52) =~= bytes@.subrange(48, 56));
            }
            Ok(Message::TimeStamp(t))
        } else {
            if n != 40 {
                return Err(CodecError::MalformedPayload);
            }
            let mut data: [u8; 32] = [0u8; 32];
            let mut i: usize = 0;
            while i < 32
                invariant
                    i <= 32,
                    bytes@.len() == 40,
                    forall|j: int| 0 <= j < i ==> data@[j] == bytes@[4 + j],
                decreases 32 - i,
            {
                data[i] = bytes[4 + i];
                i = i + 1;
            }
            proof {
                assert(data@ =~= bytes@.subrange(4, 36));
            }
            Ok(Message::Array(SmallArray { data }))
        }
    }
}

/// Law: a frame produced by `encode` decodes back to the message it was
/// made from, for every encodable message.
pub proof fn lemma_round_trip(m: Message)
    requires
        !(m is DecodeError),
    ensures
        spec_decode(spec_frame(m)) == Ok::<MessageView, CodecError>(m@),
{
    lemma_auto_spec_u64_to_from_le_bytes();
    lemma_auto_spec_u32_to_from_le_bytes();
    let body = spec_body(m);
    let f = spec_frame(m);
    let c = crc32_iscsi_of(body);
    assert(f.subrange(0, f.len() - 4) =~= body);
    assert(f.subrange(f.len() - 4, f.len() as int) =~= spec_u32_to_le_bytes(c));
    match m {
        Message::TimeStamp(t) => {
            assert(f.subrange(0, 4) =~= spec_timestamp_magic());
            assert(f.subrange(4, 56) =~= spec_timestamp_payload(t));
            lemma_parse_timestamp_inverse(t);
        },
        Message::Array(a) => {
            assert(f.subrange(0, 4) =~= spec_array_magic());
            assert(f.subrange(0, 4) != spec_timestamp_magic()) by {
                assert(spec_array_magic()[3] != spec_timestamp_magic()[3]);
            }
            assert(f.subrange(4, 36) =~= a.data@);
        },
        Message::DecodeError => {},
    }
}

/// Law: parsing inverts the fixed payload layout of a timestamp message.
pub proof fn lemma_parse_timestamp_inverse(t: TimeStamp)
    ensures
        spec_parse_timestamp(spec_timestamp_payload(t)) == t,
{
    lemma_auto_spec_u64_to_from_le_bytes();
    lemma_auto_spec_u32_to_from_le_bytes();
    let p = spec_timestamp_payload(t);
    assert(p.subrange(0, 8) =~= spec_u64_to_le_bytes(t.epoch.seconds));
    assert(p.subrange(8, 12) =~= spec_u32_to_le_bytes(t.epoch.nanoseconds));
    assert(p.subrange(12, 20) =~= spec_u64_to_le_bytes(t.counter));
    assert(p.subrange(20, 28) =~= spec_u64_to_le_bytes(t.tick_ms));
    assert(p.subrange(28, 36) =~= spec_u64_to_le_bytes(t.ntp_offset as u64));
    assert(p.subrange(36, 40) =~= spec_u32_to_le_bytes(t.ntp_seconds));
    assert(p.subrange(40, 44) =~= spec_u32_to_le_bytes(t.ntp_seconds_fraction));
    assert(p.subrange(44, 52) =~= spec_u64_to_le_bytes(t.ntp_roundtrip));
    let x: i64 = t.ntp_offset;
    assert((x as u64) as i64 == x) by (bit_vector);
}

/// Law: input below the minimum frame length is reported as truncated, and
/// input of any length that starts with an unknown magic header decodes to
/// the `DecodeError` sentinel — a successful outcome that keeps a receive
/// loop running on foreign traffic.
pub proof fn lemma_foreign_traffic_tolerated(b: Seq<u8>)
    ensures
        b.len() < 8 ==> spec_decode(b) == Err::<MessageView, CodecError>(CodecError::Truncated),
        b.len() >= 8 && b.subrange(0, 4) != spec_timestamp_magic() && b.subrange(0, 4)
            != spec_array_magic() ==> spec_decode(b) == Ok::<MessageView, CodecError>(
            MessageView::DecodeError,
        ),
{
}

/// Law: a frame whose header is known but whose stored trailer disagrees
/// with the CRC of its body is rejected with `IntegrityMismatch`. This
/// covers any corruption of header or payload not canceled by a CRC
/// collision, and — together with `lemma_trailer_corruption_rejected` —
/// any corruption of the trailer itself.
pub proof fn lemma_integrity_corruption_rejected(b: Seq<u8>)
    requires
        b.len() >= 8,
        b.subrange(0, 4) == spec_timestamp_magic() || b.subrange(0, 4) == spec_array_magic(),
        crc32_iscsi_of(b.subrange(0, b.len() - 4)) != spec_u32_from_le_bytes(
            b.subrange(b.len() - 4, b.len() as int),
        ),
    ensures
        spec_decode(b) == Err::<MessageView, CodecError>(CodecError::IntegrityMismatch),
{
}

/// Law: changing the CRC trailer of a well-formed frame in any way — a
/// single flipped bit included — makes decoding reject the frame with
/// `IntegrityMismatch`.
pub proof fn lemma_trailer_corruption_rejected(m: Message, trailer: Seq<u8>)
    requires
        !(m is DecodeError),
        trailer.len() == 4,
        trailer != spec_u32_to_le_bytes(crc32_iscsi_of(spec_body(m))),
    ensures
        spec_decode(spec_body(m) + trailer) == Err::<MessageView, CodecError>(
            CodecError::IntegrityMismatch,
        ),
{
    lemma_auto_spec_u64_to_from_le_bytes();
    lemma_auto_spec_u32_to_from_le_bytes();
    let body = spec_body(m);
    let b = body + trailer;
    assert(b.subrange(0, b.len() - 4) =~= body);
    assert(b.subrange(b.len() - 4, b.len() as int) =~= trailer);
    match m {
        Message::TimeStamp(t) => {
            assert(b.subrange(0, 4) =~= spec_timestamp_magic());
        },
        Message::Array(a) => {
            assert(b.subrange(0, 4) =~= spec_array_magic());
        },
        Message::DecodeError => {},
    }
    if spec_u32_from_le_bytes(trailer) == crc32_iscsi_of(body) {
        assert(spec_u32_to_le_bytes(spec_u32_from_le_bytes(trailer)) == trailer);
        assert(false);
    }
}

} // verus!
