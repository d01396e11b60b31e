//! The packets byte by byte, as whoever reads them on the other side has to know
//! them.

use vstd::prelude::*;

use crate::audio;
use crate::audio::AudioBus;
use crate::frame;
use crate::frame::{LatestFrameStore, PixelFormat, VideoFrame};
use crate::gstreamer_backend as backend;
use crate::gstreamer_backend::{AudioPacket, RawFramePacket};
use crate::protocol;
use crate::text;
use crate::wire;

verus! {

/// The number in the four bytes from `at` on, the lowest first.
pub open spec fn number32(b: Seq<u8>, at: int) -> int {
    b[at] + 256 * b[at + 1] + 65_536 * b[at + 2] + 16_777_216 * b[at + 3]
}

/// The number in the eight bytes from `at` on, the lowest first.
pub open spec fn number64(b: Seq<u8>, at: int) -> int {
    number32(b, at) + 4_294_967_296 * number32(b, at + 4)
}

/// Numbers are read with the lowest byte first, and where that is asked for with
/// the highest first.
pub proof fn law_ends_of_numbers(b: Seq<u8>, at: int)
    ensures
        wire::get_le16(b, at) == b[at] + 256 * b[at + 1],
        wire::get_be16(b, at) == 256 * b[at] + b[at + 1],
        wire::get_le32(b, at) == number32(b, at),
        wire::get_be32(b, at) == 16_777_216 * b[at] + 65_536 * b[at + 1] + 256 * b[at + 2] + b[at
            + 3],
        wire::get_le64(b, at) == number64(b, at),
{
    reveal(wire::get_le32);
    reveal(wire::get_le64);
}

/// A sample in its two bytes: as it is, or 65,536 more where it is below zero.
pub open spec fn sample_at(b: Seq<u8>, at: int) -> int {
    let n = b[at] + 256 * b[at + 1];
    if n < 32_768 {
        n
    } else {
        n - 65_536
    }
}

/// A picture's packet: the letters NBF0, number and time in eight bytes each,
/// width, height and pitch in four each, the format's number (0 for XRGB8888, 1
/// for RGB565, 2 for XRGB1555), the aspect ratio's bits and the length of the
/// picture in four each, and the picture.
pub proof fn law_picture_packet(f: VideoFrame, timestamp_us: u64)
    requires
        f.data@.len() <= u32::MAX,
        f.pitch <= u32::MAX,
    ensures
        ({
            let b = protocol::frame_packet(f, timestamp_us);
            &&& b.len() == 41 + f.data@.len()
            &&& b[0] == 0x4e && b[1] == 0x42 && b[2] == 0x46 && b[3] == 0x30
            &&& number64(b, 4) == f.sequence
            &&& number64(b, 12) == timestamp_us
            &&& number32(b, 20) == f.width
            &&& number32(b, 24) == f.height
            &&& number32(b, 28) == f.pitch
            &&& f.pixel_format == PixelFormat::Xrgb8888 <==> b[32] == 0
            &&& f.pixel_format == PixelFormat::Rgb565 <==> b[32] == 1
            &&& f.pixel_format == PixelFormat::Xrgb1555 <==> b[32] == 2
            &&& number32(b, 33) == f.pixel_aspect_ratio_bits
            &&& number32(b, 37) == f.data@.len()
            &&& forall|i: int| 0 <= i < f.data@.len() ==> #[trigger] b[41 + i] == f.data@[i]
        }),
{
    let b = protocol::frame_packet(f, timestamp_us);
    backend::law_frame_round_trip(f, timestamp_us);
    law_ends_of_numbers(b, 4);
    law_ends_of_numbers(b, 12);
    law_ends_of_numbers(b, 20);
    law_ends_of_numbers(b, 24);
    law_ends_of_numbers(b, 28);
    law_ends_of_numbers(b, 33);
    law_ends_of_numbers(b, 37);
    let data = b.subrange(41, 41 + wire::get_le32(b, 37));
    assert(data == f.data@);
    wire::lemma_widths(f.width, f.sequence);
    wire::lemma_widths(f.height, timestamp_us);
    wire::lemma_widths(protocol::low32(f.pitch as int), 0);
    wire::lemma_widths(f.pixel_aspect_ratio_bits, 0);
    wire::lemma_widths(protocol::low32(f.data@.len() as int), 0);
    assert(b.take(4) == protocol::FRAME_MAGIC@);
    assert(b[0] == b.take(4)[0] && b[1] == b.take(4)[1] && b[2] == b.take(4)[2] && b[3]
        == b.take(4)[3]);
    assert forall|i: int| 0 <= i < f.data@.len() implies #[trigger] b[41 + i] == f.data@[i] by {
        assert(data[i] == b[41 + i]);
    }
}

/// What is read out of a picture's packet, field by field, and that anything else
/// is no such packet.
pub proof fn law_picture_is_read(b: Seq<u8>, read: Option<RawFramePacket>)
    requires
        backend::frame_decoded(b, read),
    ensures
        read is Some <==> b.len() >= 41 && b[0] == 0x4e && b[1] == 0x42 && b[2] == 0x46 && b[3]
            == 0x30 && 41 + number32(b, 37) <= b.len(),
        read is Some ==> {
            let f = read->0;
            &&& f.sequence == number64(b, 4)
            &&& f.timestamp_us == number64(b, 12)
            &&& f.width == number32(b, 20)
            &&& f.height == number32(b, 24)
            &&& f.pitch == number32(b, 28)
            &&& f.pixel_format == b[32]
            &&& f.pixel_aspect_ratio_bits == number32(b, 33)
            &&& f.payload@.len() == number32(b, 37)
            &&& forall|i: int| 0 <= i < f.payload@.len() ==> #[trigger] f.payload@[i] == b[41 + i]
        },
{
    law_ends_of_numbers(b, 4);
    law_ends_of_numbers(b, 12);
    law_ends_of_numbers(b, 20);
    law_ends_of_numbers(b, 24);
    law_ends_of_numbers(b, 28);
    law_ends_of_numbers(b, 33);
    law_ends_of_numbers(b, 37);
    if b.len() >= 41 {
        let head = b.take(4);
        assert(head[0] == b[0] && head[1] == b[1] && head[2] == b[2] && head[3] == b[3]);
        if b[0] == 0x4e && b[1] == 0x42 && b[2] == 0x46 && b[3] == 0x30 {
            assert(head =~= protocol::FRAME_MAGIC@);
        }
    }
}

/// A sound packet: the letters NBA0, number and time in eight bytes each, the rate
/// in four, the count of channels, a zero, the count of frames and the length of
/// the samples in four bytes each, and the samples, two bytes each with the low one
/// first. Samples of a frame that is not whole are left out.
pub proof fn law_sound_packet(
    sequence: u64,
    timestamp_us: u64,
    sample_rate_hz: u32,
    channels: u8,
    samples: Seq<i16>,
)
    requires
        channels >= 1,
        2 * samples.len() <= u32::MAX,
    ensures
        ({
            let b = protocol::audio_packet(
                sequence,
                timestamp_us,
                sample_rate_hz,
                channels,
                samples,
            );
            let frames = samples.len() as int / channels as int;
            &&& b.len() == 34 + 2 * (frames * channels)
            &&& b[0] == 0x4e && b[1] == 0x42 && b[2] == 0x41 && b[3] == 0x30
            &&& number64(b, 4) == sequence
            &&& number64(b, 12) == timestamp_us
            &&& number32(b, 20) == sample_rate_hz
            &&& b[24] == channels
            &&& b[25] == 0
            &&& number32(b, 26) == frames
            &&& number32(b, 30) == 2 * (frames * channels)
            &&& forall|i: int|
                0 <= i < frames * channels ==> sample_at(b, 34 + 2 * i) == #[trigger] samples[i]
        }),
{
    let b = protocol::audio_packet(sequence, timestamp_us, sample_rate_hz, channels, samples);
    backend::law_audio_round_trip(sequence, timestamp_us, sample_rate_hz, channels, samples);
    law_ends_of_numbers(b, 4);
    law_ends_of_numbers(b, 12);
    law_ends_of_numbers(b, 20);
    law_ends_of_numbers(b, 26);
    law_ends_of_numbers(b, 30);
    let c = channels as int;
    let n = samples.len() as int;
    let frames = n / c;
    let whole = protocol::whole_frames(samples, channels);
    vstd::arithmetic::div_mod::lemma_fundamental_div_mod(n, c);
    assert(c * frames == frames * c) by (nonlinear_arith);
    assert(0 <= frames * c) by (nonlinear_arith)
        requires
            n == c * frames + n % c,
            0 <= n % c < c,
            0 <= n,
            c >= 1,
    ;
    assert(whole.len() == frames * c);
    vstd::arithmetic::div_mod::lemma_fundamental_div_mod_converse(frames * c, c, frames, 0);
    wire::lemma_widths(sample_rate_hz, sequence);
    wire::lemma_widths(protocol::low32((whole.len() / (channels as nat)) as int), timestamp_us);
    wire::lemma_widths(protocol::low32((2 * whole.len()) as int), 0);
    assert(b.take(4) == protocol::AUDIO_PACKET_MAGIC@);
    assert(b[0] == b.take(4)[0] && b[1] == b.take(4)[1] && b[2] == b.take(4)[2] && b[3]
        == b.take(4)[3]);
    assert(b[24] == channels);
    let got = Seq::new(
        (wire::get_le32(b, 30) / 2) as nat,
        |i: int| wire::signed16(wire::get_le16(b, 34 + 2 * i)),
    );
    assert(got == whole);
    assert(got.len() == frames * c);
    assert(number32(b, 30) == 2 * (frames * c)) by {
        assert(wire::get_le32(b, 30) % 2 == 0);
    }
    assert forall|i: int| 0 <= i < frames * c implies sample_at(b, 34 + 2 * i)
        == #[trigger] samples[i] by {
        assert(got[i] == whole[i]);
        law_ends_of_numbers(b, 34 + 2 * i);
    }
}

/// What is read out of a sound packet, field by field, and that anything else is
/// no such packet: other letters, samples of another kind, fewer bytes than it tells
/// of, or not as many samples as its frames have.
pub proof fn law_sound_is_read(b: Seq<u8>, read: Option<AudioPacket>)
    requires
        backend::audio_decoded(b, read),
    ensures
        read is Some <==> {
            &&& b.len() >= 34
            &&& b[0] == 0x4e && b[1] == 0x42 && b[2] == 0x41 && b[3] == 0x30
            &&& b[25] == 0
            &&& 34 + number32(b, 30) <= b.len()
            &&& number32(b, 30) == 2 * (number32(b, 26) * if b[24] == 0 {
                1int
            } else {
                b[24] as int
            })
        },
        read is Some ==> {
            let a = read->0;
            &&& a.sequence == number64(b, 4)
            &&& a.timestamp_us == number64(b, 12)
            &&& a.sample_rate_hz == number32(b, 20)
            &&& a.channels == if b[24] == 0 {
                1
            } else {
                b[24]
            }
            &&& a.frame_count == number32(b, 26)
            &&& 2 * a.samples@.len() == number32(b, 30)
            &&& forall|i: int|
                0 <= i < a.samples@.len() ==> #[trigger] a.samples@[i] == sample_at(b, 34 + 2 * i)
        },
{
    law_ends_of_numbers(b, 4);
    law_ends_of_numbers(b, 12);
    law_ends_of_numbers(b, 20);
    law_ends_of_numbers(b, 26);
    law_ends_of_numbers(b, 30);
    if b.len() >= 34 {
        let head = b.take(4);
        assert(head[0] == b[0] && head[1] == b[1] && head[2] == b[2] && head[3] == b[3]);
        if b[0] == 0x4e && b[1] == 0x42 && b[2] == 0x41 && b[3] == 0x30 {
            assert(head =~= protocol::AUDIO_PACKET_MAGIC@);
        }
    }
    let c = if b[24] == 0 {
        1int
    } else {
        b[24] as int
    };
    let n = number32(b, 26) * c;
    assert((2 * n) / 2 == n && (2 * n) % 2 == 0);
    if read is Some {
        let a = read->0;
        assert forall|i: int| 0 <= i < a.samples@.len() implies #[trigger] a.samples@[i]
            == sample_at(b, 34 + 2 * i) by {
            law_ends_of_numbers(b, 34 + 2 * i);
        }
    }
}

/// Sound leaves in packets of 512 stereo frames, numbered one after another, at
/// the rate and time of the push: of 1,024 samples each, the `k`th sample stands in
/// packet `k / 1024`. What fills no packet waits, and of a push an odd last sample
/// is left out.
#[verifier::spinoff_prover]
#[verifier::rlimit(60)]
pub proof fn law_sound_leaves_in_packets(
    before: AudioBus,
    timestamp_us: u64,
    samples: Seq<i16>,
    after: AudioBus,
    packets: Seq<Vec<u8>>,
    k: int,
)
    requires
        audio::push_outcome(before, timestamp_us, samples, after, packets),
        before.next_sequence + packets.len() <= u64::MAX,
        0 <= k < before.pending_samples@.len() + samples.len() - samples.len() % 2,
    ensures
        after.sample_rate_hz == before.sample_rate_hz,
        after.next_sequence == before.next_sequence + packets.len(),
        ({
            let pending = before.pending_samples@;
            let whole = pending.len() + samples.len() - samples.len() % 2;
            let x = if k < pending.len() {
                pending[k]
            } else {
                samples[k - pending.len()]
            };
            let left = after.pending_samples@;
            &&& packets.len() == whole / 1_024
            &&& left.len() == whole % 1_024
            &&& k < 1_024 * packets.len() ==> {
                let b = packets[k / 1_024]@;
                &&& b.len() == 34 + 2 * 1_024
                &&& number64(b, 4) == before.next_sequence + k / 1_024
                &&& number64(b, 12) == timestamp_us
                &&& number32(b, 20) == before.sample_rate_hz
                &&& b[24] == 2
                &&& number32(b, 26) == 512
                &&& sample_at(b, 34 + 2 * (k % 1_024)) == x
            }
            &&& k >= 1_024 * packets.len() ==> left[k - 1_024 * packets.len()] == x
        }),
{
    let all = before.pending_samples@ + audio::stereo(samples);
    let x = all[k];
    let first = before.next_sequence;
    let sample_rate_hz = before.sample_rate_hz;
    if k < 1_024 * packets.len() {
        let i = k / 1_024;
        let part = audio::chunk(all, i);
        assert(packets[i]@ == protocol::audio_packet(
            audio::numbered(first, i),
            timestamp_us,
            sample_rate_hz,
            2,
            part,
        ));
        law_sound_packet(audio::numbered(first, i), timestamp_us, sample_rate_hz, 2, part);
        assert(part.len() == 1_024);
        assert(part[k % 1_024] == x);
    }
}

/// The rates that are taken as they are: from 8,000 to 384,000 frames a second.
/// Any other is taken for 48,000.
pub proof fn law_usual_rates(rate: u32)
    ensures
        8_000 <= rate <= 384_000 ==> audio::usual_rate(rate) == rate,
        !(8_000 <= rate <= 384_000) ==> audio::usual_rate(rate) == 48_000,
{
}

/// A reader is given the latest picture exactly where it has not seen one with its
/// number or a higher one.
pub proof fn law_news(store: LatestFrameStore, seen: Option<u64>)
    ensures
        store.latest is None ==> !frame::is_news(store, seen),
        store.latest is Some && seen is None ==> frame::is_news(store, seen),
        store.latest is Some && seen is Some ==> (frame::is_news(store, seen) <==> seen->0
            < store.latest->0.sequence),
{
}

/// An input record has 34 bytes, and that is said where another count came.
pub proof fn law_record_length(len: usize)
    ensures
        protocol::wrong_length(len) == "binary input must be exactly "@ + text::decimal(34)
            + " bytes, got "@ + text::decimal(len as nat),
        protocol::INPUT_BINARY_SIZE == 34,
{
}

/// The picture that is kept is the one that came last, as it came, under a number of
/// its own: the next one up.
pub proof fn law_last_picture_is_kept(
    before: LatestFrameStore,
    after: LatestFrameStore,
    width: u32,
    height: u32,
    pitch: usize,
    format: PixelFormat,
    ratio: u32,
    bytes: Seq<u8>,
)
    requires
        frame::published(before, after),
        frame::is_picture(after.latest->0, width, height, pitch, format, ratio, bytes),
    ensures
        after.latest is Some,
        after.latest->0.width == width,
        after.latest->0.height == height,
        after.latest->0.pitch == pitch,
        after.latest->0.pixel_format == format,
        after.latest->0.pixel_aspect_ratio_bits == ratio,
        after.latest->0.data@ == bytes,
        after.latest->0.sequence == before.next_sequence,
        before.next_sequence < u64::MAX ==> after.next_sequence == before.next_sequence + 1,
{
}


/// Lengths are kept in 32 bits, and start over from there. The packets of a new bus
/// count from zero.
pub proof fn law_lengths_in_packets(n: int, pushes: Seq<audio::PushModel>)
    requires
        n >= 0,
    ensures
        n <= u32::MAX ==> protocol::low32(n) == n,
        protocol::low32(n + 4_294_967_296) == protocol::low32(n),
        pushes.len() == 0 ==> audio::next_after(pushes) == 0,
{
}


} // verus!
