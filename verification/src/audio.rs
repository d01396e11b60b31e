//! The sound bus: samples come in as they may, and leave in packets of a fixed
//! length.

use vstd::prelude::*;

use crate::clock::now_unix_micros;
use crate::protocol;
use crate::protocol::encode_audio_packet_at;

verus! {

pub const DEFAULT_SAMPLE_RATE: u32 = 48_000;

/// How many frames a packet holds.
pub const CHUNK_FRAMES: usize = 512;

pub const CHANNELS: u8 = 2;

/// How many samples a packet holds.
pub const CHUNK_SAMPLES: usize = 1024;

/// The rate itself where it is a usual one, else the default.
pub open spec fn usual_rate(sample_rate_hz: u32) -> u32 {
    if 8_000 <= sample_rate_hz <= 384_000 {
        sample_rate_hz
    } else {
        DEFAULT_SAMPLE_RATE
    }
}

pub fn sanitize_sample_rate(sample_rate_hz: u32) -> (rate: u32)
    ensures
        rate == usual_rate(sample_rate_hz),
{
    if 8_000 <= sample_rate_hz && sample_rate_hz <= 384_000 {
        sample_rate_hz
    } else {
        DEFAULT_SAMPLE_RATE
    }
}

/// The samples that have not left yet, and the number of the next packet.
#[derive(Debug)]
pub struct AudioBus {
    pub sample_rate_hz: u32,
    pub pending_samples: Vec<i16>,
    pub next_sequence: u64,
}

/// The samples of `samples` that make up whole stereo frames.
pub open spec fn stereo(samples: Seq<i16>) -> Seq<i16> {
    samples.take(samples.len() - samples.len() % 2)
}

/// The `i`th stretch of a packet's length.
pub open spec fn chunk(samples: Seq<i16>, i: int) -> Seq<i16> {
    samples.subrange(i * CHUNK_SAMPLES, (i + 1) * CHUNK_SAMPLES)
}

/// What is left behind the last whole stretch.
pub open spec fn rest(samples: Seq<i16>) -> Seq<i16> {
    samples.skip((samples.len() / (CHUNK_SAMPLES as nat)) * CHUNK_SAMPLES)
}

/// The number of the `i`th packet from `first` on; the count wraps round.
pub open spec fn numbered(first: u64, i: int) -> u64 {
    ((first + i) % 0x1_0000_0000_0000_0000) as u64
}

/// Whether `packets` are those of the whole stretches of `samples`, in order,
/// numbered from `first` on.
pub open spec fn full_packets(
    packets: Seq<Vec<u8>>,
    first: u64,
    timestamp_us: u64,
    sample_rate_hz: u32,
    samples: Seq<i16>,
) -> bool {
    &&& packets.len() == samples.len() / (CHUNK_SAMPLES as nat)
    &&& forall|i: int|
        0 <= i < packets.len() ==> (#[trigger] packets[i])@ == protocol::audio_packet(
            numbered(first, i),
            timestamp_us,
            sample_rate_hz,
            CHANNELS,
            chunk(samples, i),
        )
}

/// What taking samples in does and gives: the packets that are full, and the rest
/// is pending.
pub open spec fn push_outcome(
    before: AudioBus,
    timestamp_us: u64,
    samples: Seq<i16>,
    after: AudioBus,
    packets: Seq<Vec<u8>>,
) -> bool {
    let all = before.pending_samples@ + stereo(samples);
    &&& after.sample_rate_hz == before.sample_rate_hz
    &&& full_packets(packets, before.next_sequence, timestamp_us, before.sample_rate_hz, all)
    &&& after.pending_samples@ == rest(all)
    &&& after.next_sequence == numbered(before.next_sequence, packets.len() as int)
}

impl AudioBus {
    /// Fewer samples are pending than a packet holds, in whole frames.
    pub open spec fn wf(self) -> bool {
        &&& self.pending_samples@.len() < CHUNK_SAMPLES
        &&& self.pending_samples@.len() % 2 == 0
        &&& 8_000 <= self.sample_rate_hz <= 384_000
    }

    pub fn new(default_sample_rate_hz: u32) -> (bus: Self)
        ensures
            bus.wf(),
            bus.sample_rate_hz == usual_rate(default_sample_rate_hz),
            bus.pending_samples@ == Seq::<i16>::empty(),
            bus.next_sequence == 0,
    {
        AudioBus {
            sample_rate_hz: sanitize_sample_rate(default_sample_rate_hz),
            pending_samples: Vec::new(),
            next_sequence: 0,
        }
    }

    pub fn set_sample_rate_hz(&mut self, sample_rate_hz: u32)
        requires
            old(self).wf(),
        ensures
            final(self).wf(),
            final(self).sample_rate_hz == usual_rate(sample_rate_hz),
            final(self).pending_samples == old(self).pending_samples,
            final(self).next_sequence == old(self).next_sequence,
    {
        self.sample_rate_hz = sanitize_sample_rate(sample_rate_hz);
    }

    /// Takes samples in, and gives the packets that are full: whole frames only,
    /// in order, none lost and none twice.
    pub fn push_interleaved_stereo_i16_at(&mut self, timestamp_us: u64, samples: &[i16]) -> (packets:
        Vec<Vec<u8>>)
        requires
            old(self).wf(),
            old(self).pending_samples@.len() + samples@.len() <= usize::MAX,
        ensures
            final(self).wf(),
            push_outcome(*old(self), timestamp_us, samples@, *final(self), packets@),
    {
        let aligned_len: usize = samples.len() - (samples.len() % 2);
        let ghost all = self.pending_samples@ + stereo(samples@);
        let ghost first = self.next_sequence;
        self.pending_samples.extend_from_slice(vstd::slice::slice_subrange(samples, 0, aligned_len));
        assert(self.pending_samples@ =~= all);
        let mut packets: Vec<Vec<u8>> = Vec::new();
        let ghost mut done: int = 0;
        assert(all.skip(0) =~= all);
        while self.pending_samples.len() >= CHUNK_SAMPLES
            invariant
                0 <= done,
                done * CHUNK_SAMPLES <= all.len(),
                all.len() % 2 == 0,
                self.sample_rate_hz == old(self).sample_rate_hz,
                self.pending_samples@ == all.skip(done * CHUNK_SAMPLES),
                self.next_sequence == numbered(first, done),
                packets@.len() == done,
                forall|i: int|
                    0 <= i < done ==> (#[trigger] packets@[i])@ == protocol::audio_packet(
                        numbered(first, i),
                        timestamp_us,
                        self.sample_rate_hz,
                        CHANNELS,
                        chunk(all, i),
                    ),
            decreases self.pending_samples@.len(),
        {
            let ghost before = self.pending_samples@;
            let tail = self.pending_samples.split_off(CHUNK_SAMPLES);
            proof {
                assert(self.pending_samples@ =~= chunk(all, done));
                assert(tail@ =~= all.skip((done + 1) * CHUNK_SAMPLES));
            }
            let sequence: u64 = self.next_sequence;
            self.next_sequence = sequence.wrapping_add(1);
            packets.push(
                encode_audio_packet_at(
                    sequence,
                    timestamp_us,
                    self.sample_rate_hz,
                    CHANNELS,
                    self.pending_samples.as_slice(),
                ),
            );
            self.pending_samples = tail;
            proof {
                done = done + 1;
            }
        }
        proof {
            assert(all.len() / (CHUNK_SAMPLES as nat) == done);
        }
        packets
    }

    /// Takes samples in, and gives the packets that are full, as of now.
    pub fn push_interleaved_stereo_i16(&mut self, samples: &[i16]) -> (packets: Vec<Vec<u8>>)
        requires
            old(self).wf(),
            old(self).pending_samples@.len() + samples@.len() <= usize::MAX,
        ensures
            final(self).wf(),
            exists|timestamp_us: u64| #[trigger]
                push_outcome(*old(self), timestamp_us, samples@, *final(self), packets@),
    {
        self.push_interleaved_stereo_i16_at(now_unix_micros(), samples)
    }
}

/// The stretches and what is left behind them are all that came in, in order.
pub proof fn law_nothing_lost(samples: Seq<i16>, k: int)
    requires
        0 <= k < samples.len(),
    ensures
        ({
            let count = samples.len() / (CHUNK_SAMPLES as nat);
            if k < count * CHUNK_SAMPLES {
                &&& 0 <= k / (CHUNK_SAMPLES as int) < count
                &&& chunk(samples, k / (CHUNK_SAMPLES as int))[k % (CHUNK_SAMPLES as int)] == samples[k]
            } else {
                &&& 0 <= k - count * CHUNK_SAMPLES < rest(samples).len()
                &&& rest(samples)[k - count * CHUNK_SAMPLES] == samples[k]
            }
        }),
{
}

/// A push: what came in, when and at which rate, and the packets that left.
pub struct PushModel {
    pub samples: Seq<i16>,
    pub timestamp_us: u64,
    pub sample_rate_hz: u32,
    pub packets: Seq<Vec<u8>>,
}

/// All the whole frames that came in.
pub open spec fn stream(pushes: Seq<PushModel>) -> Seq<i16>
    decreases pushes.len(),
{
    if pushes.len() == 0 {
        Seq::empty()
    } else {
        stream(pushes.drop_last()) + stereo(pushes.last().samples)
    }
}

/// All the packets that left.
pub open spec fn sent(pushes: Seq<PushModel>) -> Seq<Vec<u8>>
    decreases pushes.len(),
{
    if pushes.len() == 0 {
        Seq::empty()
    } else {
        sent(pushes.drop_last()) + pushes.last().packets
    }
}

/// What is pending on a bus that was new before the pushes.
pub open spec fn pending_after(pushes: Seq<PushModel>) -> Seq<i16>
    decreases pushes.len(),
{
    if pushes.len() == 0 {
        Seq::empty()
    } else {
        rest(pending_after(pushes.drop_last()) + stereo(pushes.last().samples))
    }
}

/// The number of the next packet of a bus that was new before the pushes.
pub open spec fn next_after(pushes: Seq<PushModel>) -> u64
    decreases pushes.len(),
{
    if pushes.len() == 0 {
        0
    } else {
        numbered(next_after(pushes.drop_last()), pushes.last().packets.len() as int)
    }
}

/// Whether these are the pushes of a bus that was new, each with the packets that
/// it gave, whatever the rate was set to in between.
pub open spec fn happened(pushes: Seq<PushModel>) -> bool
    decreases pushes.len(),
{
    pushes.len() > 0 ==> {
        let before = pushes.drop_last();
        let push = pushes.last();
        &&& happened(before)
        &&& full_packets(
            push.packets,
            next_after(before),
            push.timestamp_us,
            push.sample_rate_hz,
            pending_after(before) + stereo(push.samples),
        )
    }
}

/// Whether a packet has a number and carries just these samples.
#[verifier::opaque]
pub open spec fn carries(packet: Seq<u8>, sequence: u64, samples: Seq<i16>) -> bool {
    exists|timestamp_us: u64, sample_rate_hz: u32|
        packet == #[trigger] protocol::audio_packet(
            sequence,
            timestamp_us,
            sample_rate_hz,
            CHANNELS,
            samples,
        )
}

/// What is left of a stretch, taken together with what comes next, has the
/// stretches that come next of the whole.
proof fn lemma_continued(old_stream: Seq<i16>, next: Seq<i16>)
    ensures
        ({
            let n = old_stream.len() / (CHUNK_SAMPLES as nat);
            let all = rest(old_stream) + next;
            let whole = old_stream + next;
            &&& whole.len() / (CHUNK_SAMPLES as nat) == n + all.len() / (CHUNK_SAMPLES as nat)
            &&& rest(all) == rest(whole)
            &&& forall|j: int|
                0 <= j < n ==> #[trigger] chunk(whole, j) == chunk(old_stream, j)
            &&& forall|k: int|
                0 <= k < all.len() / (CHUNK_SAMPLES as nat) ==> #[trigger] chunk(all, k) == chunk(
                    whole,
                    n + k,
                )
        }),
{
    let n = old_stream.len() / (CHUNK_SAMPLES as nat);
    let all = rest(old_stream) + next;
    let whole = old_stream + next;
    assert(all =~= whole.skip((n * CHUNK_SAMPLES) as int));
    assert(whole.len() / (CHUNK_SAMPLES as nat) == n + all.len() / (CHUNK_SAMPLES as nat));
    assert(rest(all) =~= rest(whole));
    assert forall|j: int| 0 <= j < n implies #[trigger] chunk(whole, j) == chunk(
        old_stream,
        j,
    ) by {
        assert(chunk(whole, j) =~= chunk(old_stream, j));
    }
    assert forall|k: int| 0 <= k < all.len() / (CHUNK_SAMPLES as nat) implies #[trigger] chunk(
        all,
        k,
    ) == chunk(whole, n + k) by {
        assert(chunk(all, k) =~= chunk(whole, n + k));
    }
}

proof fn lemma_full_carry(
    packets: Seq<Vec<u8>>,
    first: u64,
    timestamp_us: u64,
    sample_rate_hz: u32,
    samples: Seq<i16>,
)
    requires
        full_packets(packets, first, timestamp_us, sample_rate_hz, samples),
    ensures
        packets.len() == samples.len() / (CHUNK_SAMPLES as nat),
        forall|k: int|
            0 <= k < packets.len() ==> carries(
                (#[trigger] packets[k])@,
                numbered(first, k),
                chunk(samples, k),
            ),
{
    reveal(carries);
}

/// Over any number of pushes the packets carry all that came in, in order, each
/// a stretch of it, numbered from zero; and what fills no packet yet is pending.
#[verifier::spinoff_prover]
#[verifier::rlimit(80)]
pub proof fn law_whole_stream(pushes: Seq<PushModel>)
    requires
        happened(pushes),
    ensures
        sent(pushes).len() == stream(pushes).len() / (CHUNK_SAMPLES as nat),
        forall|j: int|
            0 <= j < sent(pushes).len() ==> carries(
                (#[trigger] sent(pushes)[j])@,
                numbered(0, j),
                chunk(stream(pushes), j),
            ),
        pending_after(pushes) == rest(stream(pushes)),
        next_after(pushes) == numbered(0, sent(pushes).len() as int),
    decreases pushes.len(),
{
    if pushes.len() == 0 {
        assert(rest(stream(pushes)) =~= Seq::<i16>::empty());
    } else {
        let before = pushes.drop_last();
        let push = pushes.last();
        law_whole_stream(before);
        let whole = stream(pushes);
        let n = sent(before).len();
        let all = pending_after(before) + stereo(push.samples);
        lemma_continued(stream(before), stereo(push.samples));
        lemma_full_carry(
            push.packets,
            next_after(before),
            push.timestamp_us,
            push.sample_rate_hz,
            all,
        );
        assert forall|j: int| 0 <= j < sent(pushes).len() implies carries(
            (#[trigger] sent(pushes)[j])@,
            numbered(0, j),
            chunk(whole, j),
        ) by {
            if j < n {
                assert(sent(pushes)[j] == sent(before)[j]);
                assert(chunk(whole, j) == chunk(stream(before), j));
            } else {
                assert(sent(pushes)[j] == push.packets[j - n]);
                assert(chunk(all, j - n) == chunk(whole, n + (j - n)));
                assert(numbered(next_after(before), j - n) == numbered(0, j));
            }
        }
    }
}

/// Two pushes leave pending what one push of all their whole frames leaves.
pub proof fn law_pushes_join(pending: Seq<i16>, a: Seq<i16>, b: Seq<i16>)
    ensures
        rest(rest(pending + stereo(a)) + stereo(b)) == rest(pending + stereo(a) + stereo(b)),
{
    let x = pending + stereo(a);
    let y = x + stereo(b);
    let count = x.len() / (CHUNK_SAMPLES as nat);
    let z = rest(x) + stereo(b);
    assert(z =~= y.skip((count * CHUNK_SAMPLES) as int));
    let more = z.len() / (CHUNK_SAMPLES as nat);
    assert(y.len() / (CHUNK_SAMPLES as nat) == count + more);
    assert(rest(z) =~= rest(y));
}

} // verus!
