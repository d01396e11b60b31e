//! What reaches the encoders: when pictures and sound start, how long they last,
//! and which pixel stands where.

use vstd::prelude::*;

use crate::gstreamer_backend as backend;
use crate::gstreamer_backend::{
    AudioFeeder, AudioPacket, AudioStep, Padding, RawFramePacket, VideoFeeder, VideoStep,
};
use crate::packet_rules;

verus! {

/// Sound packets of 512 frames that are numbered one after another follow each
/// other without gap or overlap: the next one starts when the one before has
/// ended, to within a microsecond. At 48,000 frames a second each starts
/// 10,666,666 ns after the one before it. The first one starts at zero.
pub proof fn law_sound_has_no_gaps(first: u64, sequence: u64, sample_rate_hz: u32)
    requires
        first <= sequence < u64::MAX,
        1 <= sample_rate_hz <= 512_000_000,
        (sequence - first + 1) * 512_000_000_000 <= u64::MAX,
    ensures
        ({
            let start = backend::sound_start(Some(first), sequence, sample_rate_hz);
            let next = backend::sound_start(Some(first), (sequence + 1) as u64, sample_rate_hz);
            let lasts = backend::sound_us(512, sample_rate_hz);
            &&& 0 <= next - (start + 1_000 * lasts) < 1_000
            &&& (next - start) * sample_rate_hz <= 512_000_000_000
            &&& 512_000_000_000 < (next - start + 1) * sample_rate_hz
            &&& sample_rate_hz == 48_000 ==> start == (sequence - first) * 10_666_666
            &&& sequence == first ==> start == 0
        }),
        backend::sound_start(None, sequence, sample_rate_hz) == 0,
{
    let r = sample_rate_hz as int;
    let k = sequence - first;
    let c = 512_000_000_000int / r;
    let d = 512_000_000int / r;
    vstd::arithmetic::div_mod::lemma_fundamental_div_mod(512_000_000_000int, r);
    vstd::arithmetic::div_mod::lemma_fundamental_div_mod(512_000_000int, r);
    assert(0 <= c <= 512_000_000_000) by (nonlinear_arith)
        requires
            512_000_000_000 == r * c + 512_000_000_000int % r,
            0 <= 512_000_000_000int % r < r,
            r >= 1,
    ;
    assert(d >= 1) by (nonlinear_arith)
        requires
            512_000_000 == r * d + 512_000_000int % r,
            0 <= 512_000_000int % r < r,
            1 <= r <= 512_000_000,
    ;
    assert(1_000 * d <= c < 1_000 * (d + 1)) by (nonlinear_arith)
        requires
            512_000_000_000 == r * c + 512_000_000_000int % r,
            0 <= 512_000_000_000int % r < r,
            512_000_000 == r * d + 512_000_000int % r,
            0 <= 512_000_000int % r < r,
            r >= 1,
    ;
    assert((k + 1) * c == k * c + c) by (nonlinear_arith);
    assert(0 <= k * c && (k + 1) * c <= (k + 1) * 512_000_000_000) by (nonlinear_arith)
        requires
            0 <= k,
            0 <= c <= 512_000_000_000,
    ;
    assert(c * r <= 512_000_000_000 < (c + 1) * r) by (nonlinear_arith)
        requires
            512_000_000_000 == r * c + 512_000_000_000int % r,
            0 <= 512_000_000_000int % r < r,
    ;
    assert(backend::count_since(first, sequence) == k);
    assert(backend::count_since(first, (sequence + 1) as u64) == k + 1);
    assert(512u32 * 1_000_000 == 512_000_000);
    assert(backend::FRAMES_PER_CHUNK * 1_000_000_000 == 512_000_000_000);
    assert(backend::sound_start(Some(first), sequence, sample_rate_hz) == k * c);
    assert(backend::sound_start(Some(first), (sequence + 1) as u64, sample_rate_hz) == (k + 1) * c);
    if r == 48_000 {
        assert(c == 10_666_666);
    }
    if k == 0 {
        assert(k * c == 0) by (nonlinear_arith)
            requires
                k == 0,
        ;
    }
}

/// Two sound packets of 512 frames that come one after another reach the encoder
/// one behind the other: the second starts when the first has ended, to within a
/// microsecond, whenever they came in.
pub proof fn law_sound_follows(
    before: AudioFeeder,
    one: AudioPacket,
    between: AudioFeeder,
    first: AudioStep,
    two: AudioPacket,
    after: AudioFeeder,
    second: AudioStep,
)
    requires
        backend::audio_outcome(before, one, between, first),
        backend::audio_outcome(between, two, after, second),
        two.sequence == one.sequence + 1,
        one.frame_count == 512,
        one.sample_rate_hz == two.sample_rate_hz,
        1 <= one.sample_rate_hz <= 512_000_000,
        before.base_sequence is Some ==> before.base_sequence->0 <= one.sequence && (one.sequence
            - before.base_sequence->0 + 1) * 512_000_000_000 <= u64::MAX,
    ensures
        0 <= second.pts_ns - (first.pts_ns + 1_000 * first.duration_us) < 1_000,
        one.sample_rate_hz == 48_000 ==> second.pts_ns == first.pts_ns + 10_666_666,
        before.base_sequence is None ==> first.pts_ns == 0,
        between.base_sequence is Some,
        before.base_sequence is Some ==> between.base_sequence == before.base_sequence,
{
    let base = match before.base_sequence {
        Some(b) => b,
        None => one.sequence,
    };
    law_sound_has_no_gaps(base, one.sequence, one.sample_rate_hz);
    law_sound_has_no_gaps(one.sequence, one.sequence, one.sample_rate_hz);
    if one.sample_rate_hz == 48_000 {
        let r = 48_000int;
        assert(512_000_000_000int / r == 10_666_666);
        assert(backend::FRAMES_PER_CHUNK * 1_000_000_000 == 512_000_000_000);
        let k = one.sequence - base;
        assert(backend::count_since(base, two.sequence) == k + 1);
        assert((k + 1) * 10_666_666 <= (k + 1) * 512_000_000_000);
    }
}

/// The pipeline is told of a kind of sound exactly where it is new, by its
/// channels and its rate, and gets every sample in two bytes, the low one first.
pub proof fn law_samples_reach_the_encoder(
    before: AudioFeeder,
    audio: AudioPacket,
    after: AudioFeeder,
    step: AudioStep,
    i: int,
)
    requires
        backend::audio_outcome(before, audio, after, step),
        0 <= i < audio.samples@.len(),
    ensures
        step.caps is None <==> before.last_caps_key is Some && before.last_caps_key->0 == (
        audio.sample_rate_hz,
        audio.channels,
    ),
        step.caps is Some ==> step.caps->0.channels == audio.channels && (audio.sample_rate_hz
            <= i32::MAX ==> step.caps->0.rate == audio.sample_rate_hz),
        after.last_caps_key == Some((audio.sample_rate_hz, audio.channels)),
        step.payload@.len() == 2 * audio.samples@.len(),
        packet_rules::sample_at(step.payload@, 2 * i) == audio.samples@[i],
{
    assert((2 * i) / 2 == i && (2 * i + 1) / 2 == i && (2 * i) % 2 == 0 && (2 * i + 1) % 2 == 1);
    assert(step.payload@[2 * i] == (crate::wire::bits16(audio.samples@[i]) % 256) as u8);
    assert(step.payload@[2 * i + 1] == (crate::wire::bits16(audio.samples@[i]) / 256) as u8);
}

/// The numbers of sound packets may run over: the count goes on behind the
/// largest one.
pub proof fn law_sound_count_runs_over(first: u64, sequence: u64, sample_rate_hz: u32)
    requires
        sequence < first,
    ensures
        backend::count_since(first, sequence) == (u64::MAX - first) + 1 + sequence,
{
}

/// So many frames last as long as they take at their rate, to within a
/// microsecond, and never no time at all.
pub proof fn law_sound_lasts(frame_count: u32, sample_rate_hz: u32)
    requires
        sample_rate_hz >= 1,
    ensures
        backend::sound_us(frame_count, sample_rate_hz) >= 1,
        backend::sound_us(frame_count, sample_rate_hz) > 1 ==> backend::sound_us(
            frame_count,
            sample_rate_hz,
        ) * sample_rate_hz <= frame_count * 1_000_000,
        frame_count * 1_000_000 < (backend::sound_us(frame_count, sample_rate_hz) + 1)
            * sample_rate_hz,
{
    let r = sample_rate_hz as int;
    let n = frame_count * 1_000_000;
    vstd::arithmetic::div_mod::lemma_fundamental_div_mod(n, r);
    let q = n / r;
    assert(q * r <= n < (q + 1) * r) by (nonlinear_arith)
        requires
            n == r * q + n % r,
            0 <= n % r < r,
    ;
    if q < 1 {
        assert((q + 1) * r <= (1 + 1) * r) by (nonlinear_arith)
            requires
                q < 1,
                r >= 1,
        ;
    }
}

/// A picture is shown from the one before it until its own time, the first one
/// for a sixtieth of a second, and none for no time at all. Pictures that are
/// missing in the count are counted as dropped.
pub proof fn law_pictures_follow(
    before: VideoFeeder,
    f: RawFramePacket,
    after: VideoFeeder,
    step: VideoStep,
)
    requires
        backend::video_outcome(before, f, None, after, step),
    ensures
        after.last_sequence == Some(f.sequence),
        step.push is Some ==> after.last_timestamp_us == Some(f.timestamp_us),
        step.push is None ==> after.last_timestamp_us == before.last_timestamp_us,
        step.push is Some && before.last_timestamp_us is None ==> step.push->0.duration_us == 16_666,
        step.push is Some && before.last_timestamp_us is Some && before.last_timestamp_us->0
            < f.timestamp_us ==> before.last_timestamp_us->0 + step.push->0.duration_us
            == f.timestamp_us,
        step.push is Some && before.last_timestamp_us is Some && before.last_timestamp_us->0
            >= f.timestamp_us ==> step.push->0.duration_us == 1,
        before.last_sequence is None ==> step.dropped == 0,
        before.last_sequence is Some && before.last_sequence->0 < f.sequence
            ==> before.last_sequence->0 + 1 + step.dropped == f.sequence,
        before.last_sequence is Some && before.last_sequence->0 >= f.sequence ==> step.dropped == 0,
{
}

/// The pipeline is told of a layout exactly where it is new: by the name of the
/// format, BGRx for 0, RGB16 for 1 and xRGB1555 for 2, and by width and height. A
/// format with another number stops the feed.
pub proof fn law_layout_is_told(
    before: VideoFeeder,
    f: RawFramePacket,
    after: VideoFeeder,
    step: VideoStep,
)
    requires
        backend::video_outcome(before, f, None, after, step),
    ensures
        ({
            let same = before.last_caps_key is Some && before.last_caps_key->0.width == f.width
                && before.last_caps_key->0.height == f.height && before.last_caps_key->0.pitch
                == f.pitch && before.last_caps_key->0.pixel_format == f.pixel_format;
            &&& same ==> step.caps is None && step.failure is None
            &&& !same && f.pixel_format > 2 ==> step.failure is Some && step.push is None
                && step.caps is None
            &&& !same && f.pixel_format <= 2 ==> {
                &&& step.failure is None
                &&& step.caps is Some
                &&& f.pixel_format == 0 ==> step.caps->0.format@ == "BGRx"@
                &&& f.pixel_format == 1 ==> step.caps->0.format@ == "RGB16"@
                &&& f.pixel_format == 2 ==> step.caps->0.format@ == "xRGB1555"@
                &&& f.width <= i32::MAX ==> step.caps->0.width == f.width
                &&& f.height <= i32::MAX ==> step.caps->0.height == f.height
            }
            &&& step.failure is None ==> {
                &&& after.last_caps_key is Some
                &&& after.last_caps_key->0.width == f.width
                &&& after.last_caps_key->0.height == f.height
                &&& after.last_caps_key->0.pitch == f.pitch
                &&& after.last_caps_key->0.pixel_format == f.pixel_format
            }
        }),
{
}

/// How many bytes a pixel has: four in format 0, two in formats 1 and 2.
pub open spec fn depth(format: u8) -> int {
    if format == 0 {
        4
    } else {
        2
    }
}

/// Every byte of every pixel reaches the encoder in its place: the pushed picture
/// has its rows one after another, without the gaps that they had in memory. It
/// is pushed exactly where all of it is there.
pub proof fn law_pixels_reach_the_encoder(
    before: VideoFeeder,
    f: RawFramePacket,
    after: VideoFeeder,
    step: VideoStep,
    y: int,
    x: int,
)
    requires
        backend::video_outcome(before, f, None, after, step),
        f.pixel_format <= 2,
        0 <= y < f.height,
        0 <= x < f.width * depth(f.pixel_format),
    ensures
        f.pitch >= f.width * depth(f.pixel_format) && f.pitch * f.height <= f.payload@.len()
            && f.width * depth(f.pixel_format) * f.height <= usize::MAX ==> step.push is Some,
        step.push is Some ==> {
            let row = f.width * depth(f.pixel_format);
            &&& step.push->0.payload@.len() == row * f.height
            &&& 0 <= y * row + x < row * f.height
            &&& step.push->0.payload@[y * row + x] == f.payload@[y * f.pitch + x]
        },
{
    let row = f.width * depth(f.pixel_format);
    let h = f.height as int;
    assert(backend::pixel_bytes(f.pixel_format) == Some(depth(f.pixel_format)));
    if f.pitch >= row && f.pitch * f.height <= f.payload@.len() && row * f.height <= usize::MAX {
        assert((h - 1) * f.pitch + row <= f.pitch * f.height) by (nonlinear_arith)
            requires
                f.pitch >= row,
                h == f.height,
                h >= 1,
        ;
        assert(row <= row * f.height) by (nonlinear_arith)
            requires
                f.height >= 1,
                row >= 0,
        ;
    }
    vstd::arithmetic::div_mod::lemma_fundamental_div_mod_converse(y * row + x, row, y, x);
    assert(0 <= y * row + x < row * h) by (nonlinear_arith)
        requires
            0 <= y < h,
            0 <= x < row,
    ;
}

/// A picture that is padded to so many columns stands in the middle: its pixels
/// are shifted right by half of what is missing, and the borders are black. It is
/// as high as it was, and has no gaps.
pub proof fn law_columns_are_added(f: RawFramePacket, target: u32, y: int, x: int)
    requires
        backend::paddable(f, Padding::Columns(target)),
        0 <= y < f.height,
        0 <= x < target * depth(f.pixel_format),
    ensures
        ({
            let p = backend::padded(f, Padding::Columns(target));
            let left = (target - f.width) / 2 * depth(f.pixel_format);
            let row = f.width * depth(f.pixel_format);
            let at = y * (target * depth(f.pixel_format)) + x;
            &&& target >= f.width
            &&& p.width == target
            &&& p.height == f.height
            &&& p.pitch == target * depth(f.pixel_format)
            &&& p.pixel_format == f.pixel_format
            &&& p.sequence == f.sequence
            &&& p.timestamp_us == f.timestamp_us
            &&& p.payload.len() == target * depth(f.pixel_format) * f.height
            &&& 0 <= at < p.payload.len()
            &&& p.payload[at] == if left <= x < left + row {
                f.payload@[y * f.pitch + (x - left)]
            } else {
                0
            }
        }),
{
    let wide = target * depth(f.pixel_format);
    assert(backend::pixel_bytes(f.pixel_format) == Some(depth(f.pixel_format)));
    vstd::arithmetic::div_mod::lemma_fundamental_div_mod_converse(y * wide + x, wide, y, x);
    assert(0 <= y * wide + x < wide * f.height) by (nonlinear_arith)
        requires
            0 <= y < f.height,
            0 <= x < wide,
    ;
}

/// A picture that is padded to so many rows stands in the middle: its rows are
/// shifted down by half of what is missing, and the borders are black. It is as
/// wide as it was, and has no gaps.
pub proof fn law_rows_are_added(f: RawFramePacket, target: u32, y: int, x: int)
    requires
        backend::paddable(f, Padding::Rows(target)),
        0 <= y < target,
        0 <= x < f.width * depth(f.pixel_format),
    ensures
        ({
            let p = backend::padded(f, Padding::Rows(target));
            let top = (target - f.height) / 2;
            let row = f.width * depth(f.pixel_format);
            &&& target >= f.height
            &&& p.width == f.width
            &&& p.height == target
            &&& p.pitch == row
            &&& p.pixel_format == f.pixel_format
            &&& p.sequence == f.sequence
            &&& p.timestamp_us == f.timestamp_us
            &&& p.payload.len() == row * target
            &&& 0 <= y * row + x < p.payload.len()
            &&& p.payload[y * row + x] == if top <= y < top + f.height {
                f.payload@[(y - top) * f.pitch + x]
            } else {
                0
            }
        }),
{
    let row = f.width * depth(f.pixel_format);
    assert(backend::pixel_bytes(f.pixel_format) == Some(depth(f.pixel_format)));
    vstd::arithmetic::div_mod::lemma_fundamental_div_mod_converse(y * row + x, row, y, x);
    assert(0 <= y * row + x < row * target) by (nonlinear_arith)
        requires
            0 <= y < target,
            0 <= x < row,
    ;
}

/// A picture that is padded on its way is the padded one in all that is pushed
/// and told of it.
pub proof fn law_padded_picture_is_fed(
    before: VideoFeeder,
    f: RawFramePacket,
    padding: Padding,
    after: VideoFeeder,
    step: VideoStep,
)
    requires
        f.pixel_format <= 2,
        backend::paddable(f, padding),
        backend::video_outcome(before, f, Some(padding), after, step),
    ensures
        step.failure is None,
        after.last_sequence == Some(f.sequence),
        after.last_caps_key is Some,
        padding is Rows ==> after.last_caps_key->0.height == padding->Rows_0
            && after.last_caps_key->0.width == f.width,
        padding is Columns ==> after.last_caps_key->0.width == padding->Columns_0
            && after.last_caps_key->0.height == f.height,
        step.push is Some,
        step.push->0.payload@ == backend::padded(f, padding).payload,
{
    let b = depth(f.pixel_format);
    assert(backend::pixel_bytes(f.pixel_format) == Some(b));
    let p = backend::padded(f, padding);
    let row = p.width * b;
    let h = p.height as int;
    assert(p.pitch == row);
    match padding {
        Padding::Rows(target) => {
            assert(p.payload.len() == row * h);
        },
        Padding::Columns(target) => {
            assert(p.payload.len() == row * h);
        },
    }
    assert(0 <= row) by (nonlinear_arith)
        requires
            row == p.width * b,
            b >= 2,
    ;
    assert(row * h <= usize::MAX);
    if h > 0 {
        assert((h - 1) * row + row == row * h) by (nonlinear_arith);
    }
    backend::law_gapless_is_packed(p.width, p.height, p.pixel_format, p.payload);
}

/// Sound at no rate counts as if it came once a second; at any other rate it counts
/// with that.
pub proof fn law_rate_of_sound(sample_rate_hz: u32)
    ensures
        sample_rate_hz == 0 ==> backend::rate_or_one(sample_rate_hz) == 1,
        sample_rate_hz > 0 ==> backend::rate_or_one(sample_rate_hz) == sample_rate_hz,
{
}


} // verus!
