//! The media feed: packets taken apart, pictures made fit for an encoder, and
//! what is handed to the pipelines.

use bytes::Bytes;
use rtp::packet::Packet as RtpPacket;
use vstd::prelude::*;
use webrtc_util::marshal::Unmarshal;

use crate::frame;
use crate::frame::VideoFrame;
use crate::media::{GstreamerPipelineSpec, MediaRuntimeStatus};
use crate::protocol;
use crate::protocol::{
    AUDIO_PACKET_HEADER_LEN, AUDIO_PACKET_MAGIC, FRAME_HEADER_LEN, FRAME_MAGIC,
};
use crate::text;
use crate::wire;

verus! {

/// How long a picture is shown where no earlier one tells, in microseconds.
pub const DEFAULT_VIDEO_FRAME_DURATION_US: u64 = 16_666;

/// How many frames a sound packet holds.
pub const FRAMES_PER_CHUNK: u64 = 512;

/// A picture packet taken apart. The pixel aspect ratio is held as the bits of
/// its IEEE 754 single.
#[derive(Debug, Clone)]
pub struct RawFramePacket {
    pub sequence: u64,
    pub timestamp_us: u64,
    pub width: u32,
    pub height: u32,
    pub pitch: usize,
    pub pixel_format: u8,
    pub pixel_aspect_ratio_bits: u32,
    pub payload: Vec<u8>,
}

/// A sound packet taken apart.
#[derive(Debug, Clone)]
pub struct AudioPacket {
    pub sequence: u64,
    pub timestamp_us: u64,
    pub sample_rate_hz: u32,
    pub channels: u8,
    pub frame_count: u32,
    pub samples: Vec<i16>,
}

pub fn le_u32(bytes: &[u8]) -> (x: u32)
    requires
        bytes@.len() >= 4,
    ensures
        x == wire::get_le32(bytes@, 0),
{
    wire::read_le32(bytes, 0)
}

pub fn le_u64(bytes: &[u8]) -> (x: u64)
    requires
        bytes@.len() >= 8,
    ensures
        x == wire::get_le64(bytes@, 0),
{
    wire::read_le64(bytes, 0)
}

/// Whether `bytes` start with `magic`.
pub open spec fn starts_with(bytes: Seq<u8>, magic: Seq<u8>) -> bool {
    magic.len() <= bytes.len() && bytes.take(magic.len() as int) == magic
}

fn has_magic(bytes: &[u8], magic: &[u8; 4]) -> (has: bool)
    requires
        bytes@.len() >= 4,
    ensures
        has == starts_with(bytes@, magic@),
{
    let has: bool = bytes[0] == magic[0] && bytes[1] == magic[1] && bytes[2] == magic[2] && bytes[3]
        == magic[3];
    proof {
        let head = bytes@.take(4);
        if has {
            assert(head =~= magic@);
        } else {
            assert(head[0] == bytes@[0] && head[1] == bytes@[1] && head[2] == bytes@[2] && head[3]
                == bytes@[3]);
        }
    }
    has
}

/// Whether the bytes are a whole picture packet: the header is there, and all
/// the bytes that it tells of.
pub open spec fn is_frame_packet(b: Seq<u8>) -> bool {
    &&& b.len() >= FRAME_HEADER_LEN
    &&& starts_with(b, FRAME_MAGIC@)
    &&& FRAME_HEADER_LEN + wire::get_le32(b, 37) <= b.len()
}

/// What a picture packet taken apart gives: the fields of its header and its
/// bytes, or nothing where it is no such packet.
pub open spec fn frame_decoded(b: Seq<u8>, frame: Option<RawFramePacket>) -> bool {
    match frame {
        Some(f) => {
            &&& is_frame_packet(b)
            &&& f.sequence == wire::get_le64(b, 4)
            &&& f.timestamp_us == wire::get_le64(b, 12)
            &&& f.width == wire::get_le32(b, 20)
            &&& f.height == wire::get_le32(b, 24)
            &&& f.pitch == wire::get_le32(b, 28)
            &&& f.pixel_format == b[32]
            &&& f.pixel_aspect_ratio_bits == wire::get_le32(b, 33)
            &&& f.payload@ == b.subrange(
                FRAME_HEADER_LEN as int,
                FRAME_HEADER_LEN + wire::get_le32(b, 37),
            )
        },
        None => !is_frame_packet(b),
    }
}

/// Takes a picture packet apart.
pub fn decode_raw_frame_packet(packet: &[u8]) -> (frame: Option<RawFramePacket>)
    ensures
        frame_decoded(packet@, frame),
{
    if packet.len() < FRAME_HEADER_LEN || !has_magic(packet, &FRAME_MAGIC) {
        return None;
    }
    let payload_len: usize = wire::read_le32(packet, 37) as usize;
    if payload_len > packet.len() - FRAME_HEADER_LEN {
        return None;
    }
    let mut payload: Vec<u8> = Vec::new();
    payload.extend_from_slice(
        vstd::slice::slice_subrange(packet, FRAME_HEADER_LEN, FRAME_HEADER_LEN + payload_len),
    );
    assert(payload@ =~= packet@.subrange(
        FRAME_HEADER_LEN as int,
        FRAME_HEADER_LEN + payload_len,
    ));
    Some(
        RawFramePacket {
            sequence: wire::read_le64(packet, 4),
            timestamp_us: wire::read_le64(packet, 12),
            width: wire::read_le32(packet, 20),
            height: wire::read_le32(packet, 24),
            pitch: wire::read_le32(packet, 28) as usize,
            pixel_format: packet[32],
            pixel_aspect_ratio_bits: wire::read_le32(packet, 33),
            payload,
        },
    )
}

/// Whether the bytes are a whole sound packet: the header is there, the samples
/// are of the one known format, as many bytes follow as it tells of, and these
/// are as many samples as its frames have.
pub open spec fn is_audio_packet(b: Seq<u8>) -> bool {
    &&& b.len() >= AUDIO_PACKET_HEADER_LEN
    &&& starts_with(b, AUDIO_PACKET_MAGIC@)
    &&& b[25] == 0
    &&& AUDIO_PACKET_HEADER_LEN + wire::get_le32(b, 30) <= b.len()
    &&& wire::get_le32(b, 30) % 2 == 0
    &&& wire::get_le32(b, 30) / 2 == wire::get_le32(b, 26) * protocol::at_least_one(b[24])
}

/// What a sound packet taken apart gives: the fields of its header and its
/// samples, or nothing where it is no such packet.
pub open spec fn audio_decoded(b: Seq<u8>, audio: Option<AudioPacket>) -> bool {
    match audio {
        Some(a) => {
            &&& is_audio_packet(b)
            &&& a.sequence == wire::get_le64(b, 4)
            &&& a.timestamp_us == wire::get_le64(b, 12)
            &&& a.sample_rate_hz == wire::get_le32(b, 20)
            &&& a.channels == protocol::at_least_one(b[24])
            &&& a.frame_count == wire::get_le32(b, 26)
            &&& a.samples@ == Seq::new(
                (wire::get_le32(b, 30) / 2) as nat,
                |i: int| wire::signed16(wire::get_le16(b, AUDIO_PACKET_HEADER_LEN + 2 * i)),
            )
        },
        None => !is_audio_packet(b),
    }
}

/// Takes a sound packet apart.
pub fn decode_audio_packet(packet: &[u8]) -> (audio: Option<AudioPacket>)
    ensures
        audio_decoded(packet@, audio),
{
    if packet.len() < AUDIO_PACKET_HEADER_LEN || !has_magic(packet, &AUDIO_PACKET_MAGIC) {
        return None;
    }
    let channels: u8 = if packet[24] == 0 {
        1
    } else {
        packet[24]
    };
    if packet[25] != 0 {
        return None;
    }
    let frame_count: u32 = wire::read_le32(packet, 26);
    let payload_len: u32 = wire::read_le32(packet, 30);
    if payload_len as usize > packet.len() - AUDIO_PACKET_HEADER_LEN || payload_len % 2 != 0 {
        return None;
    }
    assert(0 <= frame_count * channels <= 0xffff_ffff * 255) by (nonlinear_arith)
        requires
            0 <= frame_count <= 0xffff_ffff,
            0 <= channels <= 255,
    ;
    if (payload_len / 2) as u64 != frame_count as u64 * channels as u64 {
        return None;
    }
    let count: usize = (payload_len / 2) as usize;
    let mut samples: Vec<i16> = Vec::new();
    let mut i: usize = 0;
    while i < count
        invariant
            i <= count,
            AUDIO_PACKET_HEADER_LEN + 2 * count <= packet@.len(),
            samples@.len() == i,
            forall|j: int|
                0 <= j < i ==> #[trigger] samples@[j] == wire::signed16(
                    wire::get_le16(packet@, AUDIO_PACKET_HEADER_LEN + 2 * j),
                ),
        decreases count - i,
    {
        let n: usize = packet.len();
        samples.push(
            wire::from_bits16(wire::read_le16(packet, AUDIO_PACKET_HEADER_LEN + 2 * i)),
        );
        i += 1;
    }
    proof {
        assert(samples@ =~= Seq::new(
            (wire::get_le32(packet@, 30) / 2) as nat,
            |j: int|
                wire::signed16(wire::get_le16(packet@, AUDIO_PACKET_HEADER_LEN + 2 * j)),
        ));
    }
    Some(
        AudioPacket {
            sequence: wire::read_le64(packet, 4),
            timestamp_us: wire::read_le64(packet, 12),
            sample_rate_hz: wire::read_le32(packet, 20),
            channels,
            frame_count,
            samples,
        },
    )
}

/// How many bytes a pixel has in a format.
pub open spec fn pixel_bytes(format: u8) -> Option<int> {
    if format == 0 {
        Some(4int)
    } else if format == 1 || format == 2 {
        Some(2int)
    } else {
        None
    }
}

fn bytes_per_pixel(format: u8) -> (n: Option<usize>)
    ensures
        match n {
            Some(b) => pixel_bytes(format) == Some(b as int) && (b == 2 || b == 4),
            None => pixel_bytes(format) is None,
        },
{
    match format {
        0 => Some(4),
        1 => Some(2),
        2 => Some(2),
        _ => None,
    }
}

/// Rows of bytes in memory: `rows` of them, each `row` long, `pitch` apart.
pub struct Raster {
    pub bytes: Seq<u8>,
    pub row: int,
    pub rows: int,
    pub pitch: int,
}

/// Whether all rows lie within the bytes.
pub open spec fn raster_fits(r: Raster) -> bool {
    r.rows > 0 ==> (r.rows - 1) * r.pitch + r.row <= r.bytes.len()
}

/// The byte of a canvas at a row and a place in it, where a raster was put down
/// `top` rows and `left` bytes in: the raster's own, and zero around it.
pub open spec fn canvas_byte(r: Raster, left: int, top: int, y: int, x: int) -> u8 {
    if top <= y < top + r.rows && left <= x < left + r.row {
        r.bytes[(y - top) * r.pitch + (x - left)]
    } else {
        0
    }
}

/// A canvas of `height` rows of `width` bytes with a raster put down on it, as
/// bytes without gaps.
pub open spec fn canvas(r: Raster, left: int, top: int, width: int, height: int) -> Seq<u8> {
    Seq::new(
        (width * height) as nat,
        |k: int| canvas_byte(r, left, top, k / width, k % width),
    )
}

proof fn lemma_canvas_at(y: int, width: int, x: int)
    requires
        0 <= x < width,
        0 <= y,
    ensures
        (y * width + x) / width == y,
        (y * width + x) % width == x,
{
    vstd::arithmetic::div_mod::lemma_fundamental_div_mod_converse(y * width + x, width, y, x);
}

proof fn lemma_row_inside(y: int, rows: int, pitch: int, x: int, row: int)
    requires
        0 <= y < rows,
        0 <= pitch,
        0 <= x < row,
    ensures
        0 <= y * pitch,
        y * pitch + x < (rows - 1) * pitch + row,
{
    assert(y * pitch <= (rows - 1) * pitch) by (nonlinear_arith)
        requires
            0 <= y <= rows - 1,
            0 <= pitch,
    ;
    assert(0 <= y * pitch) by (nonlinear_arith)
        requires
            0 <= y,
            0 <= pitch,
    ;
}

/// Puts rows of bytes down on a canvas of zeros.
fn draw(
    bytes: &Vec<u8>,
    row: usize,
    rows: usize,
    pitch: usize,
    left: usize,
    top: usize,
    width: usize,
    height: usize,
) -> (out: Vec<u8>)
    requires
        raster_fits(
            (Raster { bytes: bytes@, row: row as int, rows: rows as int, pitch: pitch as int }),
        ),
        left + row <= usize::MAX,
        top + rows <= usize::MAX,
    ensures
        out@ == canvas(
            (Raster { bytes: bytes@, row: row as int, rows: rows as int, pitch: pitch as int }),
            left as int,
            top as int,
            width as int,
            height as int,
        ),
{
    let ghost r = Raster {
        bytes: bytes@,
        row: row as int,
        rows: rows as int,
        pitch: pitch as int,
    };
    let ghost whole = canvas(r, left as int, top as int, width as int, height as int);
    let mut out: Vec<u8> = Vec::new();
    let mut y: usize = 0;
    assert(0 * width == 0) by (nonlinear_arith);
    while y < height
        invariant
            y <= height,
            r == (Raster {
                bytes: bytes@,
                row: row as int,
                rows: rows as int,
                pitch: pitch as int,
            }),
            raster_fits(r),
            left + row <= usize::MAX,
            top + rows <= usize::MAX,
            whole == canvas(r, left as int, top as int, width as int, height as int),
            out@.len() == y * width,
            forall|k: int| 0 <= k < y * width ==> #[trigger] out@[k] == whole[k],
        decreases height - y,
    {
        let mut x: usize = 0;
        assert((y + 1) * width == y * width + width) by (nonlinear_arith);
        assert((y + 1) * width <= height * width) by (nonlinear_arith)
            requires
                y + 1 <= height,
                0 <= width,
        ;
        assert(height * width == width * height) by (nonlinear_arith);
        while x < width
            invariant
                x <= width,
                y < height,
                r == (Raster {
                    bytes: bytes@,
                    row: row as int,
                    rows: rows as int,
                    pitch: pitch as int,
                }),
                raster_fits(r),
                left + row <= usize::MAX,
                top + rows <= usize::MAX,
                whole == canvas(r, left as int, top as int, width as int, height as int),
                (y + 1) * width == y * width + width,
                (y + 1) * width <= width * height,
                out@.len() == y * width + x,
                forall|k: int| 0 <= k < y * width + x ==> #[trigger] out@[k] == whole[k],
            decreases width - x,
        {
            proof {
                lemma_canvas_at(y as int, width as int, x as int);
                assert(0 <= y * width) by (nonlinear_arith)
                    requires
                        0 <= y,
                        0 <= width,
                ;
            }
            if top <= y && y < top + rows && left <= x && x < left + row {
                proof {
                    lemma_row_inside(
                        (y - top) as int,
                        rows as int,
                        pitch as int,
                        (x - left) as int,
                        row as int,
                    );
                    assert((y - top) * pitch + (x - left) < bytes@.len());
                    assert(bytes@.len() <= usize::MAX) by {
                        assert(bytes@.len() == bytes.len());
                    }
                }
                out.push(bytes[(y - top) * pitch + (x - left)]);
            } else {
                out.push(0);
            }
            x += 1;
        }
        y += 1;
    }
    assert(height * width == width * height) by (nonlinear_arith);
    assert(out@ =~= whole);
    out
}

/// A picture as rows of bytes.
pub open spec fn raster_of(width: u32, height: u32, pitch: usize, format: u8, payload: Seq<u8>) -> Raster {
    Raster {
        bytes: payload,
        row: width * pixel_bytes(format)->0,
        rows: height as int,
        pitch: pitch as int,
    }
}

/// Whether a picture can be made gapless: its format is known, its sizes fit
/// the machine, the payload holds as many rows as it should, and each row whole.
pub open spec fn repackable(width: u32, height: u32, pitch: usize, format: u8, payload: Seq<u8>) -> bool {
    let row = width * pixel_bytes(format)->0;
    &&& pixel_bytes(format) is Some
    &&& row <= usize::MAX
    &&& row * height <= usize::MAX
    &&& pitch * height <= payload.len()
    &&& raster_fits(raster_of(width, height, pitch, format, payload))
}

/// A picture's rows without gaps between them.
pub open spec fn packed_rows(width: u32, height: u32, pitch: usize, format: u8, payload: Seq<u8>) -> Seq<
    u8,
> {
    let r = raster_of(width, height, pitch, format, payload);
    canvas(r, 0, 0, r.row, r.rows)
}

/// A picture's rows without gaps between them, where they can be had.
pub fn repack_video_payload(frame: &RawFramePacket) -> (packed: Option<Vec<u8>>)
    ensures
        match packed {
            Some(p) => repackable(
                frame.width,
                frame.height,
                frame.pitch,
                frame.pixel_format,
                frame.payload@,
            ) && p@ == packed_rows(
                frame.width,
                frame.height,
                frame.pitch,
                frame.pixel_format,
                frame.payload@,
            ),
            None => !repackable(
                frame.width,
                frame.height,
                frame.pitch,
                frame.pixel_format,
                frame.payload@,
            ),
        },
{
    let bpp: usize = match bytes_per_pixel(frame.pixel_format) {
        Some(n) => n,
        None => return None,
    };
    let width: usize = frame.width as usize;
    let height: usize = frame.height as usize;
    let row: usize = match width.checked_mul(bpp) {
        Some(n) => n,
        None => return None,
    };
    let packed_len: Option<usize> = row.checked_mul(height);
    if packed_len.is_none() {
        return None;
    }
    let ghost payload_len = frame.payload@.len();
    assert(payload_len <= usize::MAX) by {
        assert(payload_len == frame.payload.len());
    }
    match frame.pitch.checked_mul(height) {
        Some(needed) => {
            if frame.payload.len() < needed {
                return None;
            }
        },
        None => return None,
    }
    if height > 0 {
        assert((height - 1) * frame.pitch <= frame.pitch * height) by (nonlinear_arith)
            requires
                height > 0,
                frame.pitch >= 0,
        ;
        assert(0 <= (height - 1) * frame.pitch) by (nonlinear_arith)
            requires
                height > 0,
                frame.pitch >= 0,
        ;
        let last: usize = (height - 1) * frame.pitch;
        if row > frame.payload.len() - last {
            return None;
        }
    }
    Some(draw(&frame.payload, row, height, frame.pitch, 0, 0, row, height))
}

/// How a picture is made wider or higher with black borders: to so many rows,
/// or to so many columns.
#[derive(Debug, Clone, Copy, PartialEq, Eq, Structural)]
pub enum Padding {
    Rows(u32),
    Columns(u32),
}

/// A picture on its way to the encoder.
#[verifier::ext_equal]
pub struct PictureModel {
    pub sequence: u64,
    pub timestamp_us: u64,
    pub width: u32,
    pub height: u32,
    pub pitch: int,
    pub pixel_format: u8,
    pub payload: Seq<u8>,
}

pub open spec fn picture_of(f: RawFramePacket) -> PictureModel {
    PictureModel {
        sequence: f.sequence,
        timestamp_us: f.timestamp_us,
        width: f.width,
        height: f.height,
        pitch: f.pitch as int,
        pixel_format: f.pixel_format,
        payload: f.payload@,
    }
}

/// Whether a picture can be padded: the target is no smaller than the picture,
/// its rows lie within the payload, and the result fits the machine.
pub open spec fn paddable(f: RawFramePacket, padding: Padding) -> bool {
    let b = pixel_bytes(f.pixel_format)->0;
    &&& pixel_bytes(f.pixel_format) is Some
    &&& raster_fits(raster_of(f.width, f.height, f.pitch, f.pixel_format, f.payload@))
    &&& match padding {
        Padding::Rows(target) => target >= f.height && f.width * b * target <= usize::MAX
            && f.width * b <= usize::MAX,
        Padding::Columns(target) => target >= f.width && target * b * f.height <= usize::MAX
            && target * b <= usize::MAX,
    }
}

/// A picture in the middle of black borders, half of what is missing on either
/// side, the smaller half first.
pub open spec fn padded(f: RawFramePacket, padding: Padding) -> PictureModel {
    let b = pixel_bytes(f.pixel_format)->0;
    let r = raster_of(f.width, f.height, f.pitch, f.pixel_format, f.payload@);
    match padding {
        Padding::Rows(target) => PictureModel {
            height: target,
            pitch: f.width * b,
            payload: canvas(r, 0, (target - f.height) / 2, f.width * b, target as int),
            ..picture_of(f)
        },
        Padding::Columns(target) => PictureModel {
            width: target,
            pitch: target * b,
            payload: canvas(r, (target - f.width) / 2 * b, 0, target * b, f.height as int),
            ..picture_of(f)
        },
    }
}

/// Whether a picture can be padded so.
pub fn can_pad(f: &RawFramePacket, padding: Padding) -> (can: bool)
    ensures
        can == paddable(*f, padding),
{
    let bpp: usize = match bytes_per_pixel(f.pixel_format) {
        Some(n) => n,
        None => return false,
    };
    assert(0 <= f.width * bpp <= 0xffff_ffff * 4) by (nonlinear_arith)
        requires
            0 <= f.width <= 0xffff_ffff,
            0 <= bpp <= 4,
    ;
    let row: u128 = f.width as u128 * bpp as u128;
    if f.height > 0 {
        assert(0 <= (f.height - 1) * f.pitch <= 0xffff_ffff * 0xffff_ffff_ffff_ffff) by (nonlinear_arith)
            requires
                0 < f.height <= 0xffff_ffff,
                0 <= f.pitch <= 0xffff_ffff_ffff_ffff,
        ;
        let end: u128 = (f.height as u128 - 1) * f.pitch as u128 + row;
        if end > f.payload.len() as u128 {
            return false;
        }
    }
    let max: u128 = usize::MAX as u128;
    match padding {
        Padding::Rows(target) => {
            assert(0 <= row * target <= 0xffff_ffff * 4 * 0xffff_ffff) by (nonlinear_arith)
                requires
                    0 <= row <= 0xffff_ffff * 4,
                    0 <= target <= 0xffff_ffff,
            ;
            target >= f.height && row * target as u128 <= max && row <= max
        },
        Padding::Columns(target) => {
            assert(0 <= target * bpp <= 0xffff_ffff * 4) by (nonlinear_arith)
                requires
                    0 <= target <= 0xffff_ffff,
                    0 <= bpp <= 4,
            ;
            let wide: u128 = target as u128 * bpp as u128;
            assert(0 <= wide * f.height <= 0xffff_ffff * 4 * 0xffff_ffff) by (nonlinear_arith)
                requires
                    0 <= wide <= 0xffff_ffff * 4,
                    0 <= f.height <= 0xffff_ffff,
            ;
            target >= f.width && wide * f.height as u128 <= max && wide <= max
        },
    }
}

/// Puts a picture in the middle of black borders.
pub fn pad_frame(f: &RawFramePacket, padding: Padding) -> (out: RawFramePacket)
    requires
        paddable(*f, padding),
    ensures
        picture_of(out) == padded(*f, padding),
        out.pixel_aspect_ratio_bits == 0x3f80_0000,
{
    let bpp: usize = match bytes_per_pixel(f.pixel_format) {
        Some(n) => n,
        None => 0,
    };
    let (width, height, pitch, payload) = match padding {
        Padding::Rows(target) => {
            let row: usize = f.width as usize * bpp;
            let top: usize = ((target - f.height) / 2) as usize;
            let payload = draw(
                &f.payload,
                row,
                f.height as usize,
                f.pitch,
                0,
                top,
                row,
                target as usize,
            );
            (f.width, target, row, payload)
        },
        Padding::Columns(target) => {
            let wide: usize = target as usize * bpp;
            let left_px: usize = ((target - f.width) / 2) as usize;
            assert(left_px * bpp + f.width * bpp <= target * bpp) by (nonlinear_arith)
                requires
                    left_px + f.width <= target,
                    0 <= bpp,
            ;
            assert(0 <= left_px * bpp && 0 <= f.width * bpp) by (nonlinear_arith)
                requires
                    0 <= left_px,
                    0 <= f.width,
                    0 <= bpp,
            ;
            let row: usize = f.width as usize * bpp;
            let left: usize = left_px * bpp;
            let payload = draw(
                &f.payload,
                row,
                f.height as usize,
                f.pitch,
                left,
                0,
                wide,
                f.height as usize,
            );
            (target, f.height, wide, payload)
        },
    };
    RawFramePacket {
        sequence: f.sequence,
        timestamp_us: f.timestamp_us,
        width,
        height,
        pitch,
        pixel_format: f.pixel_format,
        pixel_aspect_ratio_bits: 0x3f80_0000,
        payload,
    }
}

/// What an encoder has to know of a picture's layout.
#[derive(Debug, Clone, Copy, PartialEq, Eq, Structural)]
pub struct CapsKey {
    pub width: u32,
    pub height: u32,
    pub pitch: usize,
    pub pixel_format: u8,
}

/// What the pipeline is told of the pictures to come; 60 come in a second.
#[derive(Debug, Clone, Copy)]
pub struct VideoCaps {
    pub format: &'static str,
    pub width: i32,
    pub height: i32,
}

/// The name that the pipeline has for a format.
pub open spec fn format_name(format: u8) -> Option<Seq<char>> {
    if format == 0 {
        Some("BGRx"@)
    } else if format == 1 {
        Some("RGB16"@)
    } else if format == 2 {
        Some("xRGB1555"@)
    } else {
        None
    }
}

/// The number whose bits are those of `x`.
pub open spec fn signed32(x: u32) -> i32 {
    if x < 0x8000_0000 {
        x as i32
    } else {
        (x - 0x1_0000_0000) as i32
    }
}

fn to_signed32(x: u32) -> (n: i32)
    ensures
        n == signed32(x),
{
    if x < 0x8000_0000 {
        x as i32
    } else {
        (x as i64 - 0x1_0000_0000) as i32
    }
}

/// What the pipeline is told of pictures like this one, where the format is one
/// that it knows.
pub fn build_video_caps(frame: &RawFramePacket) -> (caps: Result<VideoCaps, String>)
    ensures
        match caps {
            Ok(c) => format_name(frame.pixel_format) == Some(c.format@) && c.width == signed32(
                frame.width,
            ) && c.height == signed32(frame.height),
            Err(why) => format_name(frame.pixel_format) is None && why@
                == "unsupported libretro pixel format "@ + text::decimal(frame.pixel_format as nat),
        },
{
    let format = match frame.pixel_format {
        0 => "BGRx",
        1 => "RGB16",
        2 => "xRGB1555",
        other => {
            let mut why = "unsupported libretro pixel format ".to_owned();
            text::push_decimal(&mut why, other as u64);
            return Err(why);
        },
    };
    Ok(
        VideoCaps {
            format,
            width: to_signed32(frame.width),
            height: to_signed32(frame.height),
        },
    )
}

/// A picture for the encoder, and how long it is shown.
#[derive(Debug)]
pub struct VideoBuffer {
    pub payload: Vec<u8>,
    pub duration_us: u64,
}

/// What is to be done about one picture: how many were missed before it, what
/// the pipeline has to be told first, what to push, and why to stop.
#[derive(Debug)]
pub struct VideoStep {
    pub dropped: u64,
    pub caps: Option<VideoCaps>,
    pub push: Option<VideoBuffer>,
    pub failure: Option<String>,
}

/// What the video feed remembers from one picture to the next.
#[derive(Debug, Clone, Copy)]
pub struct VideoFeeder {
    pub last_sequence: Option<u64>,
    pub last_timestamp_us: Option<u64>,
    pub last_caps_key: Option<CapsKey>,
}

/// How many pictures are missing between two numbers.
pub open spec fn missed_between(last: Option<u64>, sequence: u64) -> u64 {
    match last {
        Some(previous) => if sequence > previous + 1 {
            (sequence - (previous + 1)) as u64
        } else {
            0
        },
        None => 0,
    }
}

/// How long a picture is shown: the time since the one before it, at least one
/// microsecond.
pub open spec fn shown_for(last: Option<u64>, timestamp_us: u64) -> u64 {
    match last {
        Some(previous) => if timestamp_us > previous {
            (timestamp_us - previous) as u64
        } else {
            1
        },
        None => DEFAULT_VIDEO_FRAME_DURATION_US,
    }
}

/// The picture that is fed: the frame itself, or padded.
pub open spec fn fed_picture(f: RawFramePacket, padding: Option<Padding>) -> PictureModel {
    match padding {
        Some(p) => padded(f, p),
        None => picture_of(f),
    }
}

pub open spec fn caps_key_of(p: PictureModel) -> CapsKey {
    CapsKey {
        width: p.width,
        height: p.height,
        pitch: p.pitch as usize,
        pixel_format: p.pixel_format,
    }
}

/// What the feed does about one picture.
pub open spec fn video_outcome(
    before: VideoFeeder,
    f: RawFramePacket,
    padding: Option<Padding>,
    after: VideoFeeder,
    step: VideoStep,
) -> bool {
    let p = fed_picture(f, padding);
    let key = caps_key_of(p);
    let news = before.last_caps_key != Some(key);
    let packs = repackable(p.width, p.height, p.pitch as usize, p.pixel_format, p.payload);
    if padding is Some && pixel_bytes(f.pixel_format) is None {
        &&& after == before
        &&& step.dropped == 0
        &&& step.caps is None
        &&& step.push is None
        &&& step.failure is None
    } else if news && format_name(p.pixel_format) is None {
        &&& after == (VideoFeeder { last_sequence: Some(p.sequence), ..before })
        &&& step.dropped == missed_between(before.last_sequence, p.sequence)
        &&& step.caps is None
        &&& step.push is None
        &&& step.failure is Some
        &&& step.failure->0@ == "unsupported libretro pixel format "@ + text::decimal(
            p.pixel_format as nat,
        )
    } else {
        &&& after.last_sequence == Some(p.sequence)
        &&& after.last_caps_key == Some(key)
        &&& after.last_timestamp_us == (if packs {
            Some(p.timestamp_us)
        } else {
            before.last_timestamp_us
        })
        &&& step.dropped == missed_between(before.last_sequence, p.sequence)
        &&& step.failure is None
        &&& step.caps is Some <==> news
        &&& step.caps is Some ==> {
            &&& Some(step.caps->0.format@) == format_name(p.pixel_format)
            &&& step.caps->0.width == signed32(p.width)
            &&& step.caps->0.height == signed32(p.height)
        }
        &&& step.push is Some <==> packs
        &&& step.push is Some ==> {
            &&& step.push->0.payload@ == packed_rows(
                p.width,
                p.height,
                p.pitch as usize,
                p.pixel_format,
                p.payload,
            )
            &&& step.push->0.duration_us == shown_for(before.last_timestamp_us, p.timestamp_us)
        }
    }
}

impl VideoFeeder {
    pub fn new() -> (feeder: Self)
        ensures
            feeder == (VideoFeeder {
                last_sequence: None,
                last_timestamp_us: None,
                last_caps_key: None,
            }),
    {
        VideoFeeder { last_sequence: None, last_timestamp_us: None, last_caps_key: None }
    }

    /// Says what is to be done about the next picture, which is to be padded
    /// first where `padding` says so.
    pub fn feed(&mut self, frame: RawFramePacket, padding: Option<Padding>) -> (step: VideoStep)
        requires
            padding is Some && pixel_bytes(frame.pixel_format) is Some ==> paddable(
                frame,
                padding->0,
            ),
        ensures
            video_outcome(*old(self), frame, padding, *final(self), step),
    {
        let ghost before = *self;
        let f = match padding {
            Some(p) => {
                if bytes_per_pixel(frame.pixel_format).is_none() {
                    return VideoStep { dropped: 0, caps: None, push: None, failure: None };
                }
                pad_frame(&frame, p)
            },
            None => frame,
        };
        assert(picture_of(f) == fed_picture(frame, padding));
        let dropped: u64 = match self.last_sequence {
            Some(previous) => f.sequence.saturating_sub(previous.saturating_add(1)),
            None => 0,
        };
        assert(dropped == missed_between(before.last_sequence, f.sequence));
        self.last_sequence = Some(f.sequence);
        let key = CapsKey {
            width: f.width,
            height: f.height,
            pitch: f.pitch,
            pixel_format: f.pixel_format,
        };
        let known: bool = match self.last_caps_key {
            Some(last) => last == key,
            None => false,
        };
        let mut caps: Option<VideoCaps> = None;
        if !known {
            match build_video_caps(&f) {
                Ok(c) => {
                    caps = Some(c);
                },
                Err(why) => {
                    return VideoStep { dropped, caps: None, push: None, failure: Some(why) };
                },
            }
            self.last_caps_key = Some(key);
        }
        match repack_video_payload(&f) {
            Some(payload) => {
                let duration_us: u64 = match self.last_timestamp_us {
                    Some(previous) => {
                        let span: u64 = f.timestamp_us.saturating_sub(previous);
                        if span < 1 {
                            1
                        } else {
                            span
                        }
                    },
                    None => DEFAULT_VIDEO_FRAME_DURATION_US,
                };
                self.last_timestamp_us = Some(f.timestamp_us);
                VideoStep {
                    dropped,
                    caps,
                    push: Some(VideoBuffer { payload, duration_us }),
                    failure: None,
                }
            },
            None => VideoStep { dropped, caps, push: None, failure: None },
        }
    }
}

/// What the pipeline is told of the sound to come: interleaved signed 16-bit
/// samples, little end first.
#[derive(Debug, Clone, Copy, PartialEq, Eq, Structural)]
pub struct AudioCaps {
    pub channels: i32,
    pub rate: i32,
}

/// A stretch of sound for the encoder: what to tell the pipeline first, the
/// samples, how long they last and when they start.
#[derive(Debug)]
pub struct AudioStep {
    pub caps: Option<AudioCaps>,
    pub payload: Vec<u8>,
    pub duration_us: u64,
    pub pts_ns: u64,
}

/// What the sound feed remembers from one packet to the next.
#[derive(Debug, Clone, Copy)]
pub struct AudioFeeder {
    pub last_caps_key: Option<(u32, u8)>,
    pub base_sequence: Option<u64>,
}

pub open spec fn rate_or_one(sample_rate_hz: u32) -> int {
    if sample_rate_hz == 0 {
        1
    } else {
        sample_rate_hz as int
    }
}

/// How long so many frames last, at least one microsecond.
pub open spec fn sound_us(frame_count: u32, sample_rate_hz: u32) -> int {
    let us = frame_count * 1_000_000 / rate_or_one(sample_rate_hz);
    if us < 1 {
        1
    } else {
        us
    }
}

/// The distance between two numbers of a count that wraps round.
pub open spec fn count_since(base: u64, sequence: u64) -> int {
    if sequence >= base {
        sequence - base
    } else {
        sequence - base + 0x1_0000_0000_0000_0000
    }
}

/// When a packet starts, in nanoseconds from the first one, held at the largest
/// time there is.
pub open spec fn sound_start(base: Option<u64>, sequence: u64, sample_rate_hz: u32) -> int {
    match base {
        Some(first) => {
            let ns = count_since(first, sequence) * (FRAMES_PER_CHUNK * 1_000_000_000
                / rate_or_one(sample_rate_hz));
            if ns > u64::MAX {
                u64::MAX as int
            } else {
                ns
            }
        },
        None => 0,
    }
}

/// What the feed does about one sound packet.
pub open spec fn audio_outcome(
    before: AudioFeeder,
    audio: AudioPacket,
    after: AudioFeeder,
    step: AudioStep,
) -> bool {
    &&& after.last_caps_key == Some((audio.sample_rate_hz, audio.channels))
    &&& after.base_sequence == (match before.base_sequence {
        Some(base) => Some(base),
        None => Some(audio.sequence),
    })
    &&& step.caps == (if before.last_caps_key == Some((audio.sample_rate_hz, audio.channels)) {
        None
    } else {
        Some(
            AudioCaps {
                channels: audio.channels as i32,
                rate: signed32(audio.sample_rate_hz),
            },
        )
    })
    &&& step.payload@ == protocol::sample_bytes(audio.samples@)
    &&& step.duration_us == sound_us(audio.frame_count, audio.sample_rate_hz)
    &&& step.pts_ns == sound_start(before.base_sequence, audio.sequence, audio.sample_rate_hz)
}

impl AudioFeeder {
    pub fn new() -> (feeder: Self)
        ensures
            feeder.last_caps_key is None,
            feeder.base_sequence is None,
    {
        AudioFeeder { last_caps_key: None, base_sequence: None }
    }

    /// Says what is to be done about the next sound packet. The time at which it
    /// starts goes by its number, so that packets that come in a burst keep
    /// their distance.
    pub fn feed(&mut self, audio: &AudioPacket) -> (step: AudioStep)
        ensures
            audio_outcome(*old(self), *audio, *final(self), step),
    {
        let known: bool = match self.last_caps_key {
            Some((rate, channels)) => rate == audio.sample_rate_hz && channels == audio.channels,
            None => false,
        };
        let caps = if known {
            None
        } else {
            Some(
                AudioCaps {
                    channels: audio.channels as i32,
                    rate: to_signed32(audio.sample_rate_hz),
                },
            )
        };
        self.last_caps_key = Some((audio.sample_rate_hz, audio.channels));
        let mut payload: Vec<u8> = Vec::new();
        let mut i: usize = 0;
        assert(protocol::sample_bytes(audio.samples@.take(0)) =~= Seq::<u8>::empty());
        while i < audio.samples.len()
            invariant
                i <= audio.samples@.len(),
                payload@ == protocol::sample_bytes(audio.samples@.take(i as int)),
            decreases audio.samples@.len() - i,
        {
            let x: u16 = wire::to_bits16(audio.samples[i]);
            let ghost before = payload@;
            wire::push_le16(&mut payload, x);
            assert(payload@ =~= protocol::sample_bytes(audio.samples@.take(i + 1)));
            i += 1;
        }
        assert(audio.samples@.take(i as int) =~= audio.samples@);
        let rate: u64 = if audio.sample_rate_hz < 1 {
            1
        } else {
            audio.sample_rate_hz as u64
        };
        let us: u64 = (audio.frame_count as u64 * 1_000_000) / rate;
        let duration_us: u64 = if us < 1 {
            1
        } else {
            us
        };
        let chunk_ns: u64 = FRAMES_PER_CHUNK * 1_000_000_000 / rate;
        let pts_ns: u64 = match self.base_sequence {
            Some(base) => {
                let distance: u64 = audio.sequence.wrapping_sub(base);
                assert(distance == count_since(base, audio.sequence));
                assert(0 <= distance * chunk_ns <= 0xffff_ffff_ffff_ffff
                    * 0xffff_ffff_ffff_ffff) by (nonlinear_arith)
                    requires
                        0 <= distance <= 0xffff_ffff_ffff_ffff,
                        0 <= chunk_ns <= 0xffff_ffff_ffff_ffff,
                ;
                let ns: u128 = distance as u128 * chunk_ns as u128;
                if ns > u64::MAX as u128 {
                    u64::MAX
                } else {
                    ns as u64
                }
            },
            None => {
                self.base_sequence = Some(audio.sequence);
                0
            },
        };
        AudioStep { caps, payload, duration_us, pts_ns }
    }
}

/// Notes what the pipelines are doing.
pub fn set_pipeline_state(runtime: &mut MediaRuntimeStatus, pipeline_state: &'static str)
    ensures
        *final(runtime) == (MediaRuntimeStatus { pipeline_state, ..*old(runtime) }),
{
    runtime.pipeline_state = pipeline_state;
}

/// The status once more pictures were lost.
pub open spec fn with_dropped(before: MediaRuntimeStatus, count: u64) -> MediaRuntimeStatus {
    MediaRuntimeStatus {
        dropped_video_frames: if before.dropped_video_frames + count > u64::MAX {
            u64::MAX
        } else {
            (before.dropped_video_frames + count) as u64
        },
        ..before
    }
}

/// Notes that pictures were lost. The count stops at the largest number.
pub fn increment_dropped_video_frames(runtime: &mut MediaRuntimeStatus, count: u64)
    ensures
        *final(runtime) == with_dropped(*old(runtime), count),
{
    runtime.dropped_video_frames = runtime.dropped_video_frames.saturating_add(count);
}

/// Whether a status is that of pipelines that are about to run.
pub open spec fn is_starting(spec: GstreamerPipelineSpec, status: MediaRuntimeStatus) -> bool {
    &&& status.backend@ == "gstreamer"@
    &&& status.transport@ == "media-tracks"@
    &&& status.video_codec == Some(spec.video_codec)
    &&& status.video_encoder == Some(spec.video_encoder)
    &&& status.audio_codec == Some(spec.audio_codec)
    &&& status.audio_encoder == Some(spec.audio_encoder)
    &&& status.video_pipeline is Some && status.video_pipeline->0@ == spec.video_pipeline@
    &&& status.audio_pipeline is Some && status.audio_pipeline->0@ == spec.audio_pipeline@
    &&& status.pipeline_state@ == "starting"@
    &&& status.dropped_video_frames == 0
}

/// The status of pipelines that are about to run.
pub fn starting_status(spec: &GstreamerPipelineSpec) -> (status: MediaRuntimeStatus)
    ensures
        is_starting(*spec, status),
{
    MediaRuntimeStatus {
        backend: "gstreamer",
        transport: "media-tracks",
        video_codec: Some(spec.video_codec),
        video_encoder: Some(spec.video_encoder),
        audio_codec: Some(spec.audio_codec),
        audio_encoder: Some(spec.audio_encoder),
        video_pipeline: Some(spec.video_pipeline.clone()),
        audio_pipeline: Some(spec.audio_pipeline.clone()),
        pipeline_state: "starting",
        dropped_video_frames: 0,
    }
}

/// The kinds of stream that a track can carry.
#[derive(Debug, Clone, Copy, PartialEq, Eq, Structural)]
pub enum TrackMime {
    H264,
    Vp8,
    Opus,
}

/// What a track is announced as.
#[derive(Debug, Clone, Copy)]
pub struct TrackCodec {
    pub mime: TrackMime,
    pub clock_rate: u32,
    pub channels: u16,
    pub sdp_fmtp_line: &'static str,
}

/// What a track for pictures of a codec is announced as.
pub open spec fn is_video_track(video_codec: Seq<char>, codec: TrackCodec) -> bool {
    &&& codec.mime == (if video_codec == "h264"@ {
        TrackMime::H264
    } else {
        TrackMime::Vp8
    })
    &&& codec.clock_rate == 90_000
    &&& codec.channels == 0
    &&& codec.sdp_fmtp_line@ == ""@
}

/// What a track for sound is announced as.
pub open spec fn is_audio_track(codec: TrackCodec) -> bool {
    &&& codec.mime == TrackMime::Opus
    &&& codec.clock_rate == 48_000
    &&& codec.channels == 2
    &&& codec.sdp_fmtp_line@ == "minptime=10;useinbandfec=1;sprop-maxcapturerate=48000"@
}

pub fn video_track_codec(video_codec: &str) -> (codec: TrackCodec)
    ensures
        is_video_track(video_codec@, codec),
{
    TrackCodec {
        mime: if text::same_text(video_codec, "h264") {
            TrackMime::H264
        } else {
            TrackMime::Vp8
        },
        clock_rate: 90_000,
        channels: 0,
        sdp_fmtp_line: "",
    }
}

pub fn audio_track_codec() -> (codec: TrackCodec)
    ensures
        is_audio_track(codec),
{
    TrackCodec {
        mime: TrackMime::Opus,
        clock_rate: 48_000,
        channels: 2,
        sdp_fmtp_line: "minptime=10;useinbandfec=1;sprop-maxcapturerate=48000",
    }
}

/// An RTP packet of the `rtp` crate: carried to the track that sends it.
#[verifier::external_type_specification]
#[verifier::external_body]
pub struct ExRtpPacket(rtp::packet::Packet);

/// The error of the `webrtc-util` crate's readers: carried to the log.
#[verifier::external_type_specification]
#[verifier::external_body]
pub struct ExUnmarshalError(webrtc_util::Error);

/// Whether the header extensions with one-byte heads that start at `at` lie
/// within the bytes. They end at `end` or at the reserved head.
pub open spec fn short_extensions_fit(raw: Seq<u8>, at: int, end: int) -> bool
    decreases
            if at < end {
                end - at
            } else {
                0
            },
{
    if at >= end {
        true
    } else if raw[at] == 0 {
        short_extensions_fit(raw, at + 1, end)
    } else if raw[at] >= 0xf0 {
        true
    } else {
        let next = at + 2 + raw[at] as int % 16;
        next <= raw.len() && short_extensions_fit(raw, next, end)
    }
}

/// Whether the header extensions with two-byte heads that start at `at` lie
/// within the bytes. They end at `end`.
pub open spec fn long_extensions_fit(raw: Seq<u8>, at: int, end: int) -> bool
    decreases
            if at < end {
                end - at
            } else {
                0
            },
{
    if at >= end {
        true
    } else if raw[at] == 0 {
        long_extensions_fit(raw, at + 1, end)
    } else {
        let next = at + 2 + raw[at + 1] as int;
        at + 1 < raw.len() && next <= raw.len() && long_extensions_fit(raw, next, end)
    }
}

/// Where the header extensions of an RTP packet would start.
pub open spec fn extensions_at(raw: Seq<u8>) -> int {
    16 + 4 * (raw[0] as int % 16)
}

/// Where the header extensions of an RTP packet would end.
pub open spec fn extensions_end(raw: Seq<u8>) -> int {
    let at = extensions_at(raw);
    at + 4 * (256 * raw[at - 2] + raw[at - 1])
}

/// Whether no header extension of an RTP packet reaches past the end of the
/// bytes. Bytes too short for a header have none.
pub open spec fn extensions_fit(raw: Seq<u8>) -> bool {
    let at = extensions_at(raw);
    let end = extensions_end(raw);
    if raw.len() < 4 || raw[0] as int / 16 % 2 == 0 || raw.len() < at || raw.len() < end {
        true
    } else if raw[at - 4] == 0xbe && raw[at - 3] == 0xde {
        short_extensions_fit(raw, at, end)
    } else if raw[at - 4] == 0x10 && raw[at - 3] == 0 {
        long_extensions_fit(raw, at, end)
    } else {
        true
    }
}

fn do_short_extensions_fit(raw: &[u8], first: usize, end: usize) -> (fit: bool)
    requires
        first <= raw.len(),
        end <= raw.len(),
    ensures
        fit == short_extensions_fit(raw@, first as int, end as int),
{
    let mut at: usize = first;
    while at < end
        invariant
            at <= raw@.len(),
            end <= raw@.len(),
            short_extensions_fit(raw@, first as int, end as int) == short_extensions_fit(
                raw@,
                at as int,
                end as int,
            ),
        decreases raw@.len() - at,
    {
        if raw[at] == 0 {
            at += 1;
        } else if raw[at] >= 0xf0 {
            return true;
        } else {
            let size: usize = 2 + raw[at] as usize % 16;
            if raw.len() - at < size {
                return false;
            }
            at += size;
        }
    }
    true
}

fn do_long_extensions_fit(raw: &[u8], first: usize, end: usize) -> (fit: bool)
    requires
        first <= raw.len(),
        end <= raw.len(),
    ensures
        fit == long_extensions_fit(raw@, first as int, end as int),
{
    let mut at: usize = first;
    while at < end
        invariant
            at <= raw@.len(),
            end <= raw@.len(),
            long_extensions_fit(raw@, first as int, end as int) == long_extensions_fit(
                raw@,
                at as int,
                end as int,
            ),
        decreases raw@.len() - at,
    {
        if raw[at] == 0 {
            at += 1;
        } else {
            if raw.len() - at < 2 {
                return false;
            }
            let size: usize = 2 + raw[at + 1] as usize;
            if raw.len() - at < size {
                return false;
            }
            at += size;
        }
    }
    true
}

/// Whether no header extension of an RTP packet reaches past the end of the
/// bytes.
pub fn do_extensions_fit(raw: &[u8]) -> (fit: bool)
    ensures
        fit == extensions_fit(raw@),
{
    if raw.len() < 4 || raw[0] / 16 % 2 == 0 {
        return true;
    }
    let first: usize = 16 + 4 * (raw[0] as usize % 16);
    if raw.len() < first {
        return true;
    }
    let words: usize = 256 * raw[first - 2] as usize + raw[first - 1] as usize;
    let end: usize = first + 4 * words;
    if raw.len() < end {
        return true;
    }
    if raw[first - 4] == 0xbe && raw[first - 3] == 0xde {
        do_short_extensions_fit(raw, first, end)
    } else if raw[first - 4] == 0x10 && raw[first - 3] == 0 {
        do_long_extensions_fit(raw, first, end)
    } else {
        true
    }
}

/// The RTP packet that bytes hold, if they hold one.
pub uninterp spec fn packet_read(raw: Seq<u8>) -> Option<RtpPacket>;

/// `Packet::unmarshal` of the `rtp` crate: the packet that the bytes hold, or
/// its error where they hold none. Both go by the bytes alone. Which bytes hold a
/// packet, what is in it, and which error it is, is not claimed. A header
/// extension that reaches past the end would make it panic.
#[verifier::external_body]
fn unmarshal_rtp(raw: Vec<u8>) -> (packet: Result<RtpPacket, webrtc_util::Error>)
    requires
        extensions_fit(raw@),
    ensures
        packet is Ok ==> packet_read(raw@) == Some(packet->Ok_0),
        packet is Err ==> packet_read(raw@) is None,
{
    let mut bytes = Bytes::from(raw);
    RtpPacket::unmarshal(&mut bytes)
}

/// Takes an RTP packet from the encoder. Bytes that are none put the pipelines
/// in error; nothing else changes.
pub fn drain_packet(runtime: &mut MediaRuntimeStatus, raw: Vec<u8>) -> (packet: Result<
    RtpPacket,
    webrtc_util::Error,
>)
    requires
        extensions_fit(raw@),
    ensures
        packet is Ok ==> packet_read(raw@) == Some(packet->Ok_0),
        packet is Err ==> packet_read(raw@) is None,
        drained(*old(runtime), packet is Ok, *final(runtime)),
{
    match unmarshal_rtp(raw) {
        Ok(packet) => Ok(packet),
        Err(error) => {
            set_pipeline_state(runtime, "error");
            Err(error)
        },
    }
}

/// The status once a packet has been handled, well or not.
pub open spec fn drained(before: MediaRuntimeStatus, fine: bool, after: MediaRuntimeStatus) -> bool {
    if fine {
        after == before
    } else {
        &&& after.pipeline_state@ == "error"@
        &&& after == (MediaRuntimeStatus { pipeline_state: after.pipeline_state, ..before })
    }
}

/// Notes whether a packet was handed on, and says whether to go on with the
/// next.
pub fn drain_written(runtime: &mut MediaRuntimeStatus, written: bool) -> (go_on: bool)
    ensures
        go_on == written,
        drained(*old(runtime), written, *final(runtime)),
{
    if !written {
        set_pipeline_state(runtime, "error");
    }
    written
}

/// Where the fields of a picture packet lie.
proof fn lemma_frame_layout(
    m: Seq<u8>,
    s: Seq<u8>,
    t: Seq<u8>,
    w: Seq<u8>,
    h: Seq<u8>,
    p: Seq<u8>,
    c: Seq<u8>,
    r: Seq<u8>,
    l: Seq<u8>,
    d: Seq<u8>,
)
    requires
        m.len() == 4,
        s.len() == 8,
        t.len() == 8,
        w.len() == 4,
        h.len() == 4,
        p.len() == 4,
        c.len() == 1,
        r.len() == 4,
        l.len() == 4,
    ensures
        ({
            let b = m + s + t + w + h + p + c + r + l + d;
            &&& b.len() == 41 + d.len()
            &&& b.take(4) == m
            &&& b.subrange(4, 12) == s
            &&& b.subrange(12, 20) == t
            &&& b.subrange(20, 24) == w
            &&& b.subrange(24, 28) == h
            &&& b.subrange(28, 32) == p
            &&& b[32] == c[0]
            &&& b.subrange(33, 37) == r
            &&& b.subrange(37, 41) == l
            &&& b.subrange(41, (41 + d.len()) as int) == d
        }),
{
    let b = m + s + t + w + h + p + c + r + l + d;
    assert(b.take(4) =~= m);
    assert(b.subrange(4, 12) =~= s);
    assert(b.subrange(12, 20) =~= t);
    assert(b.subrange(20, 24) =~= w);
    assert(b.subrange(24, 28) =~= h);
    assert(b.subrange(28, 32) =~= p);
    assert(b.subrange(33, 37) =~= r);
    assert(b.subrange(37, 41) =~= l);
    assert(b.subrange(41, (41 + d.len()) as int) =~= d);
}

/// Where the fields of a sound packet lie.
proof fn lemma_audio_layout(
    m: Seq<u8>,
    s: Seq<u8>,
    t: Seq<u8>,
    r: Seq<u8>,
    c: Seq<u8>,
    f: Seq<u8>,
    l: Seq<u8>,
    d: Seq<u8>,
)
    requires
        m.len() == 4,
        s.len() == 8,
        t.len() == 8,
        r.len() == 4,
        c.len() == 2,
        f.len() == 4,
        l.len() == 4,
    ensures
        ({
            let b = m + s + t + r + c + f + l + d;
            &&& b.len() == 34 + d.len()
            &&& b.take(4) == m
            &&& b.subrange(4, 12) == s
            &&& b.subrange(12, 20) == t
            &&& b.subrange(20, 24) == r
            &&& b[24] == c[0]
            &&& b[25] == c[1]
            &&& b.subrange(26, 30) == f
            &&& b.subrange(30, 34) == l
            &&& b.skip(34) == d
        }),
{
    let b = m + s + t + r + c + f + l + d;
    assert(b.take(4) =~= m);
    assert(b.subrange(4, 12) =~= s);
    assert(b.subrange(12, 20) =~= t);
    assert(b.subrange(20, 24) =~= r);
    assert(b.subrange(26, 30) =~= f);
    assert(b.subrange(30, 34) =~= l);
    assert(b.skip(34) =~= d);
}

/// A picture comes out of its packet as it went in.
pub proof fn law_frame_round_trip(f: VideoFrame, timestamp_us: u64)
    requires
        f.data@.len() <= u32::MAX,
        f.pitch <= u32::MAX,
    ensures
        ({
            let b = protocol::frame_packet(f, timestamp_us);
            &&& is_frame_packet(b)
            &&& wire::get_le64(b, 4) == f.sequence
            &&& wire::get_le64(b, 12) == timestamp_us
            &&& wire::get_le32(b, 20) == f.width
            &&& wire::get_le32(b, 24) == f.height
            &&& wire::get_le32(b, 28) == f.pitch
            &&& b[32] == frame::format_code(f.pixel_format)
            &&& wire::get_le32(b, 33) == f.pixel_aspect_ratio_bits
            &&& b.subrange(FRAME_HEADER_LEN as int, FRAME_HEADER_LEN + wire::get_le32(b, 37))
                == f.data@
        }),
{
    let b = protocol::frame_packet(f, timestamp_us);
    let pitch = protocol::low32(f.pitch as int);
    let len = protocol::low32(f.data@.len() as int);
    wire::lemma_widths(f.width, f.sequence);
    wire::lemma_widths(f.height, timestamp_us);
    wire::lemma_widths(pitch, 0);
    wire::lemma_widths(f.pixel_aspect_ratio_bits, 0);
    wire::lemma_widths(len, 0);
    lemma_frame_layout(
        FRAME_MAGIC@,
        wire::le64(f.sequence),
        wire::le64(timestamp_us),
        wire::le32(f.width),
        wire::le32(f.height),
        wire::le32(pitch),
        seq![frame::format_code(f.pixel_format)],
        wire::le32(f.pixel_aspect_ratio_bits),
        wire::le32(len),
        f.data@,
    );
    wire::lemma_field64(b, 4, f.sequence);
    wire::lemma_field64(b, 12, timestamp_us);
    wire::lemma_field32(b, 20, f.width);
    wire::lemma_field32(b, 24, f.height);
    wire::lemma_field32(b, 28, pitch);
    wire::lemma_field32(b, 33, f.pixel_aspect_ratio_bits);
    wire::lemma_field32(b, 37, len);
}

/// Sound comes out of its packet as it went in, but for samples of a frame that
/// was not whole.
pub proof fn law_audio_round_trip(
    sequence: u64,
    timestamp_us: u64,
    sample_rate_hz: u32,
    channels: u8,
    samples: Seq<i16>,
)
    requires
        2 * samples.len() <= u32::MAX,
    ensures
        ({
            let b = protocol::audio_packet(
                sequence,
                timestamp_us,
                sample_rate_hz,
                channels,
                samples,
            );
            let c = protocol::at_least_one(channels);
            let whole = protocol::whole_frames(samples, c);
            &&& is_audio_packet(b)
            &&& wire::get_le64(b, 4) == sequence
            &&& wire::get_le64(b, 12) == timestamp_us
            &&& wire::get_le32(b, 20) == sample_rate_hz
            &&& protocol::at_least_one(b[24]) == c
            &&& wire::get_le32(b, 26) == whole.len() / (c as nat)
            &&& Seq::new(
                (wire::get_le32(b, 30) / 2) as nat,
                |i: int|
                    wire::signed16(wire::get_le16(b, AUDIO_PACKET_HEADER_LEN + 2 * i)),
            ) == whole
        }),
{
    let b = protocol::audio_packet(sequence, timestamp_us, sample_rate_hz, channels, samples);
    let c = protocol::at_least_one(channels);
    let whole = protocol::whole_frames(samples, c);
    let n = samples.len() as int;
    assert(0 <= n % (c as int) <= n) by (nonlinear_arith)
        requires
            0 <= n,
            c > 0,
    ;
    let m = whole.len() as int;
    assert(m == n - n % (c as int));
    vstd::arithmetic::div_mod::lemma_fundamental_div_mod(n, c as int);
    let frames = n / (c as int);
    assert(m == c * frames);
    vstd::arithmetic::div_mod::lemma_fundamental_div_mod_converse(m, c as int, frames, 0);
    assert(frames <= m) by (nonlinear_arith)
        requires
            m == c * frames,
            c >= 1,
            m >= 0,
    ;
    assert(0 <= frames) by (nonlinear_arith)
        requires
            m == c * frames,
            c >= 1,
            m >= 0,
    ;
    let count = protocol::low32((whole.len() / (c as nat)) as int);
    let len = protocol::low32((2 * whole.len()) as int);
    assert(count == frames);
    assert(len == 2 * m);
    let data = protocol::sample_bytes(whole);
    wire::lemma_widths(sample_rate_hz, sequence);
    wire::lemma_widths(count, timestamp_us);
    wire::lemma_widths(len, 0);
    lemma_audio_layout(
        AUDIO_PACKET_MAGIC@,
        wire::le64(sequence),
        wire::le64(timestamp_us),
        wire::le32(sample_rate_hz),
        seq![c, protocol::AUDIO_SAMPLE_FORMAT_S16LE],
        wire::le32(count),
        wire::le32(len),
        data,
    );
    wire::lemma_field64(b, 4, sequence);
    wire::lemma_field64(b, 12, timestamp_us);
    wire::lemma_field32(b, 20, sample_rate_hz);
    wire::lemma_field32(b, 26, count);
    wire::lemma_field32(b, 30, len);
    assert(count * c == m) by (nonlinear_arith)
        requires
            m == c * frames,
            count == frames,
    ;
    let got = Seq::new(
        (wire::get_le32(b, 30) / 2) as nat,
        |i: int| wire::signed16(wire::get_le16(b, AUDIO_PACKET_HEADER_LEN + 2 * i)),
    );
    assert forall|i: int| 0 <= i < m implies #[trigger] got[i] == whole[i] by {
        assert(b[34 + 2 * i] == b.skip(34)[2 * i]);
        assert(b[34 + 2 * i + 1] == b.skip(34)[2 * i + 1]);
        assert((2 * i + 1) / 2 == i && (2 * i) / 2 == i);
        wire::law_bits16(whole[i]);
        let x = wire::bits16(whole[i]);
        assert(wire::get_le16(b, 34 + 2 * i) == x);
    }
    assert(got =~= whole);
}

/// Padding moves no pixel: each stands where it stood, shifted by the border.
pub proof fn law_padding_keeps_pixels(f: RawFramePacket, target: u32, y: int, x: int)
    requires
        paddable(f, Padding::Rows(target)),
        0 <= y < f.height,
        0 <= x < f.width * pixel_bytes(f.pixel_format)->0,
    ensures
        ({
            let p = padded(f, Padding::Rows(target));
            let top = (target - f.height) / 2;
            p.payload[(y + top) * p.pitch + x] == f.payload@[y * f.pitch + x]
        }),
{
    let row = f.width * pixel_bytes(f.pixel_format)->0;
    let top = (target - f.height) / 2;
    lemma_canvas_at(y + top, row, x);
    assert(0 <= (y + top) * row + x < row * target) by (nonlinear_arith)
        requires
            0 <= y + top < target,
            0 <= x < row,
    ;
}

/// A picture that has no gaps is packed as it is.
pub proof fn law_gapless_is_packed(width: u32, height: u32, format: u8, payload: Seq<u8>)
    requires
        pixel_bytes(format) is Some,
        width * pixel_bytes(format)->0 <= usize::MAX,
        payload.len() == width * pixel_bytes(format)->0 * height,
    ensures
        packed_rows(
            width,
            height,
            (width * pixel_bytes(format)->0) as usize,
            format,
            payload,
        ) == payload,
{
    let row = width * pixel_bytes(format)->0;
    let packed = packed_rows(width, height, row as usize, format, payload);
    assert forall|k: int| 0 <= k < payload.len() implies #[trigger] packed[k] == payload[k] by {
        assert(row > 0) by (nonlinear_arith)
            requires
                0 <= k < row * height,
                row >= 0,
        ;
        vstd::arithmetic::div_mod::lemma_fundamental_div_mod(k, row);
        assert(row * (k / row) == (k / row) * row) by (nonlinear_arith);
        assert(0 <= k / row < height) by (nonlinear_arith)
            requires
                0 <= k < row * height,
                row > 0,
        ;
    }
    assert(packed =~= payload);
}

} // verus!
