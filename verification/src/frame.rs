//! Video frames and the store that keeps the latest one.

use vstd::prelude::*;

verus! {

#[derive(Debug, Clone, Copy, PartialEq, Eq, Structural)]
pub enum PixelFormat {
    Xrgb8888,
    Rgb565,
    Xrgb1555,
}

impl Default for PixelFormat {
    fn default() -> (format: Self)
        ensures
            format == PixelFormat::Xrgb8888,
    {
        PixelFormat::Xrgb8888
    }
}

/// The number that a format has in a packet.
pub open spec fn format_code(format: PixelFormat) -> u8 {
    match format {
        PixelFormat::Xrgb8888 => 0,
        PixelFormat::Rgb565 => 1,
        PixelFormat::Xrgb1555 => 2,
    }
}

impl PixelFormat {
    pub fn as_u8(self) -> (code: u8)
        ensures
            code == format_code(self),
    {
        match self {
            PixelFormat::Xrgb8888 => 0,
            PixelFormat::Rgb565 => 1,
            PixelFormat::Xrgb1555 => 2,
        }
    }

    /// The format that a libretro core names by a number.
    pub fn from_libretro(value: i32) -> (format: Option<Self>)
        ensures
            format == (if value == 0 {
                Some(PixelFormat::Xrgb1555)
            } else if value == 1 {
                Some(PixelFormat::Xrgb8888)
            } else if value == 2 {
                Some(PixelFormat::Rgb565)
            } else {
                None
            }),
    {
        match value {
            0 => Some(PixelFormat::Xrgb1555),
            1 => Some(PixelFormat::Xrgb8888),
            2 => Some(PixelFormat::Rgb565),
            _ => None,
        }
    }
}

/// One picture. The pixel aspect ratio is held as the bits of its IEEE 754
/// single.
#[derive(Debug, Clone)]
pub struct VideoFrame {
    pub sequence: u64,
    pub width: u32,
    pub height: u32,
    pub pitch: usize,
    pub pixel_format: PixelFormat,
    pub pixel_aspect_ratio_bits: u32,
    pub data: Vec<u8>,
}

/// The latest picture, and the number of the next one.
#[derive(Debug)]
pub struct LatestFrameStore {
    pub next_sequence: u64,
    pub latest: Option<VideoFrame>,
}

impl Default for LatestFrameStore {
    fn default() -> (store: Self)
        ensures
            store.next_sequence == 0,
            store.latest is None,
    {
        LatestFrameStore { next_sequence: 0, latest: None }
    }
}

/// Whether the latest picture is one that a reader who has last seen the
/// picture numbered `last` has not seen.
pub open spec fn is_news(store: LatestFrameStore, last: Option<u64>) -> bool {
    store.latest is Some && (last is None || store.latest->0.sequence > last->0)
}

/// Whether a picture has been put in place of the latest one, under the next
/// number; the count wraps round.
pub open spec fn published(before: LatestFrameStore, after: LatestFrameStore) -> bool {
    &&& after.next_sequence == before.next_sequence.wrapping_add(1)
    &&& after.latest is Some
    &&& after.latest->0.sequence == before.next_sequence
}

/// Whether a picture is the one that was given.
pub open spec fn is_picture(
    frame: VideoFrame,
    width: u32,
    height: u32,
    pitch: usize,
    pixel_format: PixelFormat,
    pixel_aspect_ratio_bits: u32,
    bytes: Seq<u8>,
) -> bool {
    &&& frame.width == width
    &&& frame.height == height
    &&& frame.pitch == pitch
    &&& frame.pixel_format == pixel_format
    &&& frame.pixel_aspect_ratio_bits == pixel_aspect_ratio_bits
    &&& frame.data@ == bytes
}

impl LatestFrameStore {
    /// Puts a new picture in place of the latest one.
    pub fn publish(
        &mut self,
        width: u32,
        height: u32,
        pitch: usize,
        pixel_format: PixelFormat,
        pixel_aspect_ratio_bits: u32,
        bytes: &[u8],
    )
        ensures
            published(*old(self), *final(self)),
            is_picture(
                final(self).latest->0,
                width,
                height,
                pitch,
                pixel_format,
                pixel_aspect_ratio_bits,
                bytes@,
            ),
    {
        let sequence: u64 = self.next_sequence;
        self.next_sequence = sequence.wrapping_add(1);
        let mut data: Vec<u8> = Vec::new();
        data.extend_from_slice(bytes);
        assert(data@ =~= bytes@);
        self.latest = Some(
            VideoFrame {
                sequence,
                width,
                height,
                pitch,
                pixel_format,
                pixel_aspect_ratio_bits,
                data,
            },
        );
    }

    /// The latest picture, where it is newer than the one numbered
    /// `last_sequence`.
    pub fn newer_than(&self, last_sequence: Option<u64>) -> (frame: Option<&VideoFrame>)
        ensures
            match frame {
                Some(f) => is_news(*self, last_sequence) && *f == self.latest->0,
                None => !is_news(*self, last_sequence),
            },
    {
        match (&self.latest, last_sequence) {
            (Some(frame), Some(last)) => if frame.sequence > last {
                Some(frame)
            } else {
                None
            },
            (Some(frame), None) => Some(frame),
            (None, _) => None,
        }
    }
}

/// A reader gets a picture once: having seen the latest, it gets none until
/// another is published, and then that one, as long as the count goes on.
pub proof fn law_each_picture_once(
    before: LatestFrameStore,
    after: LatestFrameStore,
    seen: u64,
)
    requires
        before.latest is Some,
        before.latest->0.sequence == seen,
        before.next_sequence == seen + 1,
        published(before, after),
    ensures
        !is_news(before, Some(seen)),
        is_news(after, Some(seen)),
        after.latest->0.sequence == seen + 1,
        seen + 1 < u64::MAX ==> after.next_sequence == seen + 2,
{
}

} // verus!
