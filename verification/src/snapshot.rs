//! The picture on the screen as a PNG image.

use vstd::prelude::*;

use crate::gstreamer_backend;
use crate::gstreamer_backend::{decode_raw_frame_packet, RawFramePacket};
use crate::server;
use crate::server::{refuse, Refusal};

verus! {

/// How many bytes a pixel of a format takes.
pub open spec fn pixel_size(format: u8) -> int {
    if format == 0 {
        4
    } else {
        2
    }
}

/// The two bytes of a pixel as a number, the low one first.
pub open spec fn pixel_word(p: Seq<u8>, off: int) -> int {
    p[off] + 256 * p[off + 1]
}

/// Red, green and blue of the pixel at `off`, 8 bits each: those of format 0
/// stand in the bytes as blue, green, red; format 1 packs them as 5, 6 and 5
/// bits and format 2 as 5 bits each, and the bits that are missing are zero.
pub open spec fn pixel_rgb(format: u8, p: Seq<u8>, off: int) -> Seq<u8> {
    let word = pixel_word(p, off);
    if format == 0 {
        seq![p[off + 2], p[off + 1], p[off]]
    } else if format == 1 {
        seq![
            (word / 2048 * 8) as u8,
            (word / 32 % 64 * 4) as u8,
            (word % 32 * 8) as u8,
        ]
    } else {
        seq![
            (word / 1024 % 32 * 8) as u8,
            (word / 32 % 32 * 8) as u8,
            (word % 32 * 8) as u8,
        ]
    }
}

/// The colours of a row's first `n` pixels. A pixel that is not there in whole
/// is left out.
pub open spec fn row_rgb(f: RawFramePacket, y: int, n: int) -> Seq<u8>
    decreases n,
{
    if n <= 0 {
        Seq::empty()
    } else {
        let off = y * f.pitch + (n - 1) * pixel_size(f.pixel_format);
        if off + pixel_size(f.pixel_format) <= f.payload@.len() {
            row_rgb(f, y, n - 1) + pixel_rgb(f.pixel_format, f.payload@, off)
        } else {
            row_rgb(f, y, n - 1)
        }
    }
}

/// The colours of a picture's first `n` rows.
pub open spec fn rows_rgb(f: RawFramePacket, n: int) -> Seq<u8>
    decreases n,
{
    if n <= 0 {
        Seq::empty()
    } else {
        rows_rgb(f, n - 1) + row_rgb(f, n - 1, f.width as int)
    }
}

/// The colours of a picture, row by row.
pub open spec fn picture_rgb(f: RawFramePacket) -> Seq<u8> {
    rows_rgb(f, f.height as int)
}

fn push_pixel(out: &mut Vec<u8>, format: u8, p: &Vec<u8>, off: usize)
    requires
        off + pixel_size(format) <= p.len(),
        format <= 2,
    ensures
        final(out)@ == old(out)@ + pixel_rgb(format, p@, off as int),
{
    if format == 0 {
        out.push(p[off + 2]);
        out.push(p[off + 1]);
        out.push(p[off]);
    } else {
        let word: u16 = p[off] as u16 + 256 * (p[off + 1] as u16);
        if format == 1 {
            out.push((word / 2048 * 8) as u8);
            out.push((word / 32 % 64 * 4) as u8);
        } else {
            out.push((word / 1024 % 32 * 8) as u8);
            out.push((word / 32 % 32 * 8) as u8);
        }
        out.push((word % 32 * 8) as u8);
    }
    assert(out@ =~= old(out)@ + pixel_rgb(format, p@, off as int));
}

/// The colours of a picture, or nothing for a format that is not known.
pub fn rgb_of(f: &RawFramePacket) -> (rgb: Option<Vec<u8>>)
    ensures
        match rgb {
            Some(bytes) => f.pixel_format <= 2 && bytes@ == picture_rgb(*f),
            None => f.pixel_format > 2,
        },
{
    if f.pixel_format > 2 {
        return None;
    }
    let size: u128 = if f.pixel_format == 0 {
        4
    } else {
        2
    };
    let mut out: Vec<u8> = Vec::new();
    let mut y: u32 = 0;
    while y < f.height
        invariant
            y <= f.height,
            f.pixel_format <= 2,
            size == pixel_size(f.pixel_format),
            out@ == rows_rgb(*f, y as int),
        decreases f.height - y,
    {
        let ghost above = out@;
        let mut x: u32 = 0;
        assert(out@ =~= above + row_rgb(*f, y as int, 0));
        while x < f.width
            invariant
                x <= f.width,
                y < f.height,
                f.pixel_format <= 2,
                size == pixel_size(f.pixel_format),
                out@ == above + row_rgb(*f, y as int, x as int),
            decreases f.width - x,
        {
            let pitch: u128 = f.pitch as u128;
            let row: u128 = y as u128;
            assert(row * pitch <= 0xffff_ffff * 0xffff_ffff_ffff_ffff) by (nonlinear_arith)
                requires
                    row <= 0xffff_ffff,
                    pitch <= 0xffff_ffff_ffff_ffff,
            ;
            let off: u128 = row * pitch + x as u128 * size;
            if off + size <= f.payload.len() as u128 {
                push_pixel(&mut out, f.pixel_format, &f.payload, off as usize);
                assert(out@ =~= above + row_rgb(*f, y as int, x + 1));
            }
            x += 1;
        }
        y += 1;
    }
    Some(out)
}

/// The PNG image of so many pixels, three bytes each, or nothing where the
/// encoder gives up.
pub uninterp spec fn png_image(width: u32, height: u32, rgb: Seq<u8>) -> Option<Seq<u8>>;

/// Whether the pixels of an image are all there, and can be counted.
pub open spec fn pixels_fit(width: u32, height: u32, len: nat) -> bool {
    3 * width <= usize::MAX && 3 * width * height <= len
}

pub open spec fn bytes_view(bytes: Option<Vec<u8>>) -> Option<Seq<u8>> {
    match bytes {
        Some(b) => Some(b@),
        None => None,
    }
}

/// `image::RgbImage::from_raw` and, on the image, `write_to` as PNG. There is an
/// image exactly where its pixels are all there; what is written is a function
/// of its size and of those pixels alone, or nothing where the encoder fails.
#[verifier::external_body]
fn encode_png(width: u32, height: u32, rgb: Vec<u8>) -> (png: Option<Option<Vec<u8>>>)
    ensures
        png is Some <==> pixels_fit(width, height, rgb@.len()),
        png is Some ==> bytes_view(png->0) == png_image(
            width,
            height,
            rgb@.take(3 * width * height),
        ),
{
    let image = image::RgbImage::from_raw(width, height, rgb)?;
    let mut png = std::io::Cursor::new(Vec::new());
    match image.write_to(&mut png, image::ImageFormat::Png) {
        Ok(()) => Some(Some(png.into_inner())),
        Err(_) => Some(None),
    }
}

/// What is answered with an image that was made, or that could not be.
pub open spec fn image_answer(png: Option<Option<Seq<u8>>>, answer: Result<Vec<u8>, Refusal>) -> bool {
    match png {
        None => answer is Err && server::refuses(answer->Err_0, 500, "invalid frame dimensions"@),
        Some(None) => answer is Err && server::refuses(answer->Err_0, 500, "png encode failed"@),
        Some(Some(bytes)) => answer is Ok && answer->Ok_0@ == bytes,
    }
}

/// What is answered with an image that was made, or that could not be.
pub fn answer_image(png: Option<Option<Vec<u8>>>) -> (answer: Result<Vec<u8>, Refusal>)
    ensures
        image_answer(
            match png {
                Some(made) => Some(bytes_view(made)),
                None => None,
            },
            answer,
        ),
{
    match png {
        None => Err(refuse(500, "invalid frame dimensions")),
        Some(None) => Err(refuse(500, "png encode failed")),
        Some(Some(bytes)) => Ok(bytes),
    }
}

/// What asking for a picture answers: its PNG image.
pub open spec fn picture_outcome(f: RawFramePacket, answer: Result<Vec<u8>, Refusal>) -> bool {
    if f.pixel_format > 2 {
        answer is Err && server::refuses(answer->Err_0, 500, "unsupported pixel format"@)
    } else {
        let rgb = picture_rgb(f);
        image_answer(
            if pixels_fit(f.width, f.height, rgb.len()) {
                Some(png_image(f.width, f.height, rgb.take(3 * f.width * f.height)))
            } else {
                None
            },
            answer,
        )
    }
}

/// The PNG image of a picture.
pub fn picture_snapshot(f: &RawFramePacket) -> (answer: Result<Vec<u8>, Refusal>)
    ensures
        picture_outcome(*f, answer),
{
    match rgb_of(f) {
        None => Err(refuse(500, "unsupported pixel format")),
        Some(rgb) => answer_image(encode_png(f.width, f.height, rgb)),
    }
}

/// What is answered where a packet is read as this frame.
pub open spec fn frame_answered(
    packet: Seq<u8>,
    frame: Option<RawFramePacket>,
    answer: Result<Vec<u8>, Refusal>,
) -> bool {
    &&& gstreamer_backend::frame_decoded(packet, frame)
    &&& match frame {
        None => answer is Err && server::refuses(answer->Err_0, 500, "failed to decode frame"@),
        Some(f) => picture_outcome(f, answer),
    }
}

/// What is answered where there is no packet.
pub open spec fn none_answered(answer: Result<Vec<u8>, Refusal>) -> bool {
    answer is Err && server::refuses(answer->Err_0, 503, "no frame available"@)
}

/// The PNG image of the picture in a packet, if there is one.
pub fn session_snapshot(packet: Option<&[u8]>) -> (answer: Result<Vec<u8>, Refusal>)
    ensures
        match packet {
            None => none_answered(answer),
            Some(bytes) => exists|frame: Option<RawFramePacket>| #[trigger]
                frame_answered(bytes@, frame, answer),
        },
{
    match packet {
        None => Err(refuse(503, "no frame available")),
        Some(bytes) => {
            let frame = decode_raw_frame_packet(bytes);
            let answer = match &frame {
                None => Err(refuse(500, "failed to decode frame")),
                Some(f) => picture_snapshot(f),
            };
            assert(frame_answered(bytes@, frame, answer));
            answer
        },
    }
}

/// A picture whose rows are all there has three bytes for each of its pixels.
pub proof fn law_whole_picture(f: RawFramePacket)
    requires
        f.pixel_format <= 2,
        f.width * pixel_size(f.pixel_format) <= f.pitch,
        f.height * f.pitch <= f.payload@.len(),
    ensures
        picture_rgb(f).len() == 3 * f.width * f.height,
{
    lemma_whole_rows(f, f.height as int);
    assert(3 * f.width * f.height == f.height * (3 * f.width)) by (nonlinear_arith);
}

pub proof fn lemma_whole_row(f: RawFramePacket, y: int, n: int)
    requires
        f.pixel_format <= 2,
        f.width * pixel_size(f.pixel_format) <= f.pitch,
        f.height * f.pitch <= f.payload@.len(),
        0 <= y < f.height,
        0 <= n <= f.width,
    ensures
        row_rgb(f, y, n).len() == 3 * n,
    decreases n,
{
    if n > 0 {
        lemma_whole_row(f, y, n - 1);
        let size = pixel_size(f.pixel_format);
        let off = y * f.pitch + (n - 1) * size;
        assert(off + size <= f.payload@.len()) by (nonlinear_arith)
            requires
                off == y * f.pitch + (n - 1) * size,
                1 <= n <= f.width,
                0 <= y < f.height,
                2 <= size,
                f.width * size <= f.pitch,
                f.height * f.pitch <= f.payload@.len(),
        ;
    }
}

pub proof fn lemma_whole_rows(f: RawFramePacket, n: int)
    requires
        f.pixel_format <= 2,
        f.width * pixel_size(f.pixel_format) <= f.pitch,
        f.height * f.pitch <= f.payload@.len(),
        0 <= n <= f.height,
    ensures
        rows_rgb(f, n).len() == n * (3 * f.width),
    decreases n,
{
    if n > 0 {
        lemma_whole_rows(f, n - 1);
        lemma_whole_row(f, n - 1, f.width as int);
        assert(n * (3 * f.width) == (n - 1) * (3 * f.width) + 3 * f.width) by (nonlinear_arith);
    } else {
        assert(n * (3 * f.width) == 0) by (nonlinear_arith)
            requires
                n == 0,
        ;
    }
}

} // verus!
