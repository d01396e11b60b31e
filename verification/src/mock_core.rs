//! The built-in picture source, which runs where there is no core.

use vstd::prelude::*;

use crate::config::{DEFAULT_HEIGHT, DEFAULT_WIDTH, SIXTY_BITS};

verus! {

/// The rate of the built-in sound.
pub const SAMPLE_RATE_HZ: u32 = 48_000;

/// What the built-in source shows. The frame rate is held as the bits of its IEEE
/// 754 single.
#[derive(Debug, Clone)]
pub struct MockCoreConfig {
    pub width: u32,
    pub height: u32,
    pub fps_bits: u32,
}

impl Default for MockCoreConfig {
    fn default() -> (config: Self)
        ensures
            config == (MockCoreConfig { width: 320, height: 240, fps_bits: SIXTY_BITS }),
    {
        MockCoreConfig { width: DEFAULT_WIDTH, height: DEFAULT_HEIGHT, fps_bits: SIXTY_BITS }
    }
}

/// What the player does: two buttons, and how far the stick leans to the right
/// and down, 127 at most.
#[derive(Debug, Clone, Copy)]
pub struct MockInput {
    pub a_held: bool,
    pub b_held: bool,
    pub x_bias: i32,
    pub y_bias: i32,
}

pub open spec fn as_byte(n: int) -> u8 {
    if n < 0 {
        0
    } else if n > 255 {
        255
    } else {
        n as u8
    }
}

fn to_byte(n: i32) -> (b: u8)
    ensures
        b == as_byte(n as int),
{
    if n < 0 {
        0
    } else if n > 255 {
        255
    } else {
        n as u8
    }
}

/// Red runs across with the frames, unless the first button is held.
pub open spec fn red(x: u32, frame: u64, input: MockInput) -> u8 {
    if input.a_held {
        255
    } else {
        as_byte((x + frame) % 256 + input.x_bias)
    }
}

/// Green runs down at half the speed, unless the second button is held.
pub open spec fn green(y: u32, frame: u64, input: MockInput) -> u8 {
    if input.b_held {
        255
    } else {
        as_byte((y + frame / 2) % 256 + input.y_bias)
    }
}

/// Blue is a pattern that brightens with the frames.
pub open spec fn blue(x: u32, y: u32, frame: u64) -> u8 {
    as_byte(frame % 256 + (x ^ y) % 256 / 2)
}

/// A pixel: blue, green, red and nothing.
pub open spec fn mock_pixel(x: u32, y: u32, frame: u64, input: MockInput) -> Seq<u8> {
    seq![blue(x, y, frame), green(y, frame, input), red(x, frame, input), 0u8]
}

/// The byte at a place of the picture, whose pixels stand row by row.
#[verifier::opaque]
pub open spec fn picture_byte(width: int, frame: u64, input: MockInput, at: int) -> u8 {
    mock_pixel((at / 4 % width) as u32, (at / 4 / width) as u32, frame, input)[at % 4]
}

/// The picture of a frame.
pub open spec fn mock_picture(width: u32, height: u32, frame: u64, input: MockInput) -> Seq<u8> {
    Seq::new(
        (4 * width * height) as nat,
        |at: int| picture_byte(width as int, frame, input, at),
    )
}

proof fn lemma_place(width: int, x: int, y: int)
    requires
        0 <= x < width,
        0 <= y,
    ensures
        (y * width + x) % width == x,
        (y * width + x) / width == y,
{
    assert((y * width + x) % width == x && (y * width + x) / width == y) by (nonlinear_arith)
        requires
            0 <= x < width,
            0 <= y,
    ;
}

pub proof fn lemma_pixel_bytes(width: u32, x: u32, y: u32, frame: u64, input: MockInput, k: int)
    requires
        x < width,
        0 <= k < 4,
    ensures
        picture_byte(width as int, frame, input, 4 * (y * width + x) + k) == mock_pixel(
            x,
            y,
            frame,
            input,
        )[k],
{
    reveal(picture_byte);
    lemma_place(width as int, x as int, y as int);
    let pixel = y * width + x;
    assert(pixel >= 0) by (nonlinear_arith)
        requires
            pixel == y * width + x,
    ;
    let at = 4 * pixel + k;
    assert(at / 4 == pixel && at % 4 == k);
}

/// A shade that runs along with the frames.
fn running_shade(place: u32, run: u64, bias: i32) -> (shade: u8)
    requires
        -127 <= bias <= 127,
    ensures
        shade == as_byte((place + run) % 256 + bias),
{
    let sum: u128 = place as u128 + run as u128;
    let low: u128 = sum % 256;
    to_byte(low as i32 + bias)
}

fn pattern_shade(x: u32, y: u32, frame: u64) -> (shade: u8)
    ensures
        shade == blue(x, y, frame),
{
    let pattern: u32 = x ^ y;
    let low: u32 = pattern % 256;
    let run: u64 = frame % 256;
    to_byte(run as i32 + (low / 2) as i32)
}

fn push_pixel(out: &mut Vec<u8>, x: u32, y: u32, frame: u64, input: MockInput)
    requires
        -127 <= input.x_bias <= 127,
        -127 <= input.y_bias <= 127,
    ensures
        final(out)@ == old(out)@ + mock_pixel(x, y, frame, input),
{
    let b: u8 = pattern_shade(x, y, frame);
    let g: u8 = if input.b_held {
        255
    } else {
        running_shade(y, frame / 2, input.y_bias)
    };
    let r: u8 = if input.a_held {
        255
    } else {
        running_shade(x, frame, input.x_bias)
    };
    out.push(b);
    out.push(g);
    out.push(r);
    out.push(0);
    assert(out@ =~= old(out)@ + mock_pixel(x, y, frame, input));
}

/// Draws the picture of a frame.
pub fn draw_mock_frame(width: u32, height: u32, frame: u64, input: MockInput) -> (out: Vec<u8>)
    requires
        -127 <= input.x_bias <= 127,
        -127 <= input.y_bias <= 127,
    ensures
        out@ == mock_picture(width, height, frame, input),
{
    let mut out: Vec<u8> = Vec::new();
    let mut y: u32 = 0;
    assert(0 * width == 0) by (nonlinear_arith);
    while y < height
        invariant
            y <= height,
            -127 <= input.x_bias <= 127,
            -127 <= input.y_bias <= 127,
            out@.len() == 4 * (y * width),
            forall|at: int|
                0 <= at < out@.len() ==> #[trigger] out@[at] == picture_byte(
                    width as int,
                    frame,
                    input,
                    at,
                ),
        decreases height - y,
    {
        let mut x: u32 = 0;
        while x < width
            invariant
                x <= width,
                y < height,
                -127 <= input.x_bias <= 127,
                -127 <= input.y_bias <= 127,
                out@.len() == 4 * (y * width + x),
                forall|at: int|
                    0 <= at < out@.len() ==> #[trigger] out@[at] == picture_byte(
                        width as int,
                        frame,
                        input,
                        at,
                    ),
            decreases width - x,
        {
            let ghost before = out@;
            push_pixel(&mut out, x, y, frame, input);
            proof {
                let pixel = mock_pixel(x, y, frame, input);
                assert forall|at: int| 0 <= at < out@.len() implies #[trigger] out@[at]
                    == picture_byte(width as int, frame, input, at) by {
                    if at < before.len() {
                        assert(out@[at] == before[at]);
                    } else {
                        lemma_pixel_bytes(width, x, y, frame, input, at - before.len());
                    }
                }
            }
            x += 1;
        }
        y += 1;
        assert(y * width == (y - 1) * width + width) by (nonlinear_arith);
    }
    assert(4 * width * height == 4 * (height * width)) by (nonlinear_arith);
    assert(out@ =~= mock_picture(width, height, frame, input));
    out
}

/// A held button is seen everywhere: the first one as red, the second as green.
pub proof fn law_buttons_seen(width: u32, height: u32, frame: u64, input: MockInput, pixel: int)
    requires
        0 <= pixel < width * height,
    ensures
        input.a_held ==> mock_picture(width, height, frame, input)[4 * pixel + 2] == 255,
        input.b_held ==> mock_picture(width, height, frame, input)[4 * pixel + 1] == 255,
        mock_picture(width, height, frame, input)[4 * pixel + 3] == 0,
{
    reveal(picture_byte);
    assert(4 * width * height == 4 * (width * height)) by (nonlinear_arith);
}

} // verus!
