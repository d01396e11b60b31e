//! The packets that carry pictures and sound, and the messages of a client.

use vstd::prelude::*;

use crate::clock::now_unix_micros;
use crate::frame;
use crate::frame::VideoFrame;
use crate::input::InputUpdate;
use crate::text;
use crate::wire;

verus! {

/// What a picture packet starts with: `NBF0`.
pub const FRAME_MAGIC: [u8; 4] = [0x4e, 0x42, 0x46, 0x30];

pub const FRAME_HEADER_LEN: usize = 4 + 8 + 8 + 4 + 4 + 4 + 1 + 4 + 4;

/// What a sound packet starts with: `NBA0`.
pub const AUDIO_PACKET_MAGIC: [u8; 4] = [0x4e, 0x42, 0x41, 0x30];

pub const AUDIO_SAMPLE_FORMAT_S16LE: u8 = 0;

pub const AUDIO_PACKET_HEADER_LEN: usize = 4 + 8 + 8 + 4 + 1 + 1 + 4 + 4;

/// The length of an input record in bytes.
pub const INPUT_BINARY_SIZE: usize = 34;

#[derive(Debug, Clone, Copy, PartialEq, Eq, Structural)]
pub enum ClientCommand {
    Reset,
    InsertCoin,
    SaveState,
    LoadState,
}

/// What a client asks for.
#[derive(Debug, Clone, Copy)]
pub enum ClientMessage {
    Input { port: u32, sequence: Option<u64>, update: InputUpdate },
    Command { command: ClientCommand, port: u32, slot: Option<u8>, sequence: Option<u64> },
    Ping { client_time_ms: Option<u64> },
}

/// What a client is answered.
#[derive(Debug, Clone)]
pub enum ServerMessage {
    Ack { sequence: Option<u64>, server_time_ms: u64 },
    Error { message: String },
}

/// The fields of an input record.
#[derive(Debug, Clone, Copy)]
pub struct InputBinary {
    pub port: u32,
    pub sequence: u32,
    pub update: InputUpdate,
}

/// What is said of a payload that holds no input record.
pub open spec fn wrong_length(raw_len: usize) -> Seq<char> {
    "binary input must be exactly "@ + text::decimal(INPUT_BINARY_SIZE as nat) + " bytes, got "@
        + text::decimal(raw_len as nat)
}

/// The message that an input record stands for. There is no record in a payload
/// of the wrong length, which is told with the length that came.
pub fn decode_input_binary(raw_len: usize, record: Option<InputBinary>) -> (message: Result<
    ClientMessage,
    String,
>)
    ensures
        if raw_len == INPUT_BINARY_SIZE && record is Some {
            message == Ok::<ClientMessage, String>(
                ClientMessage::Input {
                    port: record->0.port,
                    sequence: Some(record->0.sequence as u64),
                    update: record->0.update,
                },
            )
        } else {
            message is Err && message->Err_0@ == wrong_length(raw_len)
        },
{
    match record {
        Some(bin) if raw_len == INPUT_BINARY_SIZE => Ok(
            ClientMessage::Input {
                port: bin.port,
                sequence: Some(bin.sequence as u64),
                update: bin.update,
            },
        ),
        _ => {
            let mut why = "binary input must be exactly ".to_owned();
            text::push_decimal(&mut why, INPUT_BINARY_SIZE as u64);
            why.append(" bytes, got ");
            text::push_decimal(&mut why, raw_len as u64);
            Err(why)
        },
    }
}

/// The low 32 bits of a length.
pub open spec fn low32(n: int) -> u32 {
    (n % 0x1_0000_0000) as u32
}

fn low_32(n: u128) -> (low: u32)
    ensures
        low == low32(n as int),
{
    (n % 0x1_0000_0000) as u32
}

/// The packet of a picture: its header, then its bytes.
pub open spec fn frame_packet(f: VideoFrame, timestamp_us: u64) -> Seq<u8> {
    FRAME_MAGIC@ + wire::le64(f.sequence) + wire::le64(timestamp_us) + wire::le32(f.width)
        + wire::le32(f.height) + wire::le32(low32(f.pitch as int)) + seq![
        frame::format_code(f.pixel_format),
    ] + wire::le32(f.pixel_aspect_ratio_bits) + wire::le32(low32(f.data@.len() as int)) + f.data@
}

/// The packet of a picture that was taken at `timestamp_us`.
pub fn encode_frame_packet_at(f: &VideoFrame, timestamp_us: u64) -> (packet: Vec<u8>)
    ensures
        packet@ == frame_packet(*f, timestamp_us),
{
    let mut out: Vec<u8> = Vec::new();
    wire::push_all(&mut out, &FRAME_MAGIC);
    assert(out@ =~= FRAME_MAGIC@);
    wire::push_le64(&mut out, f.sequence);
    wire::push_le64(&mut out, timestamp_us);
    wire::push_le32(&mut out, f.width);
    wire::push_le32(&mut out, f.height);
    wire::push_le32(&mut out, low_32(f.pitch as u128));
    let ghost before = out@;
    out.push(f.pixel_format.as_u8());
    assert(out@ =~= before + seq![frame::format_code(f.pixel_format)]);
    wire::push_le32(&mut out, f.pixel_aspect_ratio_bits);
    wire::push_le32(&mut out, low_32(f.data.len() as u128));
    wire::push_all(&mut out, f.data.as_slice());
    out
}

/// The packet of a picture that is taken now.
pub fn encode_frame_packet(f: &VideoFrame) -> (packet: Vec<u8>)
    ensures
        exists|timestamp_us: u64| packet@ == #[trigger] frame_packet(*f, timestamp_us),
{
    encode_frame_packet_at(f, now_unix_micros())
}

/// Samples as bytes, two each, the low one first.
pub open spec fn sample_bytes(samples: Seq<i16>) -> Seq<u8> {
    Seq::new(
        2 * samples.len(),
        |k: int|
            if k % 2 == 0 {
                (wire::bits16(samples[k / 2]) % 256) as u8
            } else {
                (wire::bits16(samples[k / 2]) / 256) as u8
            },
    )
}

pub open spec fn at_least_one(channels: u8) -> u8 {
    if channels == 0 {
        1
    } else {
        channels
    }
}

/// The samples that make up whole frames of so many channels.
pub open spec fn whole_frames(samples: Seq<i16>, channels: u8) -> Seq<i16> {
    samples.take(samples.len() - samples.len() % (channels as nat))
}

/// The packet of a stretch of sound: its header, then its whole frames.
pub open spec fn audio_packet(
    sequence: u64,
    timestamp_us: u64,
    sample_rate_hz: u32,
    channels: u8,
    samples: Seq<i16>,
) -> Seq<u8> {
    let c = at_least_one(channels);
    let whole = whole_frames(samples, c);
    AUDIO_PACKET_MAGIC@ + wire::le64(sequence) + wire::le64(timestamp_us) + wire::le32(
        sample_rate_hz,
    ) + seq![c, AUDIO_SAMPLE_FORMAT_S16LE] + wire::le32(low32((whole.len() / (c as nat)) as int))
        + wire::le32(low32((2 * whole.len()) as int)) + sample_bytes(whole)
}

/// The packet of a stretch of sound that was taken at `timestamp_us`.
pub fn encode_audio_packet_at(
    sequence: u64,
    timestamp_us: u64,
    sample_rate_hz: u32,
    channels: u8,
    interleaved_i16: &[i16],
) -> (packet: Vec<u8>)
    ensures
        packet@ == audio_packet(
            sequence,
            timestamp_us,
            sample_rate_hz,
            channels,
            interleaved_i16@,
        ),
{
    let safe_channels: u8 = if channels == 0 {
        1
    } else {
        channels
    };
    let len: usize = interleaved_i16.len();
    assert(0 <= len % (safe_channels as usize) <= len) by (nonlinear_arith)
        requires
            safe_channels > 0,
    ;
    let sample_count: usize = len - (len % (safe_channels as usize));
    let frame_count: u32 = low_32((sample_count / (safe_channels as usize)) as u128);
    let payload_len: u32 = low_32(2 * (sample_count as u128));
    let ghost whole = whole_frames(interleaved_i16@, safe_channels);
    assert(whole.len() == sample_count);

    let mut out: Vec<u8> = Vec::new();
    wire::push_all(&mut out, &AUDIO_PACKET_MAGIC);
    assert(out@ =~= AUDIO_PACKET_MAGIC@);
    wire::push_le64(&mut out, sequence);
    wire::push_le64(&mut out, timestamp_us);
    wire::push_le32(&mut out, sample_rate_hz);
    let ghost before = out@;
    out.push(safe_channels);
    out.push(AUDIO_SAMPLE_FORMAT_S16LE);
    assert(out@ =~= before + seq![safe_channels, AUDIO_SAMPLE_FORMAT_S16LE]);
    wire::push_le32(&mut out, frame_count);
    wire::push_le32(&mut out, payload_len);
    let ghost header = out@;
    let mut i: usize = 0;
    assert(header + sample_bytes(whole.take(0)) =~= header);
    while i < sample_count
        invariant
            i <= sample_count == whole.len(),
            sample_count <= interleaved_i16@.len(),
            whole == interleaved_i16@.take(sample_count as int),
            out@ == header + sample_bytes(whole.take(i as int)),
        decreases sample_count - i,
    {
        let ghost before = out@;
        let x: u16 = wire::to_bits16(interleaved_i16[i]);
        wire::push_le16(&mut out, x);
        assert(sample_bytes(whole.take(i + 1)) =~= sample_bytes(whole.take(i as int)) + wire::le16(x));
        assert(out@ =~= header + sample_bytes(whole.take(i + 1)));
        i += 1;
    }
    assert(whole.take(i as int) =~= whole);
    out
}

/// The packet of a stretch of sound that is taken now.
pub fn encode_audio_packet(
    sequence: u64,
    sample_rate_hz: u32,
    channels: u8,
    interleaved_i16: &[i16],
) -> (packet: Vec<u8>)
    ensures
        exists|timestamp_us: u64|
            packet@ == #[trigger] audio_packet(
                sequence,
                timestamp_us,
                sample_rate_hz,
                channels,
                interleaved_i16@,
            ),
{
    encode_audio_packet_at(
        sequence,
        now_unix_micros(),
        sample_rate_hz,
        channels,
        interleaved_i16,
    )
}

} // verus!
