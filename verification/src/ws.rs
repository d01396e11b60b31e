//! Streams of packets over web sockets: how fast, and when one ends.

use vstd::prelude::*;

verus! {

/// How long a frame takes at a rate, in milliseconds.
pub open spec fn frame_time(target_fps: u32) -> int {
    if target_fps == 0 {
        1000
    } else {
        1000int / target_fps as int
    }
}

pub fn frame_time_ms(target_fps: u32) -> (ms: u64)
    ensures
        ms == frame_time(target_fps),
{
    if target_fps == 0 {
        1000
    } else {
        (1000 / target_fps) as u64
    }
}

/// How long there is to wait for the next frame.
pub open spec fn pause_left(frame_time_ns: u128, elapsed_ns: u128) -> int {
    if elapsed_ns < frame_time_ns {
        frame_time_ns - elapsed_ns
    } else {
        0
    }
}

pub fn pause_ns(frame_time_ns: u128, elapsed_ns: u128) -> (pause: u128)
    ensures
        pause == pause_left(frame_time_ns, elapsed_ns),
{
    if elapsed_ns < frame_time_ns {
        frame_time_ns - elapsed_ns
    } else {
        0
    }
}

/// What reading from a socket without waiting gives.
#[derive(Debug, Clone, Copy, PartialEq, Eq, Structural)]
pub enum ReadOutcome {
    Close,
    Message,
    NothingYet,
    AlreadyClosed,
    ConnectionClosed,
    OtherError,
}

/// Whether a stream is still there after a read.
pub open spec fn survives(outcome: ReadOutcome) -> bool {
    !(outcome == ReadOutcome::Close || outcome == ReadOutcome::AlreadyClosed || outcome
        == ReadOutcome::ConnectionClosed)
}

/// Whether a stream goes on: it ends when the client has closed it, and survives
/// every other error.
pub fn goes_on(outcome: ReadOutcome) -> (on: bool)
    ensures
        on == survives(outcome),
{
    match outcome {
        ReadOutcome::Close => false,
        ReadOutcome::AlreadyClosed => false,
        ReadOutcome::ConnectionClosed => false,
        _ => true,
    }
}

/// What happens to a client that watches or listens.
#[derive(Debug)]
pub enum StreamEvent {
    /// There is another packet, or there is none yet.
    Packet { packet: Option<Vec<u8>> },
    /// Packets were missed.
    Lagged,
    /// There will be no more packets.
    SourceClosed,
    Ping { payload: Vec<u8> },
    OtherMessage,
    Closed,
    Broken,
}

#[derive(Debug)]
pub enum StreamAction {
    /// Send bytes; the stream ends if that fails.
    SendOrEnd { packet: Vec<u8> },
    /// Send a ping back; the stream ends if that fails.
    PongOrEnd { payload: Vec<u8> },
    GoOn,
    End,
}

/// What is done about an event of a stream.
pub open spec fn stream_outcome(event: StreamEvent, action: StreamAction) -> bool {
    match event {
        StreamEvent::Packet { packet: Some(packet) } => action == (StreamAction::SendOrEnd {
            packet,
        }),
        StreamEvent::Packet { packet: None } => action is GoOn,
        StreamEvent::Lagged => action is GoOn,
        StreamEvent::SourceClosed => action is End,
        StreamEvent::Ping { payload } => action == (StreamAction::PongOrEnd { payload }),
        StreamEvent::OtherMessage => action is GoOn,
        StreamEvent::Closed => action is End,
        StreamEvent::Broken => action is End,
    }
}

/// What is done about it: packets are sent on, pings are sent back, and a stream
/// ends with its source or its client.
pub fn stream_step(event: StreamEvent) -> (action: StreamAction)
    ensures
        stream_outcome(event, action),
{
    match event {
        StreamEvent::Packet { packet: Some(packet) } => StreamAction::SendOrEnd { packet },
        StreamEvent::Packet { packet: None } => StreamAction::GoOn,
        StreamEvent::Lagged => StreamAction::GoOn,
        StreamEvent::SourceClosed => StreamAction::End,
        StreamEvent::Ping { payload } => StreamAction::PongOrEnd { payload },
        StreamEvent::OtherMessage => StreamAction::GoOn,
        StreamEvent::Closed => StreamAction::End,
        StreamEvent::Broken => StreamAction::End,
    }
}

} // verus!
