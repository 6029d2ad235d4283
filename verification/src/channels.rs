//! Trusted declarations for the bounded channels that carry frames to
//! encoder consumers.
//!
//! The channels come from the crossbeam crate; a channel's receiving
//! end is handed to an encoder that may drain it from another thread,
//! so nothing can be promised about what a send finds in the channel.
//! Every send here is non-blocking: a full or disconnected channel
//! drops the frame.

use vstd::prelude::*;
use crate::video_types::VideoFrame;

verus! {

/// Declares crossbeam's `Sender` so that connection state can hold
/// the sending end of a channel; the type stays opaque.
#[verifier::external_type_specification]
#[verifier::external_body]
#[verifier::reject_recursive_types(T)]
pub struct ExSender<T>(crossbeam::channel::Sender<T>);

/// Declares crossbeam's `Receiver` so that a connection call can hand
/// the receiving end to its caller; the type stays opaque.
#[verifier::external_type_specification]
#[verifier::external_body]
#[verifier::reject_recursive_types(T)]
pub struct ExReceiver<T>(crossbeam::channel::Receiver<T>);

/// Relies on crossbeam's `channel::bounded`: a channel that buffers at
/// most `cap` messages between sender and receiver.
#[verifier::external_body]
pub(crate) fn frame_channel(cap: usize) -> (ends: (
    crossbeam::channel::Sender<VideoFrame>,
    crossbeam::channel::Receiver<VideoFrame>,
))
{
    crossbeam::channel::bounded(cap)
}

/// Relies on crossbeam's `Sender::try_send`: delivers the message
/// unless the channel is full or disconnected, and never blocks.
/// Whether it succeeds depends on the consumer's progress, so the
/// result is reported and nothing more is promised.
#[verifier::external_body]
pub(crate) fn try_send_frame(tx: &crossbeam::channel::Sender<VideoFrame>, frame: VideoFrame) -> (
    sent: bool)
{
    tx.try_send(frame).is_ok()
}

} // verus!
