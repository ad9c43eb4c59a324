use crate::display::DisplayInstruction;
use crate::keypad::Event;
use crossbeam_channel::{Receiver, Sender};
use vstd::prelude::*;

verus! {

/// The sending half of a `crossbeam_channel` channel. Opaque to the
/// verifier: nothing is known of what a channel holds.
#[verifier::external_type_specification]
#[verifier::external_body]
#[verifier::reject_recursive_types(T)]
pub struct ExSender<T>(Sender<T>);

/// The receiving half of a `crossbeam_channel` channel, equally opaque.
#[verifier::external_type_specification]
#[verifier::external_body]
#[verifier::reject_recursive_types(T)]
pub struct ExReceiver<T>(Receiver<T>);

/// Calls `crossbeam_channel::Sender::send` and reports whether the message
/// was accepted. `send` fails only when every receiver is gone, which depends
/// on the other end, so nothing is claimed of the answer. On a channel with
/// a capacity the call waits for room.
#[verifier::external_body]
pub(crate) fn send_instruction(
    sender: &Sender<DisplayInstruction>,
    instruction: DisplayInstruction,
) -> (accepted: bool) {
    sender.send(instruction).is_ok()
}

/// Walks `crossbeam_channel::Receiver::try_iter` to its end: the events that
/// are waiting in the channel right now, oldest first, taken out without
/// blocking. Which events these are depends on the senders, so nothing is
/// claimed of them.
#[verifier::external_body]
pub(crate) fn pending_events(receiver: &Receiver<Event>) -> (events: Vec<Event>) {
    receiver.try_iter().collect()
}

} // verus!
