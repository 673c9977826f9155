//! The few calls into the `ws` crate that the relay makes.
use vstd::prelude::*;

verus! {

/// A connection's sending half, as the `ws` crate hands it out.
#[verifier::external_type_specification]
#[verifier::external_body]
pub struct ExSender(ws::Sender);

/// How one attempt to send a frame to a subscriber ended.
#[derive(Clone, Copy, Debug, PartialEq, Eq, Structural)]
pub enum SendOutcome {
    /// The frame was handed to the transport.
    Delivered,
    /// The transport side of the connection is gone.
    Disconnected,
    /// Any other transport failure.
    Faulted,
}

/// Relies on ws::Sender::send, which queues one text frame for the
/// connection. Its error of kind `Queue` comes from the event loop's channel,
/// whose receiving end has gone away; every other kind counts as a fault.
#[verifier::external_body]
pub(crate) fn send_text(sender: &ws::Sender, body: &String) -> (r: SendOutcome) {
    match sender.send(body.as_str()) {
        Ok(()) => SendOutcome::Delivered,
        Err(e) => match e.kind {
            ws::ErrorKind::Queue(_) => SendOutcome::Disconnected,
            _ => SendOutcome::Faulted,
        },
    }
}

/// Relies on ws::Sender::connection_id: the number the server gave this
/// connection when it was accepted, never given to another connection of
/// the same server.
#[verifier::external_body]
pub(crate) fn connection_number(sender: &ws::Sender) -> (r: u32) {
    sender.connection_id()
}

/// The record of one text frame handed to the transport: the sender it went
/// through and the text it carried. Only `send_frame` makes one, right as it
/// sends.
#[derive(Clone, Copy)]
pub struct Frame {
    sent: Ghost<(ws::Sender, Seq<char>)>,
}

impl Frame {
    /// The sender the frame was sent through.
    pub closed spec fn sender(&self) -> ws::Sender {
        self.sent@.0
    }

    /// The text the frame carried.
    pub closed spec fn body(&self) -> Seq<char> {
        self.sent@.1
    }
}

/// Sends `body` as one text frame through `sender`, and returns how the send
/// ended together with the record of that frame.
pub fn send_frame(sender: &ws::Sender, body: &String) -> (r: (SendOutcome, Frame))
    ensures
        r.1.sender() == *sender,
        r.1.body() == body@,
{
    let outcome = send_text(sender, body);
    (outcome, Frame { sent: Ghost((*sender, body@)) })
}

/// Relies on ws::Sender's `Clone`: a second handle on the same connection,
/// for the registry to keep.
#[verifier::external_body]
pub(crate) fn clone_sender(sender: &ws::Sender) -> (r: ws::Sender) {
    sender.clone()
}

} // verus!
