//! The ingress channel: how the content pipeline hands updates to the
//! dispatcher.
use vstd::prelude::*;

use crate::update::{canonical_topic, canonical_topic_of, Update};

verus! {

/// The sending end of a standard channel.
#[verifier::external_type_specification]
#[verifier::external_body]
#[verifier::reject_recursive_types(T)]
pub struct ExChannelSender<T>(std::sync::mpsc::Sender<T>);

/// Relies on std::sync::mpsc::Sender::send: when the receiving end is gone
/// the value is handed back inside the error.
#[verifier::external_body]
fn channel_send(tx: &std::sync::mpsc::Sender<Update>, update: Update) -> (r: Result<(), Update>)
    ensures
        r matches Err(back) ==> back == update,
{
    tx.send(update).map_err(|e| e.0)
}

/// The producer's handle on the relay: publishes each rendered page as an
/// update addressed to the page's route.
pub struct WebsocketPipe {
    ws_tx: std::sync::mpsc::Sender<Update>,
}

impl WebsocketPipe {
    /// The channel that this pipe publishes on.
    pub closed spec fn channel(&self) -> std::sync::mpsc::Sender<Update> {
        self.ws_tx
    }
}

/// Wraps the sending end of the dispatcher's channel.
pub fn pipe(ws_tx: std::sync::mpsc::Sender<Update>) -> (r: WebsocketPipe)
    ensures
        r.channel() == ws_tx,
{
    WebsocketPipe { ws_tx }
}

/// The update that publishing `body` for the page at `route` produces: the
/// topic is the route's canonical path.
pub fn update_for_route(route: &str, body: &String) -> (r: Update)
    ensures
        r.url@ == canonical_topic_of(route@),
        r.body@ == body@,
{
    Update::new(canonical_topic(route), body.clone())
}

impl WebsocketPipe {
    /// Hands the update for `route` to the dispatcher, fire and forget. It
    /// fails only when the dispatcher has shut down; the update then comes
    /// back in the error.
    pub fn publish(&self, route: &str, body: &String) -> (r: Result<(), Update>)
        ensures
            r matches Err(u) ==> u.url@ == canonical_topic_of(route@) && u.body@ == body@,
    {
        let update = update_for_route(route, body);
        channel_send(&self.ws_tx, update)
    }
}

} // verus!
