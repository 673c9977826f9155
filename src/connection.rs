//! The lifecycle of one client connection: it subscribes once, when its
//! handshake names a topic, and unsubscribes when it closes.
use vstd::prelude::*;

use crate::registry::{Registry, Subscriber};
use crate::transport::{clone_sender, connection_number};
use crate::update::{canonical_topic, canonical_topic_of};

verus! {

/// Where a connection stands. `Closed` is final: a client that comes back is
/// a new connection.
#[derive(Clone, Copy, Debug, PartialEq, Eq, Structural)]
pub enum Phase {
    Connecting,
    Open,
    Closed,
}

/// One client connection as the relay sees it.
pub struct Connection {
    pub sender: ws::Sender,
    pub id: u64,
    pub topic: String,
    pub phase: Phase,
}

impl Connection {
    /// A connection whose handshake has not completed yet. Its id is the
    /// number the transport gave it, which no other connection shares.
    pub fn new(sender: ws::Sender) -> (r: Connection)
        ensures
            r.sender == sender,
            r.phase == Phase::Connecting,
            r.topic@ == Seq::<char>::empty(),
    {
        let id = connection_number(&sender) as u64;
        Connection { sender, id, topic: String::new(), phase: Phase::Connecting }
    }

    /// The handshake completed and asked for `resource`: the connection
    /// subscribes to the canonical topic of that path.
    pub fn open(&mut self, registry: &mut Registry<ws::Sender>, resource: &str)
        requires
            old(self).phase == Phase::Connecting,
            old(registry).wf(),
        ensures
            final(self).phase == Phase::Open,
            final(self).id == old(self).id,
            final(self).topic@ == canonical_topic_of(resource@),
            final(registry).wf(),
            final(registry)@.contains_key((final(self).topic@, final(self).id)),
            final(registry)@.remove((final(self).topic@, final(self).id)) == old(registry)@.remove(
                (final(self).topic@, final(self).id),
            ),
            old(registry)@.contains_key((final(self).topic@, final(self).id)) ==> final(registry)@
                == old(registry)@,
    {
        let topic = canonical_topic(resource);
        let sub = Subscriber { id: self.id, topic: topic.clone(), handle: clone_sender(&self.sender) };
        registry.register(sub);
        assert(registry@.remove((topic@, self.id)) =~= old(registry)@.remove((topic@, self.id)));
        self.topic = topic;
        self.phase = Phase::Open;
    }

    /// The transport closed the connection: an open connection leaves its
    /// topic. Closing again, or before the handshake, changes no subscription.
    pub fn close(&mut self, registry: &mut Registry<ws::Sender>)
        requires
            old(registry).wf(),
        ensures
            final(self).phase == Phase::Closed,
            final(self).id == old(self).id,
            final(self).topic@ == old(self).topic@,
            final(registry).wf(),
            old(self).phase == Phase::Open ==> final(registry)@ == old(registry)@.remove(
                (old(self).topic@, old(self).id),
            ),
            old(self).phase != Phase::Open ==> final(registry)@ == old(registry)@,
    {
        if self.phase == Phase::Open {
            registry.unregister(&self.topic, self.id);
        }
        self.phase = Phase::Closed;
    }
}

} // verus!
