//! Topic-addressed broadcast relay for live-reload notifications.
//!
//! Browser pages subscribe to the URL path they show; content changes are
//! published as updates on that path and fanned out to every live subscriber,
//! pruning subscribers whose connection has gone away.
pub mod connection;
pub mod dispatch;
pub mod ingress;
pub mod registry;
pub mod transport;
pub mod update;

pub use connection::{Connection, Phase};
pub use dispatch::{fan_out, Delivery};
pub use ingress::{pipe, update_for_route, WebsocketPipe};
pub use registry::{Registry, Subscriber};
pub use transport::{Frame, SendOutcome};
pub use update::{canonical_topic, Update};
