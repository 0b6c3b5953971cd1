//! Peers: their metadata, the directory that tracks them, and its events.

pub mod address;
pub mod connection;
pub mod conversion;
pub mod events;
pub mod health;
pub mod identity;
pub mod info;
pub mod laws;
pub mod manager;
pub mod metadata;
pub mod notifier;

pub use address::{Endpoint, IpAddress};
pub use connection::Transport;
pub use events::{PeerEvent, PeerEventKind, PeerEventView};
pub use health::{run_health_check, LivenessMonitor};
pub use identity::{PeerIdentity, PeerIdentityView};
pub use info::{PeerInfo, PeerInfoView};
pub use manager::{ManagedPeer, ManagedPeerView, PeerManager};
pub use metadata::{PeerMetadata, PeerMetadataView};
pub use notifier::{PeerNotifier, PeerNotifierView, SubscriberView};
