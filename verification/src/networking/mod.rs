//! The boundary to service discovery: what is read from the sightings of
//! other peers, and what is announced of this one.

pub mod advertise;
pub mod discovery;
pub mod laws;
pub mod utils;

pub use advertise::{advertisement_for, ServiceAdvertisement};
pub use discovery::handle_response;
pub use utils::{extract_peer_info, RecordKind};
