//! Names and numbers that every peer on the network shares.

use vstd::prelude::*;

verus! {

/// The service type under which peers announce themselves.
pub const SERVICE_TYPE: &'static str = "_lan-chat._tcp";

/// The port of the discovery service.
pub const SERVICE_PORT: u16 = 8080;

/// The port on which a peer takes messages.
pub const WS_PORT: u16 = 6767;

/// The keys of the attributes that a peer announces.
pub const TXT_KEY_PEER_ID: &'static str = "peer_id";

pub const TXT_KEY_PEER_NAME: &'static str = "peer_name";

pub const TXT_KEY_INSTANCE: &'static str = "instance";

pub const TXT_KEY_PLATFORM: &'static str = "platform";

pub const TXT_KEY_VERSION: &'static str = "version";

/// The version of the protocol that this library speaks.
pub const PROTOCOL_VERSION: &'static str = "0.1.0";

/// The names under which the parts of the system appear as the source of an
/// event.
pub const SOURCE_DISCOVERY: &'static str = "discovery";

pub const SOURCE_LIVENESS: &'static str = "liveness";

pub const SOURCE_MANUAL: &'static str = "manual";

/// How long, in milliseconds, the liveness monitor waits between two scans.
pub const HEALTH_CHECK_PERIOD_MS: u64 = 10_000;

/// After how many milliseconds without a sighting a peer counts as gone.
pub const STALE_THRESHOLD_MS: u64 = 30_000;

} // verus!
