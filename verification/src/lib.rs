//! Core logic for a fleet of camera capture nodes and their coordinator:
//! stable device identities, the capture-buffer queue/dequeue state machine,
//! the node/coordinator wire protocol, nearest-to-target frame selection for
//! synchronized snapshots, and the roll/pitch calibration engine.

pub mod calibration;
pub mod capture;
pub mod device;
pub mod find_tags;
pub mod layout;
pub mod node;
pub mod registry;
pub mod snap;
pub mod state;
pub mod streams;
pub mod time;
pub mod wire;

pub use device::{DeviceId, DeviceIdGenerator};
