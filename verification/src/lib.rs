//! Discovery of peer nodes on the local network, the pairing handshake they
//! run over a line protocol, and the state that a terminal front end keeps
//! about them.

pub mod text;
pub mod protocol;
pub mod discovery;
pub mod listener;
pub mod node;
pub mod record;
pub mod advertise;
pub mod config;
pub mod tui;

pub use config::{Config, ConfigData};
pub use discovery::{DiscoveredNode, DiscoveryTable, Sighting, SightingNote};
pub use listener::{Listener, ListenerAction, ListenerEvent, PortPlan, PortScan, Status};
pub use node::{BroadcastPlan, Node};
pub use protocol::{pairing_reply, pairing_request, PairingClient, PairingReply, ProtocolError};
pub use tui::{ActivePane, App, Key, KeyAction};
