//! The decisions of the herdr notify bridge: what a session snapshot and the event stream of a herdr
//! server say of its agents, when a desktop notification is due, and when to reconnect.
pub mod bridge;
pub mod event;
pub mod json;
pub mod laws;
pub mod laws_bridge;
pub mod laws_calls;
pub mod laws_doc;
pub mod laws_notify;
pub mod laws_subscribe;
pub mod laws_text;
pub mod notify;
pub mod panes;
pub mod paths;
pub mod snapshot;
pub mod state;
pub mod subscribe;
pub mod text;
