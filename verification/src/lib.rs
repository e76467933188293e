//! Orange Beam: a companion for the first-generation Logitech Spotlight remote.
//!
//! The library holds the HID++ codec, the lease on a diverted control, the
//! presentation state, the settings and the decisions of the command line and
//! of the native shell. Callers supply every form of I/O.
pub mod capture_session;
pub mod command;
pub mod controls;
pub mod conversation;
pub mod cursor;
pub mod device;
pub mod diagnostics;
pub mod fixtures;
pub mod interface;
pub mod link;
pub mod measure;
pub mod message;
pub mod order;
pub mod panel;
pub mod presentation;
pub mod protocol;
pub mod remote;
pub mod saved_settings;
pub mod session;
pub mod settings;
pub mod shell;
pub mod text;
pub mod transaction;
pub mod unrestored;
pub mod update;
pub mod update_flow;
pub mod watch;

pub use protocol::{
    feature_index, feature_request, is_spotlight, ProtocolError, Report, ResponseKind,
    LOGITECH_VENDOR, SOFTWARE_ID,
};
