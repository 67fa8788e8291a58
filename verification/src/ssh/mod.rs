//! SSH host bookkeeping and the pure parts of the terminal and file-transfer
//! layers.

pub mod models;
pub mod host_store;
pub mod sftp;
pub mod zmodem;
pub mod zmodem_trigger;
pub mod vault;
pub mod credentials;
pub mod terminal;
pub mod log_highlight;
pub mod session;
pub mod zmodem_pump;
pub mod gestures;
pub mod grid_row;
pub mod sftp_listing;
pub mod connect_plan;
pub mod client;
pub mod mfa;
pub mod panel;
pub mod input;
pub mod local_pty;
pub mod zmodem_handover;
pub mod transfer_bar;
pub mod card_grid;
pub mod local_tree;
pub mod listing_laws;
pub mod key_laws;
pub mod selection_laws;
