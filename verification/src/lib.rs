//! Verified core of the campaign viewer: the decisions that turn what an
//! SOVD gateway reports about each ECU into display states, change-log
//! entries and the bookkeeping between polling rounds.

pub mod text;
pub mod update_status;
pub mod diagnostics;
pub mod ecu;
pub mod clock;
pub mod diff;
pub mod diff_laws;
pub mod history;
pub mod history_laws;
pub mod discovery;
pub mod manifest;
