//! Application footprint discovery and removal.
//!
//! Given the identity of an installed application, the crate decides which
//! running processes, installer receipts and files on disk belong to it,
//! reports progress as ordered status events, and aggregates the outcome of
//! moving the footprint to the trash. The operating system is reached only
//! through values and capabilities that the caller supplies.

pub mod app_data;
pub mod app_info;
pub mod app_process;
pub mod app_status;
pub mod cleaner;
pub mod common_debug;
pub mod distinct;
pub mod helpers;
pub mod locations_scan;
pub mod log_receipt;
pub mod matcher;
pub mod paths;
pub mod removal;
pub mod scanner;
pub mod script;
pub mod session;
pub mod status;
pub mod status_channel;
pub mod status_event;
pub mod text;

pub use app_data::AppData;
pub use app_info::AppInfo;
pub use app_process::AppProcess;
pub use cleaner::Cleaner;
pub use locations_scan::LocationsScan;
pub use log_receipt::LogReceipt;
pub use status::{setup_status_emitter, StatusEmitter, StatusHandler};
pub use status_event::StatusEvent;
