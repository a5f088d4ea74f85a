//! Verified core of the EasyMO desktop shell.
//!
//! The shell sits between an embedded web frontend and the operating
//! system.  This crate holds the pieces of it that carry real invariants:
//! the deep-link parser for the `easymo://` scheme, the shortcut key
//! resolver, the window registry keyed by unique labels, the tray status
//! machine, the event dispatcher, and the activation router that ties them
//! together.  The windowing, tray, notification and updater capabilities
//! themselves are the host framework's; every operation here either is
//! pure or returns the action the capability must perform.

pub mod dispatch;
pub mod keys;
pub mod links;
pub mod menu;
pub mod platform;
pub mod registry;
pub mod router;
pub mod text;
pub mod tray;
pub mod updates;
