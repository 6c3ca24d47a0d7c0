//! Backend logic of a desktop drawing canvas whose window, menu widgets and
//! files belong to a host shell.
//!
//! The library decides and the host carries out:
//!
//! - [`menu`] declares the menu bar: submenus, entries, identifiers, labels.
//! - [`dispatch`] answers a click on an entry with what the host has to do.
//! - [`state`] keeps track of the flags of the entries.
//! - [`snapshot`] is what the frontend hands over to be kept.
//! - [`codec`] turns a snapshot into the text of a file and back, with the
//!   help of [`key`] and [`text`].
//! - [`persist`] takes a save or a load from the request to its outcome.

pub mod codec;
pub mod dispatch;
pub mod key;
pub mod menu;
pub mod persist;
pub mod snapshot;
pub mod state;
pub mod text;
