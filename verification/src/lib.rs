//! A meta-package manager's resolution and installation engine.
//!
//! The engine decides which installation backend serves a package, walks the
//! install and uninstall protocol of that backend one step at a time, and
//! keeps the record of what is installed. It performs no input or output
//! itself: every effect is requested from its caller as an action, and the
//! caller reports back what happened.
//!
//! - [`package`], [`catalog`] and [`format`] hold the catalog and resolve a
//!   name to the backends that offer it.
//! - [`ledger`] keeps the record of the installed packages.
//! - [`document`] reads and writes the catalog and the ledger as JSON, by
//!   way of [`json`].
//! - [`protocol`] defines the sessions that install and uninstall, [`reach`]
//!   proves what holds of them, and [`dispatch`] runs them.
//! - [`sync`] replaces the catalog with a fresh copy, and [`sweep`] removes
//!   what packages have left behind.
//! - [`selection`], [`backend`], [`layout`], [`text`] and [`error`] serve
//!   the others.

pub mod backend;
pub mod catalog;
pub mod dispatch;
pub mod document;
pub mod error;
pub mod format;
pub mod json;
pub mod layout;
pub mod ledger;
pub mod package;
pub mod protocol;
pub mod reach;
pub mod selection;
pub mod sweep;
pub mod sync;
pub mod text;
