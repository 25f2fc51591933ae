//! Wraith: hold back physical keyboard and mouse input while synthetic
//! (injected) input keeps flowing.
//!
//! The library holds every decision the tray application makes: which hook
//! events pass and which are blocked, the panic-key timer, the lock state,
//! configuration defaults, the tray's icon, tip and menu, the auto-start
//! registry value, and the update check on a release description.
//! The Win32 calls that carry those decisions out live in the application.

pub mod app;
pub mod autostart;
pub mod config;
pub mod hooks;
pub mod tray;
pub mod updater;
