//! Core logic of a terminal narrative puzzle game.
//!
//! The player moves through an ordered list of full-screen tabs: a password
//! gate, an email reader, a decryption prompt, a music riddle, a two-phase
//! time trial, install-outcome screens and a final victory animation. Each
//! screen owns its mutable state and handles one key press at a time,
//! optionally requesting a jump to another tab. The navigation controller
//! applies the cross-cutting rules: tracking which simulated USB drives have
//! been plugged, redirecting to the victory tab once all of them are, and
//! reacting to external drive insert/eject events.
//!
//! Terminal drawing, file loading, audio playback and the filesystem watcher
//! live outside this crate; the screens here work on plain values and say in
//! their contracts exactly how every key press changes them.

pub mod app;
pub mod decrypt;
pub mod email;
pub mod entry;
pub mod failed_install;
pub mod input;
pub mod music;
pub mod password;
pub mod successful_install;
pub mod text;
pub mod time_trial;
pub mod victory;
