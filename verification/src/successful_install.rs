//! The install-success screen: a static message; the space bar returns to
//! the email reader.

use vstd::prelude::*;
use crate::input::{KeyCode, KeyEvent};
use crate::password::EMAIL_TAB;

verus! {

/// The screen keeps no mutable data; the placeholder makes the pairing with
/// its tab explicit.
#[derive(Debug, Clone, PartialEq, Eq, Structural)]
pub struct SuccessfulInstallState;

impl SuccessfulInstallState {
    pub fn new() -> (s: Self)
        ensures
            s == SuccessfulInstallState,
    {
        SuccessfulInstallState
    }
}

#[derive(Debug, Clone, PartialEq, Eq, Structural)]
pub struct SuccessfulInstall;

/// The tab the space bar jumps to, `None` for any other key.
pub open spec fn install_step(key: KeyEvent) -> Option<usize> {
    if key.code == KeyCode::Char(' ') {
        Some(EMAIL_TAB)
    } else {
        None
    }
}

impl SuccessfulInstall {
    pub fn new() -> (s: SuccessfulInstall)
        ensures
            s == SuccessfulInstall,
    {
        SuccessfulInstall
    }

    /// Feed one key press to the screen.
    pub fn handle_input(&self, key: KeyEvent, state: &mut SuccessfulInstallState) -> (nav: Option<
        usize,
    >)
        ensures
            nav == install_step(key),
            *final(state) == *old(state),
    {
        match key.code {
            KeyCode::Char(c) => if c == ' ' {
                Some(EMAIL_TAB)
            } else {
                None
            },
            _ => None,
        }
    }
}

} // verus!
