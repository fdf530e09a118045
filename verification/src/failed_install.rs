//! The install-failure screen, the decoy used four times in the disabled
//! run mode: a static error message; the space bar returns to the email
//! reader.

use vstd::prelude::*;
use crate::input::{KeyCode, KeyEvent};
use crate::password::EMAIL_TAB;
use crate::successful_install::install_step;

verus! {

/// The screen keeps no mutable data; the placeholder makes the pairing with
/// its tab explicit.
#[derive(Debug, Clone, PartialEq, Eq, Structural)]
pub struct FailedInstallState;

impl FailedInstallState {
    pub fn new() -> (s: Self)
        ensures
            s == FailedInstallState,
    {
        FailedInstallState
    }
}

#[derive(Debug, Clone, PartialEq, Eq, Structural)]
pub struct FailedInstall;

impl FailedInstall {
    pub fn new() -> (s: FailedInstall)
        ensures
            s == FailedInstall,
    {
        FailedInstall
    }

    /// Feed one key press to the screen.
    pub fn handle_input(&self, key: KeyEvent, state: &mut FailedInstallState) -> (nav: Option<
        usize,
    >)
        ensures
            nav == install_step(key),
            *final(state) == *old(state),
    {
        match key.code {
            KeyCode::Char(c) => if c == ' ' {
                Some(EMAIL_TAB)
            } else {
                None
            },
            _ => None,
        }
    }
}

} // verus!
