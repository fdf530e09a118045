//! The navigation controller: the ordered list of screens, the active tab,
//! the USB-slot flags and the cross-cutting navigation rules.
//!
//! Each screen owns its configuration and its mutable state together, so a
//! key press can never reach a state of the wrong shape. The controller
//! dispatches each key press to the active screen; when the screen requests
//! a jump, leaving a USB-slot tab marks its flag, and a jump to the email
//! reader turns into a jump to the victory tab once every flag is up.
//! External drive events can force the active tab as well.

use vstd::prelude::*;
use crate::decrypt::{Decrypt, DecryptState, decrypt_step};
use crate::email::{Email, EmailProgram, EmailProgramState, email_step};
use crate::failed_install::{FailedInstall, FailedInstallState};
use crate::input::{KeyCode, KeyEvent};
use crate::music::{MusicPlayer, MusicPlayerState, music_step};
use crate::password::{EMAIL_TAB, PasswordEntry, PasswordEntryState, password_step};
use crate::successful_install::{SuccessfulInstall, SuccessfulInstallState, install_step};
use crate::text::ends_with;
use crate::time_trial::{TimeTrial, TimeTrialState, time_trial_step, time_trial_wf};
use crate::victory::{Victory, VictoryPhase, VictoryState, victory_frame_ok, victory_wf};
use crate::email::MailboxError;

verus! {

/// How many USB slots the win condition tracks.
pub const USB_SLOTS: usize = 5;

/// The first and one-past-last tab indices of the USB-slot range: leaving
/// one of these tabs through a solved gate marks its slot plugged.
pub const FIRST_USB_TAB: usize = 2;

pub const LAST_USB_TAB: usize = 6;

/// One screen: its immutable configuration and its mutable state, owned
/// together so the pairing can never be wrong.
#[derive(Debug, PartialEq, Eq)]
pub enum Screen {
    Password(PasswordEntry, PasswordEntryState),
    Email(EmailProgram, EmailProgramState),
    Decrypt(Decrypt, DecryptState),
    Music(MusicPlayer, MusicPlayerState),
    TimeTrial(TimeTrial, TimeTrialState),
    SuccessfulInstall(SuccessfulInstall, SuccessfulInstallState),
    FailedInstall(FailedInstall, FailedInstallState),
    Victory(Victory, VictoryState),
}

/// A screen whose state respects its own invariants.
pub open spec fn screen_wf(s: Screen) -> bool {
    match s {
        Screen::Password(_, st) => st.wf(),
        Screen::Email(p, st) => p.wf() && 0 <= st@ < p@.len(),
        Screen::Decrypt(_, st) => st.wf(),
        Screen::Music(_, st) => st.wf(),
        Screen::TimeTrial(_, st) => time_trial_wf(st@),
        Screen::SuccessfulInstall(_, _) => true,
        Screen::FailedInstall(_, _) => true,
        Screen::Victory(_, st) => victory_wf(st@),
    }
}

/// The jump one key press makes a screen request: every solved gate leads
/// to the email reader, nothing else ever leaves its tab.
pub open spec fn screen_nav(s: Screen, key: KeyEvent) -> Option<usize> {
    match s {
        Screen::Password(c, st) => password_step(st@, key, c@).1,
        Screen::Email(_, _) => None,
        Screen::Decrypt(_, st) => decrypt_step(st@, key).1,
        Screen::Music(_, st) => music_step(st@, key).1,
        Screen::TimeTrial(_, st) => time_trial_step(st@, key).1,
        Screen::SuccessfulInstall(_, _) => install_step(key),
        Screen::FailedInstall(_, _) => install_step(key),
        Screen::Victory(_, _) => None,
    }
}

/// How one key press relates the old and the new value of a screen: the
/// variant and the configuration never change, and the state moves by the
/// screen's own step function.
pub open spec fn screen_step_ok(s0: Screen, s1: Screen, key: KeyEvent, nav: Option<usize>) -> bool {
    match (s0, s1) {
        (Screen::Password(c0, st0), Screen::Password(c1, st1)) => c1 == c0 && (st1@, nav)
            == password_step(st0@, key, c0@),
        (Screen::Email(c0, st0), Screen::Email(c1, st1)) => c1 == c0 && st1@ == email_step(
            st0@,
            c0@.len() as int,
            key,
        ) && nav is None,
        (Screen::Decrypt(c0, st0), Screen::Decrypt(c1, st1)) => c1 == c0 && (st1@, nav)
            == decrypt_step(st0@, key),
        (Screen::Music(c0, st0), Screen::Music(c1, st1)) => c1 == c0 && (st1@, nav) == music_step(
            st0@,
            key,
        ),
        (Screen::TimeTrial(c0, st0), Screen::TimeTrial(c1, st1)) => c1 == c0 && (st1@, nav)
            == time_trial_step(st0@, key),
        (Screen::SuccessfulInstall(_, _), Screen::SuccessfulInstall(_, _)) => nav == install_step(
            key,
        ),
        (Screen::FailedInstall(_, _), Screen::FailedInstall(_, _)) => nav == install_step(key),
        (Screen::Victory(c0, st0), Screen::Victory(c1, st1)) => c1 == c0 && st1 == st0 && nav
            is None,
        _ => false,
    }
}

impl Screen {
    /// Feed one key press to this screen.
    pub fn handle_input(&mut self, key: KeyEvent) -> (nav: Option<usize>)
        requires
            screen_wf(*old(self)),
        ensures
            screen_wf(*final(self)),
            screen_step_ok(*old(self), *final(self), key, nav),
            nav == screen_nav(*old(self), key),
    {
        match self {
            Screen::Password(c, st) => c.handle_input(key, st),
            Screen::Email(c, st) => c.handle_input(key, st),
            Screen::Decrypt(c, st) => c.handle_input(key, st),
            Screen::Music(c, st) => c.handle_input(key, st),
            Screen::TimeTrial(c, st) => c.handle_input(key, st),
            Screen::SuccessfulInstall(c, st) => c.handle_input(key, st),
            Screen::FailedInstall(c, st) => c.handle_input(key, st),
            Screen::Victory(c, st) => c.handle_input(key, st),
        }
    }
}

/// Every screen's jump goes to the email reader.
proof fn lemma_screen_nav_target(s: Screen, key: KeyEvent)
    ensures
        screen_nav(s, key) matches Some(t) ==> t == EMAIL_TAB,
{
}

/// The mathematical value of the controller.
pub ghost struct AppV {
    pub tabs: Seq<Screen>,
    pub current: int,
    pub usbs: Seq<bool>,
}

/// A well-formed controller: the full tab row is there — the two gates,
/// the four USB-slot tabs and the final tab — the active index is in
/// range, and every screen is well formed.
pub open spec fn app_wf(a: AppV) -> bool {
    &&& a.tabs.len() >= 7
    &&& 0 <= a.current < a.tabs.len()
    &&& a.usbs.len() == USB_SLOTS
    &&& forall|i: int| 0 <= i < a.tabs.len() ==> screen_wf(#[trigger] a.tabs[i])
}

/// Every USB slot is plugged.
pub open spec fn all_plugged(usbs: Seq<bool>) -> bool {
    forall|i: int| 0 <= i < usbs.len() ==> usbs[i]
}

/// The USB flags after leaving the active tab through a solved gate:
/// leaving a USB-slot tab marks its slot.
pub open spec fn usbs_after(a: AppV) -> Seq<bool> {
    if FIRST_USB_TAB <= a.current < LAST_USB_TAB {
        a.usbs.update(a.current - FIRST_USB_TAB, true)
    } else {
        a.usbs
    }
}

/// The tab a requested jump really lands on: a jump to the email reader
/// becomes a jump to the final tab once every USB slot is plugged. This is
/// the whole win condition.
pub open spec fn current_after(a: AppV, new_tab: int) -> int {
    if new_tab == EMAIL_TAB && all_plugged(usbs_after(a)) {
        a.tabs.len() - 1
    } else {
        new_tab
    }
}

/// Once every slot is plugged, the jump to the email reader lands on the
/// final tab instead.
pub proof fn lemma_win_redirect(a: AppV)
    requires
        all_plugged(usbs_after(a)),
    ensures
        current_after(a, EMAIL_TAB as int) == a.tabs.len() - 1,
{
}

/// The global quit chord: the letter q with Alt held.
pub open spec fn is_quit(key: KeyEvent) -> bool {
    key.code == KeyCode::Char('q') && key.alt
}

/// An external drive event, as the embedding program hands it in: the
/// destination path of a rename, or the path of a removal.
#[derive(Debug, Clone, PartialEq, Eq)]
pub enum FsEvent {
    RenamedTo(String),
    Removed(String),
}

/// The suffix of the device labels the watcher cares about.
pub open spec fn escape_suffix() -> Seq<char> {
    "-ESCAPE"@
}

/// Where in a device path its single-digit label sits: right after
/// `/dev/disk/by-label/`.
pub const LABEL_INDEX: usize = 19;

/// The USB slot a label digit names.
pub open spec fn digit_slot(c: char) -> Option<int> {
    if c == '1' {
        Some(0int)
    } else if c == '2' {
        Some(1int)
    } else if c == '3' {
        Some(2int)
    } else if c == '4' {
        Some(3int)
    } else {
        None
    }
}

/// The USB slot a rename event names: its destination path must end in
/// the escape suffix and carry a slot digit at the label position.
pub open spec fn rename_slot(path: Seq<char>) -> Option<int> {
    if path.len() > LABEL_INDEX && crate::text::spec_ends_with(path, escape_suffix()) {
        digit_slot(path[LABEL_INDEX as int])
    } else {
        None
    }
}

/// The controller.
pub struct App {
    tabs: Vec<Screen>,
    current_tab: usize,
    usbs_plugged: [bool; 5],
}

impl View for App {
    type V = AppV;

    closed spec fn view(&self) -> AppV {
        AppV {
            tabs: self.tabs@,
            current: self.current_tab as int,
            usbs: self.usbs_plugged@,
        }
    }
}

fn all_usbs(u: &[bool; 5]) -> (r: bool)
    ensures
        r == all_plugged(u@),
{
    let r = u[0] && u[1] && u[2] && u[3] && u[4];
    proof {
        if r {
            assert forall|i: int| 0 <= i < u@.len() implies u@[i] by {}
        }
    }
    r
}

impl App {
    /// A controller over `tabs`, starting on the first tab with no USB
    /// slot plugged. At least one tab is needed.
    pub fn new(tabs: Vec<Screen>) -> (r: Result<App, ()>)
        ensures
            tabs@.len() == 0 ==> r is Err,
            tabs@.len() > 0 ==> (r matches Ok(a) && a@ == (AppV {
                tabs: tabs@,
                current: 0,
                usbs: seq![false, false, false, false, false],
            })),
    {
        if tabs.len() == 0 {
            return Err(());
        }
        let a = App { tabs, current_tab: 0, usbs_plugged: [false, false, false, false, false] };
        proof {
            assert(a.usbs_plugged@ =~= seq![false, false, false, false, false]);
        }
        Ok(a)
    }

    /// The active tab index.
    pub fn current_index(&self) -> (i: usize)
        ensures
            i == self@.current,
    {
        self.current_tab
    }

    /// How many tabs there are.
    pub fn tab_count(&self) -> (n: usize)
        ensures
            n == self@.tabs.len(),
    {
        self.tabs.len()
    }

    /// The screen at index `i`, for drawing.
    pub fn screen(&self, i: usize) -> (s: &Screen)
        requires
            i < self@.tabs.len(),
        ensures
            *s == self@.tabs[i as int],
    {
        &self.tabs[i]
    }

    /// How many USB slots are plugged, for the status line.
    pub fn plugged_count(&self) -> (n: usize)
        ensures
            n == crate::app::count_plugged(self@.usbs),
    {
        let mut n: usize = 0;
        let mut i: usize = 0;
        while i < 5
            invariant
                i <= 5,
                self.usbs_plugged@.len() == 5,
                n == count_plugged(self.usbs_plugged@.take(i as int)),
                n <= i,
            decreases 5 - i,
        {
            if self.usbs_plugged[i] {
                n = n + 1;
            }
            proof {
                assert(self.usbs_plugged@.take(i as int + 1).drop_last() =~= self.usbs_plugged@.take(
                    i as int,
                ));
            }
            i = i + 1;
        }
        proof {
            assert(self.usbs_plugged@.take(5) =~= self.usbs_plugged@);
        }
        n
    }

    /// Feed one key press to the controller. The quit chord ends the
    /// program and changes nothing; any other key goes to the active
    /// screen, and a requested jump is applied under the navigation rules.
    pub fn handle_key(&mut self, key: KeyEvent) -> (quit: bool)
        requires
            app_wf(old(self)@),
        ensures
            app_wf(final(self)@),
            quit == is_quit(key),
            is_quit(key) ==> final(self)@ == old(self)@,
            !is_quit(key) ==> ({
                let a = old(self)@;
                let s0 = a.tabs[a.current];
                let nav = screen_nav(s0, key);
                &&& final(self)@.tabs.len() == a.tabs.len()
                &&& screen_step_ok(s0, final(self)@.tabs[a.current], key, nav)
                &&& forall|i: int|
                    0 <= i < a.tabs.len() && i != a.current ==> final(self)@.tabs[i] == a.tabs[i]
                &&& match nav {
                    None => final(self)@.current == a.current && final(self)@.usbs == a.usbs,
                    Some(t) => final(self)@.usbs == usbs_after(a) && final(self)@.current
                        == current_after(a, t as int),
                }
            }),
    {
        let quit = match key.code {
            KeyCode::Char(c) => c == 'q' && key.alt,
            _ => false,
        };
        if quit {
            return true;
        }
        let ghost a = self@;
        let idx = self.current_tab;
        let mut s = self.tabs.remove(idx);
        let nav = s.handle_input(key);
        proof {
            lemma_screen_nav_target(a.tabs[a.current], key);
        }
        self.tabs.insert(idx, s);
        proof {
            assert(self.tabs@ =~= a.tabs.update(idx as int, s));
        }
        match nav {
            Some(new_tab) => {
                if self.current_tab >= FIRST_USB_TAB && self.current_tab < LAST_USB_TAB {
                    self.usbs_plugged[self.current_tab - FIRST_USB_TAB] = true;
                }
                self.current_tab = new_tab;
                if new_tab == EMAIL_TAB && all_usbs(&self.usbs_plugged) {
                    self.current_tab = self.tabs.len() - 1;
                }
            },
            None => {},
        }
        false
    }

    /// React to one external drive event. A rename onto an escape-labeled
    /// device forces the active tab to that slot's tab — except on the
    /// password gate, which cannot be left this way; a removal of such a
    /// device kicks the player back to the email reader, or leaves them on
    /// the password gate.
    pub fn on_fs_event(&mut self, ev: &FsEvent)
        requires
            app_wf(old(self)@),
        ensures
            app_wf(final(self)@),
            final(self)@.tabs == old(self)@.tabs,
            final(self)@.usbs == old(self)@.usbs,
            final(self)@.current == ({
                let a = old(self)@;
                match ev {
                    FsEvent::RenamedTo(p) => match rename_slot(p@) {
                        Some(slot) => if a.current != 0 {
                            slot + FIRST_USB_TAB
                        } else {
                            a.current
                        },
                        None => a.current,
                    },
                    FsEvent::Removed(p) => if crate::text::spec_ends_with(p@, escape_suffix()) {
                        if a.current > 1 {
                            1int
                        } else {
                            a.current
                        }
                    } else {
                        a.current
                    },
                }
            }),
    {
        match ev {
            FsEvent::RenamedTo(p) => {
                if p.as_str().unicode_len() > LABEL_INDEX && ends_with(p.as_str(), "-ESCAPE") {
                    let c = p.as_str().get_char(LABEL_INDEX);
                    let slot: usize = if c == '1' {
                        0
                    } else if c == '2' {
                        1
                    } else if c == '3' {
                        2
                    } else if c == '4' {
                        3
                    } else {
                        4
                    };
                    if slot < 4 && self.current_tab != 0 {
                        self.current_tab = slot + FIRST_USB_TAB;
                    }
                }
            },
            FsEvent::Removed(p) => {
                if ends_with(p.as_str(), "-ESCAPE") {
                    if self.current_tab > 1 {
                        self.current_tab = 1;
                    }
                }
            },
        }
    }

    /// Advance the victory animation by one frame when — and only when —
    /// the active tab is the final one and shows the victory screen;
    /// otherwise report `None` so the active screen is drawn normally.
    pub fn victory_frame(&mut self, width: usize, height: usize) -> (p: Option<VictoryPhase>)
        requires
            app_wf(old(self)@),
        ensures
            app_wf(final(self)@),
            final(self)@.current == old(self)@.current,
            final(self)@.usbs == old(self)@.usbs,
            final(self)@.tabs.len() == old(self)@.tabs.len(),
            forall|i: int|
                0 <= i < old(self)@.tabs.len() && i != old(self)@.current ==> final(self)@.tabs[i]
                    == old(self)@.tabs[i],
            (p is Some) <==> (old(self)@.current == old(self)@.tabs.len() - 1
                && old(self)@.tabs[old(self)@.current] is Victory),
            p is None ==> final(self)@.tabs == old(self)@.tabs,
            p matches Some(phase) ==> ({
                let s0 = old(self)@.tabs[old(self)@.current];
                let s1 = final(self)@.tabs[old(self)@.current];
                &&& s0 matches Screen::Victory(c0, v0)
                &&& s1 matches Screen::Victory(c1, v1)
                &&& s1->Victory_0 == s0->Victory_0
                &&& victory_frame_ok(
                    s0->Victory_1@,
                    s1->Victory_1@,
                    width,
                    height,
                    phase,
                )
            }),
    {
        let idx = self.current_tab;
        let is_victory = match &self.tabs[idx] {
            Screen::Victory(_, _) => true,
            _ => false,
        };
        if !(idx == self.tabs.len() - 1 && is_victory) {
            return None;
        }
        let ghost a = self@;
        let mut s = self.tabs.remove(idx);
        let phase = match &mut s {
            Screen::Victory(_, st) => st.on_frame(width, height),
            _ => {
                proof {
                    assert(false);
                }
                VictoryPhase::Waiting
            },
        };
        self.tabs.insert(idx, s);
        proof {
            assert(self.tabs@ =~= a.tabs.update(idx as int, s));
        }
        Some(phase)
    }

    /// Collect a pending music playback request from the active tab: the
    /// path to play, if the music screen asked for one since the last
    /// collection.
    pub fn take_music_request(&mut self) -> (r: Option<String>)
        requires
            app_wf(old(self)@),
        ensures
            app_wf(final(self)@),
            final(self)@.current == old(self)@.current,
            final(self)@.usbs == old(self)@.usbs,
            final(self)@.tabs.len() == old(self)@.tabs.len(),
            forall|i: int|
                0 <= i < old(self)@.tabs.len() && i != old(self)@.current ==> final(self)@.tabs[i]
                    == old(self)@.tabs[i],
            ({
                let s0 = old(self)@.tabs[old(self)@.current];
                let s1 = final(self)@.tabs[old(self)@.current];
                match s0 {
                    Screen::Music(c0, st0) => {
                        &&& (r is Some) == st0@.pending_play
                        &&& r matches Some(f) ==> f@ == c0@
                        &&& s1 matches Screen::Music(c1, st1) && c1 == c0 && st1@.entry
                            == st0@.entry && !st1@.pending_play
                    },
                    _ => r is None && s1 == s0,
                }
            }),
    {
        let idx = self.current_tab;
        let is_music = match &self.tabs[idx] {
            Screen::Music(_, _) => true,
            _ => false,
        };
        if !is_music {
            return None;
        }
        let ghost a = self@;
        let mut s = self.tabs.remove(idx);
        let r = match &mut s {
            Screen::Music(c, st) => {
                if st.take_play_request() {
                    Some(c.file().clone())
                } else {
                    None
                }
            },
            _ => {
                proof {
                    assert(false);
                }
                None
            },
        };
        self.tabs.insert(idx, s);
        proof {
            assert(self.tabs@ =~= a.tabs.update(idx as int, s));
        }
        r
    }
}

/// How many USB slots of `usbs` are plugged.
pub open spec fn count_plugged(usbs: Seq<bool>) -> int
    decreases usbs.len(),
{
    if usbs.len() == 0 {
        0
    } else {
        count_plugged(usbs.drop_last()) + if usbs.last() {
            1int
        } else {
            0int
        }
    }
}

/// Build the controller the way the game starts: the password gate, the
/// email reader over the given mails, then — unless the decoy mode is on —
/// the decrypt puzzle, the music riddle, the install-success screen and
/// the time trial, or four install-failure decoys instead, and the victory
/// tab last. The decoy mode leaves the last USB slot unplugged, so the
/// victory tab stays unreachable; the real mode starts with it plugged.
/// An empty password starts the game on the email reader.
pub fn build_app(
    password: String,
    emails: Vec<Email>,
    disabled: bool,
    music_file: String,
) -> (r: Result<App, MailboxError>)
    ensures
        (r is Err) <==> emails@.len() == 0,
        r matches Ok(app) ==> ({
            let a = app@;
            &&& app_wf(a)
            &&& a.tabs.len() == 7
            &&& a.current == if password@.len() == 0 {
                1int
            } else {
                0int
            }
            &&& a.usbs == seq![false, false, false, false, !disabled]
            &&& a.tabs[0] matches Screen::Password(c, st) && c@ == password@ && st@.text.len()
                == 0 && !st@.error
            &&& a.tabs[1] matches Screen::Email(p, st) && p@.to_multiset()
                == emails@.to_multiset() && st@ == 0
            &&& (!disabled ==> {
                &&& a.tabs[2] is Decrypt
                &&& a.tabs[3] matches Screen::Music(m, st) && m@ == music_file@
                &&& a.tabs[4] is SuccessfulInstall
                &&& a.tabs[5] matches Screen::TimeTrial(_, st) && st@ matches
                    crate::time_trial::TimeTrialV::Calculations { step: 0, text, error: false }
                    && text.len() == 0
            })
            &&& (disabled ==> a.tabs[2] is FailedInstall && a.tabs[3] is FailedInstall
                && a.tabs[4] is FailedInstall && a.tabs[5] is FailedInstall)
            &&& a.tabs[6] is Victory
        }),
{
    let program = match EmailProgram::new(emails) {
        Ok(p) => p,
        Err(e) => {
            return Err(e);
        },
    };
    let empty_password = password.as_str().unicode_len() == 0;
    let mut tabs: Vec<Screen> = Vec::new();
    tabs.push(Screen::Password(PasswordEntry::new(password), PasswordEntryState::new()));
    tabs.push(Screen::Email(program, EmailProgramState::new()));
    if disabled {
        tabs.push(Screen::FailedInstall(FailedInstall::new(), FailedInstallState::new()));
        tabs.push(Screen::FailedInstall(FailedInstall::new(), FailedInstallState::new()));
        tabs.push(Screen::FailedInstall(FailedInstall::new(), FailedInstallState::new()));
        tabs.push(Screen::FailedInstall(FailedInstall::new(), FailedInstallState::new()));
    } else {
        tabs.push(Screen::Decrypt(Decrypt::new(), DecryptState::new()));
        tabs.push(Screen::Music(MusicPlayer::new(music_file), MusicPlayerState::new()));
        tabs.push(
            Screen::SuccessfulInstall(SuccessfulInstall::new(), SuccessfulInstallState::new()),
        );
        tabs.push(Screen::TimeTrial(TimeTrial, TimeTrial::initial_state()));
    }
    tabs.push(Screen::Victory(Victory, VictoryState::new()));
    let mut app = match App::new(tabs) {
        Ok(a) => a,
        Err(_) => {
            proof {
                assert(false);
            }
            return Err(MailboxError::NoEmails);
        },
    };
    if empty_password {
        app.set_current(1);
    }
    if !disabled {
        app.plug_last_slot();
    }
    proof {
        assert(app@.usbs =~= seq![false, false, false, false, !disabled]);
    }
    Ok(app)
}

impl App {
    /// Jump straight to the tab `i`; the game uses it to skip an empty
    /// password gate.
    fn set_current(&mut self, i: usize)
        requires
            i < old(self)@.tabs.len(),
        ensures
            final(self)@ == (AppV { current: i as int, ..old(self)@ }),
    {
        self.current_tab = i;
    }

    /// Mark the last USB slot plugged; the game starts this way outside
    /// the decoy mode, making the victory tab reachable at all.
    fn plug_last_slot(&mut self)
        ensures
            final(self)@ == (AppV {
                usbs: old(self)@.usbs.update(4, true),
                ..old(self)@
            }),
    {
        self.usbs_plugged[4] = true;
    }
}

} // verus!
