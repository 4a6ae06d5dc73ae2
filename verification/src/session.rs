//! What the program decides while it runs: which changes of the clipboard are
//! its own, what is captured, where a selected clip goes, when the picker hides,
//! and what is shown for the settings.

use crate::clip::{Clip, ClipView, RecordView};
use crate::image;
use crate::image::{decode_image_bytes, ImageData, ImageError, ImageFault};
use crate::laws;
use crate::number;
use crate::number::push_signed;
use crate::settings;
use crate::settings::clamp_limit;
use crate::store;
use crate::store::Store;
use crate::text;
use crate::text::{chars_of, is_text, lower_chars, same_text, trim};
use crate::updater::{UpdateInfo, UpdateView};
use vstd::prelude::*;

verus! {

// ---------------------------------------------------------------------------
// State
// ---------------------------------------------------------------------------

/// The state of the running program.
#[derive(Debug)]
pub struct AppState {
    /// How many changes of the clipboard that the program made are still to be
    /// told of.
    pub self_write_events: usize,
    /// For how many ticks the picker stays although it is not in front.
    pub show_grace_ticks: usize,
    /// The window to paste into; zero is none.
    pub paste_target_hwnd: isize,
    /// The window of the picker; zero is not known.
    pub app_hwnd: isize,
    /// When a click to clear the history waits for a second one: when it came, in
    /// milliseconds.
    pub clear_asked_at: Option<u64>,
    /// The update that can be installed.
    pub update_info: Option<UpdateInfo>,
    /// An update is being looked for or installed.
    pub update_busy: bool,
}

/// An update that may be missing, its texts as characters.
pub open spec fn info_view(info: Option<UpdateInfo>) -> Option<UpdateView> {
    match info {
        Some(info) => Some(info@),
        None => None,
    }
}

/// The ticks for which the picker stays after it was shown.
pub const SHOW_GRACE_TICKS: usize = 12;

/// How long a second click clears the history, in milliseconds.
pub const CLEAR_CONFIRM_MILLIS: u64 = 5_000;

/// One less, and nothing less than zero.
pub open spec fn one_less(n: usize) -> usize {
    if n > 0 {
        (n - 1) as usize
    } else {
        0
    }
}

impl AppState {
    /// The state at the start.
    pub fn new() -> (r: Self)
        ensures
            r == (AppState {
                self_write_events: 0,
                show_grace_ticks: 0,
                paste_target_hwnd: 0,
                app_hwnd: 0,
                clear_asked_at: None,
                update_info: None,
                update_busy: false,
            }),
    {
        AppState {
            self_write_events: 0,
            show_grace_ticks: 0,
            paste_target_hwnd: 0,
            app_hwnd: 0,
            clear_asked_at: None,
            update_info: None,
            update_busy: false,
        }
    }

    /// Notes that the program is about to change the clipboard.
    pub fn mark_self_write(&mut self)
        ensures
            *final(self) == (AppState {
                self_write_events: old(self).self_write_events.wrapping_add(1),
                ..*old(self)
            }),
    {
        self.self_write_events = self.self_write_events.wrapping_add(1);
    }

    /// Notes that a change of the clipboard did not come about.
    pub fn cancel_self_write(&mut self)
        ensures
            *final(self) == (AppState {
                self_write_events: one_less(old(self).self_write_events),
                ..*old(self)
            }),
    {
        if self.self_write_events > 0 {
            self.self_write_events = self.self_write_events - 1;
        }
    }

    /// Whether a change of the clipboard is one that the program made. Each one
    /// that it made is skipped once.
    pub fn should_skip_self_write(&mut self) -> (r: bool)
        ensures
            r == (old(self).self_write_events > 0),
            *final(self) == (AppState {
                self_write_events: one_less(old(self).self_write_events),
                ..*old(self)
            }),
    {
        if self.self_write_events > 0 {
            self.self_write_events = self.self_write_events - 1;
            true
        } else {
            false
        }
    }

    /// Whether the picker stays for this tick although it is not in front.
    pub fn consume_show_grace_tick(&mut self) -> (r: bool)
        ensures
            r == (old(self).show_grace_ticks > 0),
            *final(self) == (AppState {
                show_grace_ticks: one_less(old(self).show_grace_ticks),
                ..*old(self)
            }),
    {
        if self.show_grace_ticks > 0 {
            self.show_grace_ticks = self.show_grace_ticks - 1;
            true
        } else {
            false
        }
    }

    /// Notes that the picker is shown.
    pub fn show_palette(&mut self)
        ensures
            *final(self) == (AppState { show_grace_ticks: SHOW_GRACE_TICKS, ..*old(self) }),
    {
        self.show_grace_ticks = SHOW_GRACE_TICKS;
    }

    /// Remembers the window of the picker, if it is known.
    pub fn remember_app_window(&mut self, hwnd: Option<isize>)
        ensures
            *final(self) == (match hwnd {
                Some(hwnd) => AppState { app_hwnd: hwnd, ..*old(self) },
                None => *old(self),
            }),
    {
        match hwnd {
            Some(hwnd) => {
                self.app_hwnd = hwnd;
            },
            None => {},
        }
    }

    /// Remembers the window to paste into: the one in front, unless it is the
    /// picker.
    pub fn set_paste_target(&mut self, hwnd: isize)
        ensures
            *final(self) == (AppState {
                paste_target_hwnd: if hwnd != old(self).app_hwnd {
                    hwnd
                } else {
                    0
                },
                ..*old(self)
            }),
    {
        self.paste_target_hwnd = if hwnd != 0 && hwnd != self.app_hwnd {
            hwnd
        } else {
            0
        };
    }

    /// Forgets the window to paste into.
    pub fn clear_paste_target(&mut self)
        ensures
            *final(self) == (AppState { paste_target_hwnd: 0, ..*old(self) }),
    {
        self.paste_target_hwnd = 0;
    }

    /// A click clears the history: it is the second one in time.
    pub open spec fn confirms_clear(self, now: u64) -> bool {
        self.clear_asked_at is Some && now <= self.clear_asked_at->Some_0 + CLEAR_CONFIRM_MILLIS
    }

    /// After a click to clear the history: the second one in time ends the
    /// time, and any other starts it.
    pub open spec fn clear_asked(self, now: u64) -> AppState {
        AppState {
            clear_asked_at: if self.confirms_clear(now) {
                None
            } else {
                Some(now)
            },
            ..self
        }
    }

    /// Whether a click clears the history.
    pub fn confirm_clear(&mut self, now: u64) -> (r: bool)
        ensures
            r == old(self).confirms_clear(now),
            *final(self) == old(self).clear_asked(now),
    {
        let confirmed = match self.clear_asked_at {
            Some(asked) => now < asked || now - asked <= CLEAR_CONFIRM_MILLIS,
            None => false,
        };
        self.clear_asked_at = if confirmed {
            None
        } else {
            Some(now)
        };
        confirmed
    }
}

/// A change of the clipboard that the program made is skipped, and no other is:
/// after it was told of, the state is as before.
pub proof fn own_write_is_skipped_once(before: usize)
    requires
        before < usize::MAX,
    ensures
        before.wrapping_add(1) > 0,
        one_less(before.wrapping_add(1)) == before,
        one_less(0) == 0,
{
}

/// The state after clicks to clear the history at the given times.
pub open spec fn after_clicks(state: AppState, times: Seq<u64>) -> AppState
    decreases times.len(),
{
    if times.len() == 0 {
        state
    } else {
        after_clicks(state, times.drop_last()).clear_asked(times.last())
    }
}

/// The last of the clicks clears the history.
pub open spec fn last_click_clears(state: AppState, times: Seq<u64>) -> bool {
    times.len() > 0 && after_clicks(state, times.drop_last()).confirms_clear(times.last())
}

/// Of any clicks to clear the history, one clears it just where there is a click
/// before it that did not, and it comes no later than five seconds after that.
pub proof fn second_click_in_time_clears(state: AppState, times: Seq<u64>)
    requires
        state.clear_asked_at is None,
        times.len() > 0,
    ensures
        last_click_clears(state, times) <==> {
            &&& times.len() > 1
            &&& !last_click_clears(state, times.drop_last())
            &&& times.last() <= times[times.len() - 2] + 5_000
        },
{
    let before = times.drop_last();
    if times.len() > 1 {
        let earlier = after_clicks(state, before.drop_last());
        assert(after_clicks(state, before) == earlier.clear_asked(before.last()));
    }
}

// ---------------------------------------------------------------------------
// Updates
// ---------------------------------------------------------------------------

/// What is shown of an update.
#[derive(Debug)]
pub struct UpdateReport {
    /// Whether an update can be installed, if that changes.
    pub available: Option<bool>,
    /// The version that can be installed, if that changes.
    pub version: Option<String>,
    /// What is shown.
    pub status: String,
}

/// What is shown of an update, its texts as characters.
pub struct ReportView {
    pub available: Option<bool>,
    pub version: Option<Seq<char>>,
    pub status: Seq<char>,
}

impl View for UpdateReport {
    type V = ReportView;

    open spec fn view(&self) -> ReportView {
        ReportView {
            available: self.available,
            version: text::text_view(self.version),
            status: self.status@,
        }
    }
}

/// What a search for an update came to, its texts as characters.
pub open spec fn found_view(found: Result<Option<UpdateInfo>, String>) -> Result<
    Option<UpdateView>,
    Seq<char>,
> {
    match found {
        Ok(info) => Ok(info_view(info)),
        Err(error) => Err(error@),
    }
}

/// What is shown after a search for an update.
pub open spec fn check_report(found: Result<Option<UpdateView>, Seq<char>>) -> ReportView {
    match found {
        Ok(Some(info)) => ReportView {
            available: Some(true),
            version: Some(info.version),
            status: info.version + " available"@,
        },
        Ok(None) => ReportView {
            available: Some(false),
            version: Some(Seq::empty()),
            status: "Up to date"@,
        },
        Err(error) => ReportView {
            available: Some(false),
            version: None,
            status: "Update check failed: "@ + error,
        },
    }
}

/// An update can be installed just where a search found one, and it is named then;
/// where the search failed, the version that was shown stays, and why it failed is
/// told to its end.
pub proof fn found_update_is_shown(found: Result<Option<UpdateView>, Seq<char>>)
    ensures
        ({
            let report = check_report(found);
            &&& report.available == Some(found is Ok && found->Ok_0 is Some)
            &&& report.version is None <==> found is Err
            &&& match found {
                Ok(Some(info)) => report.version == Some(info.version) && report.status
                    == info.version + " available"@,
                Ok(None) => report.version == Some(Seq::<char>::empty()) && report.status
                    == "Up to date"@,
                Err(error) => text::after_prefix(report.status, "Update check failed: "@) == Some(
                    error,
                ),
            }
        }),
{
    if found is Err {
        text::prefix_and_rest_make_the_text(
            check_report(found).status,
            "Update check failed: "@,
            found->Err_0,
        );
    }
}

/// What an attempt to install came to.
#[derive(Debug)]
pub enum InstallStart {
    /// Something else is going on with updates.
    Busy,
    /// No update is known.
    Unknown,
    /// The update is to be installed.
    Start(UpdateInfo),
}

fn copy_info(info: &UpdateInfo) -> (r: UpdateInfo)
    ensures
        r@ == info@,
{
    UpdateInfo {
        version: info.version.clone(),
        asset_name: info.asset_name.clone(),
        download_url: info.download_url.clone(),
        digest: match &info.digest {
            Some(digest) => Some(digest.clone()),
            None => None,
        },
    }
}

impl AppState {
    /// Begins a search for an update, unless one is being looked for or
    /// installed, and returns what is shown.
    pub fn begin_update_check(&mut self) -> (r: Result<UpdateReport, UpdateReport>)
        ensures
            *final(self) == (AppState { update_busy: true, ..*old(self) }),
            match r {
                Ok(report) => !old(self).update_busy && report@ == (ReportView {
                    available: Some(false),
                    version: None,
                    status: "Checking..."@,
                }),
                Err(report) => old(self).update_busy && report@ == (ReportView {
                    available: None,
                    version: None,
                    status: "Update task already running"@,
                }),
            },
    {
        if self.update_busy {
            Err(
                UpdateReport {
                    available: None,
                    version: None,
                    status: "Update task already running".to_owned(),
                },
            )
        } else {
            self.update_busy = true;
            Ok(
                UpdateReport {
                    available: Some(false),
                    version: None,
                    status: "Checking...".to_owned(),
                },
            )
        }
    }

    /// Ends a search for an update, and returns what is shown.
    pub fn finish_update_check(&mut self, found: Result<Option<UpdateInfo>, String>) -> (r:
        UpdateReport)
        ensures
            r@ == check_report(found_view(found)),
            !final(self).update_busy,
            info_view(final(self).update_info) == (match found {
                Ok(info) => info_view(info),
                Err(_) => None,
            }),
            *final(self) == (AppState {
                update_busy: false,
                update_info: final(self).update_info,
                ..*old(self)
            }),
    {
        self.update_busy = false;
        match found {
            Ok(Some(info)) => {
                let mut status = info.version.clone();
                status.append(" available");
                let version = info.version.clone();
                self.update_info = Some(info);
                UpdateReport { available: Some(true), version: Some(version), status }
            },
            Ok(None) => {
                self.update_info = None;
                let version = String::new();
                assert(version@ =~= Seq::<char>::empty());
                UpdateReport {
                    available: Some(false),
                    version: Some(version),
                    status: "Up to date".to_owned(),
                }
            },
            Err(error) => {
                self.update_info = None;
                let mut status = "Update check failed: ".to_owned();
                status.append(error.as_str());
                UpdateReport { available: Some(false), version: None, status }
            },
        }
    }

    /// Begins to install the update that is known, unless one is being looked
    /// for or installed.
    pub fn begin_install(&mut self) -> (r: InstallStart)
        ensures
            match r {
                InstallStart::Busy => old(self).update_busy && *final(self) == *old(self),
                InstallStart::Unknown => !old(self).update_busy && old(self).update_info is None
                    && *final(self) == *old(self),
                InstallStart::Start(info) => !old(self).update_busy && old(self).update_info is Some
                    && info@ == old(self).update_info->Some_0@ && *final(self) == (AppState {
                    update_busy: true,
                    ..*old(self)
                }),
            },
    {
        if self.update_busy {
            return InstallStart::Busy;
        }
        match &self.update_info {
            None => InstallStart::Unknown,
            Some(info) => {
                let info = copy_info(info);
                self.update_busy = true;
                InstallStart::Start(info)
            },
        }
    }

    /// Ends an attempt to install: what is shown, and whether the program is to
    /// quit for it.
    pub fn finish_install(&mut self, error: Option<&str>) -> (r: (String, bool))
        ensures
            *final(self) == (AppState { update_busy: false, ..*old(self) }),
            r.1 == (error is None),
            r.0@ == (match error {
                None => "Restarting to update..."@,
                Some(error) => "Update failed: "@ + error@,
            }),
    {
        self.update_busy = false;
        match error {
            None => ("Restarting to update...".to_owned(), true),
            Some(error) => {
                let mut status = "Update failed: ".to_owned();
                status.append(error);
                (status, false)
            },
        }
    }
}

impl InstallStart {
    /// What is shown for an attempt to install.
    pub open spec fn text(self) -> Seq<char> {
        match self {
            InstallStart::Busy => "Update task already running"@,
            InstallStart::Unknown => "Check for updates first"@,
            InstallStart::Start(info) => "Downloading "@ + info.version@ + "..."@,
        }
    }

    /// What is shown for an attempt to install.
    pub fn status(&self) -> (r: String)
        ensures
            r@ == self.text(),
    {
        match self {
            InstallStart::Busy => "Update task already running".to_owned(),
            InstallStart::Unknown => "Check for updates first".to_owned(),
            InstallStart::Start(info) => {
                let mut out = "Downloading ".to_owned();
                out.append(info.version.as_str());
                out.append("...");
                out
            },
        }
    }
}

// ---------------------------------------------------------------------------
// The picker hides
// ---------------------------------------------------------------------------

/// What the window system says of the picker.
#[derive(Debug, Clone, Copy, PartialEq, Eq, Structural)]
pub struct WindowFacts {
    pub visible: bool,
    pub minimized: bool,
    pub foreground: bool,
}

/// What is to be done at a tick.
#[derive(Debug, Clone, Copy, PartialEq, Eq, Structural)]
pub enum TickAction {
    /// Find out which window the picker has.
    FindWindow,
    /// Nothing.
    Nothing,
    /// Hide the minimized picker.
    HideMinimized,
    /// Hide the picker, and end the ticks where that cannot be done.
    Hide,
}

/// What is remembered from tick to tick: whether the picker was in front, and
/// for how many ticks it has not been.
#[derive(Debug, Clone, Copy, PartialEq, Eq, Structural)]
pub struct AutoHide {
    pub seen_foreground: bool,
    pub away_ticks: u32,
}

impl AutoHide {
    /// After how many ticks the picker hides: soon where it was in front, later
    /// where it was not yet.
    pub open spec fn threshold(self) -> u32 {
        if self.seen_foreground {
            2
        } else {
            8
        }
    }

    /// The picker would have been hidden otherwise.
    pub open spec fn wf(self) -> bool {
        self.away_ticks < self.threshold()
    }

    /// Nothing is remembered.
    pub open spec fn fresh() -> AutoHide {
        AutoHide { seen_foreground: false, away_ticks: 0 }
    }

    /// What is to be done at a tick, what is remembered then, and whether a
    /// tick of grace is used up.
    pub open spec fn next(self, window: isize, grace: usize, facts: WindowFacts) -> (
        TickAction,
        AutoHide,
        bool,
    ) {
        if window == 0 {
            (TickAction::FindWindow, self, false)
        } else if !facts.visible {
            (TickAction::Nothing, AutoHide::fresh(), false)
        } else if facts.minimized {
            (TickAction::HideMinimized, AutoHide::fresh(), false)
        } else if grace > 0 {
            (TickAction::Nothing, self, true)
        } else if facts.foreground {
            (TickAction::Nothing, AutoHide { seen_foreground: true, away_ticks: 0 }, false)
        } else if self.away_ticks + 1 >= self.threshold() {
            (TickAction::Hide, AutoHide::fresh(), false)
        } else {
            (
                TickAction::Nothing,
                AutoHide { away_ticks: (self.away_ticks + 1) as u32, ..self },
                false,
            )
        }
    }

    /// What is remembered at the start.
    pub fn new() -> (r: Self)
        ensures
            r == AutoHide::fresh(),
            r.wf(),
    {
        AutoHide { seen_foreground: false, away_ticks: 0 }
    }

    /// What is to be done at a tick.
    pub fn tick(&mut self, state: &mut AppState, facts: WindowFacts) -> (r: TickAction)
        requires
            old(self).wf(),
        ensures
            final(self).wf(),
            ({
                let (action, next, used) = old(self).next(
                    old(state).app_hwnd,
                    old(state).show_grace_ticks,
                    facts,
                );
                &&& r == action
                &&& *final(self) == next
                &&& *final(state) == (if used {
                    AppState {
                        show_grace_ticks: one_less(old(state).show_grace_ticks),
                        ..*old(state)
                    }
                } else {
                    *old(state)
                })
            }),
    {
        if state.app_hwnd == 0 {
            return TickAction::FindWindow;
        }
        if !facts.visible {
            self.seen_foreground = false;
            self.away_ticks = 0;
            return TickAction::Nothing;
        }
        if facts.minimized {
            self.seen_foreground = false;
            self.away_ticks = 0;
            return TickAction::HideMinimized;
        }
        if state.consume_show_grace_tick() {
            return TickAction::Nothing;
        }
        if facts.foreground {
            self.seen_foreground = true;
            self.away_ticks = 0;
            return TickAction::Nothing;
        }
        self.away_ticks = self.away_ticks + 1;
        let threshold: u32 = if self.seen_foreground {
            2
        } else {
            8
        };
        if self.away_ticks >= threshold {
            self.seen_foreground = false;
            self.away_ticks = 0;
            TickAction::Hide
        } else {
            TickAction::Nothing
        }
    }
}

/// What is remembered after a number of ticks at which the picker is visible
/// but not in front, with no grace.
pub open spec fn away(from: AutoHide, window: isize, ticks: nat) -> AutoHide
    decreases ticks,
{
    let facts = WindowFacts { visible: true, minimized: false, foreground: false };
    if ticks == 0 {
        from
    } else {
        away(from, window, (ticks - 1) as nat).next(window, 0, facts).1
    }
}

/// A picker that was in front hides at the second tick at which it is not; one
/// that has not been in front yet, at the eighth.
pub proof fn picker_hides_when_away(window: isize, seen: bool, ticks: nat)
    requires
        window != 0,
        ticks < (AutoHide { seen_foreground: seen, away_ticks: 0 }).threshold(),
    ensures
        ({
            let facts = WindowFacts { visible: true, minimized: false, foreground: false };
            let start = AutoHide { seen_foreground: seen, away_ticks: 0 };
            let now = away(start, window, ticks);
            &&& start.threshold() == (if seen {
                2u32
            } else {
                8u32
            })
            &&& now == (AutoHide { seen_foreground: seen, away_ticks: ticks as u32 })
            &&& now.next(window, 0, facts).0 == (if ticks + 1 == start.threshold() {
                TickAction::Hide
            } else {
                TickAction::Nothing
            })
        }),
    decreases ticks,
{
    if ticks > 0 {
        picker_hides_when_away(window, seen, (ticks - 1) as nat);
    }
}

/// A picker that has just been shown does not hide by itself for twelve ticks.
pub proof fn shown_picker_has_grace(hide: AutoHide, window: isize, grace: usize, facts: WindowFacts)
    requires
        0 < grace <= SHOW_GRACE_TICKS,
    ensures
        hide.next(window, grace, facts).0 != TickAction::Hide,
        window != 0 && facts.visible && !facts.minimized ==> hide.next(window, grace, facts) == (
            TickAction::Nothing,
            hide,
            true,
        ),
        SHOW_GRACE_TICKS == 12,
{
}

/// The picker hides by itself just where it is there to be seen, is not in
/// front, has no grace, and was away at the ticks before: one where it has been
/// in front, seven where it has not. A minimized one is hidden at once.
pub proof fn picker_hides_only_when_away(
    hide: AutoHide,
    window: isize,
    grace: usize,
    facts: WindowFacts,
)
    requires
        hide.wf(),
    ensures
        ({
            let (action, next, used) = hide.next(window, grace, facts);
            let shown = window != 0 && facts.visible && !facts.minimized;
            &&& action == TickAction::FindWindow <==> window == 0
            &&& action == TickAction::HideMinimized <==> window != 0 && facts.visible
                && facts.minimized
            &&& action == TickAction::Hide <==> shown && grace == 0 && !facts.foreground
                && hide.away_ticks == (if hide.seen_foreground {
                1int
            } else {
                7
            })
            &&& used <==> shown && grace > 0
        }),
{
}

/// What is remembered of the picker: nothing after it was hidden or is not to be
/// seen; that it was in front, once it is; and otherwise one tick more that it
/// was not.
pub proof fn ticks_are_remembered(
    hide: AutoHide,
    window: isize,
    grace: usize,
    facts: WindowFacts,
)
    requires
        hide.wf(),
        window != 0,
    ensures
        ({
            let (action, next, used) = hide.next(window, grace, facts);
            let forgets = !facts.visible || facts.minimized || action == TickAction::Hide;
            &&& forgets ==> !next.seen_foreground && next.away_ticks == 0
            &&& !forgets && used ==> next == hide
            &&& !forgets && !used && facts.foreground ==> next.seen_foreground && next.away_ticks
                == 0
            &&& !forgets && !used && !facts.foreground ==> next.seen_foreground
                == hide.seen_foreground && next.away_ticks == hide.away_ticks + 1
        }),
{
}

// ---------------------------------------------------------------------------
// Reading the clipboard
// ---------------------------------------------------------------------------

/// How often the clipboard is tried at most.
pub const MAX_READ_ATTEMPTS: u32 = 6;

/// The time in milliseconds between two attempts.
pub const READ_PAUSE: u64 = 20;

/// What an attempt to read the clipboard came to.
#[derive(Debug, Clone, Copy, PartialEq, Eq, Structural)]
pub enum ReadEvent {
    /// It could not be opened: another program has it.
    OpenOccupied,
    /// It could not be opened.
    OpenFailed,
    /// The content was read.
    Found,
    /// There is no content of the kind.
    NotAvailable,
    /// The content could not be read: another program has it.
    ReadOccupied,
    /// The content could not be read.
    ReadFailed,
}

/// What is to be done after an attempt.
#[derive(Debug, Clone, Copy, PartialEq, Eq, Structural)]
pub enum ReadStep {
    /// Try again after so many milliseconds.
    RetryAfter(u64),
    /// Take the content.
    Take,
    /// There is nothing to take.
    Nothing,
    /// Give up: the clipboard could not be opened.
    FailOpen,
    /// Give up: the content could not be read.
    FailRead,
}

/// The attempts to read the clipboard.
#[derive(Debug, Clone, Copy, PartialEq, Eq, Structural)]
pub struct ClipboardReader {
    pub attempts: u32,
}

impl ClipboardReader {
    pub open spec fn wf(self) -> bool {
        self.attempts < MAX_READ_ATTEMPTS
    }

    /// What is to be done after another attempt.
    pub open spec fn next(self, event: ReadEvent) -> ReadStep {
        let again = self.attempts + 1 < MAX_READ_ATTEMPTS;
        match event {
            ReadEvent::Found => ReadStep::Take,
            ReadEvent::NotAvailable => ReadStep::Nothing,
            ReadEvent::OpenOccupied => if again {
                ReadStep::RetryAfter(READ_PAUSE)
            } else {
                ReadStep::FailOpen
            },
            ReadEvent::ReadOccupied => if again {
                ReadStep::RetryAfter(READ_PAUSE)
            } else {
                ReadStep::FailRead
            },
            ReadEvent::OpenFailed => ReadStep::FailOpen,
            ReadEvent::ReadFailed => ReadStep::FailRead,
        }
    }

    /// There was no attempt yet.
    pub fn new() -> (r: Self)
        ensures
            r.attempts == 0,
            r.wf(),
    {
        ClipboardReader { attempts: 0 }
    }

    /// What is to be done after another attempt.
    pub fn attempt(&mut self, event: ReadEvent) -> (r: ReadStep)
        requires
            old(self).wf(),
        ensures
            final(self).attempts == old(self).attempts + 1,
            r == old(self).next(event),
            r is RetryAfter ==> final(self).wf(),
    {
        self.attempts = self.attempts + 1;
        let again = self.attempts < MAX_READ_ATTEMPTS;
        match event {
            ReadEvent::Found => ReadStep::Take,
            ReadEvent::NotAvailable => ReadStep::Nothing,
            ReadEvent::OpenOccupied => if again {
                ReadStep::RetryAfter(READ_PAUSE)
            } else {
                ReadStep::FailOpen
            },
            ReadEvent::ReadOccupied => if again {
                ReadStep::RetryAfter(READ_PAUSE)
            } else {
                ReadStep::FailRead
            },
            ReadEvent::OpenFailed => ReadStep::FailOpen,
            ReadEvent::ReadFailed => ReadStep::FailRead,
        }
    }
}

/// The clipboard is tried six times at most.
pub proof fn sixth_attempt_is_the_last(reader: ClipboardReader, event: ReadEvent)
    requires
        reader.attempts + 1 == MAX_READ_ATTEMPTS,
    ensures
        !(reader.next(event) is RetryAfter),
{
}

/// An attempt is made again, after twenty milliseconds, just where another
/// program has the clipboard and there were fewer than six; what was read is
/// taken, what is not there is not, and any other error is given up for.
pub proof fn occupied_clipboard_is_tried_again(reader: ClipboardReader, event: ReadEvent)
    requires
        reader.attempts < 6,
    ensures
        match reader.next(event) {
            ReadStep::RetryAfter(pause) => {
                &&& event == ReadEvent::OpenOccupied || event == ReadEvent::ReadOccupied
                &&& reader.attempts < 5
                &&& pause == 20
            },
            ReadStep::Take => event == ReadEvent::Found,
            ReadStep::Nothing => event == ReadEvent::NotAvailable,
            ReadStep::FailOpen => event == ReadEvent::OpenFailed || event
                == ReadEvent::OpenOccupied && reader.attempts == 5,
            ReadStep::FailRead => event == ReadEvent::ReadFailed || event
                == ReadEvent::ReadOccupied && reader.attempts == 5,
        },
{
}

// ---------------------------------------------------------------------------
// Capturing the clipboard
// ---------------------------------------------------------------------------

/// What comes after the clipboard was read for an image.
#[derive(Debug)]
pub enum CaptureStep {
    /// The capture is done: the id of the clip, if one was taken.
    Done(Option<i64>),
    /// The clipboard is to be read for a text; why no image could be read, if
    /// that failed.
    ReadText(Option<String>),
}

/// Captures the image that was read from the clipboard, if there was one.
pub fn capture_image(
    store: &mut Store,
    read: Result<Option<ImageData>, String>,
    scaled_width: usize,
    scaled_height: usize,
    now: i64,
) -> (r: CaptureStep)
    requires
        old(store).wf(),
        old(store)@.clips.dom().len() < i64::MAX,
        match read {
            Ok(Some(image)) => image.width > 0 && image.height > 0 ==> image::is_packable(
                image.bytes@,
            ),
            _ => true,
        },
    ensures
        final(store).wf(),
        match (read, r) {
            (Ok(Some(image)), CaptureStep::Done(id)) => store::upserts_image(
                old(store)@,
                final(store)@,
                image,
                scaled_width as nat,
                scaled_height as nat,
                now,
                id,
            ),
            (Ok(None), CaptureStep::ReadText(error)) => error is None && final(store)@
                == old(store)@,
            (Err(message), CaptureStep::ReadText(Some(error))) => error@ == message@
                && final(store)@ == old(store)@,
            _ => false,
        },
{
    match read {
        Ok(Some(image)) => {
            CaptureStep::Done(store.upsert_image(&image, scaled_width, scaled_height, now))
        },
        Ok(None) => CaptureStep::ReadText(None),
        Err(error) => CaptureStep::ReadText(Some(error)),
    }
}

/// Captures the text that was read from the clipboard, if there was one, and
/// returns the id of the clip, if it was taken. That no image could be read is an
/// error only where there is no text.
pub fn capture_text(
    store: &mut Store,
    image_error: Option<String>,
    read: Result<Option<String>, String>,
    now: i64,
) -> (r: Result<Option<i64>, String>)
    requires
        old(store).wf(),
        old(store)@.clips.dom().len() < i64::MAX,
    ensures
        final(store).wf(),
        match (read, r) {
            (Ok(Some(text)), Ok(id)) => store::upserts_text(
                old(store)@,
                final(store)@,
                text@,
                now,
                id,
            ),
            (Ok(None), Ok(id)) => image_error is None && id is None && final(store)@
                == old(store)@,
            (Ok(None), Err(error)) => image_error is Some && error@ == image_error->Some_0@
                && final(store)@ == old(store)@,
            (Err(message), Err(error)) => error@ == message@ && final(store)@ == old(store)@,
            _ => false,
        },
{
    match read {
        Err(error) => Err(error),
        Ok(Some(text)) => {
            Ok(store.upsert_text(text.as_str(), now))
        },
        Ok(None) => match image_error {
            Some(error) => Err(error),
            None => Ok(None),
        },
    }
}

// ---------------------------------------------------------------------------
// Selecting a clip
// ---------------------------------------------------------------------------

/// What goes to the clipboard.
#[derive(Debug)]
pub enum Payload {
    Text(String),
    Image(ImageData),
}

/// What goes to the clipboard, its texts and bytes as sequences.
pub enum PayloadView {
    Text(Seq<char>),
    Image(usize, usize, Seq<u8>),
}

impl View for Payload {
    type V = PayloadView;

    open spec fn view(&self) -> PayloadView {
        match self {
            Payload::Text(text) => PayloadView::Text(text@),
            Payload::Image(image) => PayloadView::Image(image.width, image.height, image.bytes@),
        }
    }
}

/// Why a clip cannot go to the clipboard.
#[derive(Debug)]
pub enum PayloadError {
    MissingWidth,
    MissingHeight,
    Pixels(ImageError),
}

/// Why a clip cannot go to the clipboard, its texts as characters.
pub enum PayloadFault {
    MissingWidth,
    MissingHeight,
    Pixels(ImageFault),
}

impl View for PayloadError {
    type V = PayloadFault;

    open spec fn view(&self) -> PayloadFault {
        match self {
            PayloadError::MissingWidth => PayloadFault::MissingWidth,
            PayloadError::MissingHeight => PayloadFault::MissingHeight,
            PayloadError::Pixels(error) => PayloadFault::Pixels(error@),
        }
    }
}

impl PayloadFault {
    /// The message that is shown for the fault.
    pub open spec fn text(self) -> Seq<char> {
        match self {
            PayloadFault::MissingWidth => "image clip is missing width"@,
            PayloadFault::MissingHeight => "image clip is missing height"@,
            PayloadFault::Pixels(fault) => fault.text(),
        }
    }
}

impl PayloadError {
    /// The message that is shown for the error.
    pub fn message(&self) -> (r: String)
        ensures
            r@ == self@.text(),
    {
        match self {
            PayloadError::MissingWidth => "image clip is missing width".to_owned(),
            PayloadError::MissingHeight => "image clip is missing height".to_owned(),
            PayloadError::Pixels(error) => error.message(),
        }
    }
}

/// What goes to the clipboard for a clip, given what its pixels are.
pub open spec fn payload(clip: ClipView, pixels: Result<Seq<u8>, ImageFault>) -> Result<
    PayloadView,
    PayloadFault,
> {
    if clip.kind != "image"@ {
        Ok(PayloadView::Text(clip.text))
    } else {
        match (clip.image_width, clip.image_height, pixels) {
            (None, _, _) => Err(PayloadFault::MissingWidth),
            (_, None, _) => Err(PayloadFault::MissingHeight),
            (Some(_), Some(_), Err(fault)) => Err(PayloadFault::Pixels(fault)),
            (Some(width), Some(height), Ok(bytes)) => Ok(
                PayloadView::Image(width as usize, height as usize, bytes),
            ),
        }
    }
}

/// A payload or an error, their texts and bytes as sequences.
pub open spec fn payload_result(r: Result<Payload, PayloadError>) -> Result<
    PayloadView,
    PayloadFault,
> {
    match r {
        Ok(payload) => Ok(payload@),
        Err(error) => Err(error@),
    }
}

/// What goes to the clipboard for a clip.
pub fn clip_payload(clip: &Clip) -> (r: Result<Payload, PayloadError>)
    ensures
        payload_result(r) == payload(clip@, image::decoded(clip@)),
{
    if !same_text(clip.kind.as_str(), "image") {
        return Ok(Payload::Text(clip.text.clone()));
    }
    let width: i64 = match clip.image_width {
        Some(width) => width,
        None => return Err(PayloadError::MissingWidth),
    };
    let height: i64 = match clip.image_height {
        Some(height) => height,
        None => return Err(PayloadError::MissingHeight),
    };
    match decode_image_bytes(clip) {
        Ok(bytes) => Ok(
            Payload::Image(ImageData { width: width as usize, height: height as usize, bytes }),
        ),
        Err(error) => Err(PayloadError::Pixels(error)),
    }
}

/// What goes to the clipboard when the clip with an id is selected.
pub fn select_clip(store: &Store, id: i64) -> (r: Option<Result<Payload, PayloadError>>)
    requires
        store.wf(),
    ensures
        match r {
            None => !store@.clips.contains_key(id),
            Some(selected) => store@.clips.contains_key(id) && payload_result(selected) == payload(
                store@.clips[id].clip(),
                image::decoded(store@.clips[id].clip()),
            ),
        },
{
    match store.get(id) {
        Some(clip) => Some(clip_payload(&clip)),
        None => None,
    }
}

/// A text that was copied goes to the clipboard again as it was kept.
pub proof fn copied_text_comes_back(row: RecordView, text: Seq<char>, now: i64)
    requires
        laws::is_row_of_text(row, text, now),
    ensures
        payload(row.clip(), image::decoded(row.clip())) == Ok::<PayloadView, PayloadFault>(
            PayloadView::Text(row.text_content),
        ),
        text.len() > 0 && text[0] != '\0' && text.last() != '\0' ==> payload(
            row.clip(),
            image::decoded(row.clip()),
        ) == Ok::<PayloadView, PayloadFault>(PayloadView::Text(text)),
{
    reveal_strlit("text");
    reveal_strlit("image");
    assert("text"@.len() != "image"@.len());
}

/// An image that was copied goes to the clipboard again with its sides and its
/// pixels, as long as the number of its bytes fits into thirty-two bits.
pub proof fn copied_image_comes_back(
    row: RecordView,
    image: ImageData,
    scaled_width: nat,
    scaled_height: nat,
    now: i64,
)
    requires
        laws::is_row_of_image(row, image, scaled_width, scaled_height, now),
        image.bytes@.len() <= u32::MAX,
        image.width <= i64::MAX,
        image.height <= i64::MAX,
    ensures
        payload(row.clip(), image::decoded(row.clip())) == Ok::<PayloadView, PayloadFault>(
            PayloadView::Image(image.width, image.height, image.bytes@),
        ),
{
    reveal_strlit("rgba");
    reveal_strlit("lz4-rgba");
    assert("rgba"@.len() != "lz4-rgba"@.len());
}

/// Only an image needs its pixels, and it goes out with its own sides and with
/// them; any other clip goes out as its text, whatever else it has. An image
/// that lacks a side is told by it, the width first.
pub proof fn clip_goes_out_as_what_it_is(clip: ClipView, pixels: Result<Seq<u8>, ImageFault>)
    ensures
        match payload(clip, pixels) {
            Ok(PayloadView::Text(text)) => clip.kind != "image"@ && text == clip.text,
            Ok(PayloadView::Image(width, height, bytes)) => {
                &&& clip.kind == "image"@
                &&& clip.image_width is Some && clip.image_height is Some
                &&& width == clip.image_width->Some_0 as usize
                &&& height == clip.image_height->Some_0 as usize
                &&& pixels == Ok::<Seq<u8>, ImageFault>(bytes)
            },
            Err(PayloadFault::MissingWidth) => clip.kind == "image"@ && clip.image_width is None,
            Err(PayloadFault::MissingHeight) => clip.kind == "image"@ && clip.image_width is Some
                && clip.image_height is None,
            Err(PayloadFault::Pixels(fault)) => {
                &&& clip.kind == "image"@
                &&& clip.image_width is Some && clip.image_height is Some
                &&& pixels == Err::<Seq<u8>, ImageFault>(fault)
            },
        },
{
}

/// What comes after a clip went to the clipboard.
#[derive(Debug, Clone, Copy, PartialEq, Eq, Structural)]
pub enum AfterCopy {
    /// Hide the picker and paste into the window.
    Paste(isize),
    /// Say that it is copied, but that there is no window to paste into.
    NoTarget,
    /// Say that it is copied.
    Copied,
}

impl AfterCopy {
    /// What is shown where nothing is pasted.
    pub open spec fn text(self) -> Option<Seq<char>> {
        match self {
            AfterCopy::Paste(_) => None,
            AfterCopy::NoTarget => Some("Copied; no target window"@),
            AfterCopy::Copied => Some("Copied"@),
        }
    }

    /// What is shown where nothing is pasted.
    pub fn status(self) -> (r: Option<String>)
        ensures
            text::text_view(r) == self.text(),
    {
        match self {
            AfterCopy::Paste(_) => None,
            AfterCopy::NoTarget => Some("Copied; no target window".to_owned()),
            AfterCopy::Copied => Some("Copied".to_owned()),
        }
    }
}

/// What comes after a clip went to the clipboard.
pub open spec fn next_after_copy(paste: bool, target_hwnd: isize) -> AfterCopy {
    if !paste {
        AfterCopy::Copied
    } else if target_hwnd == 0 {
        AfterCopy::NoTarget
    } else {
        AfterCopy::Paste(target_hwnd)
    }
}

/// What comes after a clip went to the clipboard, given whether selected clips
/// are pasted and into which window.
pub fn after_copy(paste: bool, target_hwnd: isize) -> (r: AfterCopy)
    ensures
        r == next_after_copy(paste, target_hwnd),
{
    if paste && target_hwnd != 0 {
        AfterCopy::Paste(target_hwnd)
    } else if paste {
        AfterCopy::NoTarget
    } else {
        AfterCopy::Copied
    }
}

/// Something is pasted just where that is wanted and there is a window, and into
/// this window; otherwise it is said that the clip is copied, and, where it was to
/// be pasted, that there is no window.
pub proof fn pastes_only_into_a_window(paste: bool, target_hwnd: isize)
    ensures
        match next_after_copy(paste, target_hwnd) {
            AfterCopy::Paste(window) => paste && window == target_hwnd && window != 0,
            AfterCopy::NoTarget => paste && target_hwnd == 0,
            AfterCopy::Copied => !paste,
        },
        next_after_copy(paste, target_hwnd).text() == (if !paste {
            Some("Copied"@)
        } else if target_hwnd == 0 {
            Some("Copied; no target window"@)
        } else {
            None
        }),
{
}

/// What becomes of several clips that were selected together.
#[derive(Debug)]
pub enum BatchAction {
    /// Paste them one after the other.
    PasteAll(Vec<i64>),
    /// Copy the one that was selected last.
    CopyLast(i64),
    /// None was selected.
    Nothing,
}

/// What becomes of several clips that were selected together: they are pasted
/// in the order of their selection where selected clips are pasted and there is
/// a window to paste into; otherwise the last one is copied.
pub fn finish_batch(selected: Vec<i64>, paste: bool, target_hwnd: isize) -> (r: BatchAction)
    ensures
        match r {
            BatchAction::Nothing => selected@.len() == 0,
            BatchAction::PasteAll(ids) => selected@.len() > 0 && paste && target_hwnd != 0 && ids@
                == selected@,
            BatchAction::CopyLast(id) => selected@.len() > 0 && !(paste && target_hwnd != 0) && id
                == selected@.last(),
        },
{
    if selected.len() == 0 {
        BatchAction::Nothing
    } else if paste && target_hwnd != 0 {
        BatchAction::PasteAll(selected)
    } else {
        BatchAction::CopyLast(selected[selected.len() - 1])
    }
}

// ---------------------------------------------------------------------------
// Settings
// ---------------------------------------------------------------------------

/// How an attempt to set the hotkey ended.
#[derive(Debug)]
pub enum HotkeyAttempt {
    /// There is no listener.
    NotReady,
    /// The listener could not be told.
    Refused(String),
    /// The hotkey could not be saved; why the listener could not be told of the
    /// previous one again, if it could not.
    NotSaved(String, Option<String>),
    /// The hotkey is set.
    Applied,
}

/// How an attempt to set the hotkey ended, its texts as characters.
pub enum AttemptView {
    NotReady,
    Refused(Seq<char>),
    NotSaved(Seq<char>, Option<Seq<char>>),
    Applied,
}

impl View for HotkeyAttempt {
    type V = AttemptView;

    open spec fn view(&self) -> AttemptView {
        match self {
            HotkeyAttempt::NotReady => AttemptView::NotReady,
            HotkeyAttempt::Refused(error) => AttemptView::Refused(error@),
            HotkeyAttempt::NotSaved(error, rollback) => AttemptView::NotSaved(
                error@,
                text::text_view(*rollback),
            ),
            HotkeyAttempt::Applied => AttemptView::Applied,
        }
    }
}

/// What a change of the hotkey waits for.
#[derive(Debug)]
pub enum HotkeyPhase {
    /// Whether there is a listener.
    Begun,
    /// Whether the listener could be told of the new hotkey.
    Telling,
    /// Whether the new hotkey could be saved.
    Saving,
    /// Whether the listener could be told of the previous hotkey again; why the
    /// new one could not be saved.
    RollingBack(String),
    /// Nothing.
    Ended,
}

/// What a change of the hotkey waits for, its texts as characters.
pub enum PhaseView {
    Begun,
    Telling,
    Saving,
    RollingBack(Seq<char>),
    Ended,
}

impl View for HotkeyPhase {
    type V = PhaseView;

    open spec fn view(&self) -> PhaseView {
        match self {
            HotkeyPhase::Begun => PhaseView::Begun,
            HotkeyPhase::Telling => PhaseView::Telling,
            HotkeyPhase::Saving => PhaseView::Saving,
            HotkeyPhase::RollingBack(error) => PhaseView::RollingBack(error@),
            HotkeyPhase::Ended => PhaseView::Ended,
        }
    }
}

/// A change of the hotkey: the wanted one, the previous one, and where the
/// change stands.
#[derive(Debug)]
pub struct HotkeyChange {
    pub wanted: String,
    pub previous: String,
    pub phase: HotkeyPhase,
}

/// A change of the hotkey, its texts as characters.
#[verifier::ext_equal]
pub struct ChangeView {
    pub wanted: Seq<char>,
    pub previous: Seq<char>,
    pub phase: PhaseView,
}

impl View for HotkeyChange {
    type V = ChangeView;

    open spec fn view(&self) -> ChangeView {
        ChangeView {
            wanted: self.wanted@,
            previous: self.previous@,
            phase: self.phase@,
        }
    }
}

/// What a change of the hotkey is told.
#[derive(Debug)]
pub enum HotkeyEvent {
    /// There is a listener, or there is none.
    Listener(bool),
    /// The listener was told of a hotkey, or why it could not be.
    Told(Option<String>),
    /// The hotkey was saved, or why it could not be.
    Saved(Option<String>),
}

/// What a change of the hotkey is told, its texts as characters.
pub enum HotkeyEventView {
    Listener(bool),
    Told(Option<Seq<char>>),
    Saved(Option<Seq<char>>),
}

impl View for HotkeyEvent {
    type V = HotkeyEventView;

    open spec fn view(&self) -> HotkeyEventView {
        match self {
            HotkeyEvent::Listener(ready) => HotkeyEventView::Listener(*ready),
            HotkeyEvent::Told(error) => HotkeyEventView::Told(text::text_view(*error)),
            HotkeyEvent::Saved(error) => HotkeyEventView::Saved(text::text_view(*error)),
        }
    }
}

/// What is to be done next to change the hotkey.
#[derive(Debug)]
pub enum HotkeyStep {
    /// Tell the listener of the hotkey.
    Tell(String),
    /// Save the hotkey.
    Save(String),
    /// The change has ended: show how.
    Report(HotkeyAttempt),
    /// Nothing: the answer was not asked for.
    Wait,
}

/// What is to be done next to change the hotkey, its texts as characters.
pub enum HotkeyStepView {
    Tell(Seq<char>),
    Save(Seq<char>),
    Report(AttemptView),
    Wait,
}

impl View for HotkeyStep {
    type V = HotkeyStepView;

    open spec fn view(&self) -> HotkeyStepView {
        match self {
            HotkeyStep::Tell(hotkey) => HotkeyStepView::Tell(hotkey@),
            HotkeyStep::Save(hotkey) => HotkeyStepView::Save(hotkey@),
            HotkeyStep::Report(attempt) => HotkeyStepView::Report(attempt@),
            HotkeyStep::Wait => HotkeyStepView::Wait,
        }
    }
}

impl ChangeView {
    /// What is to be done next, and where the change stands then. The listener
    /// is told first, then the hotkey is saved; where that fails, the listener
    /// is told of the previous hotkey again.
    pub open spec fn next(self, event: HotkeyEventView) -> (HotkeyStepView, ChangeView) {
        let ended = ChangeView { phase: PhaseView::Ended, ..self };
        match (self.phase, event) {
            (PhaseView::Begun, HotkeyEventView::Listener(true)) => (
                HotkeyStepView::Tell(self.wanted),
                ChangeView { phase: PhaseView::Telling, ..self },
            ),
            (PhaseView::Begun, HotkeyEventView::Listener(false)) => (
                HotkeyStepView::Report(AttemptView::NotReady),
                ended,
            ),
            (PhaseView::Telling, HotkeyEventView::Told(None)) => (
                HotkeyStepView::Save(self.wanted),
                ChangeView { phase: PhaseView::Saving, ..self },
            ),
            (PhaseView::Telling, HotkeyEventView::Told(Some(error))) => (
                HotkeyStepView::Report(AttemptView::Refused(error)),
                ended,
            ),
            (PhaseView::Saving, HotkeyEventView::Saved(None)) => (
                HotkeyStepView::Report(AttemptView::Applied),
                ended,
            ),
            (PhaseView::Saving, HotkeyEventView::Saved(Some(error))) => (
                HotkeyStepView::Tell(self.previous),
                ChangeView { phase: PhaseView::RollingBack(error), ..self },
            ),
            (PhaseView::RollingBack(error), HotkeyEventView::Told(rollback)) => (
                HotkeyStepView::Report(AttemptView::NotSaved(error, rollback)),
                ended,
            ),
            _ => (HotkeyStepView::Wait, self),
        }
    }

    /// A change that has begun.
    pub open spec fn begun(wanted: Seq<char>, previous: Seq<char>) -> ChangeView {
        ChangeView { wanted, previous, phase: PhaseView::Begun }
    }
}

impl HotkeyChange {
    /// Begins a change from the previous hotkey to the wanted one.
    pub fn new(wanted: String, previous: String) -> (r: Self)
        ensures
            r@ == ChangeView::begun(wanted@, previous@),
    {
        HotkeyChange { wanted, previous, phase: HotkeyPhase::Begun }
    }
}

/// What is to be done next to change the hotkey.
pub fn hotkey_step(change: &mut HotkeyChange, event: HotkeyEvent) -> (r: HotkeyStep)
    ensures
        (r@, final(change)@) == old(change)@.next(event@),
{
    match (&change.phase, event) {
        (HotkeyPhase::Begun, HotkeyEvent::Listener(ready)) => {
            if ready {
                change.phase = HotkeyPhase::Telling;
                HotkeyStep::Tell(change.wanted.clone())
            } else {
                change.phase = HotkeyPhase::Ended;
                HotkeyStep::Report(HotkeyAttempt::NotReady)
            }
        },
        (HotkeyPhase::Telling, HotkeyEvent::Told(error)) => match error {
            None => {
                change.phase = HotkeyPhase::Saving;
                HotkeyStep::Save(change.wanted.clone())
            },
            Some(error) => {
                change.phase = HotkeyPhase::Ended;
                HotkeyStep::Report(HotkeyAttempt::Refused(error))
            },
        },
        (HotkeyPhase::Saving, HotkeyEvent::Saved(error)) => match error {
            None => {
                change.phase = HotkeyPhase::Ended;
                HotkeyStep::Report(HotkeyAttempt::Applied)
            },
            Some(error) => {
                change.phase = HotkeyPhase::RollingBack(error);
                HotkeyStep::Tell(change.previous.clone())
            },
        },
        (HotkeyPhase::RollingBack(error), HotkeyEvent::Told(rollback)) => {
            let error = error.clone();
            change.phase = HotkeyPhase::Ended;
            HotkeyStep::Report(HotkeyAttempt::NotSaved(error, rollback))
        },
        _ => HotkeyStep::Wait,
    }
}

/// The steps of a change, given what it is told.
pub open spec fn hotkey_steps(change: ChangeView, events: Seq<HotkeyEventView>) -> Seq<
    HotkeyStepView,
>
    decreases events.len(),
{
    if events.len() == 0 {
        Seq::empty()
    } else {
        let (step, next) = change.next(events[0]);
        seq![step] + hotkey_steps(next, events.drop_first())
    }
}

/// Without a listener, and with one that refuses the hotkey, the change ends and
/// nothing is saved, whatever it is told then.
pub proof fn refused_hotkey_is_not_saved(
    wanted: Seq<char>,
    previous: Seq<char>,
    error: Seq<char>,
    later: Seq<HotkeyEventView>,
)
    ensures
        ({
            let change = ChangeView::begun(wanted, previous);
            let told = change.next(HotkeyEventView::Listener(true)).1;
            let no_listener = change.next(HotkeyEventView::Listener(false));
            let refused = told.next(HotkeyEventView::Told(Some(error)));
            &&& no_listener.0 == HotkeyStepView::Report(AttemptView::NotReady)
            &&& refused.0 == HotkeyStepView::Report(AttemptView::Refused(error))
            &&& forall|i: int|
                0 <= i < later.len() ==> #[trigger] hotkey_steps(no_listener.1, later)[i]
                    == HotkeyStepView::Wait && hotkey_steps(refused.1, later)[i]
                    == HotkeyStepView::Wait
        }),
{
    let change = ChangeView::begun(wanted, previous);
    let told = change.next(HotkeyEventView::Listener(true)).1;
    lemma_ended_waits(change.next(HotkeyEventView::Listener(false)).1, later);
    lemma_ended_waits(told.next(HotkeyEventView::Told(Some(error))).1, later);
}

proof fn lemma_ended_waits(change: ChangeView, events: Seq<HotkeyEventView>)
    requires
        change.phase == PhaseView::Ended,
    ensures
        hotkey_steps(change, events).len() == events.len(),
        forall|i: int|
            0 <= i < events.len() ==> #[trigger] hotkey_steps(change, events)[i]
                == HotkeyStepView::Wait,
    decreases events.len(),
{
    if events.len() > 0 {
        lemma_ended_waits(change, events.drop_first());
    }
}

/// A hotkey that the listener took is saved; where that fails, the listener is
/// told of the previous one again.
pub proof fn unsaved_hotkey_is_rolled_back(
    wanted: Seq<char>,
    previous: Seq<char>,
    error: Seq<char>,
    rollback: Option<Seq<char>>,
)
    ensures
        ({
            let change = ChangeView::begun(wanted, previous);
            let ready = HotkeyEventView::Listener(true);
            let told = HotkeyEventView::Told(None);
            &&& hotkey_steps(
                change,
                seq![
                    ready,
                    told,
                    HotkeyEventView::Saved(Some(error)),
                    HotkeyEventView::Told(rollback),
                ],
            ) == seq![
                HotkeyStepView::Tell(wanted),
                HotkeyStepView::Save(wanted),
                HotkeyStepView::Tell(previous),
                HotkeyStepView::Report(AttemptView::NotSaved(error, rollback)),
            ]
            &&& hotkey_steps(change, seq![ready, told, HotkeyEventView::Saved(None)]) == seq![
                HotkeyStepView::Tell(wanted),
                HotkeyStepView::Save(wanted),
                HotkeyStepView::Report(AttemptView::Applied),
            ]
        }),
{
    let change = ChangeView::begun(wanted, previous);
    let ready = HotkeyEventView::Listener(true);
    let told = HotkeyEventView::Told(None);
    let failed = HotkeyEventView::Saved(Some(error));
    let again = HotkeyEventView::Told(rollback);
    let saved = HotkeyEventView::Saved(None);
    reveal_with_fuel(hotkey_steps, 5);
    let a = seq![ready, told, failed, again];
    assert(a.drop_first() =~= seq![told, failed, again]);
    assert(seq![told, failed, again].drop_first() =~= seq![failed, again]);
    assert(seq![failed, again].drop_first() =~= seq![again]);
    assert(seq![again].drop_first() =~= Seq::<HotkeyEventView>::empty());
    assert(hotkey_steps(change, a) =~= seq![
        HotkeyStepView::Tell(wanted),
        HotkeyStepView::Save(wanted),
        HotkeyStepView::Tell(previous),
        HotkeyStepView::Report(AttemptView::NotSaved(error, rollback)),
    ]);
    let b = seq![ready, told, saved];
    assert(b.drop_first() =~= seq![told, saved]);
    assert(seq![told, saved].drop_first() =~= seq![saved]);
    assert(seq![saved].drop_first() =~= Seq::<HotkeyEventView>::empty());
    assert(hotkey_steps(change, b) =~= seq![
        HotkeyStepView::Tell(wanted),
        HotkeyStepView::Save(wanted),
        HotkeyStepView::Report(AttemptView::Applied),
    ]);
}

/// What is to be shown after an attempt to set the hotkey: the hotkey that is
/// still in force, if it is not the new one, and why.
pub open spec fn hotkey_report(attempt: AttemptView, previous: Seq<char>) -> Option<
    (Seq<char>, Seq<char>),
> {
    match attempt {
        AttemptView::NotReady => Some((previous, "Native listener is not ready"@)),
        AttemptView::Refused(error) => Some((previous, "Hotkey update failed: "@ + error)),
        AttemptView::NotSaved(error, None) => Some(
            (previous, "Hotkey save failed; restored previous: "@ + error),
        ),
        AttemptView::NotSaved(error, Some(rollback)) => Some(
            (previous, "Hotkey save failed: "@ + error + "; rollback failed: "@ + rollback),
        ),
        AttemptView::Applied => None,
    }
}

/// As long as the hotkey was not set the previous one is shown, with why, and once
/// it was, nothing is: whatever went wrong is told to its end.
pub proof fn failed_hotkey_shows_the_previous(attempt: AttemptView, previous: Seq<char>)
    ensures
        hotkey_report(attempt, previous) is None <==> attempt == AttemptView::Applied,
        match (attempt, hotkey_report(attempt, previous)) {
            (AttemptView::Applied, _) => true,
            (AttemptView::NotReady, Some((hotkey, status))) => hotkey == previous && status
                == "Native listener is not ready"@,
            (AttemptView::Refused(error), Some((hotkey, status))) => hotkey == previous
                && text::after_prefix(status, "Hotkey update failed: "@) == Some(error),
            (AttemptView::NotSaved(error, rollback), Some((hotkey, status))) => {
                &&& hotkey == previous
                &&& match rollback {
                    None => text::after_prefix(status, "Hotkey save failed; restored previous: "@)
                        == Some(error),
                    Some(rollback) => text::after_prefix(status, "Hotkey save failed: "@ + error)
                        == Some("; rollback failed: "@ + rollback),
                }
            },
            _ => false,
        },
{
    match attempt {
        AttemptView::Refused(error) => {
            let first = "Hotkey update failed: "@;
            text::prefix_and_rest_make_the_text(first + error, first, error);
        },
        AttemptView::NotSaved(error, None) => {
            let first = "Hotkey save failed; restored previous: "@;
            text::prefix_and_rest_make_the_text(first + error, first, error);
        },
        AttemptView::NotSaved(error, Some(rollback)) => {
            let first = "Hotkey save failed: "@ + error;
            let last = "; rollback failed: "@ + rollback;
            assert(first + "; rollback failed: "@ + rollback =~= first + last);
            text::prefix_and_rest_make_the_text(first + last, first, last);
        },
        _ => {},
    }
}

/// Two texts that may be missing, as characters.
pub open spec fn pair_view(pair: Option<(String, String)>) -> Option<(Seq<char>, Seq<char>)> {
    match pair {
        Some((a, b)) => Some((a@, b@)),
        None => None,
    }
}

/// What is to be shown after an attempt to set the hotkey.
pub fn apply_hotkey(attempt: &HotkeyAttempt, previous: &str) -> (r: Option<(String, String)>)
    ensures
        pair_view(r) == hotkey_report(attempt@, previous@),
{
    let status = match attempt {
        HotkeyAttempt::NotReady => "Native listener is not ready".to_owned(),
        HotkeyAttempt::Refused(error) => {
            let mut out = "Hotkey update failed: ".to_owned();
            out.append(error.as_str());
            out
        },
        HotkeyAttempt::NotSaved(error, None) => {
            let mut out = "Hotkey save failed; restored previous: ".to_owned();
            out.append(error.as_str());
            out
        },
        HotkeyAttempt::NotSaved(error, Some(rollback)) => {
            let mut out = "Hotkey save failed: ".to_owned();
            out.append(error.as_str());
            out.append("; rollback failed: ");
            out.append(rollback.as_str());
            out
        },
        HotkeyAttempt::Applied => return None,
    };
    Some((previous.to_owned(), status))
}

/// The hotkey that was typed, if it is not blank.
pub fn typed_hotkey(hotkey: &str) -> (r: Option<String>)
    ensures
        match r {
            Some(typed) => typed@ == text::trimmed(hotkey@) && typed@.len() > 0,
            None => text::trimmed(hotkey@).len() == 0,
        },
{
    let typed = trim(hotkey);
    if typed.as_str().is_empty() {
        None
    } else {
        Some(typed)
    }
}

/// Whether the program is registered to start with the system, and what went
/// wrong.
#[derive(Debug)]
pub struct StartupSync {
    pub enabled: bool,
    pub error: Option<String>,
}

/// Whether the program is to start with the system, and whether that is to be
/// saved, given what the settings say or why they could not be read: it is to
/// where they say nothing.
pub fn startup_wish(preference: &Result<Option<bool>, String>) -> (r: (bool, bool))
    ensures
        r.0 == (match preference {
            Ok(Some(wish)) => *wish,
            _ => true,
        }),
        r.1 == (match preference {
            Ok(None) => true,
            _ => false,
        }),
{
    match preference {
        Ok(Some(wish)) => (*wish, false),
        Ok(None) => (true, true),
        Err(_) => (true, false),
    }
}

/// What went wrong with the wish to start with the system: it could not be read
/// or not be saved.
pub open spec fn wish_error(
    preference: Result<Option<bool>, String>,
    save_error: Option<String>,
) -> Option<Seq<char>> {
    match (preference, save_error) {
        (Err(error), _) => Some("Startup preference load failed: "@ + error@),
        (Ok(None), Some(error)) => Some("Startup preference save failed: "@ + error@),
        _ => None,
    }
}

/// What went wrong on the whole: with the wish, and with the registration.
pub open spec fn sync_error(wish: Option<Seq<char>>, registration: Option<Seq<char>>) -> Option<
    Seq<char>,
> {
    match (wish, registration) {
        (wish, None) => wish,
        (None, Some(error)) => Some("Startup sync failed: "@ + error),
        (Some(wish), Some(error)) => Some(wish + "; Startup sync failed: "@ + error),
    }
}

/// Something is told to be wrong just where the wish could not be read, where a
/// first wish could not be saved, or where the registration failed; and each of
/// these is told, the one with the wish first.
pub proof fn what_went_wrong_is_told(
    preference: Result<Option<bool>, String>,
    save_error: Option<String>,
    registration: Option<Seq<char>>,
)
    ensures
        ({
            let wish = wish_error(preference, save_error);
            let whole = sync_error(wish, registration);
            &&& wish is Some <==> preference is Err || preference == Ok::<Option<bool>, String>(
                None,
            ) && save_error is Some
            &&& whole is None <==> wish is None && registration is None
            &&& registration is None ==> whole == wish
            &&& registration is Some && wish is None ==> text::after_prefix(
                whole->Some_0,
                "Startup sync failed: "@,
            ) == registration
            &&& registration is Some && wish is Some ==> whole->Some_0 == wish->Some_0 + "; "@
                + sync_error(None, registration)->Some_0
            &&& preference is Err ==> text::after_prefix(
                wish->Some_0,
                "Startup preference load failed: "@,
            ) == Some(preference->Err_0@)
            &&& wish is Some && preference is Ok ==> text::after_prefix(
                wish->Some_0,
                "Startup preference save failed: "@,
            ) == Some(save_error->Some_0@)
        }),
{
    let wish = wish_error(preference, save_error);
    let whole = sync_error(wish, registration);
    if wish is Some {
        if preference is Err {
            text::prefix_and_rest_make_the_text(
                wish->Some_0,
                "Startup preference load failed: "@,
                preference->Err_0@,
            );
        } else {
            text::prefix_and_rest_make_the_text(
                wish->Some_0,
                "Startup preference save failed: "@,
                save_error->Some_0@,
            );
        }
    }
    if registration is Some {
        reveal_strlit("; ");
        reveal_strlit("; Startup sync failed: ");
        reveal_strlit("Startup sync failed: ");
        assert("; Startup sync failed: "@ =~= "; "@ + "Startup sync failed: "@);
        if wish is Some {
            assert(whole->Some_0 =~= wish->Some_0 + "; "@ + sync_error(
                None,
                registration,
            )->Some_0);
        } else {
            text::prefix_and_rest_make_the_text(
                whole->Some_0,
                "Startup sync failed: "@,
                registration->Some_0,
            );
        }
    }
}

/// Sums up the registration to start with the system: given what the settings
/// say, why the wish could not be saved, why the registration failed, and
/// whether the program is registered now, if that can be told.
pub fn sync_startup_registration(
    preference: &Result<Option<bool>, String>,
    save_error: &Option<String>,
    registration_error: &Option<String>,
    registered: Option<bool>,
) -> (r: StartupSync)
    ensures
        text::text_view(r.error) == sync_error(
            wish_error(*preference, *save_error),
            text::text_view(*registration_error),
        ),
        r.enabled == (match registered {
            Some(registered) => registered,
            None => (match preference {
                Ok(Some(wish)) => *wish,
                _ => true,
            }) && r.error is None,
        }),
{
    let (wish, _) = startup_wish(preference);
    let mut error: Option<String> = match preference {
        Err(load_error) => {
            let mut out = "Startup preference load failed: ".to_owned();
            out.append(load_error.as_str());
            Some(out)
        },
        Ok(None) => match save_error {
            Some(save_error) => {
                let mut out = "Startup preference save failed: ".to_owned();
                out.append(save_error.as_str());
                Some(out)
            },
            None => None,
        },
        Ok(Some(_)) => None,
    };
    assert(text::text_view(error) == wish_error(*preference, *save_error));
    match registration_error {
        Some(failed) => {
            error = match error {
                Some(existing) => {
                    let mut out = existing;
                    out.append("; Startup sync failed: ");
                    out.append(failed.as_str());
                    Some(out)
                },
                None => {
                    let mut out = "Startup sync failed: ".to_owned();
                    out.append(failed.as_str());
                    Some(out)
                },
            };
        },
        None => {},
    }
    let enabled = match registered {
        Some(registered) => registered,
        None => wish && error.is_none(),
    };
    StartupSync { enabled, error }
}

/// What comes after the wish to start with the system was to be saved.
#[derive(Debug, Clone, Copy, PartialEq, Eq, Structural)]
pub enum StartupStep {
    /// Register the program to start with the system, or take that back.
    Register(bool),
    /// Leave the registration as it is.
    GiveUp,
}

/// What comes after the wish to start with the system was to be saved: the
/// registration follows only a wish that was saved.
pub fn startup_step(enabled: bool, save_error: Option<&str>) -> (r: StartupStep)
    ensures
        r == (if save_error is None {
            StartupStep::Register(enabled)
        } else {
            StartupStep::GiveUp
        }),
{
    match save_error {
        None => StartupStep::Register(enabled),
        Some(_) => StartupStep::GiveUp,
    }
}

/// What is to be done after the switch to start with the system was flipped.
#[derive(Debug)]
pub struct StartupChange {
    /// The wish is to be saved as it was before.
    pub restore_preference: bool,
    /// The switch is to be shown as it was before.
    pub flip_back: bool,
    /// What is shown.
    pub status: String,
}

/// What is to be done after the switch to start with the system was flipped,
/// given why the wish could not be saved, or else why the registration failed.
pub fn startup_setting_changed(
    enabled: bool,
    save_error: Option<&str>,
    registration_error: Option<&str>,
) -> (r: StartupChange)
    ensures
        r.restore_preference == (save_error is None && registration_error is Some),
        r.flip_back == (save_error is Some || registration_error is Some),
        r.status@ == (match (save_error, registration_error) {
            (Some(error), _) => "Startup preference failed: "@ + error@,
            (None, Some(error)) => "Startup setting failed: "@ + error@,
            (None, None) => if enabled {
                "Starts with Windows"@
            } else {
                "Startup disabled"@
            },
        }),
{
    match save_error {
        Some(error) => {
            let mut status = "Startup preference failed: ".to_owned();
            status.append(error);
            StartupChange { restore_preference: false, flip_back: true, status }
        },
        None => match registration_error {
            Some(error) => {
                let mut status = "Startup setting failed: ".to_owned();
                status.append(error);
                StartupChange { restore_preference: true, flip_back: true, status }
            },
            None => {
                let status = if enabled {
                    "Starts with Windows".to_owned()
                } else {
                    "Startup disabled".to_owned()
                };
                StartupChange { restore_preference: false, flip_back: false, status }
            },
        },
    }
}

/// One of the arguments asks for a start in the background.
pub open spec fn asks_background(args: Seq<Seq<char>>) -> bool {
    exists|i: int|
        0 <= i < args.len() && (#[trigger] args[i] == "--background"@ || args[i] == "--hidden"@)
}

/// One more argument asks for a start in the background just where it is one of
/// the two that do, and no argument takes that back.
pub proof fn background_is_asked_for_by_name(args: Seq<Seq<char>>, arg: Seq<char>)
    ensures
        asks_background(args.push(arg)) <==> asks_background(args) || arg == "--background"@ || arg
            == "--hidden"@,
        !asks_background(Seq::empty()),
{
    let more = args.push(arg);
    if asks_background(args) {
        let i = choose|i: int|
            0 <= i < args.len() && (#[trigger] args[i] == "--background"@ || args[i]
                == "--hidden"@);
        assert(more[i] == args[i]);
    }
    assert(more[args.len() as int] == arg);
}

/// Whether the picker stays hidden at the start: not at the first start, and
/// only where an argument asks for it.
pub fn should_start_hidden(first_run: bool, args: &Vec<String>) -> (r: bool)
    ensures
        r == (!first_run && asks_background(text::views(args@))),
{
    if first_run {
        return false;
    }
    let ghost all = text::views(args@);
    let mut i: usize = 0;
    while i < args.len()
        invariant
            !first_run,
            i <= args@.len(),
            all == text::views(args@),
            forall|k: int|
                0 <= k < i ==> #[trigger] all[k] != "--background"@ && all[k] != "--hidden"@,
        decreases args@.len() - i,
    {
        assert(all[i as int] == args@[i as int]@);
        if same_text(args[i].as_str(), "--background") || same_text(args[i].as_str(), "--hidden") {
            return true;
        }
        i = i + 1;
    }
    false
}

/// A theme.
#[derive(Debug, Clone, Copy, PartialEq, Eq, Structural)]
pub enum Theme {
    Dark,
    Light,
    System,
}

/// The theme that a text names: that of the system where it names none.
pub open spec fn theme_named(mode: Seq<char>) -> Theme {
    let name = text::lowered(text::trimmed(mode));
    if name == "dark"@ {
        Theme::Dark
    } else if name == "light"@ {
        Theme::Light
    } else {
        Theme::System
    }
}

impl Theme {
    /// The name of the theme.
    pub open spec fn label(self) -> Seq<char> {
        match self {
            Theme::Dark => "dark"@,
            Theme::Light => "light"@,
            Theme::System => "system"@,
        }
    }

    /// The name of the theme.
    pub fn name(self) -> (r: &'static str)
        ensures
            r@ == self.label(),
    {
        match self {
            Theme::Dark => "dark",
            Theme::Light => "light",
            Theme::System => "system",
        }
    }

    /// Whether the picker is dark, given whether the system is, if that can be
    /// told.
    pub fn is_dark(self, system_prefers_dark: Option<bool>) -> (r: bool)
        ensures
            r == (match self {
                Theme::Dark => true,
                Theme::Light => false,
                Theme::System => system_prefers_dark == Some(true),
            }),
    {
        match self {
            Theme::Dark => true,
            Theme::Light => false,
            Theme::System => match system_prefers_dark {
                Some(dark) => dark,
                None => false,
            },
        }
    }

    /// What is shown after the theme was set.
    pub fn status(self) -> (r: String)
        ensures
            r@ == "Theme: "@ + self.label(),
    {
        let mut out = "Theme: ".to_owned();
        out.append(self.name());
        out
    }
}

/// The theme that a text names.
pub fn normalized_theme_mode(mode: &str) -> (r: Theme)
    ensures
        r == theme_named(mode@),
{
    let name = lower_chars(&chars_of(trim(mode).as_str()));
    if is_text(&name, "dark") {
        Theme::Dark
    } else if is_text(&name, "light") {
        Theme::Light
    } else {
        Theme::System
    }
}

/// The name of a theme names it.
pub proof fn theme_reads_back(theme: Theme)
    ensures
        theme_named(theme.label()) == theme,
{
    reveal_strlit("dark");
    reveal_strlit("light");
    reveal_strlit("system");
    reveal_with_fuel(text::strip_front, 2);
    reveal_with_fuel(text::strip_back, 2);
    let name = theme.label();
    assert(text::trimmed(name) == name);
    assert(text::lowered(name) =~= name);
    assert("dark"@.len() != "light"@.len());
    assert("dark"@.len() != "system"@.len());
    assert("light"@.len() != "system"@.len());
}

/// A character is the given letter, in either case.
pub open spec fn is_letter(c: char, lower: char, upper: char) -> bool {
    c == lower || c == upper
}

/// A text names a theme just where it is the name of one, in either case and with
/// white space around it; any other text leaves the theme to the system.
pub proof fn theme_is_named_in_either_case(mode: Seq<char>)
    ensures
        ({
            let name = text::trimmed(mode);
            &&& theme_named(mode) == Theme::Dark <==> {
                &&& name.len() == 4
                &&& is_letter(name[0], 'd', 'D') && is_letter(name[1], 'a', 'A')
                &&& is_letter(name[2], 'r', 'R') && is_letter(name[3], 'k', 'K')
            }
            &&& theme_named(mode) == Theme::Light <==> {
                &&& name.len() == 5
                &&& is_letter(name[0], 'l', 'L') && is_letter(name[1], 'i', 'I')
                &&& is_letter(name[2], 'g', 'G') && is_letter(name[3], 'h', 'H')
                &&& is_letter(name[4], 't', 'T')
            }
        }),
{
    let name = text::trimmed(mode);
    let low = text::lowered(name);
    reveal_strlit("dark");
    reveal_strlit("light");
    assert(low.len() == name.len());
    assert(forall|i: int| 0 <= i < name.len() ==> low[i] == text::lower_char(#[trigger] name[i]));
    assert(low == "dark"@ <==> low =~= "dark"@);
    assert(low == "light"@ <==> low =~= "light"@);
}

/// What is shown after the limit was set.
pub fn retention_status(value: i64) -> (r: String)
    ensures
        r@ == "Keeping "@ + number::signed_decimal(settings::clamped_limit(value as int))
            + " clips"@,
{
    let mut out = "Keeping ".to_owned();
    push_signed(&mut out, clamp_limit(value));
    out.append(" clips");
    out
}

/// What is shown after it was set whether selected clips are pasted.
pub fn paste_setting_status(enabled: bool) -> (r: String)
    ensures
        r@ == (if enabled {
            "Auto-paste enabled"@
        } else {
            "Copy only"@
        }),
{
    if enabled {
        "Auto-paste enabled".to_owned()
    } else {
        "Copy only".to_owned()
    }
}

/// What the picker shows at the start, besides the clips.
#[derive(Debug)]
pub struct InitialUi {
    pub retention_limit: i32,
    pub hotkey_text: String,
    pub paste_on_select: bool,
    pub start_with_windows: bool,
    pub theme: Theme,
    pub onboarding_visible: bool,
    pub status_text: String,
}

/// What is said at the start: what went wrong with the registration, or how to
/// begin, or where the history is kept.
pub open spec fn initial_status(path: Seq<char>, first_run: bool, error: Option<Seq<char>>) -> Seq<
    char,
> {
    match error {
        Some(error) => error,
        None => if first_run {
            "Startup is on. Set a hotkey, then Hide keeps it in the tray."@
        } else {
            "History: "@ + path
        },
    }
}

/// What went wrong is said before anything else; where nothing did, a first start is
/// told how to begin, and any other where the history is.
pub proof fn start_is_told_what_went_wrong(
    path: Seq<char>,
    first_run: bool,
    error: Option<Seq<char>>,
)
    ensures
        error is Some ==> initial_status(path, first_run, error) == error->Some_0,
        error is None && !first_run ==> text::after_prefix(
            initial_status(path, first_run, error),
            "History: "@,
        ) == Some(path),
        error is None && first_run ==> initial_status(path, first_run, error)
            == "Startup is on. Set a hotkey, then Hide keeps it in the tray."@,
{
    text::prefix_and_rest_make_the_text(
        initial_status(path, first_run, error),
        "History: "@,
        path,
    );
}

/// What the picker shows at the start, besides the clips.
pub fn initialize_ui(store: &Store, first_run: bool, sync: &StartupSync) -> (r: InitialUi)
    requires
        store.wf(),
    ensures
        r.retention_limit == settings::retention(store@.settings),
        r.hotkey_text@ == settings::hotkey_text(store@.settings),
        r.paste_on_select == settings::pastes_on_select(store@.settings),
        r.start_with_windows == sync.enabled,
        r.theme == theme_named(settings::theme_text(store@.settings)),
        r.onboarding_visible == first_run,
        r.status_text@ == initial_status(
            store@.path,
            first_run,
            text::text_view(sync.error),
        ),
{
    let status_text = match &sync.error {
        Some(error) => error.clone(),
        None => if first_run {
            "Startup is on. Set a hotkey, then Hide keeps it in the tray.".to_owned()
        } else {
            let mut out = "History: ".to_owned();
            out.append(store.path());
            out
        },
    };
    InitialUi {
        retention_limit: store.retention_limit() as i32,
        hotkey_text: store.hotkey(),
        paste_on_select: store.paste_on_select(),
        start_with_windows: sync.enabled,
        theme: normalized_theme_mode(store.theme_mode().as_str()),
        onboarding_visible: first_run,
        status_text,
    }
}

} // verus!
