//! What the picker does when it is used: what it shows then, what becomes of
//! the history and the settings, and what is left to do outside.

use crate::number;
use crate::picker;
use crate::picker::{clamp_selection, clip_id_at_index, refresh_ui, PageView, PickerPage};
use crate::recorder;
use crate::recorder::recorded_hotkey_spec;
use crate::session;
use crate::session::{
    after_copy, apply_hotkey, normalized_theme_mode, paste_setting_status, retention_status,
    startup_setting_changed, typed_hotkey, AfterCopy, AppState, HotkeyAttempt, InstallStart, Theme,
    UpdateReport,
};
use crate::settings;
use crate::store;
use crate::store::{Store, StoreView};
use crate::text;
use crate::updater::UpdateInfo;
use vstd::prelude::*;

verus! {

/// What the picker shows.
#[derive(Debug)]
pub struct Ui {
    pub query: String,
    pub page: PickerPage,
    pub status_text: String,
    pub settings_visible: bool,
    pub quit_confirm_visible: bool,
    pub hotkey_text: String,
    pub start_with_windows: bool,
    pub theme: Theme,
    pub update_available: bool,
    pub update_version: String,
    pub update_status: String,
}

/// What the picker shows, its texts and bytes as sequences.
#[verifier::ext_equal]
pub struct UiView {
    pub query: Seq<char>,
    pub page: PageView,
    pub status_text: Seq<char>,
    pub settings_visible: bool,
    pub quit_confirm_visible: bool,
    pub hotkey_text: Seq<char>,
    pub start_with_windows: bool,
    pub theme: Theme,
    pub update_available: bool,
    pub update_version: Seq<char>,
    pub update_status: Seq<char>,
}

impl View for Ui {
    type V = UiView;

    open spec fn view(&self) -> UiView {
        UiView {
            query: self.query@,
            page: self.page@,
            status_text: self.status_text@,
            settings_visible: self.settings_visible,
            quit_confirm_visible: self.quit_confirm_visible,
            hotkey_text: self.hotkey_text@,
            start_with_windows: self.start_with_windows,
            theme: self.theme,
            update_available: self.update_available,
            update_version: self.update_version@,
            update_status: self.update_status@,
        }
    }
}

/// Something that failed outside, as it is shown.
#[derive(Debug, Clone, Copy, PartialEq, Eq, Structural)]
pub enum Failure {
    Search,
    Selection,
    Delete,
    Pin,
    Clear,
    Retention,
    Refresh,
    PasteSetting,
    ThemeSetting,
    Load,
    Copy,
    Usage,
    Capture,
    FirstRun,
    Paste,
}

impl Failure {
    /// What stands before the error.
    pub open spec fn label(self) -> Seq<char> {
        match self {
            Failure::Search => "Search failed: "@,
            Failure::Selection => "Selection failed: "@,
            Failure::Delete => "Delete failed: "@,
            Failure::Pin => "Pin failed: "@,
            Failure::Clear => "Clear failed: "@,
            Failure::Retention => "Retention failed: "@,
            Failure::Refresh => "Refresh failed: "@,
            Failure::PasteSetting => "Paste setting failed: "@,
            Failure::ThemeSetting => "Theme setting failed: "@,
            Failure::Load => "Load failed: "@,
            Failure::Copy => "Copy failed: "@,
            Failure::Usage => "Usage update failed: "@,
            Failure::Capture => "Clipboard capture failed: "@,
            Failure::FirstRun => "First-run save failed: "@,
            Failure::Paste => "Paste skipped: "@,
        }
    }

    /// What stands before the error.
    pub fn prefix(self) -> (r: &'static str)
        ensures
            r@ == self.label(),
    {
        match self {
            Failure::Search => "Search failed: ",
            Failure::Selection => "Selection failed: ",
            Failure::Delete => "Delete failed: ",
            Failure::Pin => "Pin failed: ",
            Failure::Clear => "Clear failed: ",
            Failure::Retention => "Retention failed: ",
            Failure::Refresh => "Refresh failed: ",
            Failure::PasteSetting => "Paste setting failed: ",
            Failure::ThemeSetting => "Theme setting failed: ",
            Failure::Load => "Load failed: ",
            Failure::Copy => "Copy failed: ",
            Failure::Usage => "Usage update failed: ",
            Failure::Capture => "Clipboard capture failed: ",
            Failure::FirstRun => "First-run save failed: ",
            Failure::Paste => "Paste skipped: ",
        }
    }
}

/// The message of a store that cannot answer.
pub open spec fn search_error() -> Seq<char> {
    "LIKE or GLOB pattern too complex"@
}

impl UiView {
    /// With another status.
    pub open spec fn saying(self, status: Seq<char>) -> UiView {
        UiView { status_text: status, ..self }
    }

    /// With the clips of the store for the query, or, where the query cannot be
    /// answered, with that as the status.
    pub open spec fn refreshed(self, store: StoreView, now: i64, failure: Failure) -> UiView {
        if picker::page_fails(store, self.query) {
            self.saying(failure.label() + search_error())
        } else {
            UiView {
                page: picker::page(store, self.query, self.page.selected_index, now),
                ..self
            }
        }
    }

    /// With another selected row.
    pub open spec fn selecting(self, index: i32) -> UiView {
        UiView { page: PageView { selected_index: index, ..self.page }, ..self }
    }

    /// With the clips of the store and a status, or with the status that the
    /// query cannot be answered.
    pub open spec fn refreshed_saying(
        self,
        store: StoreView,
        now: i64,
        status: Seq<char>,
    ) -> UiView {
        let shown = self.refreshed(store, now, Failure::Refresh);
        if picker::page_fails(store, self.query) {
            shown
        } else {
            shown.saying(status)
        }
    }

    /// With nothing open before the clips.
    pub open spec fn closed_panels(self) -> UiView {
        UiView { settings_visible: false, quit_confirm_visible: false, ..self }
    }

    /// With what is new of an update.
    pub open spec fn reporting(self, report: session::ReportView) -> UiView {
        UiView {
            update_available: match report.available {
                Some(available) => available,
                None => self.update_available,
            },
            update_version: match report.version {
                Some(version) => version,
                None => self.update_version,
            },
            update_status: report.status,
            ..self
        }
    }
}

impl Ui {
    /// Shows a status.
    pub fn set_status(&mut self, message: &str)
        ensures
            final(self)@ == old(self)@.saying(message@),
    {
        self.status_text = message.to_owned();
    }

    /// Shows that something failed outside.
    pub fn fail(&mut self, failure: Failure, error: &str)
        ensures
            final(self)@ == old(self)@.saying(failure.label() + error@),
    {
        let mut status = failure.prefix().to_owned();
        status.append(error);
        self.status_text = status;
    }

    /// Shows the clips of the store, and returns whether it could.
    fn refresh(&mut self, store: &Store, now: i64, failure: Failure) -> (r: bool)
        requires
            store.wf(),
        ensures
            r == !picker::page_fails(store@, old(self)@.query),
            final(self)@ == old(self)@.refreshed(store@, now, failure),
    {
        match refresh_ui(store, self.query.as_str(), self.page.selected_index, now) {
            Ok(page) => {
                self.page = page;
                true
            },
            Err(error) => {
                self.fail(failure, error.message().as_str());
                false
            },
        }
    }

    /// Shows the clips of the store.
    pub fn show_clips(&mut self, store: &Store, now: i64)
        requires
            store.wf(),
        ensures
            final(self)@ == old(self)@.refreshed(store@, now, Failure::Refresh),
    {
        self.refresh(store, now, Failure::Refresh);
    }

    /// Shows the clips of the store and then a status.
    fn refresh_saying(&mut self, store: &Store, now: i64, status: &str)
        requires
            store.wf(),
        ensures
            final(self)@ == old(self)@.refreshed_saying(store@, now, status@),
    {
        if self.refresh(store, now, Failure::Refresh) {
            self.set_status(status);
        }
    }

    /// The window is asked to close: it stays, and asks whether to quit.
    pub fn close_requested(&mut self)
        ensures
            final(self)@ == (UiView {
                settings_visible: false,
                quit_confirm_visible: true,
                ..old(self)@
            }),
    {
        self.settings_visible = false;
        self.quit_confirm_visible = true;
    }

    /// The picker is to be hidden.
    pub fn hide_requested(&mut self)
        ensures
            final(self)@ == old(self)@.closed_panels(),
    {
        self.settings_visible = false;
        self.quit_confirm_visible = false;
    }

    /// The picker is shown anew: with all clips, the first one selected.
    pub fn show_palette(&mut self, store: &Store, state: &mut AppState, now: i64)
        requires
            store.wf(),
        ensures
            *final(state) == (AppState {
                show_grace_ticks: session::SHOW_GRACE_TICKS,
                ..*old(state)
            }),
            final(self)@ == (UiView {
                query: Seq::empty(),
                ..old(self)@.closed_panels().selecting(0)
            }).refreshed(store@, now, Failure::Refresh),
    {
        state.show_palette();
        self.settings_visible = false;
        self.quit_confirm_visible = false;
        self.query = String::new();
        self.page.selected_index = 0;
        assert(self.query@ =~= Seq::<char>::empty());
        assert(self@ =~= (UiView {
            query: Seq::empty(),
            ..old(self)@.closed_panels().selecting(0)
        }));
        self.refresh(store, now, Failure::Refresh);
    }

    /// Another text is searched.
    pub fn search_changed(&mut self, query: &str, store: &Store, now: i64)
        requires
            store.wf(),
        ensures
            final(self)@ == (UiView { query: query@, ..old(self)@ }).selecting(0).saying(
                "Ready"@,
            ).refreshed(store@, now, Failure::Search),
    {
        self.query = query.to_owned();
        self.page.selected_index = 0;
        self.set_status("Ready");
        self.refresh(store, now, Failure::Search);
    }

    /// Another row is to be selected.
    pub fn move_selection(&mut self, store: &Store, index: i32)
        requires
            store.wf(),
        ensures
            final(self)@ == old(self)@.selecting(
                if picker::page_fails(store@, old(self)@.query) {
                    0
                } else {
                    picker::selected(store@, old(self)@.query, index)
                },
            ),
    {
        self.page.selected_index = clamp_selection(store, self.query.as_str(), index);
    }

    /// The id of the clip at a row, which is selected; or else the status says
    /// why there is none.
    pub fn clip_at(&mut self, store: &Store, index: i32, failure: Failure) -> (r: Option<i64>)
        requires
            store.wf(),
        ensures
            ({
                let query = old(self)@.query;
                if picker::page_fails(store@, query) {
                    r is None && final(self)@ == old(self)@.saying(failure.label() + search_error())
                } else {
                    let shown = old(self)@.selecting(picker::selected(store@, query, index));
                    &&& r == picker::selected_id(store@, query, index)
                    &&& final(self)@ == (if r is Some {
                        shown
                    } else {
                        shown.saying("No clip selected"@)
                    })
                }
            }),
    {
        match clip_id_at_index(store, self.query.as_str(), index) {
            Ok((selected_index, id)) => {
                self.page.selected_index = selected_index;
                if id.is_none() {
                    self.set_status("No clip selected");
                }
                id
            },
            Err(error) => {
                self.fail(failure, error.message().as_str());
                None
            },
        }
    }

    /// The clip of the selected row is to be deleted.
    pub fn delete_selected(&mut self, store: &mut Store, now: i64) -> (r: Option<i64>)
        requires
            old(store).wf(),
        ensures
            final(store).wf(),
            ({
                let index = old(self)@.page.selected_index;
                let query = old(self)@.query;
                if picker::page_fails(old(store)@, query) {
                    &&& r is None
                    &&& final(store)@ == old(store)@
                    &&& final(self)@ == old(self)@.saying(Failure::Delete.label() + search_error())
                } else {
                    let shown = old(self)@.selecting(
                        picker::selected(old(store)@, query, index),
                    );
                    &&& r == picker::selected_id(old(store)@, query, index)
                    &&& match r {
                        Some(id) => {
                            &&& final(store)@ == (StoreView {
                                clips: old(store)@.clips.remove(id),
                                ..old(store)@
                            })
                            &&& final(self)@ == shown.refreshed(
                                final(store)@,
                                now,
                                Failure::Refresh,
                            )
                        },
                        None => final(store)@ == old(store)@ && final(self)@ == shown.saying(
                            "No clip selected"@,
                        ),
                    }
                }
            }),
    {
        let index = self.page.selected_index;
        let id = self.clip_at(store, index, Failure::Delete);
        match id {
            Some(id) => {
                self.delete_clip(store, id, now);
            },
            None => {},
        }
        id
    }

    /// A clip is to be deleted.
    pub fn delete_clip(&mut self, store: &mut Store, id: i64, now: i64)
        requires
            old(store).wf(),
        ensures
            final(store).wf(),
            final(store)@ == (StoreView { clips: old(store)@.clips.remove(id), ..old(store)@ }),
            final(self)@ == old(self)@.refreshed(final(store)@, now, Failure::Refresh),
    {
        store.delete(id);
        self.refresh(store, now, Failure::Refresh);
    }

    /// The clip of the selected row is to be pinned or unpinned.
    pub fn toggle_selected_pin(&mut self, store: &mut Store, now: i64) -> (r: Option<i64>)
        requires
            old(store).wf(),
        ensures
            final(store).wf(),
            ({
                let index = old(self)@.page.selected_index;
                let query = old(self)@.query;
                if picker::page_fails(old(store)@, query) {
                    &&& r is None
                    &&& final(store)@ == old(store)@
                    &&& final(self)@ == old(self)@.saying(Failure::Pin.label() + search_error())
                } else {
                    let shown = old(self)@.selecting(
                        picker::selected(old(store)@, query, index),
                    );
                    &&& r == picker::selected_id(old(store)@, query, index)
                    &&& match r {
                        Some(id) => {
                            &&& final(store)@ == (StoreView {
                                clips: store::toggled(old(store)@.clips, id),
                                ..old(store)@
                            })
                            &&& final(self)@ == shown.refreshed(
                                final(store)@,
                                now,
                                Failure::Refresh,
                            )
                        },
                        None => final(store)@ == old(store)@ && final(self)@ == shown.saying(
                            "No clip selected"@,
                        ),
                    }
                }
            }),
    {
        let index = self.page.selected_index;
        let id = self.clip_at(store, index, Failure::Pin);
        match id {
            Some(id) => {
                self.toggle_pin(store, id, now);
            },
            None => {},
        }
        id
    }

    /// A clip is to be pinned or unpinned.
    pub fn toggle_pin(&mut self, store: &mut Store, id: i64, now: i64)
        requires
            old(store).wf(),
        ensures
            final(store).wf(),
            final(store)@ == (StoreView {
                clips: store::toggled(old(store)@.clips, id),
                ..old(store)@
            }),
            final(self)@ == old(self)@.refreshed(final(store)@, now, Failure::Refresh),
    {
        store.toggle_pin(id);
        self.refresh(store, now, Failure::Refresh);
    }

    /// The clips that are not pinned are to be cleared: at the second click in
    /// time, by a clock that counts milliseconds.
    pub fn clear_unpinned(
        &mut self,
        store: &mut Store,
        state: &mut AppState,
        clock: u64,
        now: i64,
    ) -> (r: bool)
        requires
            old(store).wf(),
        ensures
            final(store).wf(),
            r == old(state).confirms_clear(clock),
            *final(state) == old(state).clear_asked(clock),
            r ==> final(store)@ == (StoreView {
                clips: store::only_pinned(old(store)@.clips),
                ..old(store)@
            }) && final(self)@ == old(self)@.refreshed_saying(
                final(store)@,
                now,
                "Cleared unpinned clips"@,
            ),
            !r ==> final(store)@ == old(store)@ && final(self)@ == old(self)@.saying(
                "Click Clear again within 5s to delete unpinned clips"@,
            ),
    {
        if !state.confirm_clear(clock) {
            self.set_status("Click Clear again within 5s to delete unpinned clips");
            return false;
        }
        store.clear_unpinned();
        self.refresh_saying(store, now, "Cleared unpinned clips");
        true
    }

    /// Another number of clips is to be kept.
    pub fn retention_changed(&mut self, store: &mut Store, value: i64, now: i64)
        requires
            old(store).wf(),
        ensures
            final(store).wf(),
            final(store)@ == store::limited(old(store)@, value),
            final(self)@ == old(self)@.refreshed_saying(
                final(store)@,
                now,
                "Keeping "@ + number::signed_decimal(settings::clamped_limit(value as int))
                    + " clips"@,
            ),
    {
        store.set_retention_limit(value);
        self.refresh_saying(store, now, retention_status(value).as_str());
    }

    /// A hotkey was typed: the one to apply, or none where it is blank.
    pub fn hotkey_changed(&mut self, hotkey: &str) -> (r: Option<String>)
        ensures
            match r {
                Some(typed) => text::trimmed(hotkey@).len() > 0 && typed@ == text::trimmed(hotkey@)
                    && final(self)@ == old(self)@,
                None => text::trimmed(hotkey@).len() == 0 && final(self)@ == old(self)@.saying(
                    "Hotkey cannot be empty"@,
                ),
            },
    {
        let typed = typed_hotkey(hotkey);
        if typed.is_none() {
            self.set_status("Hotkey cannot be empty");
        }
        typed
    }

    /// A hotkey was recorded: the one to apply, or none where it is no hotkey.
    pub fn hotkey_recorded(
        &mut self,
        key: &str,
        control: bool,
        shift: bool,
        alt: bool,
        meta: bool,
    ) -> (r: Option<String>)
        ensures
            text::text_view(r) == recorder::recorded_spec(key@, control, shift, alt, meta),
            final(self)@ == (match text::text_view(r) {
                Some(hotkey) => UiView { hotkey_text: hotkey, ..old(self)@ },
                None => old(self)@.saying(
                    "Record a key with Ctrl, Alt, Shift, or Win; raw VK_0xNN also works"@,
                ),
            }),
    {
        let recorded = recorded_hotkey_spec(key, control, shift, alt, meta);
        match &recorded {
            Some(hotkey) => {
                self.hotkey_text = hotkey.clone();
            },
            None => {
                self.set_status(
                    "Record a key with Ctrl, Alt, Shift, or Win; raw VK_0xNN also works",
                );
            },
        }
        recorded
    }

    /// Shows how an attempt to set the hotkey ended.
    pub fn hotkey_applied(&mut self, attempt: &HotkeyAttempt, previous: &str)
        ensures
            final(self)@ == (match session::hotkey_report(attempt@, previous@) {
                Some((hotkey, status)) => UiView { hotkey_text: hotkey, ..old(self)@ }.saying(
                    status,
                ),
                None => old(self)@,
            }),
    {
        match apply_hotkey(attempt, previous) {
            Some((hotkey, status)) => {
                self.hotkey_text = hotkey;
                self.status_text = status;
            },
            None => {},
        }
    }

    /// It is set whether selected clips are pasted.
    pub fn paste_setting_changed(&mut self, store: &mut Store, enabled: bool)
        requires
            old(store).wf(),
        ensures
            final(store).wf(),
            final(store)@ == (StoreView {
                settings: old(store)@.settings.insert(
                    "paste_on_select"@,
                    settings::switch(enabled),
                ),
                ..old(store)@
            }),
            final(self)@ == old(self)@.saying(
                if enabled {
                    "Auto-paste enabled"@
                } else {
                    "Copy only"@
                },
            ),
    {
        store.set_paste_on_select(enabled);
        self.status_text = paste_setting_status(enabled);
    }

    /// Another theme is set.
    pub fn theme_setting_changed(&mut self, store: &mut Store, mode: &str)
        requires
            old(store).wf(),
        ensures
            final(store).wf(),
            final(store)@ == (StoreView {
                settings: old(store)@.settings.insert(
                    "theme_mode"@,
                    session::theme_named(mode@).label(),
                ),
                ..old(store)@
            }),
            final(self)@ == (UiView { theme: session::theme_named(mode@), ..old(self)@ }).saying(
                "Theme: "@ + session::theme_named(mode@).label(),
            ),
    {
        let theme = normalized_theme_mode(mode);
        store.set_theme_mode(theme.name());
        self.theme = theme;
        self.status_text = theme.status();
    }

    /// The switch to start with the system was flipped: the wish is set as it
    /// was before again where it was saved and the registration failed, which
    /// is what is returned.
    pub fn startup_setting_applied(
        &mut self,
        store: &mut Store,
        enabled: bool,
        save_error: Option<&str>,
        registration_error: Option<&str>,
    ) -> (r: bool)
        requires
            old(store).wf(),
        ensures
            final(store).wf(),
            r == (save_error is None && registration_error is Some),
            final(store)@ == (if r {
                StoreView {
                    settings: old(store)@.settings.insert(
                        "start_with_windows"@,
                        settings::switch(!enabled),
                    ),
                    ..old(store)@
                }
            } else {
                old(store)@
            }),
            final(self)@ == (UiView {
                start_with_windows: if save_error is Some || registration_error is Some {
                    !enabled
                } else {
                    old(self)@.start_with_windows
                },
                ..old(self)@
            }).saying(
                match (save_error, registration_error) {
                    (Some(error), _) => "Startup preference failed: "@ + error@,
                    (None, Some(error)) => "Startup setting failed: "@ + error@,
                    (None, None) => if enabled {
                        "Starts with Windows"@
                    } else {
                        "Startup disabled"@
                    },
                },
            ),
    {
        let change = startup_setting_changed(enabled, save_error, registration_error);
        if change.restore_preference {
            store.set_start_with_windows_preference(!enabled);
        }
        if change.flip_back {
            self.start_with_windows = !enabled;
        }
        self.status_text = change.status;
        change.restore_preference
    }

    /// Shows what is new of an update.
    fn report(&mut self, report: UpdateReport)
        ensures
            final(self)@ == old(self)@.reporting(report@),
    {
        match report.available {
            Some(available) => {
                self.update_available = available;
            },
            None => {},
        }
        match report.version {
            Some(version) => {
                self.update_version = version;
            },
            None => {},
        }
        self.update_status = report.status;
    }

    /// An update is to be looked for: whether to do so now.
    pub fn check_update_requested(&mut self, state: &mut AppState) -> (r: bool)
        ensures
            r == !old(state).update_busy,
            *final(state) == (AppState { update_busy: true, ..*old(state) }),
            final(self)@ == (if r {
                UiView { update_available: false, update_status: "Checking..."@, ..old(self)@ }
            } else {
                UiView { update_status: "Update task already running"@, ..old(self)@ }
            }),
    {
        match state.begin_update_check() {
            Ok(report) => {
                self.report(report);
                true
            },
            Err(report) => {
                self.report(report);
                false
            },
        }
    }

    /// The search for an update has ended.
    pub fn update_checked(
        &mut self,
        state: &mut AppState,
        found: Result<Option<UpdateInfo>, String>,
    )
        ensures
            final(self)@ == old(self)@.reporting(
                session::check_report(session::found_view(found)),
            ),
            session::info_view(final(state).update_info) == (match found {
                Ok(info) => session::info_view(info),
                Err(_) => None,
            }),
            *final(state) == (AppState {
                update_busy: false,
                update_info: final(state).update_info,
                ..*old(state)
            }),
    {
        let report = state.finish_update_check(found);
        self.report(report);
    }

    /// The update is to be installed: which one, if it is known and nothing
    /// else is going on with updates.
    pub fn install_update_requested(&mut self, state: &mut AppState) -> (r: Option<UpdateInfo>)
        ensures
            match r {
                Some(info) => {
                    &&& !old(state).update_busy
                    &&& session::info_view(old(state).update_info) == Some(info@)
                    &&& *final(state) == (AppState { update_busy: true, ..*old(state) })
                    &&& final(self)@ == (UiView {
                        update_status: "Downloading "@ + info@.version + "..."@,
                        ..old(self)@
                    })
                },
                None => {
                    &&& old(state).update_busy || old(state).update_info is None
                    &&& *final(state) == *old(state)
                    &&& final(self)@ == (UiView {
                        update_status: if old(state).update_busy {
                            "Update task already running"@
                        } else {
                            "Check for updates first"@
                        },
                        ..old(self)@
                    })
                },
            },
    {
        let start = state.begin_install();
        self.update_status = start.status();
        match start {
            InstallStart::Start(info) => Some(info),
            _ => None,
        }
    }

    /// The attempt to install an update has ended: whether to quit for it.
    pub fn update_installed(&mut self, state: &mut AppState, error: Option<&str>) -> (r: bool)
        ensures
            r == (error is None),
            *final(state) == (AppState { update_busy: false, ..*old(state) }),
            final(self)@ == (UiView {
                update_status: match error {
                    None => "Restarting to update..."@,
                    Some(error) => "Update failed: "@ + error@,
                },
                ..old(self)@
            }),
    {
        let (status, quit) = state.finish_install(error);
        self.update_status = status;
        quit
    }

    /// A selected clip went to the clipboard: what comes next is returned, and
    /// shown where nothing is pasted.
    pub fn copy_finished(&mut self, store: &Store, state: &AppState, now: i64) -> (r: AfterCopy)
        requires
            store.wf(),
        ensures
            r == session::next_after_copy(
                settings::pastes_on_select(store@.settings),
                state.paste_target_hwnd,
            ),
            final(self)@ == (match r.text() {
                None => old(self)@,
                Some(status) => old(self)@.saying(status).refreshed(
                    store@,
                    now,
                    Failure::Refresh,
                ),
            }),
    {
        let next = after_copy(store.paste_on_select(), state.paste_target_hwnd);
        match next.status() {
            None => {},
            Some(status) => {
                self.status_text = status;
                self.refresh(store, now, Failure::Refresh);
            },
        }
        next
    }

    /// A selected clip went to the clipboard: it is noted as used, and what
    /// comes next is returned.
    pub fn clip_copied(&mut self, store: &mut Store, state: &AppState, id: i64, now: i64) -> (r:
        AfterCopy)
        requires
            old(store).wf(),
            old(store)@.clips.contains_key(id) ==> old(store)@.clips[id].use_count < i64::MAX,
        ensures
            final(store).wf(),
            final(store)@ == (StoreView {
                clips: store::used(old(store)@.clips, id, now),
                ..old(store)@
            }),
            r == session::next_after_copy(
                settings::pastes_on_select(old(store)@.settings),
                state.paste_target_hwnd,
            ),
            final(self)@ == (match r.text() {
                None => old(self)@,
                Some(status) => old(self)@.saying(status).refreshed(
                    final(store)@,
                    now,
                    Failure::Refresh,
                ),
            }),
    {
        store.mark_used(id, now);
        self.copy_finished(store, state, now)
    }

    /// The clipboard was captured: the clips are shown where one was taken.
    pub fn captured(&mut self, store: &Store, result: Result<Option<i64>, String>, now: i64)
        requires
            store.wf(),
        ensures
            final(self)@ == (match result {
                Ok(Some(_)) => old(self)@.refreshed(store@, now, Failure::Refresh),
                Ok(None) => old(self)@,
                Err(error) => old(self)@.saying(Failure::Capture.label() + error@),
            }),
    {
        match result {
            Ok(taken) => {
                if taken.is_some() {
                    self.refresh(store, now, Failure::Refresh);
                }
            },
            Err(error) => {
                self.fail(Failure::Capture, error.as_str());
            },
        }
    }
}

// ---------------------------------------------------------------------------
// The tray
// ---------------------------------------------------------------------------

/// What an entry of the tray menu does.
#[derive(Debug, Clone, Copy, PartialEq, Eq, Structural)]
pub enum TrayAction {
    Show,
    Hide,
    Quit,
    Nothing,
}

/// What the entry of the tray menu with an id does.
pub fn tray_menu_action(id: &str) -> (r: TrayAction)
    ensures
        r == (if id@ == "show"@ {
            TrayAction::Show
        } else if id@ == "hide"@ {
            TrayAction::Hide
        } else if id@ == "quit"@ {
            TrayAction::Quit
        } else {
            TrayAction::Nothing
        }),
{
    if crate::text::same_text(id, "show") {
        TrayAction::Show
    } else if crate::text::same_text(id, "hide") {
        TrayAction::Hide
    } else if crate::text::same_text(id, "quit") {
        TrayAction::Quit
    } else {
        TrayAction::Nothing
    }
}

/// What was done to the tray icon.
#[derive(Debug, Clone, Copy, PartialEq, Eq, Structural)]
pub enum TrayEvent {
    /// A button went down or up: whether it was the left one, and whether it
    /// went up.
    Click(bool, bool),
    /// A button was clicked twice: whether it was the left one.
    DoubleClick(bool),
    Other,
}

/// Whether the picker is shown for what was done to the tray icon.
pub fn tray_shows_picker(event: TrayEvent) -> (r: bool)
    ensures
        r == (event == TrayEvent::Click(true, true) || event == TrayEvent::DoubleClick(true)),
{
    match event {
        TrayEvent::Click(left, up) => left && up,
        TrayEvent::DoubleClick(left) => left,
        TrayEvent::Other => false,
    }
}

} // verus!
