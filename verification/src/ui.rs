//! The application's state machine: idle or recording, the list of recent
//! captures, the commands prepared for the system capture tool, the state of
//! the recording menu items, and the menu-bar icon.
use vstd::prelude::*;
use crate::capture::{
    decimal_string, owned, screencapture_args, screencapture_args_spec, CaptureError,
    CaptureRegion,
};
use crate::config::Config;
use crate::storage::{path_resolved, ClockReading, CaptureType, StorageError, StorageManager};
use crate::text::{chars_equal, chars_of, decimal};

verus! {

/// Most captures kept in the recent list.
pub const MAX_RECENT_CAPTURES: usize = 5;

/// Why an application action failed.
#[derive(Debug, PartialEq, Eq)]
pub enum UiError {
    Config(String),
    Capture(CaptureError),
    Storage(StorageError),
    Ui(String),
}

/// Whether a recording is running.
#[derive(Debug, Clone, Copy, PartialEq, Eq)]
pub enum AppState {
    Idle,
    Recording,
}

/// Commands the event loop receives from the hotkey and settings threads.
#[derive(Debug)]
pub enum AppCommand {
    TakeScreenshot,
    TakeRegionScreenshot,
    ToggleRecording,
    ToggleRegionRecording,
    UpdateConfig(Config),
}

/// A recording in progress: where it is written and when it started.
#[derive(Debug, PartialEq, Eq)]
pub struct RecordingSession {
    pub output_path: String,
    pub started_at_ms: u64,
}

/// A run of the system `screencapture` tool: the file it writes and its arguments.
#[derive(Debug, PartialEq, Eq)]
pub struct CaptureJob {
    pub path: String,
    pub args: Vec<String>,
}

/// What to do once a capture is saved.
#[derive(Debug, Clone, Copy, PartialEq, Eq)]
pub struct PostCaptureActions {
    pub reveal_in_finder: bool,
    pub copy_to_clipboard: bool,
    pub show_notification: bool,
}

/// What toggling the recording does in the current state.
#[derive(Debug, Clone, Copy, PartialEq, Eq)]
pub enum ToggleAction {
    Start,
    Stop,
}

/// The recent list after `path` is added: newest first, at most five.
pub open spec fn with_recent(recent: Seq<Seq<char>>, path: Seq<char>) -> Seq<Seq<char>> {
    if recent.len() >= MAX_RECENT_CAPTURES {
        seq![path] + recent.take(MAX_RECENT_CAPTURES - 1)
    } else {
        seq![path] + recent
    }
}

/// The arguments of `screencapture` recording the whole display `display_index`.
pub open spec fn recording_args_spec(
    display_index: usize,
    include_cursor: bool,
    microphone: bool,
    path: Seq<char>,
) -> Seq<Seq<char>> {
    seq!["-v"@, "-D"@, decimal((display_index + 1) as nat)] + (if include_cursor {
        seq!["-C"@]
    } else {
        Seq::<Seq<char>>::empty()
    }) + (if microphone {
        seq!["-A"@]
    } else {
        Seq::<Seq<char>>::empty()
    }) + seq![path]
}

/// The arguments of `screencapture` recording the selected rectangle `rect`.
pub open spec fn region_recording_args_spec(rect: Seq<char>, microphone: bool, path: Seq<char>) -> Seq<
    Seq<char>,
> {
    seq!["-v"@, "-R"@, rect] + (if microphone {
        seq!["-g"@]
    } else {
        Seq::<Seq<char>>::empty()
    }) + seq![path]
}

pub open spec fn views(v: Seq<String>) -> Seq<Seq<char>> {
    v.map_values(|s: String| s@)
}

/// The application: its settings, path resolution, recording state and
/// recent captures.
pub struct App {
    config: Config,
    storage: StorageManager,
    state: AppState,
    recent_captures: Vec<String>,
    recording_session: Option<RecordingSession>,
}

impl App {
    /// The recent list holds at most five entries, a session exists exactly
    /// while recording, and paths are resolved with the current output settings.
    pub closed spec fn wf(self) -> bool {
        &&& self.recent_captures.len() <= MAX_RECENT_CAPTURES
        &&& (self.state == AppState::Recording) == (self.recording_session is Some)
        &&& self.storage.output() == self.config.output
    }

    pub closed spec fn config_spec(self) -> Config {
        self.config
    }

    pub closed spec fn state_spec(self) -> AppState {
        self.state
    }

    /// The recent captures, newest first.
    pub closed spec fn recent(self) -> Seq<Seq<char>> {
        views(self.recent_captures@)
    }

    pub closed spec fn session(self) -> Option<RecordingSession> {
        self.recording_session
    }

    pub proof fn lemma_wf(self)
        requires
            self.wf(),
        ensures
            self.recent().len() <= MAX_RECENT_CAPTURES,
            (self.state_spec() == AppState::Recording) == (self.session() is Some),
    {
    }

    pub fn new(config: Config) -> (app: Self)
        ensures
            app.wf(),
            app.config_spec() == config,
            app.state_spec() == AppState::Idle,
            app.recent() == Seq::<Seq<char>>::empty(),
            app.session() is None,
    {
        let storage = StorageManager::new(config.output.clone());
        let app = App {
            config,
            storage,
            state: AppState::Idle,
            recent_captures: Vec::new(),
            recording_session: None,
        };
        assert(views(app.recent_captures@) =~= Seq::<Seq<char>>::empty());
        app
    }

    pub fn state(&self) -> (s: AppState)
        ensures
            s == self.state_spec(),
    {
        self.state
    }

    pub fn config(&self) -> (c: &Config)
        ensures
            *c == self.config_spec(),
    {
        &self.config
    }

    pub fn recent_captures(&self) -> (r: &Vec<String>)
        ensures
            views(r@) == self.recent(),
    {
        &self.recent_captures
    }

    /// The newest capture, if any.
    pub fn last_capture(&self) -> (r: Option<&String>)
        ensures
            match r {
                Some(p) => self.recent().len() > 0 && p@ == self.recent()[0],
                None => self.recent().len() == 0,
            },
    {
        if self.recent_captures.len() == 0 {
            None
        } else {
            Some(&self.recent_captures[0])
        }
    }

    /// Puts `path` at the front of the recent list, dropping the oldest entry
    /// when the list is full.
    pub fn add_recent_capture(&mut self, path: String)
        requires
            old(self).wf(),
        ensures
            final(self).wf(),
            final(self).recent() == with_recent(old(self).recent(), path@),
            final(self).config_spec() == old(self).config_spec(),
            final(self).state_spec() == old(self).state_spec(),
            final(self).session() == old(self).session(),
    {
        let ghost before = self.recent();
        let mut list: Vec<String> = Vec::new();
        list.push(path);
        let keep = if self.recent_captures.len() >= MAX_RECENT_CAPTURES {
            MAX_RECENT_CAPTURES - 1
        } else {
            self.recent_captures.len()
        };
        let mut i: usize = 0;
        while i < keep
            invariant
                keep <= self.recent_captures.len(),
                i <= keep,
                views(list@) == seq![path@] + views(self.recent_captures@).take(i as int),
                before == views(self.recent_captures@),
            decreases keep - i,
        {
            let ghost prev = views(list@);
            let item = self.recent_captures[i].clone();
            assert(item@ == views(self.recent_captures@)[i as int]);
            list.push(item);
            assert(views(list@) =~= prev.push(item@));
            i = i + 1;
            assert(views(list@) =~= seq![path@] + views(self.recent_captures@).take(i as int));
        }
        proof {
            if before.len() < MAX_RECENT_CAPTURES {
                assert(before.take(keep as int) =~= before);
            }
        }
        self.recent_captures = list;
    }

    /// Apply new settings.
    pub fn update_config(&mut self, config: Config)
        requires
            old(self).wf(),
        ensures
            final(self).wf(),
            final(self).config_spec() == config,
            final(self).recent() == old(self).recent(),
            final(self).state_spec() == old(self).state_spec(),
            final(self).session() == old(self).session(),
    {
        self.storage.update_config(config.output.clone());
        self.config = config;
    }
}

impl App {
    /// What happens after a capture is saved, per the settings.
    pub fn post_capture_actions(&self) -> (a: PostCaptureActions)
        ensures
            a.reveal_in_finder == self.config_spec().ui.reveal_in_finder,
            a.copy_to_clipboard == self.config_spec().ui.copy_path_to_clipboard,
            a.show_notification == self.config_spec().ui.show_save_notification,
    {
        PostCaptureActions {
            reveal_in_finder: self.config.ui.reveal_in_finder,
            copy_to_clipboard: self.config.ui.copy_path_to_clipboard,
            show_notification: self.config.ui.show_save_notification,
        }
    }

    /// Records a saved capture: it joins the recent list, and the actions to
    /// run for it are returned.
    pub fn capture_saved(&mut self, path: String) -> (a: PostCaptureActions)
        requires
            old(self).wf(),
        ensures
            final(self).wf(),
            final(self).recent() == with_recent(old(self).recent(), path@),
            final(self).config_spec() == old(self).config_spec(),
            final(self).state_spec() == old(self).state_spec(),
            final(self).session() == old(self).session(),
            a.reveal_in_finder == old(self).config_spec().ui.reveal_in_finder,
            a.copy_to_clipboard == old(self).config_spec().ui.copy_path_to_clipboard,
            a.show_notification == old(self).config_spec().ui.show_save_notification,
    {
        self.add_recent_capture(path);
        self.post_capture_actions()
    }

    /// Settles a capture once the tool that writes it has finished: when its
    /// file was written (`written`) it joins the recent list and the actions
    /// to run for it are returned; otherwise nothing changes.
    pub fn capture_finished(&mut self, path: String, written: bool) -> (a: Option<
        PostCaptureActions,
    >)
        requires
            old(self).wf(),
        ensures
            final(self).wf(),
            final(self).config_spec() == old(self).config_spec(),
            final(self).state_spec() == old(self).state_spec(),
            final(self).session() == old(self).session(),
            final(self).recent() == recent_after_finish(old(self).recent(), path@, written),
            written ==> a == Some(
                PostCaptureActions {
                    reveal_in_finder: old(self).config_spec().ui.reveal_in_finder,
                    copy_to_clipboard: old(self).config_spec().ui.copy_path_to_clipboard,
                    show_notification: old(self).config_spec().ui.show_save_notification,
                },
            ),
            !written ==> a is None,
    {
        if written {
            let actions = self.capture_saved(path);
            Some(actions)
        } else {
            None
        }
    }

    /// Prepares a screenshot of the configured display: resolves its path
    /// and the `screencapture` arguments that write it.
    pub fn take_screenshot<F: Fn(&[char]) -> bool>(
        &mut self,
        index: u32,
        now: &ClockReading,
        is_taken: F,
    ) -> (r: Result<CaptureJob, UiError>)
        requires
            forall|p: &[char]| is_taken.requires((p,)),
            old(self).wf(),
            old(self).config_spec().capture.display_index < usize::MAX,
            !old(self).config_spec().output.screenshot_format@.contains('/'),
        ensures
            final(self).wf(),
            final(self).config_spec() == old(self).config_spec(),
            final(self).state_spec() == old(self).state_spec(),
            final(self).recent() == old(self).recent(),
            final(self).session() == old(self).session(),
            match r {
                Ok(job) => path_resolved(old(self).config_spec().output, CaptureType::Screenshot, index, *now, is_taken, Ok(job.path)) && views(job.args@) == screencapture_args_spec(
                    CaptureRegion::Display(old(self).config_spec().capture.display_index),
                    old(self).config_spec().capture.include_cursor,
                    job.path@,
                ),
                Err(UiError::Storage(e)) => path_resolved(old(self).config_spec().output, CaptureType::Screenshot, index, *now, is_taken, Err(e)),
                Err(_) => false,
            },
    {
        let path = match self.storage.resolve_path_in(CaptureType::Screenshot, index, now, is_taken) {
            Ok(p) => p,
            Err(e) => {
                return Err(UiError::Storage(e));
            },
        };
        let region = CaptureRegion::Display(self.config.capture.display_index);
        let args = screencapture_args(&region, self.config.capture.include_cursor, path.as_str());
        Ok(CaptureJob { path, args })
    }

    /// Resolves the path an interactive region screenshot is written to.
    pub fn take_region_screenshot_interactive<F: Fn(&[char]) -> bool>(
        &mut self,
        index: u32,
        now: &ClockReading,
        is_taken: F,
    ) -> (r: Result<String, UiError>)
        requires
            forall|p: &[char]| is_taken.requires((p,)),
            old(self).wf(),
            !old(self).config_spec().output.screenshot_format@.contains('/'),
        ensures
            final(self).wf(),
            final(self).config_spec() == old(self).config_spec(),
            final(self).state_spec() == old(self).state_spec(),
            final(self).recent() == old(self).recent(),
            final(self).session() == old(self).session(),
            match r {
                Ok(p) => path_resolved(old(self).config_spec().output, CaptureType::RegionScreenshot, index, *now, is_taken, Ok(p)),
                Err(UiError::Storage(e)) => path_resolved(old(self).config_spec().output, CaptureType::RegionScreenshot, index, *now, is_taken, Err(e)),
                Err(_) => false,
            },
    {
        match self.storage.resolve_path_in(CaptureType::RegionScreenshot, index, now, is_taken) {
            Ok(p) => Ok(p),
            Err(e) => Err(UiError::Storage(e)),
        }
    }

    /// Prepares a recording of the configured display. Nothing is prepared
    /// (and nothing changes) while a recording is running.
    pub fn start_recording<F: Fn(&[char]) -> bool>(
        &mut self,
        index: u32,
        now: &ClockReading,
        is_taken: F,
    ) -> (r: Result<Option<CaptureJob>, UiError>)
        requires
            forall|p: &[char]| is_taken.requires((p,)),
            old(self).wf(),
            old(self).config_spec().capture.display_index < usize::MAX,
            !old(self).config_spec().output.video_format@.contains('/'),
        ensures
            final(self).wf(),
            final(self).config_spec() == old(self).config_spec(),
            final(self).state_spec() == old(self).state_spec(),
            final(self).recent() == old(self).recent(),
            final(self).session() == old(self).session(),
            old(self).state_spec() == AppState::Recording ==> r == Ok::<Option<CaptureJob>, UiError>(None),
            old(self).state_spec() == AppState::Idle ==> match r {
                Ok(Some(job)) => path_resolved(old(self).config_spec().output, CaptureType::Recording, index, *now, is_taken, Ok(job.path)) && views(job.args@) == recording_args_spec(
                    old(self).config_spec().capture.display_index,
                    old(self).config_spec().capture.include_cursor,
                    old(self).config_spec().recording.capture_microphone,
                    job.path@,
                ),
                Err(UiError::Storage(e)) => path_resolved(old(self).config_spec().output, CaptureType::Recording, index, *now, is_taken, Err(e)),
                _ => false,
            },
    {
        if let AppState::Recording = self.state {
            return Ok(None);
        }
        let path = match self.storage.resolve_path_in(CaptureType::Recording, index, now, is_taken) {
            Ok(p) => p,
            Err(e) => {
                return Err(UiError::Storage(e));
            },
        };
        let args = recording_args(
            self.config.capture.display_index,
            self.config.capture.include_cursor,
            self.config.recording.capture_microphone,
            path.as_str(),
        );
        Ok(Some(CaptureJob { path, args }))
    }

    /// Prepares a recording of the selected rectangle `rect` (as the region
    /// selector printed it). Nothing is prepared while a recording is running.
    pub fn start_region_recording<F: Fn(&[char]) -> bool>(
        &mut self,
        rect: &str,
        index: u32,
        now: &ClockReading,
        is_taken: F,
    ) -> (r: Result<Option<CaptureJob>, UiError>)
        requires
            forall|p: &[char]| is_taken.requires((p,)),
            old(self).wf(),
            !old(self).config_spec().output.video_format@.contains('/'),
        ensures
            final(self).wf(),
            final(self).config_spec() == old(self).config_spec(),
            final(self).state_spec() == old(self).state_spec(),
            final(self).recent() == old(self).recent(),
            final(self).session() == old(self).session(),
            old(self).state_spec() == AppState::Recording ==> r == Ok::<Option<CaptureJob>, UiError>(None),
            old(self).state_spec() == AppState::Idle ==> match r {
                Ok(Some(job)) => path_resolved(old(self).config_spec().output, CaptureType::Recording, index, *now, is_taken, Ok(job.path)) && views(job.args@) == region_recording_args_spec(
                    rect@,
                    old(self).config_spec().recording.capture_microphone,
                    job.path@,
                ),
                Err(UiError::Storage(e)) => path_resolved(old(self).config_spec().output, CaptureType::Recording, index, *now, is_taken, Err(e)),
                _ => false,
            },
    {
        if let AppState::Recording = self.state {
            return Ok(None);
        }
        let path = match self.storage.resolve_path_in(CaptureType::Recording, index, now, is_taken) {
            Ok(p) => p,
            Err(e) => {
                return Err(UiError::Storage(e));
            },
        };
        let args = region_recording_args(
            rect,
            self.config.recording.capture_microphone,
            path.as_str(),
        );
        Ok(Some(CaptureJob { path, args }))
    }

    /// Records that the recorder for `path` was started at `now_ms`.
    pub fn recording_started(&mut self, path: String, now_ms: u64)
        requires
            old(self).wf(),
            old(self).state_spec() == AppState::Idle,
        ensures
            final(self).wf(),
            final(self).state_spec() == AppState::Recording,
            final(self).session() == Some(RecordingSession { output_path: path, started_at_ms: now_ms }),
            final(self).config_spec() == old(self).config_spec(),
            final(self).recent() == old(self).recent(),
    {
        self.recording_session = Some(RecordingSession { output_path: path, started_at_ms: now_ms });
        self.state = AppState::Recording;
    }

    /// Ends the recording state and hands back the session to finalize; nothing
    /// happens when no recording is running.
    pub fn stop_recording(&mut self) -> (r: Option<RecordingSession>)
        requires
            old(self).wf(),
        ensures
            final(self).wf(),
            final(self).state_spec() == AppState::Idle,
            final(self).session() is None,
            r == old(self).session(),
            (r is Some) == (old(self).state_spec() == AppState::Recording),
            final(self).config_spec() == old(self).config_spec(),
            final(self).recent() == old(self).recent(),
    {
        if let AppState::Idle = self.state {
            return None;
        }
        let session = self.recording_session.take();
        self.state = AppState::Idle;
        session
    }

    /// What toggling the recording does now: start when idle, stop when recording.
    pub fn toggle_action(&self) -> (a: ToggleAction)
        ensures
            a == (if self.state_spec() == AppState::Idle {
                ToggleAction::Start
            } else {
                ToggleAction::Stop
            }),
    {
        match self.state {
            AppState::Idle => ToggleAction::Start,
            AppState::Recording => ToggleAction::Stop,
        }
    }

    /// Milliseconds the running recording has lasted at `now_ms`.
    pub fn recording_elapsed_ms(&self, now_ms: u64) -> (r: Option<u64>)
        ensures
            match self.session() {
                Some(s) => r == Some(elapsed_ms(s.started_at_ms, now_ms)),
                None => r is None,
            },
    {
        match &self.recording_session {
            Some(s) => Some(now_ms.saturating_sub(s.started_at_ms)),
            None => None,
        }
    }

    /// The folder captures are written to.
    pub fn capture_folder(&self) -> (f: &String)
        ensures
            f@ == self.config_spec().output.folder@,
    {
        &self.config.output.folder
    }
}

/// Arguments of `screencapture` recording the whole display `display_index`
/// (one-based on the command line) to `path`.
pub fn recording_args(display_index: usize, include_cursor: bool, microphone: bool, path: &str) -> (r:
    Vec<String>)
    requires
        display_index < usize::MAX,
    ensures
        views(r@) == recording_args_spec(display_index, include_cursor, microphone, path@),
{
    let mut args: Vec<String> = Vec::new();
    args.push(owned("-v"));
    args.push(owned("-D"));
    args.push(decimal_string(display_index as u64 + 1));
    if include_cursor {
        args.push(owned("-C"));
    }
    if microphone {
        args.push(owned("-A"));
    }
    args.push(owned(path));
    assert(views(args@) =~= recording_args_spec(display_index, include_cursor, microphone, path@));
    args
}

/// Arguments of `screencapture` recording the rectangle `rect` to `path`.
pub fn region_recording_args(rect: &str, microphone: bool, path: &str) -> (r: Vec<String>)
    ensures
        views(r@) == region_recording_args_spec(rect@, microphone, path@),
{
    let mut args: Vec<String> = Vec::new();
    args.push(owned("-v"));
    args.push(owned("-R"));
    args.push(owned(rect));
    if microphone {
        args.push(owned("-g"));
    }
    args.push(owned(path));
    assert(views(args@) =~= region_recording_args_spec(rect@, microphone, path@));
    args
}

/// Which recording a menu item starts and stops.
#[derive(Debug, Clone, Copy, PartialEq, Eq)]
pub enum RecordingKind {
    /// The whole display ("Start Recording").
    Display,
    /// A selected rectangle ("Record Region").
    Region,
}

/// The state of the two recording items of the menu: whether each offers to
/// stop a recording, and whether each can be clicked.
#[derive(Debug, Clone, Copy, PartialEq, Eq)]
pub struct RecordingMenu {
    pub record_offers_stop: bool,
    pub record_enabled: bool,
    pub region_offers_stop: bool,
    pub region_enabled: bool,
}

/// The menu before any recording: both items offer to start and are enabled.
pub open spec fn initial_menu() -> RecordingMenu {
    RecordingMenu {
        record_offers_stop: false,
        record_enabled: true,
        region_offers_stop: false,
        region_enabled: true,
    }
}

/// The menu once a recording of `kind` has started: its item offers to stop,
/// and the other item is disabled.
pub open spec fn menu_after_start(m: RecordingMenu, kind: RecordingKind) -> RecordingMenu {
    match kind {
        RecordingKind::Display => RecordingMenu {
            record_offers_stop: true,
            region_enabled: false,
            ..m
        },
        RecordingKind::Region => RecordingMenu {
            region_offers_stop: true,
            record_enabled: false,
            ..m
        },
    }
}

/// The menu once a recording was stopped through the item of `kind`: that
/// item offers to start again, and the other item is enabled.
pub open spec fn menu_after_stop(m: RecordingMenu, kind: RecordingKind) -> RecordingMenu {
    match kind {
        RecordingKind::Display => RecordingMenu {
            record_offers_stop: false,
            region_enabled: true,
            ..m
        },
        RecordingKind::Region => RecordingMenu {
            region_offers_stop: false,
            record_enabled: true,
            ..m
        },
    }
}

impl RecordingMenu {
    pub fn new() -> (m: Self)
        ensures
            m == initial_menu(),
    {
        RecordingMenu {
            record_offers_stop: false,
            record_enabled: true,
            region_offers_stop: false,
            region_enabled: true,
        }
    }

    pub fn recording_started(&mut self, kind: RecordingKind)
        ensures
            *final(self) == menu_after_start(*old(self), kind),
    {
        match kind {
            RecordingKind::Display => {
                self.record_offers_stop = true;
                self.region_enabled = false;
            },
            RecordingKind::Region => {
                self.region_offers_stop = true;
                self.record_enabled = false;
            },
        }
    }

    pub fn recording_stopped(&mut self, kind: RecordingKind)
        ensures
            *final(self) == menu_after_stop(*old(self), kind),
    {
        match kind {
            RecordingKind::Display => {
                self.record_offers_stop = false;
                self.region_enabled = true;
            },
            RecordingKind::Region => {
                self.region_offers_stop = false;
                self.record_enabled = true;
            },
        }
    }

    /// The text of the whole-display recording item.
    pub fn record_label(&self) -> (s: &'static str)
        ensures
            s@ == (if self.record_offers_stop {
                "● Stop Recording          Ctrl+Shift+3"@
            } else {
                "Start Recording          Ctrl+Shift+3"@
            }),
    {
        if self.record_offers_stop {
            "● Stop Recording          Ctrl+Shift+3"
        } else {
            "Start Recording          Ctrl+Shift+3"
        }
    }

    /// The text of the region recording item.
    pub fn region_label(&self) -> (s: &'static str)
        ensures
            s@ == (if self.region_offers_stop {
                "● Stop Recording          Ctrl+Shift+4"@
            } else {
                "Record Region             Ctrl+Shift+4"@
            }),
    {
        if self.region_offers_stop {
            "● Stop Recording          Ctrl+Shift+4"
        } else {
            "Record Region             Ctrl+Shift+4"
        }
    }
}

/// The command a fired hotkey stands for, by the name it was registered under.
pub fn hotkey_command(id: &str) -> (r: Option<AppCommand>)
    ensures
        match r {
            Some(AppCommand::TakeScreenshot) => id@ == "screenshot"@,
            Some(AppCommand::ToggleRecording) => id@ == "toggle_recording"@,
            Some(AppCommand::TakeRegionScreenshot) => id@ == "region_screenshot"@,
            Some(AppCommand::ToggleRegionRecording) => id@ == "region_recording"@,
            Some(AppCommand::UpdateConfig(_)) => false,
            None => id@ != "screenshot"@ && id@ != "toggle_recording"@ && id@
                != "region_screenshot"@ && id@ != "region_recording"@,
        },
{
    let v = chars_of(id);
    if chars_equal(&v, &chars_of("screenshot")) {
        Some(AppCommand::TakeScreenshot)
    } else if chars_equal(&v, &chars_of("toggle_recording")) {
        Some(AppCommand::ToggleRecording)
    } else if chars_equal(&v, &chars_of("region_screenshot")) {
        Some(AppCommand::TakeRegionScreenshot)
    } else if chars_equal(&v, &chars_of("region_recording")) {
        Some(AppCommand::ToggleRegionRecording)
    } else {
        None
    }
}

/// Side of the square menu-bar icon, in pixels.
pub const TRAY_ICON_SIZE: u32 = 22;

/// Whether pixel (x, y) of the icon belongs to the camera drawing: the body
/// (3..=19 x 8..=18) or the viewfinder bump (8..=14 x 5..=8).
pub open spec fn icon_covered(x: int, y: int) -> bool {
    (8 <= y <= 18 && 3 <= x <= 19) || (5 <= y <= 8 && 8 <= x <= 14)
}

/// Whether pixel (x, y) lies in the lens, which is cut out of the body: within
/// distance 2.5 of (11, 13), that is at squared distance at most 6.
pub open spec fn icon_lens(x: int, y: int) -> bool {
    9 <= y <= 17 && 7 <= x <= 15 && (x - 11) * (x - 11) + (y - 13) * (y - 13) <= 6
}

/// Byte `c` (R, G, B, A) of pixel (x, y) of the icon.
pub open spec fn icon_channel(x: int, y: int, c: int) -> u8 {
    if !icon_covered(x, y) {
        0
    } else if c < 3 {
        255
    } else if icon_lens(x, y) {
        0
    } else {
        200
    }
}

/// The RGBA bytes of the icon, row by row.
pub open spec fn tray_icon_spec() -> Seq<u8> {
    Seq::new(
        22 * 22 * 4,
        |i: int| icon_channel((i / 4) % 22, (i / 4) / 22, i % 4),
    )
}

/// The RGBA pixels of the 22 x 22 camera icon shown in the menu bar: white
/// body and viewfinder at alpha 200 on a transparent background, with the
/// lens cut out.
pub fn tray_icon_rgba() -> (rgba: Vec<u8>)
    ensures
        rgba@ == tray_icon_spec(),
{
    let mut rgba: Vec<u8> = Vec::new();
    let mut y: u32 = 0;
    while y < 22
        invariant
            y <= 22,
            rgba@.len() == y * 88,
            forall|i: int| 0 <= i < rgba@.len() ==> #[trigger] rgba@[i] == tray_icon_spec()[i],
        decreases 22 - y,
    {
        let mut x: u32 = 0;
        while x < 22
            invariant
                y < 22,
                x <= 22,
                rgba@.len() == y * 88 + x * 4,
                forall|i: int| 0 <= i < rgba@.len() ==> #[trigger] rgba@[i] == tray_icon_spec()[i],
            decreases 22 - x,
        {
            let covered = (8 <= y && y <= 18 && 3 <= x && x <= 19) || (5 <= y && y <= 8 && 8 <= x
                && x <= 14);
            let dx: i64 = x as i64 - 11;
            let dy: i64 = y as i64 - 13;
            assert(0 <= dx * dx <= 484 && 0 <= dy * dy <= 484) by (nonlinear_arith)
                requires
                    -22 <= dx <= 22,
                    -22 <= dy <= 22,
            ;
            let lens = 9 <= y && y <= 17 && 7 <= x && x <= 15 && dx * dx + dy * dy <= 6;
            let colour: u8 = if covered {
                255
            } else {
                0
            };
            let alpha: u8 = if !covered {
                0
            } else if lens {
                0
            } else {
                200
            };
            let ghost start = rgba@.len() as int;
            rgba.push(colour);
            rgba.push(colour);
            rgba.push(colour);
            rgba.push(alpha);
            assert forall|i: int| 0 <= i < rgba@.len() implies #[trigger] rgba@[i]
                == tray_icon_spec()[i] by {
                if i >= start {
                    assert(start == (y * 22 + x) * 4) by (nonlinear_arith)
                        requires
                            start == y * 88 + x * 4,
                    ;
                    assert((i / 4) == y * 22 + x);
                    assert((i / 4) % 22 == x && (i / 4) / 22 == y) by (nonlinear_arith)
                        requires
                            i / 4 == y * 22 + x,
                            x < 22,
                    ;
                }
            }
            x = x + 1;
        }
        y = y + 1;
    }
    rgba
}

/// The recent list never holds more than five captures; the newest is first
/// and the others keep their order.
pub proof fn lemma_recent_captures_bounded(recent: Seq<Seq<char>>, path: Seq<char>)
    requires
        recent.len() <= MAX_RECENT_CAPTURES,
    ensures
        with_recent(recent, path).len() <= MAX_RECENT_CAPTURES,
        with_recent(recent, path)[0] == path,
        with_recent(recent, path).skip(1) == recent.take(with_recent(recent, path).len() - 1),
{
    let r = with_recent(recent, path);
    assert(r.skip(1) =~= recent.take(r.len() - 1));
}

/// The recent list after adding `paths` one by one, oldest first, to `recent`.
pub open spec fn recent_after(recent: Seq<Seq<char>>, paths: Seq<Seq<char>>) -> Seq<Seq<char>>
    decreases paths.len(),
{
    if paths.len() == 0 {
        recent
    } else {
        with_recent(recent_after(recent, paths.drop_last()), paths.last())
    }
}

/// The last `k` of `paths` (all of them when there are fewer), newest first.
pub open spec fn newest_first(paths: Seq<Seq<char>>, k: nat) -> Seq<Seq<char>> {
    let n = if paths.len() < k {
        paths.len()
    } else {
        k
    };
    Seq::new(n, |i: int| paths[paths.len() - 1 - i])
}

/// Starting from an empty list, the recent list holds exactly the last five
/// captures added, newest first, whatever came before them.
pub proof fn lemma_recent_holds_last_five(paths: Seq<Seq<char>>)
    ensures
        recent_after(Seq::empty(), paths) == newest_first(paths, MAX_RECENT_CAPTURES as nat),
    decreases paths.len(),
{
    if paths.len() > 0 {
        let prev = paths.drop_last();
        lemma_recent_holds_last_five(prev);
        let r = recent_after(Seq::empty(), paths);
        let expected = newest_first(paths, MAX_RECENT_CAPTURES as nat);
        assert forall|i: int| 0 <= i < r.len() implies r[i] == expected[i] by {
            if i > 0 {
                assert(r[i] == newest_first(prev, MAX_RECENT_CAPTURES as nat)[i - 1]);
                assert(prev[prev.len() - 1 - (i - 1)] == paths[paths.len() - 1 - i]);
            }
        }
        assert(r =~= expected);
    } else {
        assert(recent_after(Seq::empty(), paths) =~= newest_first(paths, MAX_RECENT_CAPTURES as nat));
    }
}

/// The recent list after a capture of `path` finished, written or not.
pub open spec fn recent_after_finish(recent: Seq<Seq<char>>, path: Seq<char>, written: bool) -> Seq<
    Seq<char>,
> {
    if written {
        with_recent(recent, path)
    } else {
        recent
    }
}

/// The recent list after the captures `finished` (each: its path, and
/// whether its file was written) settled one by one, oldest first.
pub open spec fn recent_after_captures(
    recent: Seq<Seq<char>>,
    finished: Seq<(Seq<char>, bool)>,
) -> Seq<Seq<char>>
    decreases finished.len(),
{
    if finished.len() == 0 {
        recent
    } else {
        recent_after_finish(
            recent_after_captures(recent, finished.drop_last()),
            finished.last().0,
            finished.last().1,
        )
    }
}

/// The paths of the captures among `finished` whose file was written, in order.
pub open spec fn written_paths(finished: Seq<(Seq<char>, bool)>) -> Seq<Seq<char>>
    decreases finished.len(),
{
    if finished.len() == 0 {
        Seq::empty()
    } else if finished.last().1 {
        written_paths(finished.drop_last()).push(finished.last().0)
    } else {
        written_paths(finished.drop_last())
    }
}

/// Settling captures adds exactly the written ones: starting from an empty
/// list, the recent list holds the last five captures whose file was
/// written, newest first.
pub proof fn lemma_recent_holds_last_five_written(finished: Seq<(Seq<char>, bool)>)
    ensures
        recent_after_captures(Seq::empty(), finished) == newest_first(
            written_paths(finished),
            MAX_RECENT_CAPTURES as nat,
        ),
{
    lemma_captures_add_written(Seq::empty(), finished);
    lemma_recent_holds_last_five(written_paths(finished));
}

proof fn lemma_captures_add_written(recent: Seq<Seq<char>>, finished: Seq<(Seq<char>, bool)>)
    ensures
        recent_after_captures(recent, finished) == recent_after(recent, written_paths(finished)),
    decreases finished.len(),
{
    if finished.len() > 0 {
        lemma_captures_add_written(recent, finished.drop_last());
        if finished.last().1 {
            let w = written_paths(finished);
            assert(w.drop_last() =~= written_paths(finished.drop_last()));
        }
    }
}

/// Milliseconds a recording started at `started_at_ms` has lasted at
/// `now_ms` (zero when the clock reads earlier).
pub open spec fn elapsed_ms(started_at_ms: u64, now_ms: u64) -> u64 {
    if now_ms >= started_at_ms {
        (now_ms - started_at_ms) as u64
    } else {
        0u64
    }
}

/// The elapsed recording time does not go down as the clock goes forward.
pub proof fn lemma_elapsed_never_decreases(started_at_ms: u64, earlier: u64, later: u64)
    requires
        earlier <= later,
    ensures
        elapsed_ms(started_at_ms, earlier) <= elapsed_ms(started_at_ms, later),
{
}

/// A recording that is started and then stopped hands back exactly the
/// session it started with and leaves the application idle, with settings
/// and recent captures untouched.
pub proof fn lemma_start_then_stop(
    idle: App,
    recording: App,
    stopped: App,
    path: String,
    now_ms: u64,
    session: Option<RecordingSession>,
)
    requires
        idle.wf(),
        idle.state_spec() == AppState::Idle,
        recording.state_spec() == AppState::Recording,
        recording.session() == Some(RecordingSession { output_path: path, started_at_ms: now_ms }),
        recording.config_spec() == idle.config_spec(),
        recording.recent() == idle.recent(),
        stopped.state_spec() == AppState::Idle,
        stopped.session() is None,
        session == recording.session(),
        stopped.config_spec() == recording.config_spec(),
        stopped.recent() == recording.recent(),
    ensures
        session == Some(RecordingSession { output_path: path, started_at_ms: now_ms }),
        stopped.state_spec() == idle.state_spec(),
        stopped.config_spec() == idle.config_spec(),
        stopped.recent() == idle.recent(),
{
}

/// Starting a recording of either kind and stopping it through the same
/// item brings the menu back to how it was.
pub proof fn lemma_menu_start_stop_restores(kind: RecordingKind)
    ensures
        menu_after_stop(menu_after_start(initial_menu(), kind), kind) == initial_menu(),
{
}

/// While a recording runs, the item of the other kind cannot be clicked.
pub proof fn lemma_menu_locks_other_item(m: RecordingMenu)
    ensures
        !menu_after_start(m, RecordingKind::Display).region_enabled,
        !menu_after_start(m, RecordingKind::Region).record_enabled,
{
}

/// A display recording passes `-A` (record the microphone) exactly when the
/// microphone setting is on and `-C` (show the cursor) exactly when the cursor
/// setting is on; the output path comes last.
pub proof fn lemma_recording_flags_follow_settings(
    display_index: usize,
    include_cursor: bool,
    microphone: bool,
    path: Seq<char>,
)
    ensures
        ({
            let args = recording_args_spec(display_index, include_cursor, microphone, path);
            &&& args.last() == path
            &&& args.drop_last().contains("-A"@) <==> microphone
            &&& args.drop_last().contains("-C"@) <==> include_cursor
        }),
{
    reveal_strlit("-v");
    reveal_strlit("-D");
    reveal_strlit("-C");
    reveal_strlit("-A");
    let args = recording_args_spec(display_index, include_cursor, microphone, path);
    let head = args.drop_last();
    let digits = decimal((display_index + 1) as nat);
    crate::text::lemma_decimal_digits((display_index + 1) as nat);
    crate::text::lemma_decimal_nonempty((display_index + 1) as nat);
    assert(digits != "-A"@ && digits != "-C"@) by {
        assert('0' <= digits[0] <= '9');
    }
    assert("-v"@ != "-A"@ && "-D"@ != "-A"@ && "-C"@ != "-A"@) by {
        assert("-v"@[1] != "-A"@[1]);
        assert("-D"@[1] != "-A"@[1]);
        assert("-C"@[1] != "-A"@[1]);
    }
    assert("-v"@ != "-C"@ && "-D"@ != "-C"@) by {
        assert("-v"@[1] != "-C"@[1]);
        assert("-D"@[1] != "-C"@[1]);
    }
    let c: Seq<Seq<char>> = if include_cursor { seq!["-C"@] } else { Seq::empty() };
    let m: Seq<Seq<char>> = if microphone { seq!["-A"@] } else { Seq::empty() };
    assert(head =~= seq!["-v"@, "-D"@, digits] + c + m);
    if microphone {
        assert(head[head.len() - 1] == "-A"@);
    }
    if include_cursor {
        assert(head[3] == "-C"@);
    }
    if head.contains("-A"@) {
        let k = choose|k: int| 0 <= k < head.len() && head[k] == "-A"@;
        assert(k >= 3);
        if !microphone {
            assert(k == 3 && include_cursor);
        }
    }
    if head.contains("-C"@) {
        let k = choose|k: int| 0 <= k < head.len() && head[k] == "-C"@;
        assert(k >= 3);
        if !include_cursor {
            assert(head[k] == "-A"@);
        }
    }
}

/// A region recording passes `-g` (record the microphone) exactly when the
/// microphone setting is on, records the given rectangle, and ends with the
/// output path.
pub proof fn lemma_region_recording_flags_follow_settings(
    rect: Seq<char>,
    microphone: bool,
    path: Seq<char>,
)
    ensures
        ({
            let args = region_recording_args_spec(rect, microphone, path);
            &&& args.last() == path
            &&& args[1] == "-R"@ && args[2] == rect
            &&& args.len() == (if microphone { 5int } else { 4int })
            &&& microphone ==> args[3] == "-g"@
        }),
{
}

} // verus!
