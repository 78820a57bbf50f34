//! Application settings, their defaults, where the settings file lives, and
//! the debounce rule applied to change notifications for that file.
use vstd::prelude::*;
use crate::paths::{join_chars, join_path};
use crate::text::{chars_of, string_of};

verus! {

/// All settings, one section per concern.
#[derive(Debug, PartialEq, Eq)]
pub struct Config {
    pub output: OutputConfig,
    pub capture: CaptureConfig,
    pub recording: RecordingConfig,
    pub hotkeys: HotkeyConfig,
    pub ui: UiConfig,
}

/// Where captures are written and how they are named.
#[derive(Debug, PartialEq, Eq)]
pub struct OutputConfig {
    pub folder: String,
    pub filename_template: String,
    pub screenshot_format: String,
    pub video_format: String,
}

/// How screenshots are taken.
#[derive(Debug, Clone, Copy, PartialEq, Eq)]
pub struct CaptureConfig {
    pub include_cursor: bool,
    pub screenshot_delay_ms: u64,
    pub display_index: usize,
}

/// How recordings are made.
#[derive(Debug, Clone, Copy, PartialEq, Eq)]
pub struct RecordingConfig {
    pub fps: u32,
    pub bitrate_kbps: u32,
    pub capture_microphone: bool,
    pub capture_system_audio: bool,
    pub max_duration_secs: u64,
}

/// The global shortcut for each action; an empty string disables it.
#[derive(Debug, PartialEq, Eq)]
pub struct HotkeyConfig {
    pub screenshot: String,
    pub toggle_recording: String,
    pub region_screenshot: String,
    pub region_recording: String,
}

/// What happens after a capture is saved.
#[derive(Debug, Clone, Copy, PartialEq, Eq)]
pub struct UiConfig {
    pub show_save_notification: bool,
    pub reveal_in_finder: bool,
    pub copy_path_to_clipboard: bool,
}

impl Clone for OutputConfig {
    fn clone(&self) -> (r: Self)
        ensures
            r == *self,
    {
        OutputConfig {
            folder: self.folder.clone(),
            filename_template: self.filename_template.clone(),
            screenshot_format: self.screenshot_format.clone(),
            video_format: self.video_format.clone(),
        }
    }
}

impl Clone for HotkeyConfig {
    fn clone(&self) -> (r: Self)
        ensures
            r == *self,
    {
        HotkeyConfig {
            screenshot: self.screenshot.clone(),
            toggle_recording: self.toggle_recording.clone(),
            region_screenshot: self.region_screenshot.clone(),
            region_recording: self.region_recording.clone(),
        }
    }
}

impl Clone for Config {
    fn clone(&self) -> (r: Self)
        ensures
            r == *self,
    {
        Config {
            output: self.output.clone(),
            capture: self.capture,
            recording: self.recording,
            hotkeys: self.hotkeys.clone(),
            ui: self.ui,
        }
    }
}

/// `dirs::picture_dir`: the user's picture folder, when the platform has one.
/// Nothing is claimed of the value, which depends on the environment. A path
/// that is not valid UTF-8 is converted lossily.
#[verifier::external_body]
fn picture_dir() -> Option<String> {
    dirs::picture_dir().map(|p| p.to_string_lossy().into_owned())
}

/// `dirs::home_dir`: the user's home folder, when it can be found.
/// Nothing is claimed of the value, which depends on the environment. A path
/// that is not valid UTF-8 is converted lossily.
#[verifier::external_body]
pub(crate) fn home_dir_path() -> Option<String> {
    dirs::home_dir().map(|p| p.to_string_lossy().into_owned())
}

/// `dirs::config_dir`: the user's configuration folder, when it can be found.
/// Nothing is claimed of the value, which depends on the environment. A path
/// that is not valid UTF-8 is converted lossily.
#[verifier::external_body]
pub(crate) fn config_dir_path() -> Option<String> {
    dirs::config_dir().map(|p| p.to_string_lossy().into_owned())
}

/// The contents of an optional string, empty when absent.
pub open spec fn or_empty(s: Option<Seq<char>>) -> Seq<char> {
    match s {
        Some(v) => v,
        None => Seq::empty(),
    }
}

/// Default capture folder: `Captura` inside the picture folder, or inside
/// `Pictures` under the home folder (or under the current directory when
/// neither is known).
pub open spec fn default_folder_spec(picture: Option<Seq<char>>, home: Option<Seq<char>>) -> Seq<
    char,
> {
    let base = match picture {
        Some(p) => p,
        None => join_path(or_empty(home), "Pictures"@),
    };
    join_path(base, "Captura"@)
}

/// Location of the settings file: `captura/config.toml` inside the
/// configuration folder, or inside `.config` under the home folder.
pub open spec fn config_path_spec(config: Option<Seq<char>>, home: Option<Seq<char>>) -> Seq<char> {
    let base = match config {
        Some(c) => c,
        None => join_path(or_empty(home), ".config"@),
    };
    join_path(join_path(base, "captura"@), "config.toml"@)
}

pub(crate) fn join_str(base: &String, name: &str) -> (r: String)
    ensures
        r@ == join_path(base@, name@),
{
    let b = chars_of(base.as_str());
    let n = chars_of(name);
    string_of(&join_chars(&b, &n))
}

pub(crate) fn home_or_empty(home: Option<String>) -> (r: String)
    ensures
        r@ == or_empty(match home {
            Some(h) => Some(h@),
            None => None,
        }),
{
    match home {
        Some(h) => h,
        None => String::new(),
    }
}

pub open spec fn opt_view(s: Option<String>) -> Option<Seq<char>> {
    match s {
        Some(v) => Some(v@),
        None => None,
    }
}

/// The default capture folder, given what the platform reports for the
/// picture folder and the home folder.
pub fn default_folder(picture: Option<String>, home: Option<String>) -> (r: String)
    ensures
        r@ == default_folder_spec(opt_view(picture), opt_view(home)),
{
    let base = match picture {
        Some(p) => p,
        None => join_str(&home_or_empty(home), "Pictures"),
    };
    join_str(&base, "Captura")
}

/// The settings file location, given what the platform reports for the
/// configuration folder and the home folder.
pub fn config_path_from(config: Option<String>, home: Option<String>) -> (r: String)
    ensures
        r@ == config_path_spec(opt_view(config), opt_view(home)),
{
    let base = match config {
        Some(c) => c,
        None => join_str(&home_or_empty(home), ".config"),
    };
    join_str(&join_str(&base, "captura"), "config.toml")
}

impl Default for OutputConfig {
    fn default() -> (r: Self)
        ensures
            exists|picture: Option<Seq<char>>, home: Option<Seq<char>>|
                r.folder@ == default_folder_spec(picture, home),
            r.filename_template@ == "{type}_{date}_{time}"@,
            r.screenshot_format@ == "png"@,
            r.video_format@ == "mp4"@,
    {
        let picture = picture_dir();
        let home = if picture.is_none() {
            home_dir_path()
        } else {
            None
        };
        let ghost (p, h) = (opt_view(picture), opt_view(home));
        let folder = default_folder(picture, home);
        OutputConfig {
            folder,
            filename_template: String::from_str("{type}_{date}_{time}"),
            screenshot_format: String::from_str("png"),
            video_format: String::from_str("mp4"),
        }
    }
}

impl Default for CaptureConfig {
    fn default() -> (r: Self)
        ensures
            r.include_cursor,
            r.screenshot_delay_ms == 0,
            r.display_index == 0,
    {
        CaptureConfig { include_cursor: true, screenshot_delay_ms: 0, display_index: 0 }
    }
}

impl Default for RecordingConfig {
    fn default() -> (r: Self)
        ensures
            r.fps == 30,
            r.bitrate_kbps == 0,
            !r.capture_microphone,
            !r.capture_system_audio,
            r.max_duration_secs == 0,
    {
        RecordingConfig {
            fps: 30,
            bitrate_kbps: 0,
            capture_microphone: false,
            capture_system_audio: false,
            max_duration_secs: 0,
        }
    }
}

impl Default for HotkeyConfig {
    fn default() -> (r: Self)
        ensures
            r.screenshot@ == "Ctrl+Shift+1"@,
            r.toggle_recording@ == "Ctrl+Shift+3"@,
            r.region_screenshot@ == "Ctrl+Shift+2"@,
            r.region_recording@ == "Ctrl+Shift+4"@,
    {
        HotkeyConfig {
            screenshot: String::from_str("Ctrl+Shift+1"),
            toggle_recording: String::from_str("Ctrl+Shift+3"),
            region_screenshot: String::from_str("Ctrl+Shift+2"),
            region_recording: String::from_str("Ctrl+Shift+4"),
        }
    }
}

impl Default for UiConfig {
    fn default() -> (r: Self)
        ensures
            r.show_save_notification,
            !r.reveal_in_finder,
            !r.copy_path_to_clipboard,
    {
        UiConfig { show_save_notification: true, reveal_in_finder: false, copy_path_to_clipboard: false }
    }
}

/// The settings every section starts from.
pub open spec fn is_default_config(c: Config) -> bool {
    &&& exists|picture: Option<Seq<char>>, home: Option<Seq<char>>|
        c.output.folder@ == default_folder_spec(picture, home)
    &&& c.output.filename_template@ == "{type}_{date}_{time}"@
    &&& c.output.screenshot_format@ == "png"@
    &&& c.output.video_format@ == "mp4"@
    &&& c.capture == CaptureConfig { include_cursor: true, screenshot_delay_ms: 0, display_index: 0 }
    &&& c.recording == RecordingConfig {
        fps: 30,
        bitrate_kbps: 0,
        capture_microphone: false,
        capture_system_audio: false,
        max_duration_secs: 0,
    }
    &&& c.hotkeys.screenshot@ == "Ctrl+Shift+1"@
    &&& c.hotkeys.toggle_recording@ == "Ctrl+Shift+3"@
    &&& c.hotkeys.region_screenshot@ == "Ctrl+Shift+2"@
    &&& c.hotkeys.region_recording@ == "Ctrl+Shift+4"@
    &&& c.ui == UiConfig {
        show_save_notification: true,
        reveal_in_finder: false,
        copy_path_to_clipboard: false,
    }
}

impl Default for Config {
    fn default() -> (r: Self)
        ensures
            is_default_config(r),
    {
        Config {
            output: OutputConfig::default(),
            capture: CaptureConfig::default(),
            recording: RecordingConfig::default(),
            hotkeys: HotkeyConfig::default(),
            ui: UiConfig::default(),
        }
    }
}

impl Config {
    /// Return the path to the config file.
    pub fn config_path() -> (r: String)
        ensures
            exists|config: Option<Seq<char>>, home: Option<Seq<char>>|
                r@ == config_path_spec(config, home),
    {
        let config = config_dir_path();
        let home = if config.is_none() {
            home_dir_path()
        } else {
            None
        };
        let ghost (c, h) = (opt_view(config), opt_view(home));
        config_path_from(config, home)
    }
}

/// Minimum time between two reloads triggered by file-change notifications.
pub const RELOAD_DEBOUNCE_MS: u64 = 200;

/// Decides which change notifications for the settings file lead to a reload:
/// only modifications or creations of the file itself count, reloads are at
/// least one debounce interval apart, and a change that comes too soon after
/// a reload is held back and reported once the interval has passed, so no
/// change is lost.
pub struct ReloadDebouncer {
    last_fire_ms: Option<u64>,
    pending: bool,
}

impl ReloadDebouncer {
    /// Time of the last reload, if any.
    pub closed spec fn last_fire(self) -> Option<u64> {
        self.last_fire_ms
    }

    /// Whether a change was held back and not reported yet.
    pub closed spec fn held(self) -> bool {
        self.pending
    }

    /// Whether a reload at `now_ms` is far enough from the last reload.
    pub open spec fn ready(last: Option<u64>, now_ms: u64) -> bool {
        match last {
            None => true,
            Some(l) => now_ms >= l + RELOAD_DEBOUNCE_MS,
        }
    }

    /// The state after a notification at `now_ms` (`relevant` when it is a
    /// change of the settings file), and whether it reloads.
    pub closed spec fn after_observe(self, relevant: bool, now_ms: u64) -> (Self, bool) {
        if relevant && Self::ready(self.last_fire_ms, now_ms) {
            (ReloadDebouncer { last_fire_ms: Some(now_ms), pending: false }, true)
        } else if relevant {
            (ReloadDebouncer { last_fire_ms: self.last_fire_ms, pending: true }, false)
        } else {
            (self, false)
        }
    }

    /// The state after a flush at `now_ms`, and whether it reloads.
    pub closed spec fn after_flush(self, now_ms: u64) -> (Self, bool) {
        if self.pending && Self::ready(self.last_fire_ms, now_ms) {
            (ReloadDebouncer { last_fire_ms: Some(now_ms), pending: false }, true)
        } else {
            (self, false)
        }
    }

    /// A debouncer that has not let any reload through yet.
    pub fn new() -> (g: Self)
        ensures
            g.last_fire() is None,
            !g.held(),
    {
        ReloadDebouncer { last_fire_ms: None, pending: false }
    }

    fn is_ready(&self, now_ms: u64) -> (b: bool)
        ensures
            b == Self::ready(self.last_fire(), now_ms),
    {
        match self.last_fire_ms {
            None => true,
            Some(l) => now_ms >= l && now_ms - l >= RELOAD_DEBOUNCE_MS,
        }
    }

    /// Records a notification observed at `now_ms` and says whether the
    /// settings file should be reloaded now. A change of the file that is
    /// not reloaded now is held for `flush`.
    pub fn observe(&mut self, touches_config: bool, is_modify: bool, now_ms: u64) -> (fire: bool)
        ensures
            fire == (touches_config && is_modify && Self::ready(old(self).last_fire(), now_ms)),
            fire ==> final(self).last_fire() == Some(now_ms) && !final(self).held(),
            !fire ==> final(self).last_fire() == old(self).last_fire(),
            !fire ==> final(self).held() == (old(self).held() || (touches_config && is_modify)),
            (*final(self), fire) == old(self).after_observe(touches_config && is_modify, now_ms),
    {
        if touches_config && is_modify {
            if self.is_ready(now_ms) {
                self.last_fire_ms = Some(now_ms);
                self.pending = false;
                return true;
            }
            self.pending = true;
        }
        false
    }

    /// Says whether a held change should be reloaded at `now_ms`: exactly
    /// when one is held and the interval since the last reload has passed.
    pub fn flush(&mut self, now_ms: u64) -> (fire: bool)
        ensures
            fire == (old(self).held() && Self::ready(old(self).last_fire(), now_ms)),
            fire ==> final(self).last_fire() == Some(now_ms) && !final(self).held(),
            !fire ==> *final(self) == *old(self),
            (*final(self), fire) == old(self).after_flush(now_ms),
    {
        if self.pending && self.is_ready(now_ms) {
            self.last_fire_ms = Some(now_ms);
            self.pending = false;
            return true;
        }
        false
    }
}

/// The debouncer after the notifications `events` (each: whether it is a
/// change of the settings file, and when it came), in order.
pub open spec fn after_events(d: ReloadDebouncer, events: Seq<(bool, u64)>) -> ReloadDebouncer
    decreases events.len(),
{
    if events.len() == 0 {
        d
    } else {
        after_events(d, events.drop_last()).after_observe(events.last().0, events.last().1).0
    }
}

/// Whether the last change among `events` has led to a reload, when it came
/// or at a later notification (true when there is no change).
pub open spec fn last_change_reloaded(d: ReloadDebouncer, events: Seq<(bool, u64)>) -> bool
    decreases events.len(),
{
    if events.len() == 0 {
        true
    } else if after_events(d, events.drop_last()).after_observe(
        events.last().0,
        events.last().1,
    ).1 {
        true
    } else if events.last().0 {
        false
    } else {
        last_change_reloaded(d, events.drop_last())
    }
}

/// No change of the settings file is lost: after any run of notifications
/// whose last change has not been reloaded yet, that change is held, and
/// any flush one debounce interval after the last reload reloads it.
pub proof fn lemma_no_change_lost(d: ReloadDebouncer, events: Seq<(bool, u64)>, later_ms: u64)
    requires
        !last_change_reloaded(d, events),
    ensures
        after_events(d, events).held(),
        ReloadDebouncer::ready(after_events(d, events).last_fire(), later_ms) ==> after_events(
            d,
            events,
        ).after_flush(later_ms).1,
    decreases events.len(),
{
    if !events.last().0 {
        lemma_no_change_lost(d, events.drop_last(), later_ms);
    }
}

/// Two reloads allowed by the debouncer, the second observed no earlier than the
/// first, are at least the debounce interval apart.
pub proof fn lemma_reloads_are_spaced(last: Option<u64>, first: u64, second: u64)
    requires
        ReloadDebouncer::ready(last, first),
        ReloadDebouncer::ready(Some(first), second),
    ensures
        second >= first + RELOAD_DEBOUNCE_MS,
{
}

/// A reload is allowed as soon as one debounce interval has passed since the
/// last reload, however long ago that was, and always before the first.
pub proof fn lemma_ready_after_interval(last: u64, now_ms: u64)
    ensures
        ReloadDebouncer::ready(None, now_ms),
        now_ms >= last + RELOAD_DEBOUNCE_MS ==> ReloadDebouncer::ready(Some(last), now_ms),
        now_ms < last + RELOAD_DEBOUNCE_MS ==> !ReloadDebouncer::ready(Some(last), now_ms),
{
}

/// A change of the settings file reloads at once when one debounce interval
/// has passed since the last reload; any other notification never reloads.
pub proof fn lemma_observe_reloads_when_ready(d: ReloadDebouncer, relevant: bool, now_ms: u64)
    ensures
        ReloadDebouncer::ready(d.last_fire(), now_ms) ==> d.after_observe(
            true,
            now_ms,
        ).1 && d.after_observe(true, now_ms).0.last_fire() == Some(now_ms),
        !relevant ==> !d.after_observe(relevant, now_ms).1,
{
}

} // verus!
