use captura::config::Config;
use captura::storage::{read_clock, StorageError};
use captura::ui::{
    hotkey_command, recording_args, region_recording_args, tray_icon_rgba, App, AppCommand,
    AppState, RecordingKind, RecordingMenu, RecordingSession, ToggleAction, UiError,
};

fn on_disk(p: &[char]) -> bool {
    std::path::Path::new(&p.iter().collect::<String>()).exists()
}

fn config_in(dir: &std::path::Path) -> Config {
    let mut c = Config::default();
    c.output.folder = dir.to_str().unwrap().to_string();
    c.output.filename_template = "{type}_{index}".to_string();
    c
}

#[test]
fn recent_list_keeps_the_five_newest() {
    let mut app = App::new(Config::default());
    for i in 0..7 {
        app.add_recent_capture(format!("/p/{i}.png"));
    }
    let recent: Vec<&str> = app.recent_captures().iter().map(|s| s.as_str()).collect();
    assert_eq!(recent, vec!["/p/6.png", "/p/5.png", "/p/4.png", "/p/3.png", "/p/2.png"]);
    assert_eq!(app.last_capture().map(|s| s.as_str()), Some("/p/6.png"));
}

#[test]
fn no_recent_capture_at_start() {
    let app = App::new(Config::default());
    assert!(app.recent_captures().is_empty());
    assert_eq!(app.last_capture(), None);
    assert_eq!(app.state(), AppState::Idle);
}

#[test]
fn screenshot_job() {
    let tmp = tempfile::tempdir().unwrap();
    let mut app = App::new(config_in(tmp.path()));
    let job = app.take_screenshot(1, &read_clock(), on_disk).unwrap();
    assert!(job.path.ends_with("/screenshot_001.png"));
    assert_eq!(job.args, vec!["-C".to_string(), "-D".to_string(), "1".to_string(), job.path.clone()]);
    let actions = app.capture_saved(job.path.clone());
    assert!(actions.show_notification);
    assert!(!actions.reveal_in_finder);
    assert!(!actions.copy_to_clipboard);
    assert_eq!(app.recent_captures(), &vec![job.path]);
}

#[test]
fn region_screenshot_path() {
    let tmp = tempfile::tempdir().unwrap();
    let mut app = App::new(config_in(tmp.path()));
    let path = app.take_region_screenshot_interactive(1, &read_clock(), on_disk).unwrap();
    assert!(path.ends_with("/region_001.png"));
}

#[test]
fn recording_cycle() {
    let tmp = tempfile::tempdir().unwrap();
    let mut config = config_in(tmp.path());
    config.recording.capture_microphone = true;
    let mut app = App::new(config);
    assert_eq!(app.toggle_action(), ToggleAction::Start);
    let job = app.start_recording(1, &read_clock(), on_disk).unwrap().unwrap();
    assert!(job.path.ends_with("/recording_001.mp4"));
    assert_eq!(job.args, vec!["-v", "-D", "1", "-C", "-A", job.path.as_str()]);
    assert_eq!(app.state(), AppState::Idle);
    app.recording_started(job.path.clone(), 1_000);
    assert_eq!(app.state(), AppState::Recording);
    assert_eq!(app.toggle_action(), ToggleAction::Stop);
    assert_eq!(app.recording_elapsed_ms(3_500), Some(2_500));
    // Starting again while recording does nothing.
    assert_eq!(app.start_recording(1, &read_clock(), on_disk), Ok(None));
    assert_eq!(app.start_region_recording("0,0,10,10", 1, &read_clock(), on_disk), Ok(None));
    let session = app.stop_recording();
    assert_eq!(session, Some(RecordingSession { output_path: job.path.clone(), started_at_ms: 1_000 }));
    assert_eq!(app.state(), AppState::Idle);
    assert_eq!(app.recording_elapsed_ms(4_000), None);
    assert_eq!(app.stop_recording(), None);
}

#[test]
fn region_recording_job() {
    let tmp = tempfile::tempdir().unwrap();
    let mut app = App::new(config_in(tmp.path()));
    let job = app.start_region_recording("10,20,300,200", 1, &read_clock(), on_disk).unwrap().unwrap();
    assert_eq!(job.args, vec!["-v", "-R", "10,20,300,200", job.path.as_str()]);
}

#[test]
fn bad_template_surfaces_as_storage_error() {
    let tmp = tempfile::tempdir().unwrap();
    let mut config = config_in(tmp.path());
    config.output.filename_template = "".to_string();
    let mut app = App::new(config);
    assert_eq!(
        app.take_screenshot(1, &read_clock(), on_disk),
        Err(UiError::Storage(StorageError::InvalidTemplate(
            "template produced empty filename".to_string()
        )))
    );
}

#[test]
fn update_config_changes_paths_but_not_state() {
    let tmp = tempfile::tempdir().unwrap();
    let mut app = App::new(config_in(tmp.path()));
    app.add_recent_capture("/old.png".to_string());
    let mut next = config_in(tmp.path());
    next.output.screenshot_format = "jpg".to_string();
    next.ui.copy_path_to_clipboard = true;
    app.update_config(next);
    assert!(app.post_capture_actions().copy_to_clipboard);
    let job = app.take_screenshot(1, &read_clock(), on_disk).unwrap();
    assert!(job.path.ends_with("/screenshot_001.jpg"));
    assert_eq!(app.recent_captures().len(), 1);
    assert_eq!(app.capture_folder(), tmp.path().to_str().unwrap());
}

#[test]
fn command_arguments() {
    assert_eq!(recording_args(1, false, false, "/o.mp4"), vec!["-v", "-D", "2", "/o.mp4"]);
    assert_eq!(region_recording_args("1,2,3,4", true, "/o.mp4"), vec!["-v", "-R", "1,2,3,4", "-g", "/o.mp4"]);
}

#[test]
fn menu_labels_follow_recording() {
    let mut menu = RecordingMenu::new();
    assert_eq!(menu.record_label(), "Start Recording          Ctrl+Shift+3");
    assert_eq!(menu.region_label(), "Record Region             Ctrl+Shift+4");
    menu.recording_started(RecordingKind::Display);
    assert_eq!(menu.record_label(), "● Stop Recording          Ctrl+Shift+3");
    assert!(!menu.region_enabled);
    menu.recording_stopped(RecordingKind::Display);
    assert_eq!(menu, RecordingMenu::new());
    menu.recording_started(RecordingKind::Region);
    assert_eq!(menu.region_label(), "● Stop Recording          Ctrl+Shift+4");
    assert!(!menu.record_enabled);
    menu.recording_stopped(RecordingKind::Region);
    assert_eq!(menu, RecordingMenu::new());
}

#[test]
fn hotkey_names_map_to_commands() {
    assert!(matches!(hotkey_command("screenshot"), Some(AppCommand::TakeScreenshot)));
    assert!(matches!(hotkey_command("toggle_recording"), Some(AppCommand::ToggleRecording)));
    assert!(matches!(hotkey_command("region_screenshot"), Some(AppCommand::TakeRegionScreenshot)));
    assert!(matches!(hotkey_command("region_recording"), Some(AppCommand::ToggleRegionRecording)));
    assert!(hotkey_command("other").is_none());
}

fn pixel(rgba: &[u8], x: usize, y: usize) -> [u8; 4] {
    let i = (y * 22 + x) * 4;
    [rgba[i], rgba[i + 1], rgba[i + 2], rgba[i + 3]]
}

#[test]
fn tray_icon_pixels() {
    let rgba = tray_icon_rgba();
    assert_eq!(rgba.len(), 22 * 22 * 4);
    assert_eq!(pixel(&rgba, 0, 0), [0, 0, 0, 0]);
    assert_eq!(pixel(&rgba, 3, 8), [255, 255, 255, 200]);
    assert_eq!(pixel(&rgba, 10, 5), [255, 255, 255, 200]);
    assert_eq!(pixel(&rgba, 11, 13), [255, 255, 255, 0]);
    assert_eq!(pixel(&rgba, 13, 14), [255, 255, 255, 0]);
    assert_eq!(pixel(&rgba, 13, 15), [255, 255, 255, 200]);
    assert_eq!(pixel(&rgba, 20, 18), [0, 0, 0, 0]);
    // Same drawing as with a floating-point distance test.
    for y in 0..22usize {
        for x in 0..22usize {
            let body = (8..=18).contains(&y) && (3..=19).contains(&x);
            let bump = (5..=8).contains(&y) && (8..=14).contains(&x);
            let dx = x as f64 - 11.0;
            let dy = y as f64 - 13.0;
            let lens = (9..=17).contains(&y) && (7..=15).contains(&x) && (dx * dx + dy * dy).sqrt() <= 2.5;
            let expected = if body || bump {
                [255, 255, 255, if lens { 0 } else { 200 }]
            } else {
                [0, 0, 0, 0]
            };
            assert_eq!(pixel(&rgba, x, y), expected, "pixel {x},{y}");
        }
    }
}

#[test]
fn finished_recording_joins_recent_only_when_written() {
    let tmp = tempfile::tempdir().unwrap();
    let mut app = App::new(config_in(tmp.path()));
    assert_eq!(app.capture_finished("/r.mp4".to_string(), false), None);
    assert!(app.recent_captures().is_empty());
    let actions = app.capture_finished("/r.mp4".to_string(), true).unwrap();
    assert!(actions.show_notification);
    assert_eq!(app.recent_captures(), &vec!["/r.mp4".to_string()]);
}

#[test]
fn recent_list_keeps_the_last_five() {
    let tmp = tempfile::tempdir().unwrap();
    let mut app = App::new(config_in(tmp.path()));
    for i in 1..=7 {
        app.add_recent_capture(format!("/c{i}.png"));
    }
    let expected: Vec<String> = (3..=7).rev().map(|i| format!("/c{i}.png")).collect();
    assert_eq!(app.recent_captures(), &expected);
}

#[test]
fn elapsed_time_grows_with_the_clock() {
    let tmp = tempfile::tempdir().unwrap();
    let mut app = App::new(config_in(tmp.path()));
    app.recording_started("/r.mp4".to_string(), 1_000);
    assert_eq!(app.recording_elapsed_ms(500), Some(0));
    assert_eq!(app.recording_elapsed_ms(1_000), Some(0));
    assert_eq!(app.recording_elapsed_ms(1_250), Some(250));
}
