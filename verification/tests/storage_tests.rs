use captura::config::OutputConfig;
use captura::paths::build_file_path;
use captura::storage::{
    collision_step, first_free, hms_string, numbered, resolve_file_name, ymd_string, CaptureType,
    ClockReading, CollisionStep, StorageError, StorageManager,
};
use chrono::{Datelike, NaiveDate, Timelike};
use std::path::{Path, PathBuf};

fn test_config(dir: &Path) -> OutputConfig {
    OutputConfig {
        folder: dir.to_str().unwrap().to_string(),
        filename_template: "{type}_{date}_{time}".to_string(),
        screenshot_format: "png".to_string(),
        video_format: "mp4".to_string(),
    }
}

/// Creates an empty file at `path`, kept until the handle is dropped.
fn occupy(path: &str) -> tempfile::NamedTempFile {
    let p = Path::new(path);
    let name = p.file_name().unwrap().to_str().unwrap();
    tempfile::Builder::new()
        .prefix(name)
        .suffix("")
        .rand_bytes(0)
        .tempfile_in(p.parent().unwrap())
        .unwrap()
}

fn chars(s: &str) -> Vec<char> {
    s.chars().collect()
}

fn text(v: &[char]) -> String {
    v.iter().collect()
}

#[test]
fn test_resolve_path_screenshot() {
    let tmp = tempfile::tempdir().unwrap();
    let mgr = StorageManager::new(test_config(tmp.path()));
    let path = mgr.resolve_path(CaptureType::Screenshot, 1).unwrap();
    assert!(path.contains("screenshot_"));
    assert_eq!(Path::new(&path).extension().unwrap(), "png");
}

#[test]
fn test_resolve_path_recording() {
    let tmp = tempfile::tempdir().unwrap();
    let mgr = StorageManager::new(test_config(tmp.path()));
    let path = mgr.resolve_path(CaptureType::Recording, 1).unwrap();
    assert!(path.contains("recording_"));
    assert_eq!(Path::new(&path).extension().unwrap(), "mp4");
}

#[test]
fn test_resolve_path_region() {
    let tmp = tempfile::tempdir().unwrap();
    let mgr = StorageManager::new(test_config(tmp.path()));
    let path = mgr.resolve_path(CaptureType::RegionScreenshot, 1).unwrap();
    assert!(path.contains("region_"));
    assert_eq!(Path::new(&path).extension().unwrap(), "png");
}

#[test]
fn test_collision_avoidance() {
    let tmp = tempfile::tempdir().unwrap();
    let config = OutputConfig {
        folder: tmp.path().to_str().unwrap().to_string(),
        filename_template: "fixed_name".to_string(),
        screenshot_format: "png".to_string(),
        video_format: "mp4".to_string(),
    };
    let mgr = StorageManager::new(config);

    let p1 = mgr.resolve_path(CaptureType::Screenshot, 1).unwrap();
    let _existing = occupy(&p1);

    let p2 = mgr.resolve_path(CaptureType::Screenshot, 2).unwrap();
    assert_ne!(p1, p2);
    assert!(p2.contains("_2"));
    let folder = tmp.path().to_str().unwrap();
    assert_eq!(p1, format!("{folder}/fixed_name.png"));
    assert_eq!(p2, format!("{folder}/fixed_name_2.png"));
}

#[test]
fn test_all_tokens_expanded() {
    let tmp = tempfile::tempdir().unwrap();
    let config = OutputConfig {
        folder: tmp.path().to_str().unwrap().to_string(),
        filename_template: "{type}_{date}_{time}_{timestamp}_{index}".to_string(),
        screenshot_format: "png".to_string(),
        video_format: "mp4".to_string(),
    };
    let mgr = StorageManager::new(config);
    let path = mgr.resolve_path(CaptureType::Screenshot, 1).unwrap();
    let name = Path::new(&path).file_stem().unwrap().to_str().unwrap().to_string();

    assert!(!name.contains("{type}"));
    assert!(!name.contains("{date}"));
    assert!(!name.contains("{time}"));
    assert!(!name.contains("{timestamp}"));
    assert!(!name.contains("{index}"));
}

#[test]
fn expands_each_token_with_given_values() {
    let name = resolve_file_name(
        "{type}_{date}_{time}_{timestamp}_{index}",
        CaptureType::Recording,
        "2025-11-01",
        "14-32-07",
        1730468927,
        7,
    )
    .unwrap();
    assert_eq!(name, "recording_2025-11-01_14-32-07_1730468927_007");
}

#[test]
fn index_pads_to_three_digits_but_not_beyond() {
    let name = |i: u32| resolve_file_name("{index}", CaptureType::Screenshot, "", "", 0, i).unwrap();
    assert_eq!(name(0), "000");
    assert_eq!(name(42), "042");
    assert_eq!(name(1234), "1234");
    assert_eq!(name(u32::MAX), "4294967295");
}

#[test]
fn negative_timestamp_keeps_its_sign() {
    let name =
        resolve_file_name("t{timestamp}", CaptureType::Screenshot, "", "", -120, 1).unwrap();
    assert_eq!(name, "t-120");
    let name =
        resolve_file_name("t{timestamp}", CaptureType::Screenshot, "", "", i64::MIN, 1).unwrap();
    assert_eq!(name, format!("t{}", i64::MIN));
}

#[test]
fn tokens_are_replaced_in_order() {
    // `{type}` is expanded first, so a type token cannot hide a later token.
    let name = resolve_file_name("{ty{date}pe}", CaptureType::Screenshot, "D", "T", 0, 1).unwrap();
    assert_eq!(name, "{tyDpe}");
    let name = resolve_file_name("{type}{type}", CaptureType::RegionScreenshot, "", "", 0, 1)
        .unwrap();
    assert_eq!(name, "regionregion");
}

#[test]
fn template_errors() {
    assert_eq!(
        resolve_file_name("", CaptureType::Screenshot, "", "", 0, 1),
        Err(StorageError::InvalidTemplate("template produced empty filename".to_string()))
    );
    assert_eq!(
        resolve_file_name("{date}", CaptureType::Screenshot, "", "", 0, 1),
        Err(StorageError::InvalidTemplate("template produced empty filename".to_string()))
    );
    assert_eq!(
        resolve_file_name("a/{type}", CaptureType::Screenshot, "", "", 0, 1),
        Err(StorageError::InvalidTemplate(
            "template produced invalid filename: a/screenshot".to_string()
        ))
    );
    assert_eq!(
        resolve_file_name("x\0y", CaptureType::Screenshot, "", "", 0, 1),
        Err(StorageError::InvalidTemplate("template produced invalid filename: x\0y".to_string()))
    );
    assert_eq!(resolve_file_name(".", CaptureType::Screenshot, "", "", 0, 1), Ok(".".to_string()));
}

#[test]
fn numbered_names() {
    assert_eq!(text(&numbered(&chars("shot"), 0)), "shot");
    assert_eq!(text(&numbered(&chars("shot"), 2)), "shot_2");
    assert_eq!(text(&numbered(&chars("shot"), 10)), "shot_10");
}

fn std_path(folder: &str, name: &str, ext: &str) -> String {
    PathBuf::from(folder).join(name).with_extension(ext).to_str().unwrap().to_string()
}

fn model_path(folder: &str, name: &str, ext: &str) -> String {
    text(&build_file_path(&chars(folder), &chars(name), &chars(ext)))
}

#[test]
fn path_model_agrees_with_std_paths() {
    let folders = [
        "/tmp/out", "/tmp/out/", "rel", "", "/", "/tmp/out/.", "/tmp/x.y", "/tmp/.hid", "a/..",
        ".", "./", "a//", "a/./.", "..", "/tmp/a.b.c/",
    ];
    let names = [
        "shot", "a.b", "a.b.c", ".hidden", ".hidden.txt", "a.", "..", "x_2", "a.b_2", "...", ".",
    ];
    let exts = ["png", "mp4", ""];
    for folder in folders {
        for name in names {
            for ext in exts {
                assert_eq!(model_path(folder, name, ext), std_path(folder, name, ext), "{folder} {name} {ext}");
            }
        }
    }
}

#[test]
fn dotted_names_lose_their_last_extension() {
    assert_eq!(model_path("/d", "a.b", "png"), "/d/a.png");
    assert_eq!(model_path("/d", "a.b_2", "png"), "/d/a.png");
    assert_eq!(model_path("/d", "..", "png"), "/d/..");
}

#[test]
fn index_comes_from_the_caller() {
    let tmp = tempfile::tempdir().unwrap();
    let config = OutputConfig {
        folder: tmp.path().to_str().unwrap().to_string(),
        filename_template: "n{index}".to_string(),
        screenshot_format: "png".to_string(),
        video_format: "mp4".to_string(),
    };
    let first = StorageManager::new(config.clone());
    let second = StorageManager::new(config);
    let a = first.resolve_path(CaptureType::Screenshot, 1).unwrap();
    let b = second.resolve_path(CaptureType::Recording, 2).unwrap();
    assert!(a.ends_with("n001.png"));
    assert!(b.ends_with("n002.mp4"));
}

#[test]
fn invalid_template_is_reported_by_resolve_path() {
    let tmp = tempfile::tempdir().unwrap();
    let mut config = test_config(tmp.path());
    config.filename_template = "bad/{type}".to_string();
    let mgr = StorageManager::new(config);
    assert_eq!(
        mgr.resolve_path(CaptureType::Screenshot, 1),
        Err(StorageError::InvalidTemplate(
            "template produced invalid filename: bad/screenshot".to_string()
        ))
    );
}

#[test]
fn collision_suffix_counts_up() {
    let tmp = tempfile::tempdir().unwrap();
    let mut config = test_config(tmp.path());
    config.filename_template = "same".to_string();
    let mgr = StorageManager::new(config);
    let first = mgr.resolve_path(CaptureType::Screenshot, 1).unwrap();
    let _a = occupy(&first);
    let second = mgr.resolve_path(CaptureType::Screenshot, 2).unwrap();
    let _b = occupy(&second);
    let third = mgr.resolve_path(CaptureType::Screenshot, 3).unwrap();
    assert_eq!(first, format!("{}/same.png", tmp.path().to_str().unwrap()));
    assert_eq!(second, format!("{}/same_2.png", tmp.path().to_str().unwrap()));
    assert!(first.ends_with("/same.png"));
    assert!(second.ends_with("/same_2.png"));
    assert!(third.ends_with("/same_3.png"));
}

#[test]
fn update_config_acts_as_a_new_manager() {
    let tmp = tempfile::tempdir().unwrap();
    let mut config = test_config(tmp.path());
    config.filename_template = "{index}".to_string();
    let mut mgr = StorageManager::new(config.clone());
    let a = mgr.resolve_path(CaptureType::Screenshot, 1).unwrap();
    config.screenshot_format = "jpg".to_string();
    mgr.update_config(config.clone());
    let b = mgr.resolve_path(CaptureType::Screenshot, 2).unwrap();
    let c = StorageManager::new(config).resolve_path(CaptureType::Screenshot, 2).unwrap();
    assert!(a.ends_with("/001.png"));
    assert!(b.ends_with("/002.jpg"));
    assert_eq!(b, c);
}

#[test]
fn capture_type_tokens_and_extensions() {
    let config = test_config(Path::new("/x"));
    assert_eq!(CaptureType::Screenshot.type_token(), "screenshot");
    assert_eq!(CaptureType::Recording.type_token(), "recording");
    assert_eq!(CaptureType::RegionScreenshot.type_token(), "region");
    assert_eq!(CaptureType::Screenshot.extension(&config), "png");
    assert_eq!(CaptureType::RegionScreenshot.extension(&config), "png");
    assert_eq!(CaptureType::Recording.extension(&config), "mp4");
}

#[test]
fn dot_template_gives_the_path_std_builds() {
    let tmp = tempfile::tempdir().unwrap();
    let folder = tmp.path().join("out").to_str().unwrap().to_string();
    let mut config = test_config(Path::new(&folder));
    config.filename_template = ".".to_string();
    let path = StorageManager::new(config).resolve_path(CaptureType::Screenshot, 1).unwrap();
    assert_eq!(path, std_path(&folder, ".", "png"));
    assert_eq!(path, format!("{}.png", folder));
}

fn reading(year: i32, month: u32, day: u32, hour: u32, minute: u32, second: u32, nanosecond: u32) -> ClockReading {
    ClockReading { year, month, day, hour, minute, second, nanosecond, timestamp: 0 }
}

#[test]
fn clock_texts() {
    assert_eq!(ymd_string(&reading(2025, 11, 1, 0, 0, 0, 0)), "2025-11-01");
    assert_eq!(ymd_string(&reading(5, 1, 9, 0, 0, 0, 0)), "0005-01-09");
    assert_eq!(ymd_string(&reading(-1, 12, 31, 0, 0, 0, 0)), "-0001-12-31");
    assert_eq!(ymd_string(&reading(10000, 1, 1, 0, 0, 0, 0)), "+10000-01-01");
    assert_eq!(hms_string(&reading(2025, 1, 1, 14, 3, 7, 0)), "14-03-07");
    assert_eq!(hms_string(&reading(2025, 1, 1, 23, 59, 59, 1_500_000_000)), "23-59-60");
}

#[test]
fn clock_texts_agree_with_chrono() {
    let cases = [
        (2025, 11, 1, 14, 32, 7),
        (1, 1, 1, 0, 0, 0),
        (999, 2, 28, 9, 5, 3),
        (-44, 3, 15, 12, 0, 0),
        (12345, 6, 30, 23, 59, 59),
        (-262143, 1, 1, 0, 0, 0),
        (262142, 12, 31, 23, 59, 59),
    ];
    for (y, mo, d, h, mi, se) in cases {
        let dt = NaiveDate::from_ymd_opt(y, mo, d).unwrap().and_hms_opt(h, mi, se).unwrap();
        let t = ClockReading {
            year: dt.year(),
            month: dt.month(),
            day: dt.day(),
            hour: dt.hour(),
            minute: dt.minute(),
            second: dt.second(),
            nanosecond: dt.nanosecond(),
            timestamp: 0,
        };
        assert_eq!(ymd_string(&t), dt.format("%Y-%m-%d").to_string());
        assert_eq!(hms_string(&t), dt.format("%H-%M-%S").to_string());
    }
}

#[test]
fn date_and_time_tokens_come_from_the_clock() {
    let tmp = tempfile::tempdir().unwrap();
    let mut config = test_config(tmp.path());
    config.filename_template = "{date}".to_string();
    let before = chrono::Local::now().format("%Y-%m-%d").to_string();
    let path = StorageManager::new(config).resolve_path(CaptureType::Screenshot, 1).unwrap();
    let after = chrono::Local::now().format("%Y-%m-%d").to_string();
    let name = Path::new(&path).file_stem().unwrap().to_str().unwrap().to_string();
    assert!(name == before || name == after);
}

#[test]
fn collision_steps() {
    assert_eq!(collision_step(0, false), CollisionStep::Use(0));
    assert_eq!(collision_step(0, true), CollisionStep::Try(2));
    assert_eq!(collision_step(2, true), CollisionStep::Try(3));
    assert_eq!(collision_step(7, false), CollisionStep::Use(7));
    assert_eq!(collision_step(u32::MAX, true), CollisionStep::GiveUp);
    assert_eq!(collision_step(u32::MAX, false), CollisionStep::Use(u32::MAX));
}

#[test]
fn first_free_is_the_least_free_attempt() {
    assert_eq!(first_free(|_| false), Some(0));
    assert_eq!(first_free(|n| n == 0), Some(2));
    assert_eq!(first_free(|n| n < 5), Some(5));
    assert_eq!(first_free(|n| n != 9), Some(9));
    assert_eq!(first_free(|n| n < 1000 || n == 1001), Some(1000));
}

fn taken_among(paths: &[&str]) -> impl Fn(&[char]) -> bool {
    let owned: Vec<String> = paths.iter().map(|p| p.to_string()).collect();
    move |p: &[char]| owned.contains(&p.iter().collect::<String>())
}

#[test]
fn resolve_path_in_returns_the_first_free_candidate() {
    let config = OutputConfig {
        folder: "/out".to_string(),
        filename_template: "shot_{date}_{time}_{timestamp}_{index}".to_string(),
        screenshot_format: "png".to_string(),
        video_format: "mp4".to_string(),
    };
    let mgr = StorageManager::new(config);
    let now = ClockReading {
        year: 2025,
        month: 11,
        day: 1,
        hour: 14,
        minute: 32,
        second: 7,
        nanosecond: 0,
        timestamp: 1730468000,
    };
    let bare = "/out/shot_2025-11-01_14-32-07_1730468000_007.png";
    let second = "/out/shot_2025-11-01_14-32-07_1730468000_007_2.png";
    let third = "/out/shot_2025-11-01_14-32-07_1730468000_007_3.png";
    assert_eq!(mgr.resolve_path_in(CaptureType::Screenshot, 7, &now, taken_among(&[])), Ok(bare.to_string()));
    assert_eq!(
        mgr.resolve_path_in(CaptureType::Screenshot, 7, &now, taken_among(&[bare])),
        Ok(second.to_string())
    );
    assert_eq!(
        mgr.resolve_path_in(CaptureType::Screenshot, 7, &now, taken_among(&[bare, second])),
        Ok(third.to_string())
    );
    assert_eq!(
        mgr.resolve_path_in(CaptureType::Screenshot, 7, &now, taken_among(&[second])),
        Ok(bare.to_string())
    );
    assert_eq!(
        mgr.resolve_path_in(CaptureType::Recording, 7, &now, taken_among(&[bare])),
        Ok("/out/shot_2025-11-01_14-32-07_1730468000_007.mp4".to_string())
    );
}

#[test]
fn resolve_path_in_reports_the_template_error_before_asking() {
    let config = OutputConfig {
        folder: "/out".to_string(),
        filename_template: "{date}".to_string(),
        screenshot_format: "png".to_string(),
        video_format: "mp4".to_string(),
    };
    let now = ClockReading {
        year: 2025, month: 1, day: 2, hour: 3, minute: 4, second: 5, nanosecond: 0, timestamp: 0,
    };
    let mut bad = config.clone();
    bad.filename_template = "a/{index}".to_string();
    assert_eq!(
        StorageManager::new(bad).resolve_path_in(CaptureType::Screenshot, 3, &now, |_: &[char]| panic!("asked")),
        Err(StorageError::InvalidTemplate("template produced invalid filename: a/003".to_string()))
    );
    assert_eq!(
        StorageManager::new(config).resolve_path_in(CaptureType::Screenshot, 3, &now, taken_among(&[])),
        Ok("/out/2025-01-02.png".to_string())
    );
}
