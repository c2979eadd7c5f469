use recall_os::capture::{
    find_foreground_window, WindowInfo, capture_expired, check_capture_allowed, cleanup_old_captures, clamp_interval,
    file_name_for,
    clamp_retention, create_screenshot_document, resolution_label, scheduler_change,
    update_capture_settings, CaptureMode, CaptureResult, CaptureSettings, Capturer,
    SchedulerChange,
};
use recall_os::error::RecallError;
use recall_os::filter::{arrange_apps, AppFilter, AppFilterMode, AppInfo};
use recall_os::llm::check_upload_size;
use recall_os::models::{DocumentStatus, FileType};
use std::path::Path;
use tempfile::tempdir;

#[test]
fn test_capture_mode_parsing() {
    assert_eq!("full_screen".parse::<CaptureMode>().unwrap(), CaptureMode::FullScreen);
    assert_eq!("active_window".parse::<CaptureMode>().unwrap(), CaptureMode::ActiveWindow);
    assert_eq!("invalid".parse::<CaptureMode>().unwrap(), CaptureMode::ActiveWindow);
}

#[test]
fn test_capturer_creation() {
    let temp_dir = tempdir().unwrap();
    let capturer = Capturer::new(temp_dir.path().to_string_lossy().to_string());
    assert!(Path::new(capturer.captures_dir()).exists());
}

#[test]
fn capture_mode_names() {
    assert_eq!(CaptureMode::from_name("FullScreen"), CaptureMode::FullScreen);
    assert_eq!(CaptureMode::FullScreen.as_str(), "full_screen");
    assert_eq!(CaptureMode::ActiveWindow.as_str(), "active_window");
    assert_eq!(CaptureMode::default(), CaptureMode::ActiveWindow);
}

#[test]
fn settings_defaults_and_clamps() {
    let d = CaptureSettings::default();
    assert!(!d.enabled);
    assert_eq!(d.interval_secs, 60);
    assert_eq!(d.retention_days, 7);
    assert_eq!(d.hotkey, "Ctrl+Shift+S");
    assert_eq!(d.mode, CaptureMode::ActiveWindow);
    assert_eq!(d.filter_mode, AppFilterMode::Off);
    assert_eq!(clamp_interval(5), 30);
    assert_eq!(clamp_interval(30), 30);
    assert_eq!(clamp_interval(120), 120);
    assert_eq!(clamp_interval(301), 300);
    assert_eq!(clamp_retention(0), 1);
    assert_eq!(clamp_retention(45), 45);
    assert_eq!(clamp_retention(1000), 90);
    let s = update_capture_settings(
        true,
        10,
        "full_screen",
        "whitelist",
        vec!["code.exe".to_string()],
        400,
        "Ctrl+Alt+C".to_string(),
    );
    assert!(s.enabled);
    assert_eq!(s.interval_secs, 30);
    assert_eq!(s.mode, CaptureMode::FullScreen);
    assert_eq!(s.filter_mode, AppFilterMode::Whitelist);
    assert_eq!(s.retention_days, 90);
    assert_eq!(s.app_list, vec!["code.exe".to_string()]);
    assert_eq!(scheduler_change(false, true), SchedulerChange::Start);
    assert_eq!(scheduler_change(true, false), SchedulerChange::Stop);
    assert_eq!(scheduler_change(true, true), SchedulerChange::Keep);
    assert_eq!(scheduler_change(false, false), SchedulerChange::Keep);
}

#[test]
fn private_foreground_window_is_refused() {
    let filter = AppFilter::default();
    let app = Some(AppInfo {
        process_name: "firefox.exe".to_string(),
        window_title: "1Password – Browser".to_string(),
        is_foreground: true,
    });
    match check_capture_allowed(&filter, &app) {
        Err(RecallError::Capture(m)) => {
            assert_eq!(m, "Window '1Password – Browser' matches filter rules, skipping capture");
        }
        other => panic!("expected a capture failure, got {:?}", other),
    }
    assert!(check_capture_allowed(&filter, &None).is_ok());
    let plain = Some(AppInfo {
        process_name: "code.exe".to_string(),
        window_title: "Editor".to_string(),
        is_foreground: true,
    });
    assert!(check_capture_allowed(&filter, &plain).is_ok());
}

#[test]
fn capture_file_names() {
    let capturer = Capturer::new("/tmp/captures".to_string());
    assert_eq!(capturer.captures_dir(), "/tmp/captures");
    // 2024-03-05 14:07:09 UTC
    let t = 1_709_647_629_000_i64;
    assert_eq!(capturer.file_name(t), Some("capture_2024-03-05_14-07-09.png".to_string()));
    assert_eq!(capturer.file_name(0), Some("capture_1970-01-01_00-00-00.png".to_string()));
    assert_eq!(capturer.file_name(i64::MAX), None);
}

#[test]
fn screenshot_documents() {
    let mut result = CaptureResult {
        file_path: "/tmp/captures/capture_2024-03-05_14-07-09.png".to_string(),
        captured_at: 1_709_647_629_000,
        mode: CaptureMode::ActiveWindow,
        source_app: Some("code.exe".to_string()),
        window_title: Some("Editor".to_string()),
        width: 1920,
        height: 1080,
        file_size: 12345,
    };
    let doc = create_screenshot_document(&result, "abc".to_string(), "{}".to_string()).unwrap();
    assert_eq!(doc.title, "Screenshot - code.exe");
    assert_eq!(doc.file_type, FileType::Screenshot);
    assert_eq!(doc.status, DocumentStatus::Pending);
    assert_eq!(doc.file_size, 12345);
    assert_eq!(doc.file_hash, "abc");
    assert_eq!(doc.mime_type.as_deref(), Some("image/png"));
    assert_eq!(doc.created_at, 1_709_647_629_000);
    assert_eq!(doc.id.len(), 36);
    result.source_app = None;
    let doc2 = create_screenshot_document(&result, "abc".to_string(), "{}".to_string()).unwrap();
    assert_eq!(doc2.title, "Screenshot - 2024-03-05 14:07:09");
    assert_ne!(doc.id, doc2.id);
    assert_eq!(resolution_label(1920, 1080), "1920x1080");
    assert_eq!(resolution_label(0, 7), "0x7");
}

#[test]
fn retention() {
    let day = 86_400_000_i64;
    let now = 100 * day;
    assert!(capture_expired(now - 7 * day - 1, now, 7));
    assert!(!capture_expired(now - 7 * day, now, 7));
    assert!(!capture_expired(now, now, 7));
    assert!(!capture_expired(i64::MIN + 5, i64::MIN + 10, 1));
    let files = vec![
        ("a.png".to_string(), now - 8 * day),
        ("b.png".to_string(), now - 6 * day),
        ("c.png".to_string(), now - 30 * day),
    ];
    assert_eq!(cleanup_old_captures(&files, now, 7), vec!["a.png".to_string(), "c.png".to_string()]);
    assert!(cleanup_old_captures(&files, now, 90).is_empty());
}

#[test]
fn foreground_window_is_found() {
    let w = |id: u64, title: &str, is_minimized: bool| WindowInfo {
        id,
        title: title.to_string(),
        is_minimized,
    };
    let windows = vec![w(1, "", false), w(2, "Mail", true), w(3, "Editor", false), w(4, "Web", false)];
    assert!(matches!(find_foreground_window(&windows, Some(4)), Ok(3)));
    assert!(matches!(find_foreground_window(&windows, Some(1)), Ok(0)));
    // The window in the foreground is not in the list: the first window
    // with a title that is not minimized is taken.
    assert!(matches!(find_foreground_window(&windows, Some(99)), Ok(2)));
    assert!(matches!(
        find_foreground_window(&windows, None),
        Err(RecallError::Capture(m)) if m == "No foreground window found"
    ));
    assert!(matches!(
        find_foreground_window(&vec![w(1, "", false), w(2, "Mail", true)], Some(9)),
        Err(RecallError::Capture(m)) if m == "Could not find capturable foreground window"
    ));
}

#[test]
fn running_apps_are_arranged() {
    let windows = vec![
        ("slack.exe".to_string(), "Chat".to_string()),
        ("code.exe".to_string(), "Editor".to_string()),
        ("chrome.exe".to_string(), "Tab 1".to_string()),
        ("code.exe".to_string(), "Second editor".to_string()),
        ("Zed.exe".to_string(), "Zed".to_string()),
    ];
    let apps = arrange_apps(&windows, Some("slack.exe"));
    let names: Vec<&str> = apps.iter().map(|a| a.process_name.as_str()).collect();
    assert_eq!(names, vec!["slack.exe", "Zed.exe", "chrome.exe", "code.exe"]);
    assert!(apps[0].is_foreground);
    assert!(!apps[1].is_foreground);
    assert_eq!(apps[3].window_title, "Editor");
    let apps = arrange_apps(&windows, None);
    let names: Vec<&str> = apps.iter().map(|a| a.process_name.as_str()).collect();
    assert_eq!(names, vec!["Zed.exe", "chrome.exe", "code.exe", "slack.exe"]);
    assert!(arrange_apps(&vec![], Some("x")).is_empty());
}

#[test]
fn uploads_over_2_gib_are_refused() {
    assert!(check_upload_size(2 * 1024 * 1024 * 1024).is_ok());
    assert!(matches!(
        check_upload_size(3 * 1024 * 1024 * 1024),
        Err(RecallError::Ingestion(m)) if m == "PDF too large (3072.0 MB). Maximum supported size is 2 GB."
    ));
}

#[test]
fn capture_files_are_named_by_their_time() {
    assert_eq!(
        file_name_for(Some("2024-03-05_14-07-09".to_string())),
        Some("capture_2024-03-05_14-07-09.png".to_string())
    );
    assert_eq!(file_name_for(Some(String::new())), Some("capture_.png".to_string()));
    assert_eq!(file_name_for(None), None);
}

#[test]
fn private_window_is_refused_whatever_the_mode() {
    // The decision does not look at the mode: a private window in front
    // is refused for the full screen as for the window itself.
    let filter = AppFilter::default();
    let private = Some(AppInfo {
        process_name: "chrome.exe".to_string(),
        window_title: "Bank of America".to_string(),
        is_foreground: true,
    });
    assert!(matches!(check_capture_allowed(&filter, &private), Err(RecallError::Capture(_))));
    let open = AppFilter::default().with_privacy_blacklist(false);
    assert!(check_capture_allowed(&open, &private).is_ok());
    let only_code = AppFilter::new(AppFilterMode::Whitelist, vec!["code".to_string()]);
    assert!(check_capture_allowed(&only_code, &private).is_err());
}
