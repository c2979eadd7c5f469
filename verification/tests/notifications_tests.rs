use recall_os::notifications::{prefix_of, NotificationBuilder, AUMID};

#[test]
fn test_aumid_constant() {
    assert_eq!(AUMID, "com.recallos.app");
}

#[test]
fn truncation_keeps_whole_characters() {
    assert_eq!(NotificationBuilder::truncate("short", 35), "short");
    assert_eq!(NotificationBuilder::truncate("abcdefghij", 8), "abcde...");
    assert_eq!(NotificationBuilder::truncate("abcdefgh", 8), "abcdefgh");
    assert_eq!(NotificationBuilder::truncate("abcdef", 2), "...");
    // Byte 5 lies inside the second character of four bytes.
    assert_eq!(NotificationBuilder::truncate("a😀😀😀", 8), "a😀...");
    assert_eq!(prefix_of("héllo", 2), "h");
    assert_eq!(prefix_of("héllo", 3), "hé");
    assert_eq!(prefix_of("héllo", 100), "héllo");
}

#[test]
fn long_path_prefix_is_removed() {
    assert_eq!(NotificationBuilder::normalize_path("\\\\?\\C:\\icons\\a.png"), "C:\\icons\\a.png");
    assert_eq!(NotificationBuilder::normalize_path("C:\\icons\\a.png"), "C:\\icons\\a.png");
    assert_eq!(NotificationBuilder::normalize_path("\\\\?"), "\\\\?");
    let b = NotificationBuilder::new(Some("\\\\?\\D:\\x.ico".to_string()));
    assert_eq!(b.get_icon(), Some("D:\\x.ico".to_string()));
    assert_eq!(NotificationBuilder::new(None).get_icon(), None);
}

#[test]
fn notification_lines() {
    assert_eq!(NotificationBuilder::related_headline(1), "1 Match");
    assert_eq!(NotificationBuilder::related_headline(3), "3 Matches");
    assert_eq!(NotificationBuilder::related_headline(0), "0 Matches");
    assert_eq!(NotificationBuilder::segments_line(12), "12 segments");
}

#[test]
fn related_notification_lines() {
    let titles = vec![
        "A rather long related title".to_string(),
        "Short".to_string(),
        "Third".to_string(),
        "Fourth".to_string(),
    ];
    let (line1, line2) = NotificationBuilder::related_lines(
        "The title of the new document that is quite long",
        &titles,
    );
    assert_eq!(line1, "The title of the new document th...");
    assert_eq!(line2, "A rather lon... \u{b7} Short \u{b7} Third");
    let (_, none) = NotificationBuilder::related_lines("t", &vec![]);
    assert_eq!(none, "");
}
