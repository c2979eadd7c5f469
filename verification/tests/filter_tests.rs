use recall_os::filter::{
    get_running_apps, has_private_word, names_entry, AppFilter, AppFilterMode,
};

#[test]
fn test_privacy_blacklist() {
    let filter = AppFilter::default();

    // Should block sensitive windows
    assert!(!filter.should_capture("chrome.exe", "Login - Google Chrome"));
    assert!(!filter.should_capture("firefox.exe", "1Password - Firefox"));
    assert!(!filter.should_capture("edge.exe", "Bank of America"));

    // Should allow normal windows
    assert!(filter.should_capture("chrome.exe", "GitHub - Google Chrome"));
    assert!(filter.should_capture("code.exe", "RECALL.OS - Visual Studio Code"));
}

#[test]
fn test_whitelist_mode() {
    let filter = AppFilter::new(
        AppFilterMode::Whitelist,
        vec!["chrome.exe".to_string(), "code.exe".to_string()],
    );

    assert!(filter.should_capture("chrome.exe", "Normal Window"));
    assert!(filter.should_capture("code.exe", "Editor"));
    assert!(!filter.should_capture("firefox.exe", "Browser"));
}

#[test]
fn test_blacklist_mode() {
    let filter = AppFilter::new(AppFilterMode::Blacklist, vec!["slack.exe".to_string()]);

    assert!(filter.should_capture("chrome.exe", "Normal Window"));
    assert!(!filter.should_capture("slack.exe", "Work Chat"));
}

#[test]
fn privacy_protection_comes_before_the_whitelist() {
    let filter = AppFilter::new(AppFilterMode::Whitelist, vec!["chrome.exe".to_string()]);
    assert!(!filter.should_capture("chrome.exe", "My Vault"));
    let open = filter.with_privacy_blacklist(false);
    assert!(open.should_capture("chrome.exe", "My Vault"));
}

#[test]
fn every_privacy_word_blocks() {
    let filter = AppFilter::default();
    for word in [
        "password", "1password", "lastpass", "bitwarden", "keychain", "credential", "secret",
        "vault", "authenticator", "otp", "2fa", "login", "sign in", "signin", "bank",
        "incognito", "private",
    ] {
        let title = format!("Window {} here", word.to_uppercase());
        assert!(filter.matches_privacy_blacklist(&title));
        assert!(!filter.should_capture("app.exe", &title));
    }
}

#[test]
fn list_entries_match_as_substrings_whatever_the_case() {
    let mut filter = AppFilter::new(AppFilterMode::Off, vec![]);
    assert_eq!(filter.mode(), AppFilterMode::Off);
    assert!(filter.should_capture("anything", "Title"));
    filter.update(AppFilterMode::Blacklist, vec!["SLACK".to_string()]);
    assert_eq!(filter.mode(), AppFilterMode::Blacklist);
    assert_eq!(filter.app_list().len(), 1);
    assert!(filter.is_in_list("slack.exe"));
    assert!(!filter.should_capture("Slack.exe", "Chat"));
    assert!(filter.should_capture("code.exe", "Chat"));
}

#[test]
fn filter_mode_names() {
    assert_eq!("whitelist".parse::<AppFilterMode>().unwrap(), AppFilterMode::Whitelist);
    assert_eq!("BLACKLIST".parse::<AppFilterMode>().unwrap(), AppFilterMode::Blacklist);
    assert_eq!("none".parse::<AppFilterMode>().unwrap(), AppFilterMode::Off);
    assert_eq!("".parse::<AppFilterMode>().unwrap(), AppFilterMode::Off);
    assert_eq!("other".parse::<AppFilterMode>().unwrap(), AppFilterMode::Off);
    assert_eq!(AppFilterMode::Whitelist.as_str(), "whitelist");
    assert_eq!(AppFilterMode::Off.as_str(), "none");
    assert_eq!(AppFilterMode::default(), AppFilterMode::Off);
    assert!(get_running_apps().is_empty());
}

#[test]
fn lowered_texts_are_searched_as_they_stand() {
    assert!(has_private_word("my bank account"));
    assert!(has_private_word("sign in to continue"));
    assert!(has_private_word("x2fay"));
    assert!(!has_private_word("My Bank Account"));
    assert!(!has_private_word("editor"));
    assert!(!has_private_word(""));
    let entries = vec!["chrome".to_string(), "code".to_string()];
    assert!(names_entry("vscode.exe", &entries));
    assert!(names_entry("chrome", &entries));
    assert!(!names_entry("Chrome.exe", &entries));
    assert!(!names_entry("firefox.exe", &entries));
    assert!(!names_entry("chrome.exe", &vec![]));
    assert!(names_entry("anything", &vec!["".to_string()]));
}
