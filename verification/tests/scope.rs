use wizcore::events::{IndexPhase, WindowMode, WindowModeRequest};
use wizcore::scope::{
    drive_letter_from_path, drive_letter_from_root_str, drive_roots_or_default, index_phase_label,
    normalized_folder_prefix, parse_drive_root_letter, path_starts_with_folder, persisted_scope,
    scope_from_label, scope_roots, should_start_visible_from_args, startup_scope,
    startup_scope_override_from_args, IndexBackend, SearchScope,
};

fn args(list: &[&str]) -> Vec<String> {
    list.iter().map(|s| s.to_string()).collect()
}

#[test]
fn labels() {
    assert_eq!(SearchScope::CurrentFolder.label(), "current-folder");
    assert_eq!(SearchScope::EntireCurrentDrive.label(), "entire-current-drive");
    assert_eq!(SearchScope::AllLocalDrives.label(), "all-local-drives");
    assert_eq!(SearchScope::Drive('d').label(), "D:");
    assert_eq!(IndexBackend::Detecting.label(), "detecting");
    assert_eq!(IndexBackend::WalkDir.label(), "dirwalk");
    assert_eq!(IndexBackend::NtfsMft.label(), "ntfs-mft");
    assert_eq!(IndexBackend::NtfsUsnLive.label(), "ntfs-usn-live");
    assert_eq!(IndexBackend::Mixed.label(), "mixed");
    assert!(IndexBackend::NtfsUsnLive.live_updates());
    assert!(!IndexBackend::NtfsMft.live_updates());
    assert_eq!(IndexPhase::Write.label(), "write");
}

#[test]
fn label_round_trip() {
    for scope in [
        SearchScope::CurrentFolder,
        SearchScope::EntireCurrentDrive,
        SearchScope::AllLocalDrives,
        SearchScope::Drive('C'),
        SearchScope::Drive('Z'),
    ] {
        assert_eq!(scope_from_label(&scope.label()), Some(scope));
    }
    assert_eq!(scope_from_label("  ALL-local-Drives \n"), Some(SearchScope::AllLocalDrives));
    assert_eq!(scope_from_label("e:"), Some(SearchScope::Drive('E')));
    assert_eq!(scope_from_label("1:"), None);
    assert_eq!(scope_from_label("nonsense"), None);
    assert_eq!(persisted_scope("nonsense"), SearchScope::CurrentFolder);
    assert_eq!(persisted_scope("d:\n"), SearchScope::Drive('D'));
}

#[test]
fn scope_from_the_command_line() {
    assert_eq!(startup_scope_override_from_args(&args(&["app", "--show"])), None);
    assert_eq!(
        startup_scope_override_from_args(&args(&["app", "--scope=bogus", "--scope=x:"])),
        Some(SearchScope::Drive('X'))
    );
    assert_eq!(
        startup_scope_override_from_args(&args(&["--scope= Entire-Current-Drive "])),
        Some(SearchScope::EntireCurrentDrive)
    );
    assert!(should_start_visible_from_args(&args(&["app"])));
    assert!(!should_start_visible_from_args(&args(&["app", "--hide"])));
    assert!(!should_start_visible_from_args(&args(&["app", "--hidden"])));
    assert!(should_start_visible_from_args(&args(&["app", "--hidden", "--show"])));
    assert_eq!(
        startup_scope(None, false, SearchScope::AllLocalDrives),
        SearchScope::CurrentFolder
    );
    assert_eq!(
        startup_scope(None, true, SearchScope::AllLocalDrives),
        SearchScope::AllLocalDrives
    );
    assert_eq!(
        startup_scope(Some(SearchScope::Drive('E')), false, SearchScope::AllLocalDrives),
        SearchScope::Drive('E')
    );
}

#[test]
fn drive_letters_and_roots() {
    assert_eq!(drive_letter_from_root_str("c:\\Users"), Some('C'));
    assert_eq!(drive_letter_from_root_str("/home"), None);
    assert_eq!(drive_letter_from_root_str("1:\\"), None);
    assert_eq!(drive_letter_from_path("d:/x"), Some('D'));
    assert_eq!(drive_letter_from_path("1:"), Some('1'));
    assert_eq!(drive_letter_from_path("é:"), None);
    assert_eq!(drive_letter_from_path("x"), None);
    assert_eq!(parse_drive_root_letter(" c:\\ "), Some('C'));
    assert_eq!(parse_drive_root_letter("C:/"), Some('C'));
    assert_eq!(parse_drive_root_letter("C:"), None);
    assert_eq!(parse_drive_root_letter("C:\\x"), None);
    assert_eq!(drive_roots_or_default(Vec::new()), vec!["C:\\".to_string()]);
    assert_eq!(drive_roots_or_default(args(&["D:\\"])), vec!["D:\\".to_string()]);
    assert_eq!(
        scope_roots(&SearchScope::CurrentFolder, "D:\\work", Vec::new()),
        vec!["D:\\work".to_string()]
    );
    assert_eq!(
        scope_roots(&SearchScope::EntireCurrentDrive, "d:\\work", Vec::new()),
        vec!["D:\\".to_string()]
    );
    assert_eq!(
        scope_roots(&SearchScope::EntireCurrentDrive, "/home/u", Vec::new()),
        vec!["C:\\".to_string()]
    );
    assert_eq!(
        scope_roots(&SearchScope::AllLocalDrives, "x", args(&["C:\\", "E:\\"])),
        vec!["C:\\".to_string(), "E:\\".to_string()]
    );
    assert_eq!(scope_roots(&SearchScope::Drive('f'), "x", Vec::new()), vec!["F:\\".to_string()]);
}

#[test]
fn folder_prefix() {
    assert_eq!(normalized_folder_prefix("C:/Users/Me"), "c:\\users\\me\\");
    assert_eq!(normalized_folder_prefix("C:\\Users\\"), "c:\\users\\");
    assert_eq!(normalized_folder_prefix(""), "\\");
    assert!(path_starts_with_folder("C:\\Users\\Me\\a.txt", "c:\\users\\me\\"));
    assert!(path_starts_with_folder("c:/users/me/x", "c:\\users\\me\\"));
    assert!(!path_starts_with_folder("C:\\Users\\Mel\\a.txt", "c:\\users\\me\\"));
}

#[test]
fn phase_labels() {
    assert_eq!(index_phase_label("snapshot"), "reading snapshot");
    assert_eq!(index_phase_label("index"), "reading index");
    assert_eq!(index_phase_label("write"), "finalizing index");
    assert_eq!(index_phase_label("live"), "live updates");
    assert_eq!(index_phase_label("done"), "ready");
    assert_eq!(index_phase_label("other"), "indexing");
    assert_eq!(IndexBackend::of_enumeration(true, true), IndexBackend::Mixed);
    assert_eq!(IndexBackend::of_enumeration(true, false), IndexBackend::NtfsMft);
    assert_eq!(IndexBackend::of_enumeration(false, true), IndexBackend::WalkDir);
    assert_eq!(IndexBackend::of_enumeration(false, false), IndexBackend::Detecting);
}

#[test]
fn double_toggle_of_the_window_mode() {
    let shown = |m: &WindowMode| (m.fullscreen_enabled, m.fullheight_enabled);
    let mut m = WindowMode::new();
    m.apply(WindowModeRequest::ToggleFullHeight);
    assert_eq!(shown(&m), (false, true));
    m.apply(WindowModeRequest::ToggleFullscreen);
    assert_eq!(shown(&m), (true, true));
    let full = m;
    m.apply(WindowModeRequest::ToggleFullscreen);
    assert_eq!(shown(&m), (false, true));
    m.apply(WindowModeRequest::ToggleFullscreen);
    assert_eq!(m, full);
    m.apply(WindowModeRequest::ToggleFullscreen);
    let before = m;
    m.apply(WindowModeRequest::ToggleFullHeight);
    assert_eq!(shown(&m), (false, false));
    m.apply(WindowModeRequest::ToggleFullHeight);
    assert_eq!(m, before);
    m.apply(WindowModeRequest::ToggleFullscreen);
    let filling = m;
    assert_eq!(shown(&filling), (true, true));
    m.apply(WindowModeRequest::ToggleFullHeight);
    assert_eq!(shown(&m), (true, false));
    m.apply(WindowModeRequest::ToggleFullHeight);
    assert_eq!(m, filling);
    m.apply(WindowModeRequest::ToggleFullHeight);
    m.apply(WindowModeRequest::ToggleFullscreen);
    assert_eq!(shown(&m), (false, false));
}
