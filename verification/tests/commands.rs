use wizcore::commands::{
    apply_command_choice, command_menu_items, format_latest_window, is_exact_directive_token,
    parse_drive_directive, parse_latest_window_token, parse_scope_directive, scope_arg_value,
};
use wizcore::scope::SearchScope;

#[test]
fn plain_query_is_kept() {
    let p = parse_scope_directive("  hello   world ");
    assert_eq!(p.clean_query, "hello world");
    assert_eq!(p.scope_override, None);
    assert!(!p.test_progress && !p.exit_app && !p.elevate_app && !p.latest_only);
    assert!(!p.reindex_current_scope && !p.toggle_tracking);
    assert_eq!(p.latest_window_secs, None);
}

#[test]
fn scope_directives_are_read_whatever_their_case() {
    assert_eq!(
        parse_scope_directive("/ENTIRE notes").scope_override,
        Some(SearchScope::EntireCurrentDrive)
    );
    assert_eq!(parse_scope_directive("/all").scope_override, Some(SearchScope::AllLocalDrives));
    let p = parse_scope_directive("report /d: final");
    assert_eq!(p.scope_override, Some(SearchScope::Drive('D')));
    assert_eq!(p.clean_query, "report final");
    assert_eq!(
        parse_scope_directive("/all /entire").scope_override,
        Some(SearchScope::EntireCurrentDrive)
    );
}

#[test]
fn flags_and_unknown_directives() {
    let p = parse_scope_directive("/testProgress /exit /up /reindex /track /bogus x");
    assert!(p.test_progress && p.exit_app && p.elevate_app);
    assert!(p.reindex_current_scope && p.toggle_tracking);
    assert_eq!(p.clean_query, "x");
}

#[test]
fn latest_takes_one_window() {
    let p = parse_scope_directive("/latest 30sec 2h");
    assert!(p.latest_only);
    assert_eq!(p.latest_window_secs, Some(30));
    assert_eq!(p.clean_query, "2h");
    let q = parse_scope_directive("30sec /last 5m");
    assert!(q.latest_only);
    assert_eq!(q.latest_window_secs, Some(300));
    assert_eq!(q.clean_query, "30sec");
}

#[test]
fn zero_or_negative_window_is_rejected() {
    assert_eq!(parse_latest_window_token("0s"), None);
    assert_eq!(parse_latest_window_token("000min"), None);
    assert_eq!(parse_latest_window_token("-5s"), None);
    let p = parse_scope_directive("/latest 0s");
    assert!(!p.latest_only);
    assert!(p.latest_refused);
    assert_eq!(p.latest_window_secs, None);
    assert_eq!(p.clean_query, "");
    assert!(!parse_scope_directive("/latest 5s").latest_refused);
    assert!(!parse_scope_directive("0s").latest_refused);
    assert!(parse_scope_directive("x /LATEST -1d").latest_refused);
    let p = parse_scope_directive("/last -5Min notes");
    assert!(!p.latest_only);
    assert_eq!(p.latest_window_secs, None);
    assert_eq!(p.clean_query, "notes");
    let p = parse_scope_directive("/latest 000h 2h");
    assert!(!p.latest_only);
    assert_eq!(p.latest_window_secs, None);
    assert_eq!(p.clean_query, "2h");
    let p = parse_scope_directive("0s /latest");
    assert!(p.latest_only);
    assert_eq!(p.clean_query, "0s");
    let p = parse_scope_directive("/latest 0x");
    assert!(p.latest_only);
    assert_eq!(p.clean_query, "0x");
    let p = parse_scope_directive("/latest 5m 0s");
    assert!(p.latest_only);
    assert_eq!(p.latest_window_secs, Some(300));
    assert_eq!(p.clean_query, "0s");
}

#[test]
fn window_mode_directives_are_read() {
    let p = parse_scope_directive("/FullScreen notes");
    assert!(p.toggle_fullscreen && !p.toggle_fullheight);
    assert_eq!(p.clean_query, "notes");
    let p = parse_scope_directive("/fullheight");
    assert!(p.toggle_fullheight && !p.toggle_fullscreen);
    assert!(is_exact_directive_token("/fullscreen", false));
    assert!(is_exact_directive_token("/FULLHEIGHT", true));
    assert!(!is_exact_directive_token("/full", true));
    let p = parse_scope_directive("/Soft x");
    assert!(p.switch_renderer_soft && !p.toggle_fullscreen);
    assert_eq!(p.clean_query, "x");
    assert!(is_exact_directive_token("/soft", false));
    assert!(!parse_scope_directive("soft").switch_renderer_soft);
}

#[test]
fn window_tokens() {
    assert_eq!(parse_latest_window_token("30sec"), Some(30));
    assert_eq!(parse_latest_window_token("1s"), Some(1));
    assert_eq!(parse_latest_window_token("2 "), None);
    assert_eq!(parse_latest_window_token(" 7Minutes "), Some(420));
    assert_eq!(parse_latest_window_token("2h"), Some(7200));
    assert_eq!(parse_latest_window_token("3days"), Some(259_200));
    assert_eq!(parse_latest_window_token("12"), None);
    assert_eq!(parse_latest_window_token("sec"), None);
    assert_eq!(parse_latest_window_token(""), None);
    assert_eq!(parse_latest_window_token("5weeks"), None);
    assert_eq!(parse_latest_window_token("9223372036854775807s"), Some(i64::MAX));
    assert_eq!(parse_latest_window_token("9223372036854775807d"), Some(i64::MAX));
    assert_eq!(parse_latest_window_token("9223372036854775808s"), None);
    assert_eq!(parse_latest_window_token("007s"), Some(7));
}

#[test]
fn window_text() {
    assert_eq!(format_latest_window(86_400), "1d");
    assert_eq!(format_latest_window(172_800), "2d");
    assert_eq!(format_latest_window(7200), "2h");
    assert_eq!(format_latest_window(300), "5m");
    assert_eq!(format_latest_window(45), "45s");
    assert_eq!(format_latest_window(0), "0d");
    assert_eq!(format_latest_window(-60), "-1m");
    assert_eq!(format_latest_window(-61), "-61s");
    assert_eq!(format_latest_window(i64::MIN), "-9223372036854775808s");
}

#[test]
fn drive_directive() {
    assert_eq!(parse_drive_directive("/d:"), Some('D'));
    assert_eq!(parse_drive_directive("/Z:"), Some('Z'));
    assert_eq!(parse_drive_directive("/1:"), None);
    assert_eq!(parse_drive_directive("/dd:"), None);
    assert_eq!(parse_drive_directive("d:"), None);
}

#[test]
fn menu_entries() {
    let all: Vec<&str> = command_menu_items("/", true).iter().map(|i| i.command).collect();
    assert_eq!(
        all,
        vec![
            "/entire", "/all", "/x:", "/testProgress", "/up", "/track", "/latest", "/last",
            "/reindex", "/exit"
        ]
    );
    let no_tracking: Vec<&str> =
        command_menu_items("/", false).iter().map(|i| i.command).collect();
    assert_eq!(
        no_tracking,
        vec!["/entire", "/all", "/x:", "/testProgress", "/up", "/track", "/reindex", "/exit"]
    );
    let l: Vec<&str> = command_menu_items("  /LA rest", true).iter().map(|i| i.command).collect();
    assert_eq!(l, vec!["/latest", "/last"]);
    let t: Vec<&str> = command_menu_items("/t", true).iter().map(|i| i.command).collect();
    assert_eq!(t, vec!["/testProgress", "/track"]);
    let d: Vec<&str> = command_menu_items("/d:", true).iter().map(|i| i.command).collect();
    assert_eq!(d, vec!["/x:"]);
    assert!(command_menu_items("plain", true).is_empty());
    assert!(command_menu_items("", true).is_empty());
    assert!(command_menu_items("/zzz", true).is_empty());
    assert_eq!(command_menu_items("/e", true)[0].description, "Search entire current drive");
}

#[test]
fn chosen_command_replaces_the_first_token() {
    assert_eq!(apply_command_choice("/la", "/latest"), "/latest ");
    assert_eq!(apply_command_choice("  /la  30sec  x", "/latest"), "/latest 30sec x");
    assert_eq!(apply_command_choice("", "/all"), "/all ");
}

#[test]
fn exact_directive_tokens() {
    assert!(is_exact_directive_token("/entire", false));
    assert!(is_exact_directive_token("/ALL", false));
    assert!(is_exact_directive_token("/c:", false));
    assert!(is_exact_directive_token("/latest", true));
    assert!(!is_exact_directive_token("/latest", false));
    assert!(!is_exact_directive_token("/last", false));
    assert!(!is_exact_directive_token("/lat", true));
    assert!(!is_exact_directive_token("", true));
}

#[test]
fn scope_label_read_as_a_line_is_the_query() {
    for scope in [
        SearchScope::CurrentFolder,
        SearchScope::EntireCurrentDrive,
        SearchScope::AllLocalDrives,
        SearchScope::Drive('Q'),
    ] {
        let label = scope.label();
        let p = parse_scope_directive(&label);
        assert_eq!(p.clean_query, label);
        assert_eq!(p.scope_override, None);
        assert!(!p.latest_only && !p.exit_app);
        assert_eq!(scope_arg_value(&scope), label);
    }
}
