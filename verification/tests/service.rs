use wizcore::config::{Settings, Theme};
use wizcore::entries::{IndexError, PathTable};
use wizcore::request::{AppService, SortMode};
use wizcore::shell::ShellError;

#[test]
fn default_settings() {
    let s = Settings::default();
    assert_eq!(s.hotkey, "`");
    assert!(!s.launch_at_startup);
    assert_eq!(s.theme, Theme::TerminalDark);
}

#[test]
fn start_search_fills_the_request() {
    let service = AppService::default();
    let r = service.start_search("notes".to_string(), "req-1".to_string());
    assert_eq!(r.request_id, "req-1");
    assert_eq!(r.query, "notes");
    assert_eq!(r.sort, SortMode::Relevance);
    assert_eq!(r.limit, 500);
}

#[test]
fn error_messages() {
    assert_eq!(IndexError::NotImplemented.message(), "not implemented");
    assert_eq!(ShellError::NotImplemented.message(), "not implemented");
}

#[test]
fn path_table_starts_empty() {
    assert!(PathTable::default().paths.is_empty());
}
