use moraya_core::appstate::{
    get_opened_file, url_with_key_param, AIProxyState, MainWindowReady, OpenedFiles, PendingFiles,
};

#[test]
fn override_key_wins() {
    let state = AIProxyState::new();
    assert_eq!(state.resolve_api_key("cfg", None, Some("sk-123")), "sk-123");
}

#[test]
fn masked_and_empty_overrides_ignored() {
    let mut state = AIProxyState::new();
    state.absorb_secrets(vec![("ai-key:cfg".to_string(), "stored".to_string())]);
    assert_eq!(state.resolve_api_key("cfg", None, Some("***")), "stored");
    assert_eq!(state.resolve_api_key("cfg", None, Some("")), "stored");
    assert_eq!(state.resolve_api_key("cfg", None, None), "stored");
}

#[test]
fn custom_prefix_used_for_lookup() {
    let mut state = AIProxyState::new();
    state.absorb_secrets(vec![("speech-key:cfg".to_string(), "spk".to_string())]);
    let prefix = "speech-key:".to_string();
    assert_eq!(state.resolve_api_key("cfg", Some(&prefix), None), "spk");
    assert_eq!(state.resolve_api_key("cfg", None, None), "");
}

#[test]
fn missing_key_resolves_empty() {
    let state = AIProxyState::new();
    assert_eq!(state.resolve_api_key("unknown", None, None), "");
}

#[test]
fn later_secrets_override_earlier_ones() {
    let mut state = AIProxyState::new();
    state.absorb_secrets(vec![
        ("ai-key:cfg".to_string(), "old".to_string()),
        ("ai-key:cfg".to_string(), "new".to_string()),
    ]);
    assert_eq!(state.resolve_api_key("cfg", None, None), "new");
}

#[test]
fn secrets_absorbed_only_once() {
    let mut state = AIProxyState::new();
    state.absorb_secrets(vec![("ai-key:cfg".to_string(), "first".to_string())]);
    state.absorb_secrets(vec![("ai-key:cfg".to_string(), "second".to_string())]);
    assert_eq!(state.resolve_api_key("cfg", None, None), "first");
}

#[test]
fn pending_window_takes_its_file() {
    let opened = OpenedFiles(vec![]);
    let mut pending = PendingFiles(vec![("moraya-1".to_string(), "/tmp/a.md".to_string())]);
    let mut ready = MainWindowReady(false);
    let r = get_opened_file(&opened, &mut pending, &mut ready, "moraya-1");
    assert_eq!(r, Some("/tmp/a.md".to_string()));
    assert!(pending.0.is_empty());
    assert!(!ready.0);
}

#[test]
fn main_window_takes_first_startup_file() {
    let opened = OpenedFiles(vec!["/tmp/start.md".to_string(), "/tmp/other.md".to_string()]);
    let mut pending = PendingFiles(vec![]);
    let mut ready = MainWindowReady(false);
    let r = get_opened_file(&opened, &mut pending, &mut ready, "main");
    assert_eq!(r, Some("/tmp/start.md".to_string()));
    assert!(ready.0);
}

#[test]
fn main_window_without_files_gets_nothing() {
    let opened = OpenedFiles(vec![]);
    let mut pending = PendingFiles(vec![]);
    let mut ready = MainWindowReady(false);
    assert_eq!(get_opened_file(&opened, &mut pending, &mut ready, "main"), None);
    assert!(ready.0);
}

#[test]
fn other_windows_get_nothing() {
    let opened = OpenedFiles(vec!["/tmp/start.md".to_string()]);
    let mut pending = PendingFiles(vec![]);
    let mut ready = MainWindowReady(false);
    assert_eq!(get_opened_file(&opened, &mut pending, &mut ready, "moraya-9"), None);
    assert!(!ready.0);
}

#[test]
fn gemini_key_rides_in_the_url() {
    assert_eq!(url_with_key_param("https://g.example/v1", "k1"), "https://g.example/v1?key=k1");
    assert_eq!(
        url_with_key_param("https://g.example/v1?alt=sse", "k1"),
        "https://g.example/v1?alt=sse&key=k1"
    );
}
