use rewms::state::AppState;

#[test]
fn create_app_state() {
    let root = "https://eds.ioos.us/ncWMS2";

    let state = AppState::new(root);
    assert_eq!(state.wms_scheme, "https");
    assert_eq!(state.wms_host, "eds.ioos.us");
    assert_eq!(state.wms_path, "/ncWMS2");
}

#[test]
fn create_app_state_without_path() {
    let state = AppState::new("http://localhost:8080");
    assert_eq!(state.wms_scheme, "http");
    assert_eq!(state.wms_host, "localhost:8080");
    assert_eq!(state.wms_path, "");
}

#[test]
fn create_app_state_deep_path() {
    let state = AppState::new("https://example.org/a/b/c");
    assert_eq!(state.wms_scheme, "https");
    assert_eq!(state.wms_host, "example.org");
    assert_eq!(state.wms_path, "/a/b/c");
}
