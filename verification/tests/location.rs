use rmfeeder::location::{
    default_state_path, expand_tilde_path, join_path, state_path, LocationError,
};

#[test]
fn default_path_lies_below_home() {
    assert_eq!(
        default_state_path("/home/ada"),
        "/home/ada/.local/share/rmfeeder/rmfeeder_state.sqlite"
    );
    assert_eq!(
        default_state_path("/home/ada/"),
        "/home/ada/.local/share/rmfeeder/rmfeeder_state.sqlite"
    );
}

#[test]
fn join_handles_empty_and_root() {
    assert_eq!(join_path("", "x"), "x");
    assert_eq!(join_path("/", "x"), "/x");
    assert_eq!(join_path("a", "b/c"), "a/b/c");
}

#[test]
fn tilde_is_expanded_only_in_front() {
    assert_eq!(expand_tilde_path("~", "/home/ada"), "/home/ada");
    assert_eq!(expand_tilde_path("~/state/db.sqlite", "/home/ada"), "/home/ada/state/db.sqlite");
    assert_eq!(expand_tilde_path("/var/~/db", "/home/ada"), "/var/~/db");
    assert_eq!(expand_tilde_path("~other/db", "/home/ada"), "~other/db");
}

#[test]
fn state_path_prefers_the_configured_path() {
    assert_eq!(state_path(Some("/var/db.sqlite"), None), Ok("/var/db.sqlite".to_string()));
    assert_eq!(
        state_path(Some("~/db.sqlite"), Some("/home/ada")),
        Ok("/home/ada/db.sqlite".to_string())
    );
    assert_eq!(
        state_path(None, Some("/home/ada")),
        Ok("/home/ada/.local/share/rmfeeder/rmfeeder_state.sqlite".to_string())
    );
}

#[test]
fn state_path_needs_home_for_the_default() {
    assert_eq!(state_path(None, None), Err(LocationError::NoHome));
    assert_eq!(state_path(Some("~/db.sqlite"), None), Err(LocationError::NoHome));
    assert_eq!(state_path(Some("~"), None), Err(LocationError::NoHome));
}
