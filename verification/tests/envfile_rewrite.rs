use xui_core::envfile::{normalize_web_root, render_env_update};

#[test]
fn web_root_gets_both_slashes() {
    assert_eq!(normalize_web_root("admin"), "/admin/");
    assert_eq!(normalize_web_root("/admin"), "/admin/");
    assert_eq!(normalize_web_root("admin/"), "/admin/");
    assert_eq!(normalize_web_root("/"), "/");
    assert_eq!(normalize_web_root("  panel  "), "/panel/");
    assert_eq!(normalize_web_root(""), "/");
}

#[test]
fn existing_settings_are_replaced_in_place() {
    let content = "DATABASE_URL=sqlite://data/x-ui.db\nSERVER_PORT=8080\nWEB_ROOT=/\nRUST_LOG=info";
    let updated = render_env_update(content, 9000, "/panel/");
    assert_eq!(
        updated,
        "DATABASE_URL=sqlite://data/x-ui.db\nSERVER_PORT=9000\nWEB_ROOT=/panel/\nRUST_LOG=info"
    );
}

#[test]
fn missing_settings_are_appended() {
    let content = "DATABASE_URL=sqlite://data/x-ui.db";
    let updated = render_env_update(content, 8081, "/x/");
    assert_eq!(updated, "DATABASE_URL=sqlite://data/x-ui.db\nSERVER_PORT=8081\nWEB_ROOT=/x/");
}

#[test]
fn empty_file_gets_both_settings() {
    let updated = render_env_update("", 8080, "/");
    assert_eq!(updated, "SERVER_PORT=8080\nWEB_ROOT=/");
}
