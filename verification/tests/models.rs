use script_reloader::models::{
    clamped_timeout_secs, default_port, default_timeout, names_from_list, names_from_text,
    ConnectionDraft, ContainerInfo, SshOptions, AppSettings,
};

#[test]
fn restart_target_falls_back_to_display_name() {
    let row = ContainerInfo {
        id: None,
        names: vec!["/onlyname".to_string()],
        image: None,
        state: None,
        status: None,
    };
    assert_eq!(row.restart_target(), "onlyname");
}

#[test]
fn parse_names_as_string() {
    let row = ContainerInfo {
        id: Some("abc".into()),
        names: names_from_text("/myapp"),
        image: Some("nginx".into()),
        state: Some("running".into()),
        status: Some("Up".into()),
    };
    assert_eq!(row.display_name(), "myapp");
    assert_eq!(row.restart_target(), "abc");
}

#[test]
fn parse_names_as_array() {
    let row = ContainerInfo {
        id: Some("abc".into()),
        names: names_from_list(vec!["/a".into(), "/b".into()]),
        image: Some("nginx".into()),
        state: Some("exited".into()),
        status: Some("Exited".into()),
    };
    assert_eq!(row.display_name(), "a");
}

#[test]
fn names_drop_empty_entries() {
    assert!(names_from_text("").is_empty());
    assert_eq!(names_from_list(vec!["".into(), "x".into(), "".into(), "//y".into()]), vec!["x", "//y"]);
}

#[test]
fn display_name_falls_back_to_id_then_empty() {
    let mut row = ContainerInfo { id: Some("  ".into()), names: vec![], image: None, state: None, status: None };
    assert_eq!(row.display_name(), "  ");
    assert_eq!(row.restart_target(), "  ");
    row.id = None;
    assert_eq!(row.display_name(), "");
    assert_eq!(row.restart_target(), "");
    row.names = vec!["///x/y".into()];
    assert_eq!(row.display_name(), "x/y");
}

#[test]
fn command_timeout_is_clamped() {
    let mut d = ConnectionDraft {
        host: "h".into(),
        port: 22,
        username: "u".into(),
        password: "p".into(),
        command_timeout_seconds: 0,
    };
    assert_eq!(d.command_timeout().as_secs(), 5);
    d.command_timeout_seconds = 10_000;
    assert_eq!(d.command_timeout().as_secs(), 600);
    d.command_timeout_seconds = 42;
    assert_eq!(d.command_timeout().as_secs(), 42);
    assert_eq!(clamped_timeout_secs(4), 5);
    assert_eq!(clamped_timeout_secs(601), 600);
}

#[test]
fn defaults_are_port_22_and_120_seconds() {
    assert_eq!(default_port(), 22);
    assert_eq!(default_timeout(), 120);
    let o = SshOptions::default();
    assert_eq!((o.host.as_str(), o.port, o.username.as_str(), o.password.is_none(), o.command_timeout_seconds), ("", 22, "", true, 120));
    let s = AppSettings::default();
    assert_eq!(s.ssh.port, 22);
    assert_eq!(s.ssh.command_timeout_seconds, 120);
}
