use script_reloader::config::{apply_env_overrides, layer_settings, merge_settings, EnvOverrides};
use script_reloader::models::{AppSettings, SshOptions};

fn no_env() -> EnvOverrides {
    EnvOverrides { host: None, port: None, username: None, password: None }
}

fn options(host: &str, port: u16, user: &str, password: Option<&str>, timeout: u64) -> AppSettings {
    AppSettings {
        ssh: SshOptions {
            host: host.into(),
            port,
            username: user.into(),
            password: password.map(|p| p.to_string()),
            command_timeout_seconds: timeout,
        },
    }
}

#[test]
fn env_overrides_host() {
    let mut settings = AppSettings::default();
    apply_env_overrides(&mut settings, EnvOverrides { host: Some("10.0.0.1".into()), ..no_env() });
    assert_eq!(settings.ssh.host, "10.0.0.1");
}

#[test]
fn env_overrides_rules() {
    let mut s = options("h", 22, "u", None, 120);
    apply_env_overrides(
        &mut s,
        EnvOverrides {
            host: Some("".into()),
            port: Some("70000".into()),
            username: Some("admin".into()),
            password: Some("".into()),
        },
    );
    assert_eq!((s.ssh.host.as_str(), s.ssh.port, s.ssh.username.as_str()), ("h", 22, "admin"));
    assert_eq!(s.ssh.password.as_deref(), Some(""));
    apply_env_overrides(&mut s, EnvOverrides { port: Some("+2022".into()), ..no_env() });
    assert_eq!(s.ssh.port, 2022);
    apply_env_overrides(&mut s, EnvOverrides { port: Some(" 23".into()), ..no_env() });
    assert_eq!(s.ssh.port, 2022);
}

#[test]
fn sidecar_fields_that_are_set_win() {
    let mut base = options("embedded", 22, "root", Some("a"), 120);
    merge_settings(&mut base, options("", 0, "deploy", None, 0));
    assert_eq!((base.ssh.host.as_str(), base.ssh.port, base.ssh.username.as_str()), ("embedded", 22, "deploy"));
    assert_eq!(base.ssh.password.as_deref(), Some("a"));
    assert_eq!(base.ssh.command_timeout_seconds, 120);
    merge_settings(&mut base, options("file", 2222, "", Some("b"), 30));
    assert_eq!((base.ssh.host.as_str(), base.ssh.port, base.ssh.password.as_deref(), base.ssh.command_timeout_seconds), ("file", 2222, Some("b"), 30));
}

#[test]
fn layering_precedence_embedded_file_environment() {
    let r = layer_settings(
        options("embedded", 22, "root", None, 120),
        Some(options("file", 2222, "", None, 0)),
        EnvOverrides { host: Some("env".into()), ..no_env() },
    );
    assert_eq!((r.ssh.host.as_str(), r.ssh.port, r.ssh.username.as_str(), r.ssh.command_timeout_seconds), ("env", 2222, "root", 120));
    let r = layer_settings(options("embedded", 22, "root", None, 120), None, no_env());
    assert_eq!(r.ssh.host, "embedded");
}

#[test]
fn effective_password_prefers_typed() {
    let o = options("h", 22, "u", Some("cfg"), 120).ssh;
    assert_eq!(o.effective_password("typed"), Some("typed"));
    assert_eq!(o.effective_password(""), Some("cfg"));
    let o = options("h", 22, "u", None, 120).ssh;
    assert_eq!(o.effective_password(""), None);
}
