use script_reloader::ssh_docker::{
    build_action_confirm_message, build_docker_error, build_quoted_container_args, collect_listing,
    escape_for_single_quoted_unix_shell, first_line_text, output_lines, truncate,
    DockerCommandResult, SshDockerService,
};
use script_reloader::models::{names_from_text, ContainerInfo, ConnectionDraft};
use script_reloader::ssh_util::SshCommandResult;

fn result(code: i32, stdout: &str, stderr: &str) -> DockerCommandResult {
    DockerCommandResult { exit_code: code, stdout: stdout.to_string(), stderr: stderr.to_string() }
}

fn draft() -> ConnectionDraft {
    ConnectionDraft {
        host: "host".into(),
        port: 22,
        username: "user".into(),
        password: "pw".into(),
        command_timeout_seconds: 120,
    }
}

#[test]
fn shell_quoting_escapes_single_quotes() {
    assert_eq!(escape_for_single_quoted_unix_shell("a'b"), "a'\\''b");
}

#[test]
fn build_quoted_args_joins() {
    let args = build_quoted_container_args(&["abc".into(), "my-name".into()]).unwrap();
    assert_eq!(args, "'abc' 'my-name'");
}

#[test]
fn build_quoted_args_rejects_empty() {
    assert!(build_quoted_container_args(&[]).is_err());
    assert!(build_quoted_container_args(&["".into()]).is_err());
}

#[test]
fn confirm_message_single() {
    let msg = build_action_confirm_message("Stop", &[("web", "abc123")]);
    assert!(msg.contains("Stop container \"web\" (abc123)?"));
}

#[test]
fn confirm_message_multi() {
    let names: Vec<(&str, &str)> = (0..15).map(|_| ("n", "id")).collect();
    let msg = build_action_confirm_message("Restart", &names);
    assert!(msg.contains("Restart 15 containers?"));
    assert!(msg.contains("... and 3 more."));
}

#[test]
fn confirm_message_exact_texts() {
    assert_eq!(build_action_confirm_message("Stop", &[]), "");
    assert_eq!(
        build_action_confirm_message("Start", &[("a", "1"), ("b", "2")]),
        "Start 2 containers?\n\n- a\n- b"
    );
    let names: Vec<(&str, &str)> = (0..12).map(|_| ("x", "id")).collect();
    let msg = build_action_confirm_message("Stop", &names);
    assert!(msg.starts_with("Stop 12 containers?\n\n- x\n"));
    assert!(!msg.contains("more."));
    assert_eq!(msg.matches("- x").count(), 12);
}

#[test]
fn quoting_messages_for_each_error() {
    assert_eq!(
        build_quoted_container_args(&[]).unwrap_err(),
        "At least one container id or name is required."
    );
    assert_eq!(
        build_quoted_container_args(&["ok".into(), " \t".into()]).unwrap_err(),
        "Container id or name cannot be empty."
    );
    assert_eq!(build_quoted_container_args(&["it's".into()]).unwrap(), "'it'\\''s'");
}

#[test]
fn docker_error_prefers_stderr_then_stdout() {
    assert_eq!(
        build_docker_error("docker stop", &result(1, " out ", "  bad thing \n")),
        "docker stop failed (exit 1). bad thing"
    );
    assert_eq!(
        build_docker_error("docker stop", &result(-2, " out ", "   ")),
        "docker stop failed (exit -2). out"
    );
    assert_eq!(build_docker_error("x", &result(255, "", "")), "x failed (exit 255).");
}

#[test]
fn truncate_cuts_at_byte_limit() {
    assert_eq!(truncate("hello", 5), "hello");
    assert_eq!(truncate("hello", 3), "hel...");
    assert_eq!(truncate("h\u{e9}llo", 3), "h\u{e9}...");
    assert_eq!(truncate("", 0), "");
}

#[test]
fn output_lines_trims_and_skips_blank() {
    assert_eq!(output_lines("a\n\n  b \r\n\t\nc"), vec!["a", "b", "c"]);
    assert!(output_lines("").is_empty());
    assert!(output_lines(" \n \n").is_empty());
}

#[test]
fn first_line_strips_carriage_return() {
    assert_eq!(first_line_text("abc\r\ndef"), "abc");
    assert_eq!(first_line_text("abc\r"), "abc\r");
    assert_eq!(first_line_text("abc"), "abc");
    assert_eq!(first_line_text(""), "");
}

fn row(id: &str, name: &str) -> ContainerInfo {
    ContainerInfo {
        id: Some(id.to_string()),
        names: names_from_text(name),
        image: None,
        state: None,
        status: None,
    }
}

#[test]
fn listing_keeps_parsed_rows() {
    let r = result(0, "x\ny", "");
    let list = collect_listing(&r, vec![Some(row("1", "/a")), None]).unwrap();
    assert_eq!(list.len(), 1);
    assert_eq!(list[0].display_name(), "a");
    let empty = collect_listing(&result(0, "  \n", ""), vec![]).unwrap();
    assert!(empty.is_empty());
}

#[test]
fn listing_explains_when_nothing_parsed() {
    let r = result(0, "  garbage\nmore\n", " warn ");
    let err = collect_listing(&r, vec![None, None]).unwrap_err();
    assert_eq!(
        err,
        "docker ps returned output but no rows could be parsed. JSON parse failures: 2. First line: garbage stderr: warn"
    );
    let long = "z".repeat(300);
    let err = collect_listing(&result(0, &long, ""), vec![None]).unwrap_err();
    assert!(err.ends_with(&format!("First line: {}...", "z".repeat(240))));
}

#[test]
fn plans_carry_their_failure_labels() {
    let mut svc = SshDockerService::new();
    svc.connect(draft(), Ok(result(0, "", ""))).unwrap();
    let start = svc.start_containers(&["a".into()]).ok().unwrap();
    assert!(start.completed(Ok(result(0, "", ""))).is_ok());
    assert_eq!(
        start.completed(Ok(result(3, "", "no such container"))).unwrap_err(),
        "docker start failed (exit 3). no such container"
    );
    assert_eq!(start.completed(Err("boom".into())).unwrap_err(), "boom");
    let stop = svc.stop_containers(&["a".into()]).ok().unwrap();
    assert_eq!(stop.completed(Ok(result(1, "out", ""))).unwrap_err(), "docker stop failed (exit 1). out");
    let restart = svc.restart_containers(&["a".into()]).ok().unwrap();
    assert_eq!(restart.completed(Ok(result(2, "", ""))).unwrap_err(), "docker restart failed (exit 2).");
    let list = svc.list_containers().ok().unwrap();
    assert_eq!(list.checked(Ok(result(125, "", " daemon "))).unwrap_err(), "docker ps failed (exit 125). daemon");
    assert_eq!(list.checked(Ok(result(0, "row", ""))).unwrap().stdout, "row");
    let running = svc.restart_all_running().ok().unwrap();
    assert_eq!(running.label, "docker ps -q");
}

#[test]
fn connect_refuses_blank_host_or_user() {
    let mut svc = SshDockerService::new();
    let mut d = draft();
    d.host = "  ".into();
    assert_eq!(svc.connect(d.clone(), Ok(result(0, "", ""))).unwrap_err(), "Host and username are required.");
    assert_eq!(SshDockerService::probe_command(&d).err().unwrap(), "Host and username are required.");
    assert!(!svc.is_connected());
    let mut d = draft();
    d.username = String::new();
    assert_eq!(svc.connect(d, Ok(result(0, "", ""))).unwrap_err(), "Host and username are required.");
    assert!(!svc.is_connected());
}

#[test]
fn service_requires_connection() {
    let mut svc = SshDockerService::new();
    assert!(!svc.is_connected());
    assert_eq!(
        svc.restart_containers(&["a".into()]).err().unwrap(),
        "Not connected. Connect before running Docker commands."
    );
    assert_eq!(
        svc.stop_containers(&[]).err().unwrap(),
        "At least one container id or name is required."
    );
    let probe = SshCommandResult { exit_code: 255, stdout: String::new(), stderr: "denied".into() };
    let err = svc.connect(draft(), Ok(DockerCommandResult::from_ssh(probe))).unwrap_err();
    assert_eq!(err, "SSH connect failed (exit 255). denied");
    assert!(!svc.is_connected());
    assert!(svc.connect(draft(), Ok(result(0, "connected\n", ""))).is_ok());
    assert!(svc.is_connected());
    let cmd = svc.restart_containers(&["abc".into(), "my-name".into()]).ok().unwrap();
    assert_eq!(cmd.command, "docker restart --time 10 'abc' 'my-name'");
    assert_eq!(cmd.connection.host, "host");
    assert_eq!(svc.stop_containers(&["a".into()]).ok().unwrap().command, "docker stop --time 10 'a'");
    assert_eq!(svc.start_containers(&["a".into()]).ok().unwrap().command, "docker start 'a'");
    assert_eq!(
        svc.list_containers().ok().unwrap().command,
        "docker ps -a --format '{{json .}}'"
    );
    assert_eq!(svc.restart_all_running().ok().unwrap().command, "docker ps -q");
    svc.disconnect();
    assert!(!svc.is_connected());
}

#[test]
fn connection_request_checks_host_and_user() {
    assert_eq!(
        SshDockerService::connection_request(" ", 22, "u", "p", 30).err().unwrap(),
        "Host and username are required."
    );
    assert_eq!(
        SshDockerService::connection_request("h", 22, "", "p", 30).err().unwrap(),
        "Host and username are required."
    );
    let d = SshDockerService::connection_request("h", 2222, "u", "p", 30).ok().unwrap();
    assert_eq!((d.host.as_str(), d.port, d.username.as_str(), d.command_timeout_seconds), ("h", 2222, "u", 30));
    let probe = SshDockerService::probe_command(&d).ok().unwrap();
    assert_eq!((probe.command.as_str(), probe.label.as_str()), ("echo connected", "SSH connect"));
}

#[test]
fn restart_listed_restarts_running_ids() {
    let mut svc = SshDockerService::new();
    svc.connect(draft(), Ok(result(0, "", ""))).unwrap();
    assert!(svc.restart_listed(Ok(result(0, "\n  \n", ""))).unwrap().is_none());
    let cmd = svc.restart_listed(Ok(result(0, "id1\nid2\n", ""))).unwrap().unwrap();
    assert_eq!(cmd.command, "docker restart --time 10 'id1' 'id2'");
    assert_eq!(
        svc.restart_listed(Ok(result(1, "", "daemon down"))).unwrap_err(),
        "docker ps -q failed (exit 1). daemon down"
    );
}

#[test]
fn restart_all_targets_the_trimmed_listed_ids() {
    let mut svc = SshDockerService::new();
    svc.connect(draft(), Ok(result(0, "", ""))).unwrap();
    let cmd = svc.restart_listed(Ok(result(0, " abc \r\n\n\t def", ""))).unwrap().unwrap();
    assert_eq!(cmd.command, "docker restart --time 10 'abc' 'def'");
}
