use script_reloader::models::{names_from_text, ConnectionDraft, ContainerInfo, SshOptions};
use script_reloader::session::LoadedSession;
use script_reloader::ssh_docker::DockerCommandResult;
use script_reloader::ui::{
    check_connect_inputs, connection_timeout, input_feedback, restart_all_prompt, effective_password, parse_port, persist_decision,
    port_string, startup_fields, AppState, InputProblem, LifecycleAction, ListPurpose, Next, PersistAction,
};

fn defaults() -> SshOptions {
    SshOptions { host: "dh".into(), port: 22, username: "du".into(), password: Some("dp".into()), command_timeout_seconds: 120 }
}

fn row(id: &str, name: &str) -> ContainerInfo {
    ContainerInfo { id: Some(id.into()), names: names_from_text(name), image: Some("img".into()), state: Some("running".into()), status: Some("Up".into()) }
}

fn ok_probe() -> Result<DockerCommandResult, String> {
    Ok(DockerCommandResult { exit_code: 0, stdout: "connected".into(), stderr: String::new() })
}

fn connected_state(n: usize) -> AppState {
    let mut st = AppState::new(defaults());
    st.begin_connect("h", 22, "u", "p");
    let step = st.finish_connect(ok_probe(), "h", 22, "u", "p", false);
    let rows: Vec<ContainerInfo> = (0..n).map(|i| row(&format!("id{i}"), &format!("/c{i}"))).collect();
    match step.next {
        Next::List(purpose, _) => {
            st.containers_listed(purpose, Ok(rows));
        },
        _ => panic!("a listing follows a connection"),
    }
    st
}

#[test]
fn lifecycle_texts() {
    assert_eq!(LifecycleAction::Stop.verb(), "Stop");
    assert_eq!(LifecycleAction::Restart.progress(), "Restarting");
    assert_eq!(LifecycleAction::Start.docker_cli(), "start");
    assert_eq!(LifecycleAction::Stop.error_title(), "Docker stop");
    assert_eq!(LifecycleAction::Start.failed_status(), "Start failed.");
    assert_eq!(LifecycleAction::Restart.done_noun(), "Restart");
}

#[test]
fn port_parsing_and_display() {
    assert_eq!(parse_port("  ").unwrap(), 22);
    assert_eq!(parse_port(" 2222 ").unwrap(), 2222);
    assert_eq!(parse_port("0").unwrap_err(), "Port must be a number between 1 and 65535.");
    assert_eq!(parse_port("70000").unwrap_err(), "Port must be a number between 1 and 65535.");
    assert_eq!(parse_port("x").unwrap_err(), "Port must be a number between 1 and 65535.");
    assert_eq!(port_string(0), "22");
    assert_eq!(port_string(8022), "8022");
    let mut d = defaults();
    d.command_timeout_seconds = 1;
    assert_eq!(connection_timeout(&d), 5);
    assert_eq!(effective_password("", &d), "dp");
    d.password = None;
    assert_eq!(effective_password("", &d), "");
}

#[test]
fn connect_inputs_and_persist() {
    assert!(matches!(check_connect_inputs("h", "u", "", "22"), Err(InputProblem::Missing)));
    assert!(matches!(check_connect_inputs(" ", "u", "p", "22"), Err(InputProblem::Missing)));
    match check_connect_inputs("h", "u", "p", "abc") {
        Err(InputProblem::BadPort(m)) => assert_eq!(m, "Port must be a number between 1 and 65535."),
        _ => panic!("expected a port error"),
    }
    assert!(matches!(check_connect_inputs("h", "u", "p", ""), Ok(22)));
    assert!(matches!(persist_decision(false, "h", "u", "22", "p"), PersistAction::Clear));
    assert!(matches!(persist_decision(true, "h", "u", "x", "p"), PersistAction::Keep));
    match persist_decision(true, "h", "u", "2222", "") {
        PersistAction::Save { host, port, username, password } => {
            assert_eq!((host.as_str(), port, username.as_str(), password), ("h", 2222, "u", None));
        }
        _ => panic!("expected save"),
    }
}

#[test]
fn startup_from_session_or_defaults() {
    let f = startup_fields(
        Some(LoadedSession { host: "sh".into(), port: 0, username: "su".into(), password: None }),
        &defaults(),
    );
    assert_eq!((f.host.as_str(), f.port.as_str(), f.username.as_str(), f.remember, f.auto_connect), ("sh", "22", "su", true, true));
    assert!(f.status.is_none());
    let f = startup_fields(None, &defaults());
    assert_eq!((f.host.as_str(), f.port.as_str(), f.password.as_deref(), f.remember, f.auto_connect), ("dh", "22", Some("dp"), false, false));
    assert_eq!(f.status.as_deref(), Some("Disconnected. Enter host and credentials, then Connect."));
}

#[test]
fn connect_flow_states() {
    let mut st = AppState::new(defaults());
    assert!(!st.ui_flags().connected);
    assert!(st.ui_flags().connect_enabled);
    let step = st.begin_connect("h", 22, "u", "p");
    assert_eq!(step.feedback.status.as_deref(), Some("Connecting..."));
    match step.next {
        Next::Probe(Ok(probe)) => {
            assert_eq!((probe.command.as_str(), probe.connection.host.as_str()), ("echo connected", "h"));
            assert_eq!(probe.connection.command_timeout_seconds, 120);
        },
        _ => panic!("the probe follows"),
    }
    assert!(st.busy());
    let bad = Ok(DockerCommandResult { exit_code: 255, stdout: String::new(), stderr: "Permission denied".into() });
    let step = st.finish_connect(bad, "h", 22, "u", "p", true);
    assert!(matches!(step.next, Next::Done));
    assert!(matches!(step.persist, PersistAction::Keep));
    let fb = step.feedback;
    assert_eq!(fb.status.as_deref(), Some("Connection failed."));
    assert_eq!(fb.message, Some(("SSH connect".to_string(), "SSH connect failed (exit 255). Permission denied".to_string())));
    assert!(!st.busy());
    assert!(st.connection().is_none());
    let st = connected_state(3);
    let flags = st.ui_flags();
    assert!(flags.connected && !flags.busy && flags.refresh_enabled && !flags.stop_enabled);
    assert_eq!(st.containers().len(), 3);
    assert_eq!(st.command_timeout_secs(), 120);
}

#[test]
fn load_statuses() {
    let mut st = AppState::new(defaults());
    st.begin_connect("h", 2222, "u", "p");
    let step = st.finish_connect(ok_probe(), "h", 2222, "u", "p", true);
    assert_eq!(step.feedback.status.as_deref(), Some("Connected. Loading containers..."));
    match step.persist {
        PersistAction::Save { host, port, username, password } => {
            assert_eq!((host.as_str(), port, username.as_str(), password.as_deref()), ("h", 2222, "u", Some("p")));
        },
        _ => panic!("a remembered connection is saved"),
    }
    let purpose = match step.next {
        Next::List(purpose, Ok(plan)) => {
            assert_eq!((plan.command.as_str(), plan.label.as_str()), ("docker ps -a --format '{{json .}}'", "docker ps"));
            purpose
        },
        _ => panic!("a listing follows a connection"),
    };
    let fb = st.containers_listed(purpose, Ok(vec![row("1", "/a")]));
    assert_eq!(fb.status.as_deref(), Some("Connected to h:2222. 1 container(s)."));
    let step = st.begin_refresh().unwrap();
    assert_eq!(step.feedback.status.as_deref(), Some("Refreshing..."));
    assert!(matches!(step.next, Next::List(ListPurpose::Refresh, Ok(_))));
    let fb = st.containers_listed(ListPurpose::Refresh, Ok(vec![]));
    assert_eq!(fb.status.as_deref(), Some("Refreshed. 0 container(s)."));
    let fb = st.containers_loaded(Err("boom".into()), false, None);
    assert_eq!(fb.status.as_deref(), Some("Refresh failed."));
    assert_eq!(fb.message, Some(("Docker".to_string(), "boom".to_string())));
    assert_eq!(st.disconnect().status.as_deref(), Some("Disconnected."));
    assert!(st.begin_refresh().is_none());
}

#[test]
fn row_selection_with_modifiers() {
    let mut st = connected_state(6);
    st.click_row(1, false, false);
    assert_eq!(st.selected_indices().clone(), vec![1]);
    st.click_row(4, false, true);
    assert_eq!(st.selected_indices().clone(), vec![1, 2, 3, 4]);
    st.click_row(2, true, false);
    assert_eq!(st.selected_indices().clone(), vec![1, 3, 4]);
    st.click_row(0, true, true);
    assert_eq!(st.selected_indices().clone(), vec![1, 3, 4, 0, 2]);
    st.click_row(9, false, false);
    assert_eq!(st.selected_indices().clone(), vec![1, 3, 4, 0, 2]);
    st.click_row(5, true, false);
    assert_eq!(st.selected_indices().clone(), vec![1, 3, 4, 0, 2, 5]);
    let rows = st.container_rows();
    assert!(rows.iter().all(|r| r.selected));
    assert_eq!(rows[0].name, "c0");
    assert_eq!(rows[0].restart_target, "id0");
}

#[test]
fn lifecycle_flow() {
    let mut st = connected_state(3);
    assert!(st.lifecycle_prompt(LifecycleAction::Stop).is_none());
    assert!(st.begin_lifecycle(LifecycleAction::Stop).is_none());
    st.click_row(2, false, false);
    let (title, msg) = st.lifecycle_prompt(LifecycleAction::Stop).unwrap();
    assert_eq!(title, "Stop");
    assert_eq!(msg, "Stop container \"c2\" (id2)?");
    let start = st.begin_lifecycle(LifecycleAction::Stop).unwrap();
    assert_eq!(start.targets, vec!["id2"]);
    assert_eq!(start.feedback.status.as_deref(), Some("Stopping c2..."));
    assert!(st.busy());
    assert!(st.exec_target().is_some());
    match start.next {
        Next::Lifecycle(LifecycleAction::Stop, 1, Ok(plan)) => {
            assert_eq!((plan.command.as_str(), plan.label.as_str()), ("docker stop --time 10 'id2'", "docker stop"));
        },
        _ => panic!("the stop command follows"),
    }
    let step = st.lifecycle_finished(LifecycleAction::Stop, 1, Ok(DockerCommandResult { exit_code: 0, stdout: String::new(), stderr: String::new() }));
    assert_eq!(step.feedback.status.as_deref(), Some("Refreshing..."));
    let purpose = match step.next {
        Next::List(purpose, Ok(_)) => purpose,
        _ => panic!("a listing follows a lifecycle command"),
    };
    let fb = st.containers_listed(purpose, Ok(vec![row("a", "/x"), row("b", "/y")]));
    assert_eq!(fb.status.as_deref(), Some("Stop issued for 1 container(s). 2 listed."));
    assert!(!st.busy());
    st.click_row(0, false, false);
    st.click_row(1, false, true);
    let start = st.begin_lifecycle(LifecycleAction::Restart).unwrap();
    assert_eq!(start.feedback.status.as_deref(), Some("Restarting 2 containers (one docker restart)..."));
    assert!(st.exec_target().is_none());
    assert!(matches!(start.next, Next::Lifecycle(LifecycleAction::Restart, 2, Ok(_))));
    let step = st.lifecycle_finished(LifecycleAction::Restart, 2, Err("nope".into()));
    assert!(matches!(step.next, Next::Done));
    assert_eq!(step.feedback.status.as_deref(), Some("Restart failed."));
    assert_eq!(step.feedback.message, Some(("Docker restart".to_string(), "nope".to_string())));
    st.click_row(0, false, false);
    st.begin_lifecycle(LifecycleAction::Start).unwrap();
    let failed = Ok(DockerCommandResult { exit_code: 1, stdout: String::new(), stderr: "gone".into() });
    let step = st.lifecycle_finished(LifecycleAction::Start, 1, failed);
    assert_eq!(step.feedback.message, Some(("Docker start".to_string(), "docker start failed (exit 1). gone".to_string())));
}

#[test]
fn restart_all_flow() {
    let ok = |out: &str| Ok(DockerCommandResult { exit_code: 0, stdout: out.to_string(), stderr: String::new() });
    let mut st = connected_state(2);
    let step = st.begin_restart_all();
    assert_eq!(step.feedback.status.as_deref(), Some("Restarting all running containers..."));
    assert!(matches!(&step.next, Next::ListRunning(Ok(p)) if p.command == "docker ps -q"));
    let step = st.running_listed(ok("id1
id2
"));
    let plan = match step.next {
        Next::RestartListed(Ok(plan)) => plan,
        _ => panic!("the restart of the listed ids follows"),
    };
    assert_eq!(plan.command, "docker restart --time 10 'id1' 'id2'");
    let step = st.restart_all_finished(ok(""));
    assert_eq!(step.feedback.status.as_deref(), Some("Refreshing..."));
    assert!(matches!(step.next, Next::List(ListPurpose::AfterRestartAll, Ok(_))));
    let fb = st.containers_listed(ListPurpose::AfterRestartAll, Ok(vec![row("a", "/x")]));
    assert_eq!(fb.status.as_deref(), Some("Restart all running completed. 1 container(s) listed."));
    st.begin_restart_all();
    let step = st.running_listed(ok(" \n"));
    assert!(matches!(step.next, Next::List(ListPurpose::AfterRestartAll, Ok(_))));
    st.begin_restart_all();
    let step = st.restart_all_finished(Err("x".into()));
    assert!(matches!(step.next, Next::Done));
    assert_eq!(step.feedback.status.as_deref(), Some("Restart all running failed."));
    assert_eq!(step.feedback.message, Some(("Docker restart all".to_string(), "x".to_string())));
    st.begin_restart_all();
    let failed = Ok(DockerCommandResult { exit_code: 1, stdout: String::new(), stderr: "down".into() });
    let step = st.running_listed(failed);
    assert_eq!(step.feedback.message, Some(("Docker restart all".to_string(), "docker ps -q failed (exit 1). down".to_string())));
}

#[test]
fn exec_needs_connection() {
    let mut st = AppState::new(defaults());
    assert!(st.exec_target().is_none());
    let d = ConnectionDraft { host: "h".into(), port: 22, username: "u".into(), password: "p".into(), command_timeout_seconds: 9 };
    assert_eq!(d.password, "p");
    st.click_row(0, false, false);
    assert!(st.selected_indices().is_empty());
}

#[test]
fn port_text_reads_back() {
    for p in [0u16, 1, 22, 2222, 65535] {
        let expected = if p == 0 { 22 } else { p };
        assert_eq!(parse_port(&port_string(p)).unwrap(), expected);
    }
}

#[test]
fn input_feedback_texts() {
    let fb = input_feedback(InputProblem::Missing, false);
    assert_eq!(fb.message, Some(("Connect".to_string(), "Host, user, and password are required.".to_string())));
    let fb = input_feedback(InputProblem::BadPort("bad".into()), true);
    assert_eq!(fb.status.as_deref(), Some("Disconnected. Fix the port, then Connect."));
    let (title, text) = restart_all_prompt();
    assert_eq!(title, "Restart all running");
    assert!(text.starts_with("Restart every running container on the remote host?\nThis runs docker ps -q"));
}

#[test]
fn controls_follow_state() {
    let mut st = AppState::new(defaults());
    let f = st.ui_flags();
    assert!(f.fields_enabled && f.connect_enabled);
    assert!(!(f.disconnect_enabled || f.refresh_enabled || f.restart_all_enabled || f.stop_enabled || f.start_enabled || f.restart_enabled || f.exec_enabled));
    st.begin_connect("h", 22, "u", "p");
    let f = st.ui_flags();
    assert!(!(f.fields_enabled || f.connect_enabled || f.disconnect_enabled || f.refresh_enabled || f.restart_all_enabled || f.stop_enabled || f.start_enabled || f.restart_enabled || f.exec_enabled));
    let mut st = connected_state(2);
    st.click_row(0, false, false);
    let f = st.ui_flags();
    assert!(f.exec_enabled && f.stop_enabled && f.start_enabled && f.restart_enabled);
    st.click_row(1, true, false);
    let f = st.ui_flags();
    assert!(!f.exec_enabled && f.stop_enabled);
}

#[test]
fn blank_host_never_connects() {
    let mut st = AppState::new(defaults());
    let step = st.begin_connect(" ", 22, "u", "p");
    let outcome = match step.next {
        Next::Probe(Err(e)) => Err(e),
        _ => panic!("a blank host is refused before any probe"),
    };
    let step = st.finish_connect(outcome, " ", 22, "u", "p", true);
    assert_eq!(step.feedback.message, Some(("SSH connect".to_string(), "Host and username are required.".to_string())));
    assert!(st.connection().is_none());
    assert!(!st.ssh().is_connected());
    let ok = Ok(DockerCommandResult { exit_code: 0, stdout: String::new(), stderr: String::new() });
    st.finish_connect(ok, "h", 22, "", "p", false);
    assert!(st.connection().is_none() && !st.ssh().is_connected());
}
