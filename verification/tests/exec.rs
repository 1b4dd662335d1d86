use script_reloader::exec::{exec_remote_command, plan_exec_terminal, terminal_inner_command};
use script_reloader::models::ConnectionDraft;
use script_reloader::ssh_util;

fn draft(password: &str) -> ConnectionDraft {
    ConnectionDraft {
        host: "host".into(),
        port: 22,
        username: "user".into(),
        password: password.into(),
        command_timeout_seconds: 120,
    }
}

#[test]
fn remote_command_quotes_target() {
    let cmd = ssh_util::build_ssh_shell_command(&draft("pw"), "docker exec -it 'abc' bash", true);
    assert!(cmd.contains("user@host"));
    assert!(cmd.contains("-t"));
}

#[test]
fn exec_plan_checks_and_builds() {
    assert_eq!(
        plan_exec_terminal(&draft(""), "abc", "web").err().unwrap(),
        "Not connected. Connect before opening exec terminal."
    );
    assert_eq!(plan_exec_terminal(&draft("pw"), "  ", "web").err().unwrap(), "Container target is required.");
    let plan = plan_exec_terminal(&draft("pw"), "a'b", "web").ok().unwrap();
    assert_eq!(plan.title, "Script Reloader - exec web");
    assert!(plan.ssh_command.starts_with("ssh -t -p 22 "));
    assert!(plan.ssh_command.ends_with("user@host \"docker exec -it 'a'\\''b' bash\""));
    assert_eq!(exec_remote_command("abc"), "docker exec -it 'abc' bash");
}

#[test]
fn terminal_inner_commands() {
    assert_eq!(
        terminal_inner_command("C:\\t\\a.cmd", "ssh x", false),
        "set SSH_ASKPASS=C:\\t\\a.cmd && set DISPLAY=1 && set SSH_ASKPASS_REQUIRE=force && ssh x"
    );
    assert!(terminal_inner_command("p", "ssh x", true).ends_with("ssh x && pause"));
}

#[test]
fn exec_command_addresses_target_exactly() {
    assert_eq!(exec_remote_command("it's a box"), "docker exec -it 'it'\\''s a box' bash");
}
