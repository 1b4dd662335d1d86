use script_reloader::models::ConnectionDraft;
use script_reloader::ssh_util::{
    askpass_file_name, askpass_script, build_ssh_shell_command, find_ssh_exe, shell_escape_double_quotes,
    ssh_arguments, timeout_message,
};

fn draft(port: u16) -> ConnectionDraft {
    ConnectionDraft {
        host: "host".into(),
        port,
        username: "user".into(),
        password: "pw".into(),
        command_timeout_seconds: 120,
    }
}

#[test]
fn build_ssh_shell_command_includes_user_host() {
    let cmd = build_ssh_shell_command(&draft(2222), "docker ps", false);
    assert!(cmd.contains("user@host"));
    assert!(cmd.contains("-p 2222"));
}

#[test]
fn ssh_shell_command_exact_text() {
    assert_eq!(
        build_ssh_shell_command(&draft(22), "say \"hi\"", true),
        "ssh -t -p 22 -o StrictHostKeyChecking=accept-new -o PreferredAuthentications=password -o PubkeyAuthentication=no -o NumberOfPasswordPrompts=1 user@host \"say \\\"hi\\\"\""
    );
}

#[test]
fn double_quote_escaping() {
    assert_eq!(shell_escape_double_quotes("a\"b"), "\"a\\\"b\"");
    assert_eq!(shell_escape_double_quotes(""), "\"\"");
}

#[test]
fn ssh_arguments_list() {
    let args = ssh_arguments(&draft(2200), "docker ps", true);
    assert_eq!(
        args,
        vec![
            "-p", "2200", "-o", "StrictHostKeyChecking=accept-new", "-o",
            "PreferredAuthentications=password", "-o", "PubkeyAuthentication=no", "-o",
            "NumberOfPasswordPrompts=1", "-t", "user@host", "docker ps",
        ]
    );
    assert_eq!(ssh_arguments(&draft(22), "x", false).len(), 12);
}

#[test]
fn askpass_helper_texts() {
    assert_eq!(askpass_file_name(4711), "container-watch-askpass-4711.cmd");
    assert_eq!(
        askpass_script("it's"),
        "@echo off\npowershell -NoProfile -Command \"Write-Output 'it''s'\"\n"
    );
}

#[test]
fn ssh_exe_lookup_and_timeout_texts() {
    assert_eq!(find_ssh_exe(Some("C:\\ssh.exe".into())).unwrap(), "C:\\ssh.exe");
    assert_eq!(
        find_ssh_exe(None).unwrap_err(),
        "OpenSSH client (ssh.exe) not found on PATH. Install the Windows OpenSSH Client."
    );
    assert_eq!(timeout_message(30), "SSH command timed out after 30s.");
}
