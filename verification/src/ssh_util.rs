//! System OpenSSH client helpers: command lines and arguments for `ssh.exe`.

use vstd::prelude::*;
use vstd::string::*;
use crate::models::{ConnectionDraft, DraftView};
use crate::text::{decimal, push_decimal, push_replaced, push_text, replace_char};

verus! {

/// Exit code and captured output of one `ssh.exe` run.
#[derive(Debug, Clone)]
pub struct SshCommandResult {
    pub exit_code: i32,
    pub stdout: String,
    pub stderr: String,
}

/// Mathematical model of a command result.
pub struct CommandOutputView {
    pub exit_code: i32,
    pub stdout: Seq<char>,
    pub stderr: Seq<char>,
}

impl View for SshCommandResult {
    type V = CommandOutputView;

    open spec fn view(&self) -> CommandOutputView {
        CommandOutputView { exit_code: self.exit_code, stdout: self.stdout@, stderr: self.stderr@ }
    }
}

/// Where `ssh.exe` is, or the message shown when it is not on `PATH`.
pub fn find_ssh_exe(located: Option<String>) -> (r: Result<String, String>)
    ensures
        match located {
            Some(p) => r matches Ok(q) && q@ == p@,
            None => r matches Err(e) && e@
                == "OpenSSH client (ssh.exe) not found on PATH. Install the Windows OpenSSH Client."@,
        },
{
    match located {
        Some(p) => Ok(p),
        None => Err(
            "OpenSSH client (ssh.exe) not found on PATH. Install the Windows OpenSSH Client.".to_owned(),
        ),
    }
}

/// File name of the askpass helper for a process id.
pub open spec fn askpass_file_name_of(pid: u32) -> Seq<char> {
    "container-watch-askpass-"@ + decimal(pid as nat) + ".cmd"@
}

/// Name of the temporary askpass helper file.
pub fn askpass_file_name(pid: u32) -> (r: String)
    ensures
        r@ == askpass_file_name_of(pid),
{
    let mut r = "container-watch-askpass-".to_owned();
    push_decimal(&mut r, pid as u64);
    push_text(&mut r, ".cmd");
    r
}

/// Content of the askpass helper: a batch file that prints the password,
/// with `'` doubled for the PowerShell single-quoted string.
pub open spec fn askpass_script_of(password: Seq<char>) -> Seq<char> {
    "@echo off\n"@ + "powershell -NoProfile -Command \"Write-Output '"@ + replace_char(
        password,
        '\'',
        "''"@,
    ) + "'\"\n"@
}

/// Builds the askpass helper script for a password.
pub fn askpass_script(password: &str) -> (r: String)
    ensures
        r@ == askpass_script_of(password@),
{
    let mut r = "@echo off\n".to_owned();
    push_text(&mut r, "powershell -NoProfile -Command \"Write-Output '");
    push_replaced(&mut r, password, '\'', "''");
    push_text(&mut r, "'\"\n");
    r
}

/// `"value"` with every `"` written as `\"`.
pub open spec fn double_quoted(value: Seq<char>) -> Seq<char> {
    seq!['"'] + replace_char(value, '"', seq!['\\', '"']) + seq!['"']
}

pub fn shell_escape_double_quotes(value: &str) -> (r: String)
    ensures
        r@ == double_quoted(value@),
{
    let mut r = String::new();
    crate::text::push_char(&mut r, '"');
    let mut with = String::new();
    crate::text::push_char(&mut with, '\\');
    crate::text::push_char(&mut with, '"');
    assert(with@ =~= seq!['\\', '"']);
    push_replaced(&mut r, value, '"', with.as_str());
    crate::text::push_char(&mut r, '"');
    r
}

/// The fixed options passed to every `ssh` invocation, after the port.
pub open spec fn ssh_fixed_options() -> Seq<char> {
    " -o StrictHostKeyChecking=accept-new -o PreferredAuthentications=password -o PubkeyAuthentication=no -o NumberOfPasswordPrompts=1 "@
}

/// The command line that runs `remote_command` on the connection's host.
pub open spec fn ssh_shell_command_of(c: DraftView, remote_command: Seq<char>, tty: bool) -> Seq<char> {
    "ssh "@ + (if tty { "-t "@ } else { Seq::empty() }) + "-p "@ + decimal(c.port as nat)
        + ssh_fixed_options() + c.username + "@"@ + c.host + " "@ + double_quoted(remote_command)
}

pub fn build_ssh_shell_command(connection: &ConnectionDraft, remote_command: &str, tty: bool) -> (r: String)
    ensures
        r@ == ssh_shell_command_of(connection@, remote_command@, tty),
{
    let mut r = "ssh ".to_owned();
    if tty {
        push_text(&mut r, "-t ");
    }
    push_text(&mut r, "-p ");
    push_decimal(&mut r, connection.port as u64);
    push_text(
        &mut r,
        " -o StrictHostKeyChecking=accept-new -o PreferredAuthentications=password -o PubkeyAuthentication=no -o NumberOfPasswordPrompts=1 ",
    );
    push_text(&mut r, connection.username.as_str());
    push_text(&mut r, "@");
    push_text(&mut r, connection.host.as_str());
    push_text(&mut r, " ");
    let quoted = shell_escape_double_quotes(remote_command);
    push_text(&mut r, quoted.as_str());
    r
}

/// The argument list handed to `ssh.exe` for one remote command.
pub open spec fn ssh_arguments_of(c: DraftView, remote_command: Seq<char>, tty: bool) -> Seq<Seq<char>> {
    seq![
        "-p"@,
        decimal(c.port as nat),
        "-o"@,
        "StrictHostKeyChecking=accept-new"@,
        "-o"@,
        "PreferredAuthentications=password"@,
        "-o"@,
        "PubkeyAuthentication=no"@,
        "-o"@,
        "NumberOfPasswordPrompts=1"@,
    ] + (if tty { seq!["-t"@] } else { Seq::empty() }) + seq![
        c.username + "@"@ + c.host,
        remote_command,
    ]
}

/// Arguments for `ssh.exe`: port, fixed options, `-t` when a terminal is wanted,
/// `user@host` and the remote command.
pub fn ssh_arguments(connection: &ConnectionDraft, remote_command: &str, allocate_tty: bool) -> (r: Vec<String>)
    ensures
        crate::text::views(r@) == ssh_arguments_of(connection@, remote_command@, allocate_tty),
{
    let mut r: Vec<String> = Vec::new();
    r.push("-p".to_owned());
    r.push(crate::text::decimal_text(connection.port as u64));
    r.push("-o".to_owned());
    r.push("StrictHostKeyChecking=accept-new".to_owned());
    r.push("-o".to_owned());
    r.push("PreferredAuthentications=password".to_owned());
    r.push("-o".to_owned());
    r.push("PubkeyAuthentication=no".to_owned());
    r.push("-o".to_owned());
    r.push("NumberOfPasswordPrompts=1".to_owned());
    if allocate_tty {
        r.push("-t".to_owned());
    }
    let mut target = connection.username.clone();
    push_text(&mut target, "@");
    push_text(&mut target, connection.host.as_str());
    r.push(target);
    r.push(remote_command.to_owned());
    r
}

/// Message for an `ssh` run that did not finish in time.
pub fn timeout_message(secs: u64) -> (r: String)
    ensures
        r@ == "SSH command timed out after "@ + decimal(secs as nat) + "s."@,
{
    let mut r = "SSH command timed out after ".to_owned();
    push_decimal(&mut r, secs);
    push_text(&mut r, "s.");
    r
}

} // verus!
