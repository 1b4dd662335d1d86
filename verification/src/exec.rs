//! Popout terminal for an interactive `docker exec -it ... bash`: what is launched.

use vstd::prelude::*;
use vstd::string::*;
use crate::models::{ConnectionDraft, DraftView};
use crate::ssh_docker::single_quoted;
use crate::ssh_util::{build_ssh_shell_command, ssh_shell_command_of};
use crate::text::{blank, is_blank, push_char, push_text};

verus! {

/// The remote command that opens a shell in the container.
pub open spec fn exec_remote_command_of(container_target: Seq<char>) -> Seq<char> {
    "docker exec -it "@ + single_quoted(container_target) + " bash"@
}

pub fn exec_remote_command(container_target: &str) -> (r: String)
    ensures
        r@ == exec_remote_command_of(container_target@),
{
    let mut r = "docker exec -it ".to_owned();
    push_char(&mut r, '\'');
    let esc = crate::ssh_docker::escape_for_single_quoted_unix_shell(container_target);
    push_text(&mut r, esc.as_str());
    push_char(&mut r, '\'');
    push_text(&mut r, " bash");
    r
}

/// Title of the terminal window.
pub open spec fn exec_window_title_of(display_name: Seq<char>) -> Seq<char> {
    "Script Reloader - exec "@ + display_name
}

pub fn exec_window_title(display_name: &str) -> (r: String)
    ensures
        r@ == exec_window_title_of(display_name@),
{
    let mut r = "Script Reloader - exec ".to_owned();
    push_text(&mut r, display_name);
    r
}

/// What a terminal is opened with: its title and the `ssh` command it runs.
#[derive(Debug, Clone)]
pub struct ExecLaunch {
    pub title: String,
    pub ssh_command: String,
}

/// Mathematical model of a terminal launch.
pub struct ExecLaunchView {
    pub title: Seq<char>,
    pub ssh_command: Seq<char>,
}

impl View for ExecLaunch {
    type V = ExecLaunchView;

    open spec fn view(&self) -> ExecLaunchView {
        ExecLaunchView { title: self.title@, ssh_command: self.ssh_command@ }
    }
}

/// The launch for a container, or why there is none: a connection without host,
/// user or password, then a blank target.
pub open spec fn exec_launch_of(connection: DraftView, container_target: Seq<char>, display_name: Seq<char>) -> Result<
    ExecLaunchView,
    Seq<char>,
> {
    if connection.host.len() == 0 || connection.username.len() == 0 || connection.password.len() == 0 {
        Err("Not connected. Connect before opening exec terminal."@)
    } else if blank(container_target) {
        Err("Container target is required."@)
    } else {
        Ok(
            ExecLaunchView {
                title: exec_window_title_of(display_name),
                ssh_command: ssh_shell_command_of(
                    connection,
                    exec_remote_command_of(container_target),
                    true,
                ),
            },
        )
    }
}

/// The exec terminal to open for a container: the checks made first, then its title and command.
pub fn plan_exec_terminal(connection: &ConnectionDraft, container_target: &str, display_name: &str) -> (r: Result<
    ExecLaunch,
    String,
>)
    ensures
        match r {
            Ok(l) => exec_launch_of(connection@, container_target@, display_name@) == Ok::<
                ExecLaunchView,
                Seq<char>,
            >(l@),
            Err(e) => exec_launch_of(connection@, container_target@, display_name@) == Err::<
                ExecLaunchView,
                Seq<char>,
            >(e@),
        },
{
    if connection.host.as_str().is_empty() || connection.username.as_str().is_empty()
        || connection.password.as_str().is_empty() {
        return Err("Not connected. Connect before opening exec terminal.".to_owned());
    }
    if is_blank(container_target) {
        return Err("Container target is required.".to_owned());
    }
    let remote = exec_remote_command(container_target);
    let title = exec_window_title(display_name);
    let ssh_command = build_ssh_shell_command(connection, remote.as_str(), true);
    Ok(ExecLaunch { title, ssh_command })
}

/// The `cmd.exe` line run in the terminal: the askpass environment, then the
/// `ssh` command, then `pause` when the window should stay open.
pub open spec fn terminal_inner_command_of(askpass_path: Seq<char>, ssh_command: Seq<char>, pause: bool) -> Seq<char> {
    "set SSH_ASKPASS="@ + askpass_path + " && set DISPLAY=1 && set SSH_ASKPASS_REQUIRE=force && "@
        + ssh_command + if pause { " && pause"@ } else { Seq::empty() }
}

pub fn terminal_inner_command(askpass_path: &str, ssh_command: &str, pause: bool) -> (r: String)
    ensures
        r@ == terminal_inner_command_of(askpass_path@, ssh_command@, pause),
{
    let mut r = "set SSH_ASKPASS=".to_owned();
    push_text(&mut r, askpass_path);
    push_text(&mut r, " && set DISPLAY=1 && set SSH_ASKPASS_REQUIRE=force && ");
    push_text(&mut r, ssh_command);
    if pause {
        push_text(&mut r, " && pause");
    }
    r
}

} // verus!
