# script_reloader

Docker container management over SSH: the library holds the logic, proved with Verus;
`app/` holds the reading of files and environment, the runs of `ssh.exe`, DPAPI and JSON.

Library modules (`src/`):

- `text`: white space, trimming, decimal numbers, `u16` parsing, character replacement.
- `models`: container rows, connection draft, SSH options, saved session record.
- `config`: layering of embedded defaults, the sidecar file and the environment.
- `ssh_util`: `ssh` command lines, arguments and the askpass helper text.
- `ssh_docker`: shell quoting of targets, Docker commands, error texts, listing of containers,
  and the SSH Docker service as a state machine that hands out the commands to run.
- `shell_words`: a model of how a POSIX shell reads words back, with the proofs that the
  quoting gives back exactly the targets.
- `session`: the saved session, and the base64 text form of the protected password.
- `exec`: the interactive `docker exec` terminal.
- `ui`: the view model of the window: selection, enabled controls, status texts and messages.

Each event of the window is a method of `ui::AppState` that returns a `Step`: what to show,
what to do with the saved session, and the next remote command (`Next`) together with the
method that takes its outcome. `app/controller.rs` performs those commands and file writes
and feeds the outcomes back until nothing follows; `app/main.rs` is a console front end.
