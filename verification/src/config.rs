//! Layered settings: embedded defaults, sidecar `appsettings.json`, environment overrides.

use vstd::prelude::*;
use vstd::string::*;
use crate::models::{AppSettings, OptionsView, SshOptions, opt_view};
use crate::text::{parse_u16, parse_u16_text};

verus! {

/// The settings after a file layer is laid over `base`: each field of the
/// overlay that is set (non-empty text, non-zero number, present password) wins.
pub open spec fn merged(base: OptionsView, overlay: OptionsView) -> OptionsView {
    OptionsView {
        host: if overlay.host.len() > 0 { overlay.host } else { base.host },
        port: if overlay.port != 0 { overlay.port } else { base.port },
        username: if overlay.username.len() > 0 { overlay.username } else { base.username },
        password: if overlay.password is Some { overlay.password } else { base.password },
        command_timeout_seconds: if overlay.command_timeout_seconds != 0 {
            overlay.command_timeout_seconds
        } else {
            base.command_timeout_seconds
        },
    }
}

/// Lays the settings of a file over `base`.
pub fn merge_settings(base: &mut AppSettings, overlay: AppSettings)
    ensures
        final(base)@ == merged(old(base)@, overlay@),
{
    let o = overlay.ssh;
    if !o.host.as_str().is_empty() {
        base.ssh.host = o.host;
    }
    if o.port != 0 {
        base.ssh.port = o.port;
    }
    if !o.username.as_str().is_empty() {
        base.ssh.username = o.username;
    }
    if o.password.is_some() {
        base.ssh.password = o.password;
    }
    if o.command_timeout_seconds != 0 {
        base.ssh.command_timeout_seconds = o.command_timeout_seconds;
    }
}

/// Values of the `Ssh__Host`, `Ssh__Port`, `Ssh__Username` and `Ssh__Password`
/// environment variables, `None` where a variable is unset.
#[derive(Debug, Clone)]
pub struct EnvOverrides {
    pub host: Option<String>,
    pub port: Option<String>,
    pub username: Option<String>,
    pub password: Option<String>,
}

/// Mathematical model of the environment layer.
pub struct EnvView {
    pub host: Option<Seq<char>>,
    pub port: Option<Seq<char>>,
    pub username: Option<Seq<char>>,
    pub password: Option<Seq<char>>,
}

impl View for EnvOverrides {
    type V = EnvView;

    open spec fn view(&self) -> EnvView {
        EnvView {
            host: opt_view(self.host),
            port: opt_view(self.port),
            username: opt_view(self.username),
            password: opt_view(self.password),
        }
    }
}

/// The settings after the environment layer: a non-empty host or user, a port
/// that parses as `u16`, and any password (even empty) replace the field.
pub open spec fn overridden(s: OptionsView, env: EnvView) -> OptionsView {
    OptionsView {
        host: match env.host {
            Some(h) => if h.len() > 0 { h } else { s.host },
            None => s.host,
        },
        port: match env.port {
            Some(p) => match parse_u16(p) {
                Some(v) => v,
                None => s.port,
            },
            None => s.port,
        },
        username: match env.username {
            Some(u) => if u.len() > 0 { u } else { s.username },
            None => s.username,
        },
        password: match env.password {
            Some(p) => Some(p),
            None => s.password,
        },
        command_timeout_seconds: s.command_timeout_seconds,
    }
}

/// Applies the environment layer.
pub fn apply_env_overrides(settings: &mut AppSettings, env: EnvOverrides)
    ensures
        final(settings)@ == overridden(old(settings)@, env@),
{
    if let Some(host) = env.host {
        if !host.as_str().is_empty() {
            settings.ssh.host = host;
        }
    }
    if let Some(port) = env.port {
        if let Some(p) = parse_u16_text(port.as_str()) {
            settings.ssh.port = p;
        }
    }
    if let Some(user) = env.username {
        if !user.as_str().is_empty() {
            settings.ssh.username = user;
        }
    }
    if let Some(pwd) = env.password {
        settings.ssh.password = Some(pwd);
    }
}

/// The full layering: embedded defaults, then the sidecar file when it parsed,
/// then the environment.
pub open spec fn layered(embedded: OptionsView, sidecar: Option<OptionsView>, env: EnvView) -> OptionsView {
    let after_file = match sidecar {
        Some(f) => merged(embedded, f),
        None => embedded,
    };
    overridden(after_file, env)
}

/// The settings from the embedded defaults, the sidecar file (when it parsed) and the environment.
pub fn layer_settings(embedded: AppSettings, sidecar: Option<AppSettings>, env: EnvOverrides) -> (r: AppSettings)
    ensures
        r@ == layered(embedded@, match sidecar {
            Some(f) => Some(f@),
            None => None,
        }, env@),
{
    let mut settings = embedded;
    if let Some(file_settings) = sidecar {
        merge_settings(&mut settings, file_settings);
    }
    apply_env_overrides(&mut settings, env);
    settings
}

/// A layer that sets no field.
pub open spec fn empty_layer(o: OptionsView) -> bool {
    &&& o.host.len() == 0
    &&& o.port == 0
    &&& o.username.len() == 0
    &&& o.password is None
    &&& o.command_timeout_seconds == 0
}

/// An environment with none of the variables set.
pub open spec fn empty_env(e: EnvView) -> bool {
    &&& e.host is None
    &&& e.port is None
    &&& e.username is None
    &&& e.password is None
}

/// Precedence: embedded < sidecar file < environment. For each field, the
/// environment's value wins when it applies, else the file's value when it is
/// set, else the embedded default.
pub proof fn lemma_layer_precedence(embedded: OptionsView, file: OptionsView, env: EnvView)
    ensures
        ({
            let r = layered(embedded, Some(file), env);
            &&& (env.host matches Some(h) && h.len() > 0) ==> r.host == env.host->0
            &&& !(env.host matches Some(h) && h.len() > 0) ==> r.host == (if file.host.len() > 0 {
                file.host
            } else {
                embedded.host
            })
            &&& (env.port matches Some(p) && parse_u16(p) is Some) ==> r.port == parse_u16(
                env.port->0,
            )->0
            &&& !(env.port matches Some(p) && parse_u16(p) is Some) ==> r.port == (if file.port
                != 0 {
                file.port
            } else {
                embedded.port
            })
            &&& (env.username matches Some(u) && u.len() > 0) ==> r.username == env.username->0
            &&& !(env.username matches Some(u) && u.len() > 0) ==> r.username == (
            if file.username.len() > 0 {
                file.username
            } else {
                embedded.username
            })
            &&& env.password is Some ==> r.password == env.password
            &&& env.password is None ==> r.password == (if file.password is Some {
                file.password
            } else {
                embedded.password
            })
            &&& r.command_timeout_seconds == (if file.command_timeout_seconds != 0 {
                file.command_timeout_seconds
            } else {
                embedded.command_timeout_seconds
            })
        }),
{
}

/// A file or an environment that sets nothing leaves the settings as they were.
pub proof fn lemma_empty_layers_change_nothing(s: OptionsView, file: OptionsView, env: EnvView)
    requires
        empty_layer(file),
        empty_env(env),
    ensures
        merged(s, file) == s,
        overridden(s, env) == s,
        layered(s, Some(file), env) == s,
        layered(s, None, env) == s,
{
}

/// Laying the same file over twice is the same as laying it over once.
pub proof fn lemma_merge_idempotent(s: OptionsView, file: OptionsView)
    ensures
        merged(merged(s, file), file) == merged(s, file),
{
}

/// Applying the same environment twice is the same as applying it once.
pub proof fn lemma_override_idempotent(s: OptionsView, env: EnvView)
    ensures
        overridden(overridden(s, env), env) == overridden(s, env),
{
}

/// The password to use: the one typed in the UI when non-empty, else the configured one.
pub open spec fn effective_password_of(options: OptionsView, ui_password: Seq<char>) -> Option<Seq<char>> {
    if ui_password.len() > 0 {
        Some(ui_password)
    } else {
        options.password
    }
}

impl SshOptions {
    pub fn effective_password<'a>(&'a self, ui_password: &'a str) -> (r: Option<&'a str>)
        ensures
            match r {
                Some(p) => effective_password_of(self@, ui_password@) == Some(p@),
                None => effective_password_of(self@, ui_password@) is None,
            },
    {
        if !ui_password.is_empty() {
            Some(ui_password)
        } else {
            match &self.password {
                Some(p) => Some(p.as_str()),
                None => None,
            }
        }
    }
}

} // verus!
