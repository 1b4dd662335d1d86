//! Domain models: containers, connection draft, SSH options, saved session.

use vstd::prelude::*;
use vstd::string::*;
use crate::text::{blank, is_blank, trim_start_char, trim_start_char_text, views};

verus! {

/// View of an optional string.
pub open spec fn opt_view(o: Option<String>) -> Option<Seq<char>> {
    match o {
        Some(s) => Some(s@),
        None => None,
    }
}

/// Copy of an optional string.
pub fn copy_opt(o: &Option<String>) -> (r: Option<String>)
    ensures
        opt_view(r) == opt_view(*o),
{
    match o {
        Some(s) => Some(s.clone()),
        None => None,
    }
}

/// Copy of a vector of strings.
pub fn copy_strings(v: &Vec<String>) -> (r: Vec<String>)
    ensures
        views(r@) == views(v@),
{
    let mut r: Vec<String> = Vec::new();
    let mut i: usize = 0;
    while i < v.len()
        invariant
            i <= v.len(),
            r@.len() == i,
            views(r@) == views(v@).take(i as int),
        decreases v.len() - i,
    {
        r.push(v[i].clone());
        i = i + 1;
    }
    r
}

/// One row of `docker ps -a --format '{{json .}}'`.
#[derive(Debug, Clone, PartialEq, Eq)]
pub struct ContainerInfo {
    pub id: Option<String>,
    pub names: Vec<String>,
    pub image: Option<String>,
    pub state: Option<String>,
    pub status: Option<String>,
}

/// Mathematical model of a container row.
pub struct ContainerView {
    pub id: Option<Seq<char>>,
    pub names: Seq<Seq<char>>,
    pub image: Option<Seq<char>>,
    pub state: Option<Seq<char>>,
    pub status: Option<Seq<char>>,
}

impl View for ContainerInfo {
    type V = ContainerView;

    open spec fn view(&self) -> ContainerView {
        ContainerView {
            id: opt_view(self.id),
            names: views(self.names@),
            image: opt_view(self.image),
            state: opt_view(self.state),
            status: opt_view(self.status),
        }
    }
}

/// The name shown for a container: its first name without leading `/`,
/// else its id, else the empty string.
pub open spec fn display_name_of(c: ContainerView) -> Seq<char> {
    if c.names.len() > 0 {
        trim_start_char(c.names[0], '/')
    } else {
        match c.id {
            Some(id) => id,
            None => Seq::empty(),
        }
    }
}

/// What lifecycle commands address: the id when it is not blank, else the display name.
pub open spec fn restart_target_of(c: ContainerView) -> Seq<char> {
    match c.id {
        Some(id) => if blank(id) {
            display_name_of(c)
        } else {
            id
        },
        None => display_name_of(c),
    }
}

impl ContainerInfo {
    pub fn display_name(&self) -> (r: String)
        ensures
            r@ == display_name_of(self@),
    {
        if self.names.len() > 0 {
            trim_start_char_text(self.names[0].as_str(), '/')
        } else {
            match &self.id {
                Some(id) => id.clone(),
                None => String::new(),
            }
        }
    }

    /// Prefer container ID for docker lifecycle commands.
    pub fn restart_target(&self) -> (r: String)
        ensures
            r@ == restart_target_of(self@),
    {
        match &self.id {
            Some(id) => {
                if !is_blank(id.as_str()) {
                    return id.clone();
                }
            },
            None => {},
        }
        self.display_name()
    }

    /// A field-by-field copy.
    pub fn duplicate(&self) -> (r: ContainerInfo)
        ensures
            r@ == self@,
    {
        ContainerInfo {
            id: copy_opt(&self.id),
            names: copy_strings(&self.names),
            image: copy_opt(&self.image),
            state: copy_opt(&self.state),
            status: copy_opt(&self.status),
        }
    }
}

/// The names kept from a list: the non-empty ones, in order.
pub open spec fn nonempty_names(s: Seq<Seq<char>>) -> Seq<Seq<char>>
    decreases s.len(),
{
    if s.len() == 0 {
        Seq::empty()
    } else if s.last().len() > 0 {
        nonempty_names(s.drop_last()).push(s.last())
    } else {
        nonempty_names(s.drop_last())
    }
}

/// Names field given as one string: empty means no names.
pub fn names_from_text(value: &str) -> (r: Vec<String>)
    ensures
        views(r@) == (if value@.len() == 0 {
            Seq::<Seq<char>>::empty()
        } else {
            seq![value@]
        }),
{
    let mut r: Vec<String> = Vec::new();
    if !value.is_empty() {
        r.push(value.to_owned());
    }
    assert(views(r@) =~= (if value@.len() == 0 {
        Seq::<Seq<char>>::empty()
    } else {
        seq![value@]
    }));
    r
}

/// Names field given as a list: empty entries are dropped.
pub fn names_from_list(values: Vec<String>) -> (r: Vec<String>)
    ensures
        views(r@) == nonempty_names(views(values@)),
{
    let mut r: Vec<String> = Vec::new();
    let mut i: usize = 0;
    while i < values.len()
        invariant
            i <= values.len(),
            views(r@) == nonempty_names(views(values@).take(i as int)),
        decreases values.len() - i,
    {
        let ghost before = views(values@).take(i as int);
        let ghost after = views(values@).take(i + 1);
        assert(after.drop_last() =~= before);
        if !values[i].as_str().is_empty() {
            r.push(values[i].clone());
        }
        i = i + 1;
    }
    assert(views(values@).take(values.len() as int) =~= views(values@));
    r
}

/// Effective SSH connection parameters for one session.
#[derive(Debug, Clone, PartialEq, Eq)]
pub struct ConnectionDraft {
    pub host: String,
    pub port: u16,
    pub username: String,
    pub password: String,
    pub command_timeout_seconds: u64,
}

/// Mathematical model of a connection draft.
pub struct DraftView {
    pub host: Seq<char>,
    pub port: u16,
    pub username: Seq<char>,
    pub password: Seq<char>,
    pub command_timeout_seconds: u64,
}

impl View for ConnectionDraft {
    type V = DraftView;

    open spec fn view(&self) -> DraftView {
        DraftView {
            host: self.host@,
            port: self.port,
            username: self.username@,
            password: self.password@,
            command_timeout_seconds: self.command_timeout_seconds,
        }
    }
}

/// A number of seconds held to the range 5 to 600.
pub open spec fn clamp_timeout(secs: u64) -> u64 {
    if secs < 5 {
        5
    } else if secs > 600 {
        600
    } else {
        secs
    }
}

/// Name for what `Duration::from_secs` returns.
pub uninterp spec fn duration_from_secs_spec(secs: u64) -> std::time::Duration;

/// `Duration::from_secs`: a duration of exactly `secs` seconds.
#[verifier::external_body]
fn duration_from_secs(secs: u64) -> (d: std::time::Duration)
    ensures
        d == duration_from_secs_spec(secs),
{
    std::time::Duration::from_secs(secs)
}

/// Timeout in seconds held to 5..=600.
pub fn clamped_timeout_secs(secs: u64) -> (r: u64)
    ensures
        r == clamp_timeout(secs),
        5 <= r <= 600,
{
    if secs < 5 {
        5
    } else if secs > 600 {
        600
    } else {
        secs
    }
}

impl ConnectionDraft {
    /// The per-command timeout, between 5 and 600 seconds.
    pub fn command_timeout(&self) -> (d: std::time::Duration)
        ensures
            d == duration_from_secs_spec(clamp_timeout(self.command_timeout_seconds)),
    {
        duration_from_secs(clamped_timeout_secs(self.command_timeout_seconds))
    }

    /// A field-by-field copy.
    pub fn duplicate(&self) -> (r: ConnectionDraft)
        ensures
            r@ == self@,
    {
        ConnectionDraft {
            host: self.host.clone(),
            port: self.port,
            username: self.username.clone(),
            password: self.password.clone(),
            command_timeout_seconds: self.command_timeout_seconds,
        }
    }
}

/// SSH defaults from configuration.
#[derive(Debug, Clone, PartialEq, Eq)]
pub struct SshOptions {
    pub host: String,
    pub port: u16,
    pub username: String,
    pub password: Option<String>,
    pub command_timeout_seconds: u64,
}

/// Mathematical model of SSH options.
pub struct OptionsView {
    pub host: Seq<char>,
    pub port: u16,
    pub username: Seq<char>,
    pub password: Option<Seq<char>>,
    pub command_timeout_seconds: u64,
}

impl View for SshOptions {
    type V = OptionsView;

    open spec fn view(&self) -> OptionsView {
        OptionsView {
            host: self.host@,
            port: self.port,
            username: self.username@,
            password: opt_view(self.password),
            command_timeout_seconds: self.command_timeout_seconds,
        }
    }
}

/// The default SSH port.
pub fn default_port() -> (p: u16)
    ensures
        p == 22,
{
    22
}

/// The default command timeout in seconds.
pub fn default_timeout() -> (t: u64)
    ensures
        t == 120,
{
    120
}

/// Options with no host, user or password, port 22 and a 120 s timeout.
pub open spec fn default_options() -> OptionsView {
    OptionsView {
        host: Seq::empty(),
        port: 22,
        username: Seq::empty(),
        password: None,
        command_timeout_seconds: 120,
    }
}

impl Default for SshOptions {
    fn default() -> (r: SshOptions)
        ensures
            r@ == default_options(),
    {
        SshOptions {
            host: String::new(),
            port: default_port(),
            username: String::new(),
            password: None,
            command_timeout_seconds: default_timeout(),
        }
    }
}

impl SshOptions {
    /// A field-by-field copy.
    pub fn duplicate(&self) -> (r: SshOptions)
        ensures
            r@ == self@,
    {
        SshOptions {
            host: self.host.clone(),
            port: self.port,
            username: self.username.clone(),
            password: copy_opt(&self.password),
            command_timeout_seconds: self.command_timeout_seconds,
        }
    }
}

/// Layered configuration (`appsettings.json` + environment).
#[derive(Debug, Clone, PartialEq, Eq)]
pub struct AppSettings {
    pub ssh: SshOptions,
}

impl View for AppSettings {
    type V = OptionsView;

    open spec fn view(&self) -> OptionsView {
        self.ssh@
    }
}

impl Default for AppSettings {
    fn default() -> (r: AppSettings)
        ensures
            r@ == default_options(),
    {
        AppSettings { ssh: SshOptions::default() }
    }
}

/// What is written to the session file; the password is DPAPI-protected.
#[derive(Debug, Clone, PartialEq, Eq)]
pub struct SavedConnectionDto {
    pub host: String,
    pub port: u16,
    pub username: String,
    pub password_protected: Option<String>,
}

} // verus!
