//! View model of the window: what each button and event does to the state,
//! and the texts shown. The window toolkit itself stays outside.

use vstd::prelude::*;
use vstd::string::*;
use crate::config::effective_password_of;
use crate::models::{
    clamp_timeout, clamped_timeout_secs, opt_view, ConnectionDraft, ContainerInfo, ContainerView,
    DraftView, OptionsView, SshOptions,
};
use crate::session::{LoadedSession, SessionView};
use crate::ssh_docker::{
    checked_output, checked_output_of, connect_of, connection_request_of, lifecycle_plan,
    list_command_text, list_label, outcome_view, plan_view, probe_plan_of, remote_on,
    restart_label, restart_listed_of, restart_prefix, running_ids_command_text, running_ids_label,
    start_label, start_prefix, stop_label, stop_prefix, DockerCommandResult, RemoteCommand,
    RemoteCommandView, SshDockerService,
};
use crate::text::{blank, decimal, digit_char, views, decimal_text, is_blank, parse_u16, parse_u16_text, push_decimal, push_text, trim, trim_text};

verus! {

/// A lifecycle command applied to the selected containers.
#[derive(Debug, Clone, Copy, PartialEq, Eq, Structural)]
pub enum LifecycleAction {
    Stop,
    Start,
    Restart,
}

pub open spec fn verb_of(a: LifecycleAction) -> Seq<char> {
    match a {
        LifecycleAction::Stop => "Stop"@,
        LifecycleAction::Start => "Start"@,
        LifecycleAction::Restart => "Restart"@,
    }
}

pub open spec fn progress_of(a: LifecycleAction) -> Seq<char> {
    match a {
        LifecycleAction::Stop => "Stopping"@,
        LifecycleAction::Start => "Starting"@,
        LifecycleAction::Restart => "Restarting"@,
    }
}

pub open spec fn docker_cli_of(a: LifecycleAction) -> Seq<char> {
    match a {
        LifecycleAction::Stop => "stop"@,
        LifecycleAction::Start => "start"@,
        LifecycleAction::Restart => "restart"@,
    }
}

pub open spec fn error_title_of(a: LifecycleAction) -> Seq<char> {
    match a {
        LifecycleAction::Stop => "Docker stop"@,
        LifecycleAction::Start => "Docker start"@,
        LifecycleAction::Restart => "Docker restart"@,
    }
}

pub open spec fn failed_status_of(a: LifecycleAction) -> Seq<char> {
    match a {
        LifecycleAction::Stop => "Stop failed."@,
        LifecycleAction::Start => "Start failed."@,
        LifecycleAction::Restart => "Restart failed."@,
    }
}

pub open spec fn done_noun_of(a: LifecycleAction) -> Seq<char> {
    match a {
        LifecycleAction::Stop => "Stop"@,
        LifecycleAction::Start => "Start"@,
        LifecycleAction::Restart => "Restart"@,
    }
}

impl LifecycleAction {
    pub fn verb(&self) -> (r: &'static str)
        ensures
            r@ == verb_of(*self),
    {
        match self {
            LifecycleAction::Stop => "Stop",
            LifecycleAction::Start => "Start",
            LifecycleAction::Restart => "Restart",
        }
    }

    pub fn progress(&self) -> (r: &'static str)
        ensures
            r@ == progress_of(*self),
    {
        match self {
            LifecycleAction::Stop => "Stopping",
            LifecycleAction::Start => "Starting",
            LifecycleAction::Restart => "Restarting",
        }
    }

    pub fn docker_cli(&self) -> (r: &'static str)
        ensures
            r@ == docker_cli_of(*self),
    {
        match self {
            LifecycleAction::Stop => "stop",
            LifecycleAction::Start => "start",
            LifecycleAction::Restart => "restart",
        }
    }

    pub fn error_title(&self) -> (r: &'static str)
        ensures
            r@ == error_title_of(*self),
    {
        match self {
            LifecycleAction::Stop => "Docker stop",
            LifecycleAction::Start => "Docker start",
            LifecycleAction::Restart => "Docker restart",
        }
    }

    pub fn failed_status(&self) -> (r: &'static str)
        ensures
            r@ == failed_status_of(*self),
    {
        match self {
            LifecycleAction::Stop => "Stop failed.",
            LifecycleAction::Start => "Start failed.",
            LifecycleAction::Restart => "Restart failed.",
        }
    }

    pub fn done_noun(&self) -> (r: &'static str)
        ensures
            r@ == done_noun_of(*self),
    {
        match self {
            LifecycleAction::Stop => "Stop",
            LifecycleAction::Start => "Start",
            LifecycleAction::Restart => "Restart",
        }
    }
}

/// What a confirmation dialog leads to.
#[derive(Debug, Clone, Copy, PartialEq, Eq, Structural)]
pub enum ConfirmAction {
    RestartAll,
    Lifecycle(LifecycleAction),
}

/// The message for a port that is not a number from 1 to 65535.
pub open spec fn bad_port_text() -> Seq<char> {
    "Port must be a number between 1 and 65535."@
}

/// The port typed in the UI: blank means 22; otherwise a number from 1 to 65535.
pub open spec fn parse_port_of(text: Seq<char>) -> Result<u16, Seq<char>> {
    let t = trim(text);
    if t.len() == 0 {
        Ok(22)
    } else {
        match parse_u16(t) {
            Some(p) => if p >= 1 { Ok(p) } else { Err(bad_port_text()) },
            None => Err(bad_port_text()),
        }
    }
}

pub fn parse_port(text: &str) -> (r: Result<u16, String>)
    ensures
        match r {
            Ok(p) => parse_port_of(text@) == Ok::<u16, Seq<char>>(p),
            Err(e) => parse_port_of(text@) == Err::<u16, Seq<char>>(e@),
        },
{
    let trimmed = trim_text(text);
    if trimmed.as_str().is_empty() {
        return Ok(22);
    }
    match parse_u16_text(trimmed.as_str()) {
        Some(p) => {
            if p >= 1 {
                Ok(p)
            } else {
                Err("Port must be a number between 1 and 65535.".to_owned())
            }
        },
        None => Err("Port must be a number between 1 and 65535.".to_owned()),
    }
}

/// The port shown in the UI: the number, or 22 for port 0.
pub open spec fn port_string_of(port: u16) -> Seq<char> {
    if port > 0 {
        decimal(port as nat)
    } else {
        "22"@
    }
}

pub fn port_string(port: u16) -> (r: String)
    ensures
        r@ == port_string_of(port),
{
    if port > 0 {
        decimal_text(port as u64)
    } else {
        "22".to_owned()
    }
}

/// Seconds allowed to an SSH command by the configured defaults, held to 5..=600.
pub fn connection_timeout(defaults: &SshOptions) -> (r: u64)
    ensures
        r == clamp_timeout(defaults.command_timeout_seconds),
{
    clamped_timeout_secs(defaults.command_timeout_seconds)
}

/// The password used to connect: the typed one, else the configured one, else empty.
pub open spec fn connect_password_of(defaults: OptionsView, ui_password: Seq<char>) -> Seq<char> {
    match effective_password_of(defaults, ui_password) {
        Some(p) => p,
        None => Seq::empty(),
    }
}

pub fn effective_password(ui_password: &str, defaults: &SshOptions) -> (r: String)
    ensures
        r@ == connect_password_of(defaults@, ui_password@),
{
    match defaults.effective_password(ui_password) {
        Some(p) => p.to_owned(),
        None => String::new(),
    }
}

/// Why typed connection inputs cannot be used.
#[derive(Debug, Clone)]
pub enum InputProblem {
    /// Host, user or password is missing.
    Missing,
    /// The port text is not a valid port; the message says why.
    BadPort(String),
}

/// The port to connect to, or what is wrong with the inputs: missing values
/// first, then the port.
pub open spec fn connect_inputs_of(host: Seq<char>, user: Seq<char>, password: Seq<char>, port_text: Seq<char>) -> Result<
    u16,
    Option<Seq<char>>,
> {
    if blank(host) || blank(user) || password.len() == 0 {
        Err(None)
    } else {
        match parse_port_of(port_text) {
            Ok(p) => Ok(p),
            Err(e) => Err(Some(e)),
        }
    }
}

pub fn check_connect_inputs(host: &str, user: &str, password: &str, port_text: &str) -> (r: Result<
    u16,
    InputProblem,
>)
    ensures
        match r {
            Ok(p) => connect_inputs_of(host@, user@, password@, port_text@) == Ok::<
                u16,
                Option<Seq<char>>,
            >(p),
            Err(InputProblem::Missing) => connect_inputs_of(host@, user@, password@, port_text@)
                == Err::<u16, Option<Seq<char>>>(None),
            Err(InputProblem::BadPort(e)) => connect_inputs_of(host@, user@, password@, port_text@)
                == Err::<u16, Option<Seq<char>>>(Some(e@)),
        },
{
    if is_blank(host) || is_blank(user) || password.is_empty() {
        return Err(InputProblem::Missing);
    }
    match parse_port(port_text) {
        Ok(p) => Ok(p),
        Err(e) => Err(InputProblem::BadPort(e)),
    }
}

/// What remembering the connection does when the window closes or the box is ticked.
#[derive(Debug, Clone)]
pub enum PersistAction {
    /// Delete the saved session.
    Clear,
    /// Keep what is saved (the port does not parse).
    Keep,
    /// Save this connection.
    Save { host: String, port: u16, username: String, password: Option<String> },
}

/// Mathematical model of a persist decision.
pub enum PersistView {
    Clear,
    Keep,
    Save { host: Seq<char>, port: u16, username: Seq<char>, password: Option<Seq<char>> },
}

impl View for PersistAction {
    type V = PersistView;

    open spec fn view(&self) -> PersistView {
        match self {
            PersistAction::Clear => PersistView::Clear,
            PersistAction::Keep => PersistView::Keep,
            PersistAction::Save { host, port, username, password } => PersistView::Save {
                host: host@,
                port: *port,
                username: username@,
                password: opt_view(*password),
            },
        }
    }
}

pub open spec fn persist_of(
    remember: bool,
    host: Seq<char>,
    user: Seq<char>,
    port_text: Seq<char>,
    password: Seq<char>,
) -> PersistView {
    if !remember {
        PersistView::Clear
    } else {
        match parse_port_of(port_text) {
            Err(_) => PersistView::Keep,
            Ok(p) => PersistView::Save {
                host,
                port: p,
                username: user,
                password: if password.len() == 0 { None } else { Some(password) },
            },
        }
    }
}

/// What the remember box does to the saved session: clear it, keep it, or save the typed connection.
pub fn persist_decision(remember: bool, host: &str, user: &str, port_text: &str, password: &str) -> (r: PersistAction)
    ensures
        r@ == persist_of(remember, host@, user@, port_text@, password@),
{
    if !remember {
        return PersistAction::Clear;
    }
    match parse_port(port_text) {
        Err(_) => PersistAction::Keep,
        Ok(p) => PersistAction::Save {
            host: host.to_owned(),
            port: p,
            username: user.to_owned(),
            password: if password.is_empty() { None } else { Some(password.to_owned()) },
        },
    }
}

/// What the connection fields show when the window opens.
#[derive(Debug, Clone)]
pub struct StartupFields {
    pub host: String,
    pub port: String,
    pub username: String,
    pub password: Option<String>,
    /// Tick "remember connection".
    pub remember: bool,
    /// Status text to show, if any.
    pub status: Option<String>,
    /// Try to connect at once with the saved values.
    pub auto_connect: bool,
}

pub struct StartupView {
    pub host: Seq<char>,
    pub port: Seq<char>,
    pub username: Seq<char>,
    pub password: Option<Seq<char>>,
    pub remember: bool,
    pub status: Option<Seq<char>>,
    pub auto_connect: bool,
}

impl View for StartupFields {
    type V = StartupView;

    open spec fn view(&self) -> StartupView {
        StartupView {
            host: self.host@,
            port: self.port@,
            username: self.username@,
            password: opt_view(self.password),
            remember: self.remember,
            status: opt_view(self.status),
            auto_connect: self.auto_connect,
        }
    }
}

/// A saved session fills the fields and connects; otherwise the defaults fill them.
pub open spec fn startup_of(saved: Option<SessionView>, defaults: OptionsView) -> StartupView {
    match saved {
        Some(s) => StartupView {
            host: s.host,
            port: port_string_of(s.port),
            username: s.username,
            password: s.password,
            remember: true,
            status: None,
            auto_connect: true,
        },
        None => StartupView {
            host: defaults.host,
            port: port_string_of(defaults.port),
            username: defaults.username,
            password: defaults.password,
            remember: false,
            status: Some("Disconnected. Enter host and credentials, then Connect."@),
            auto_connect: false,
        },
    }
}

/// What the connection fields show when the window opens.
pub fn startup_fields(saved: Option<LoadedSession>, defaults: &SshOptions) -> (r: StartupFields)
    ensures
        r@ == startup_of(match saved {
            Some(s) => Some(s@),
            None => None,
        }, defaults@),
{
    match saved {
        Some(s) => StartupFields {
            host: s.host,
            port: port_string(s.port),
            username: s.username,
            password: s.password,
            remember: true,
            status: None,
            auto_connect: true,
        },
        None => StartupFields {
            host: defaults.host.clone(),
            port: port_string(defaults.port),
            username: defaults.username.clone(),
            password: crate::models::copy_opt(&defaults.password),
            remember: false,
            status: Some("Disconnected. Enter host and credentials, then Connect.".to_owned()),
            auto_connect: false,
        },
    }
}

/// Mathematical model of the window state.
pub struct AppView {
    /// The connection the SSH service holds.
    pub service: Option<DraftView>,
    pub defaults: OptionsView,
    pub containers: Seq<ContainerView>,
    pub selected: Seq<usize>,
    pub last_clicked: Option<usize>,
    /// The connection the window considers open.
    pub connection: Option<DraftView>,
    pub busy: bool,
}

/// State behind the window: service, defaults, listed containers, selection, busy flag.
pub struct AppState {
    ssh: crate::ssh_docker::SshDockerService,
    defaults: SshOptions,
    containers: Vec<ContainerInfo>,
    selected_indices: Vec<usize>,
    last_clicked_index: Option<usize>,
    connection: Option<ConnectionDraft>,
    busy: bool,
}

/// View of an optional connection.
pub open spec fn draft_opt_view(c: Option<ConnectionDraft>) -> Option<DraftView> {
    match c {
        Some(d) => Some(d@),
        None => None,
    }
}

impl View for AppState {
    type V = AppView;

    closed spec fn view(&self) -> AppView {
        AppView {
            service: self.ssh@,
            defaults: self.defaults@,
            containers: crate::ssh_docker::container_views(self.containers@),
            selected: self.selected_indices@,
            last_clicked: self.last_clicked_index,
            connection: draft_opt_view(self.connection),
            busy: self.busy,
        }
    }
}

/// `sel` with each index from `lo` to `hi` appended, in order, unless already present.
pub open spec fn add_range(sel: Seq<usize>, lo: int, hi: int) -> Seq<usize>
    decreases hi - lo + 1,
{
    if hi < lo {
        sel
    } else {
        let s = add_range(sel, lo, hi - 1);
        if s.contains(hi as usize) {
            s
        } else {
            s.push(hi as usize)
        }
    }
}

/// `sel` with `index` removed when present, else appended.
pub open spec fn toggled(sel: Seq<usize>, index: usize) -> Seq<usize> {
    if sel.contains(index) {
        let i = choose|i: int| 0 <= i < sel.len() && sel[i] == index;
        sel.remove(i)
    } else {
        sel.push(index)
    }
}

/// The selection after a click on row `index` (shift extends from the last
/// clicked row, control toggles or adds); clicks past the list change nothing.
pub open spec fn click_of(st: AppView, index: usize, control: bool, shift: bool) -> AppView {
    if index >= st.containers.len() {
        st
    } else {
        let sel = if shift {
            match st.last_clicked {
                Some(a) => add_range(
                    if control { st.selected } else { Seq::empty() },
                    if a < index { a as int } else { index as int },
                    if a < index { index as int } else { a as int },
                ),
                None => seq![index],
            }
        } else if control {
            toggled(st.selected, index)
        } else {
            seq![index]
        };
        AppView { selected: sel, last_clicked: Some(index), ..st }
    }
}

/// Every selected index, and the last clicked row, lie within the list.
pub open spec fn selection_in_range(st: AppView) -> bool {
    &&& forall|k: int| 0 <= k < st.selected.len() ==> #[trigger] st.selected[k] < st.containers.len()
    &&& (st.last_clicked matches Some(a) ==> a < st.containers.len())
}

proof fn lemma_add_range(sel: Seq<usize>, lo: int, hi: int)
    requires
        sel.no_duplicates(),
        0 <= lo,
        hi <= usize::MAX,
    ensures
        add_range(sel, lo, hi).no_duplicates(),
        forall|k: int| 0 <= k < add_range(sel, lo, hi).len() ==> (sel.contains(
            #[trigger] add_range(sel, lo, hi)[k],
        ) || (lo <= add_range(sel, lo, hi)[k] <= hi)),
    decreases hi - lo + 1,
{
    if hi >= lo {
        lemma_add_range(sel, lo, hi - 1);
        let s = add_range(sel, lo, hi - 1);
        if !s.contains(hi as usize) {
            let t = s.push(hi as usize);
            assert forall|i: int, j: int| 0 <= i < t.len() && 0 <= j < t.len() && i != j implies t[i]
                != t[j] by {
            }
        }
    }
}

fn contains_index(v: &Vec<usize>, x: usize) -> (b: bool)
    ensures
        b == v@.contains(x),
{
    let mut i: usize = 0;
    while i < v.len()
        invariant
            i <= v.len(),
            forall|k: int| 0 <= k < i ==> v@[k] != x,
        decreases v.len() - i,
    {
        if v[i] == x {
            return true;
        }
        i = i + 1;
    }
    false
}

impl AppState {
    #[verifier::type_invariant]
    spec fn selection_distinct(self) -> bool {
        self.selected_indices@.no_duplicates()
    }

    /// A fresh state: not connected, nothing listed or selected, not busy.
    pub fn new(defaults: SshOptions) -> (r: AppState)
        ensures
            r@ == (AppView {
                service: None,
                defaults: defaults@,
                containers: Seq::empty(),
                selected: Seq::empty(),
                last_clicked: None,
                connection: None,
                busy: false,
            }),
    {
        let r = AppState {
            ssh: crate::ssh_docker::SshDockerService::new(),
            defaults,
            containers: Vec::new(),
            selected_indices: Vec::new(),
            last_clicked_index: None,
            connection: None,
            busy: false,
        };
        assert(r@.containers =~= Seq::<ContainerView>::empty());
        r
    }

    pub fn busy(&self) -> (b: bool)
        ensures
            b == self@.busy,
    {
        self.busy
    }

    /// The selected rows; no index is ever selected twice.
    pub fn selected_indices(&self) -> (r: &Vec<usize>)
        ensures
            r@ == self@.selected,
            r@.no_duplicates(),
    {
        proof {
            use_type_invariant(self);
        }
        &self.selected_indices
    }

    pub fn containers(&self) -> (r: &Vec<ContainerInfo>)
        ensures
            crate::ssh_docker::container_views(r@) == self@.containers,
    {
        &self.containers
    }

    pub fn connection(&self) -> (r: &Option<ConnectionDraft>)
        ensures
            draft_opt_view(*r) == self@.connection,
    {
        &self.connection
    }

    pub fn defaults(&self) -> (r: &SshOptions)
        ensures
            r@ == self@.defaults,
    {
        &self.defaults
    }

    pub fn ssh(&self) -> (r: &crate::ssh_docker::SshDockerService)
        ensures
            r@ == self@.service,
    {
        &self.ssh
    }

    /// The selection after a click on a row with the modifier keys.
    pub fn click_row(&mut self, index: usize, control: bool, shift: bool)
        ensures
            final(self)@ == click_of(old(self)@, index, control, shift),
            final(self)@.selected.no_duplicates(),
            selection_in_range(old(self)@) ==> selection_in_range(final(self)@),
    {
        proof {
            use_type_invariant(&*self);
        }
        let len = self.containers.len();
        if index >= len {
            return;
        }
        let ghost old_sel = self.selected_indices@;
        let ghost old_view = self@;
        let mut sel: Vec<usize>;
        if shift {
            match self.last_clicked_index {
                Some(anchor) => {
                    let lo = if anchor < index { anchor } else { index };
                    let hi = if anchor < index { index } else { anchor };
                    sel = if control { self.selected_indices.clone() } else { Vec::new() };
                    let ghost base = sel@;
                    let mut i = lo;
                    loop
                        invariant_except_break
                            lo <= i <= hi,
                            base.no_duplicates(),
                            sel@ == add_range(base, lo as int, i - 1),
                        ensures
                            sel@ == add_range(base, lo as int, hi as int),
                        decreases hi - i,
                    {
                        if !contains_index(&sel, i) {
                            sel.push(i);
                        }
                        if i == hi {
                            break;
                        }
                        i = i + 1;
                    }
                    proof {
                        lemma_add_range(base, lo as int, hi as int);
                        if selection_in_range(old_view) {
                            assert forall|k: int| 0 <= k < sel@.len() implies #[trigger] sel@[k] < len by {
                            }
                        }
                    }
                },
                None => {
                    sel = Vec::new();
                    sel.push(index);
                },
            }
        } else if control {
            sel = self.selected_indices.clone();
            let n = sel.len();
            let mut pos: usize = 0;
            while pos < n
                invariant
                    n == sel@.len(),
                    sel@ == old_sel,
                    pos <= n,
                    forall|k: int| 0 <= k < pos ==> sel@[k] != index,
                ensures
                    pos <= n,
                    forall|k: int| 0 <= k < pos ==> sel@[k] != index,
                    pos < n ==> sel@[pos as int] == index,
                decreases n - pos,
            {
                if sel[pos] == index {
                    break;
                }
                pos = pos + 1;
            }
            if pos < n {
                sel.remove(pos);
                proof {
                    assert forall|a: int, b: int| 0 <= a < sel@.len() && 0 <= b < sel@.len() && a != b implies sel@[a]
                        != sel@[b] by {
                    }
                    if selection_in_range(old_view) {
                        assert forall|k: int| 0 <= k < sel@.len() implies #[trigger] sel@[k] < len by {
                        }
                    }
                }
            } else {
                sel.push(index);
                proof {
                    assert forall|a: int, b: int| 0 <= a < sel@.len() && 0 <= b < sel@.len() && a != b implies sel@[a]
                        != sel@[b] by {
                    }
                }
            }
        } else {
            sel = Vec::new();
            sel.push(index);
        }
        self.selected_indices = sel;
        self.last_clicked_index = Some(index);
    }
}

/// Which controls are enabled.
#[derive(Debug, Clone)]
pub struct UiFlags {
    pub connected: bool,
    pub busy: bool,
    pub fields_enabled: bool,
    pub connect_enabled: bool,
    pub disconnect_enabled: bool,
    pub refresh_enabled: bool,
    pub restart_all_enabled: bool,
    pub stop_enabled: bool,
    pub start_enabled: bool,
    pub restart_enabled: bool,
    pub exec_enabled: bool,
}

/// The window counts as connected when it holds a connection and so does the service.
pub open spec fn connected_of(st: AppView) -> bool {
    st.connection is Some && st.service is Some
}

/// The enabled controls for a state.
pub open spec fn flags_of(st: AppView) -> UiFlags {
    let connected = connected_of(st);
    let busy = st.busy;
    let can_act = !busy && connected && st.selected.len() > 0;
    UiFlags {
        connected,
        busy,
        fields_enabled: !busy && !connected,
        connect_enabled: !busy && !connected,
        disconnect_enabled: !busy && connected,
        refresh_enabled: !busy && connected,
        restart_all_enabled: !busy && connected,
        stop_enabled: can_act,
        start_enabled: can_act,
        restart_enabled: can_act,
        exec_enabled: !busy && connected && st.selected.len() == 1,
    }
}

/// While an operation runs no control is enabled; when idle and not connected,
/// only the connection fields and Connect are; Exec is enabled only where the
/// lifecycle buttons are.
pub proof fn lemma_controls_follow_state(st: AppView)
    ensures
        st.busy ==> ({
            let f = flags_of(st);
            !f.fields_enabled && !f.connect_enabled && !f.disconnect_enabled && !f.refresh_enabled
                && !f.restart_all_enabled && !f.stop_enabled && !f.start_enabled
                && !f.restart_enabled && !f.exec_enabled
        }),
        !st.busy && !connected_of(st) ==> ({
            let f = flags_of(st);
            f.fields_enabled && f.connect_enabled && !f.disconnect_enabled && !f.refresh_enabled
                && !f.restart_all_enabled && !f.stop_enabled && !f.start_enabled
                && !f.restart_enabled && !f.exec_enabled
        }),
        flags_of(st).exec_enabled ==> flags_of(st).stop_enabled && flags_of(st).start_enabled
            && flags_of(st).restart_enabled,
{
}

/// One row of the container table.
#[derive(Debug, Clone)]
pub struct ContainerRow {
    pub name: String,
    pub state: String,
    pub status: String,
    pub image: String,
    pub id: String,
    pub selected: bool,
    pub restart_target: String,
}

pub struct ContainerRowView {
    pub name: Seq<char>,
    pub state: Seq<char>,
    pub status: Seq<char>,
    pub image: Seq<char>,
    pub id: Seq<char>,
    pub selected: bool,
    pub restart_target: Seq<char>,
}

impl View for ContainerRow {
    type V = ContainerRowView;

    open spec fn view(&self) -> ContainerRowView {
        ContainerRowView {
            name: self.name@,
            state: self.state@,
            status: self.status@,
            image: self.image@,
            id: self.id@,
            selected: self.selected,
            restart_target: self.restart_target@,
        }
    }
}

/// An optional text, empty when absent.
pub open spec fn or_empty(o: Option<Seq<char>>) -> Seq<char> {
    match o {
        Some(s) => s,
        None => Seq::empty(),
    }
}

/// The table row of container `i`.
pub open spec fn row_of(st: AppView, i: int) -> ContainerRowView {
    let c = st.containers[i];
    ContainerRowView {
        name: crate::models::display_name_of(c),
        state: or_empty(c.state),
        status: or_empty(c.status),
        image: or_empty(c.image),
        id: or_empty(c.id),
        selected: st.selected.contains(i as usize),
        restart_target: crate::models::restart_target_of(c),
    }
}

fn text_or_empty(o: &Option<String>) -> (r: String)
    ensures
        r@ == or_empty(opt_view(*o)),
{
    match o {
        Some(s) => s.clone(),
        None => String::new(),
    }
}

/// The selected containers in selection order; indices past the list are skipped.
pub open spec fn selected_of(selected: Seq<usize>, containers: Seq<ContainerView>) -> Seq<ContainerView>
    decreases selected.len(),
{
    if selected.len() == 0 {
        Seq::empty()
    } else {
        let p = selected_of(selected.drop_last(), containers);
        if (selected.last() as int) < containers.len() {
            p.push(containers[selected.last() as int])
        } else {
            p
        }
    }
}

/// Lines of feedback for the window after an event.
#[derive(Debug, Clone)]
pub struct Feedback {
    /// New status text, if it changes.
    pub status: Option<String>,
    /// A message box to show: title and text.
    pub message: Option<(String, String)>,
}

pub struct FeedbackView {
    pub status: Option<Seq<char>>,
    pub message: Option<(Seq<char>, Seq<char>)>,
}

impl View for Feedback {
    type V = FeedbackView;

    open spec fn view(&self) -> FeedbackView {
        FeedbackView {
            status: opt_view(self.status),
            message: match self.message {
                Some(m) => Some((m.0@, m.1@)),
                None => None,
            },
        }
    }
}

fn status_only(text: String) -> (r: Feedback)
    ensures
        r@ == (FeedbackView { status: Some(text@), message: None }),
{
    Feedback { status: Some(text), message: None }
}

/// Seconds allowed to a command: from the open connection, else from the defaults; 5..=600.
pub open spec fn command_timeout_of(st: AppView) -> u64 {
    match st.connection {
        Some(c) => clamp_timeout(c.command_timeout_seconds),
        None => clamp_timeout(st.defaults.command_timeout_seconds),
    }
}

impl AppState {
    /// The enabled controls.
    pub fn ui_flags(&self) -> (r: UiFlags)
        ensures
            r == flags_of(self@),
    {
        let connected = self.connection.is_some() && self.ssh.is_connected();
        let busy = self.busy;
        let count = self.selected_indices.len();
        let can_act = !busy && connected && count > 0;
        UiFlags {
            connected,
            busy,
            fields_enabled: !busy && !connected,
            connect_enabled: !busy && !connected,
            disconnect_enabled: !busy && connected,
            refresh_enabled: !busy && connected,
            restart_all_enabled: !busy && connected,
            stop_enabled: can_act,
            start_enabled: can_act,
            restart_enabled: can_act,
            exec_enabled: !busy && connected && count == 1,
        }
    }

    /// The rows of the container table.
    pub fn container_rows(&self) -> (r: Vec<ContainerRow>)
        ensures
            r@.len() == self@.containers.len(),
            forall|i: int| 0 <= i < r@.len() ==> #[trigger] r@[i]@ == row_of(self@, i),
    {
        let mut rows: Vec<ContainerRow> = Vec::new();
        let n = self.containers.len();
        let mut i: usize = 0;
        while i < n
            invariant
                n == self.containers@.len(),
                n == self@.containers.len(),
                i <= n,
                rows@.len() == i,
                forall|k: int| 0 <= k < i ==> #[trigger] rows@[k]@ == row_of(self@, k),
            decreases n - i,
        {
            let c = &self.containers[i];
            let row = ContainerRow {
                name: c.display_name(),
                state: text_or_empty(&c.state),
                status: text_or_empty(&c.status),
                image: text_or_empty(&c.image),
                id: text_or_empty(&c.id),
                selected: contains_index(&self.selected_indices, i),
                restart_target: c.restart_target(),
            };
            rows.push(row);
            i = i + 1;
        }
        rows
    }

    /// The selected containers, in selection order.
    pub fn selected_containers(&self) -> (r: Vec<ContainerInfo>)
        ensures
            crate::ssh_docker::container_views(r@) == selected_of(self@.selected, self@.containers),
    {
        let mut out: Vec<ContainerInfo> = Vec::new();
        let n = self.selected_indices.len();
        let mut k: usize = 0;
        while k < n
            invariant
                n == self@.selected.len(),
                k <= n,
                crate::ssh_docker::container_views(out@) == selected_of(
                    self@.selected.take(k as int),
                    self@.containers,
                ),
            decreases n - k,
        {
            let i = self.selected_indices[k];
            proof {
                assert(self@.selected.take(k + 1).drop_last() =~= self@.selected.take(k as int));
            }
            if i < self.containers.len() {
                let c = self.containers[i].duplicate();
                out.push(c);
            }
            assert(crate::ssh_docker::container_views(out@) =~= selected_of(
                self@.selected.take(k + 1),
                self@.containers,
            ));
            k = k + 1;
        }
        assert(self@.selected.take(n as int) =~= self@.selected);
        out
    }

    /// Seconds allowed to the next command.
    pub fn command_timeout_secs(&self) -> (r: u64)
        ensures
            r == command_timeout_of(self@),
    {
        match &self.connection {
            Some(c) => clamped_timeout_secs(c.command_timeout_seconds),
            None => clamped_timeout_secs(self.defaults.command_timeout_seconds),
        }
    }
}

/// View of a result carrying containers.
pub open spec fn list_outcome_view(r: Result<Vec<ContainerInfo>, String>) -> Result<Seq<ContainerView>, Seq<char>> {
    match r {
        Ok(l) => Ok(crate::ssh_docker::container_views(l@)),
        Err(e) => Err(e@),
    }
}

/// Feedback with a status line only.
pub open spec fn status_fb(text: Seq<char>) -> FeedbackView {
    FeedbackView { status: Some(text), message: None }
}

/// `{n} container(s)`.
pub open spec fn count_text(n: nat) -> Seq<char> {
    decimal(n) + " container(s)"@
}

/// What the listing that follows is for; it decides what the list does to the state.
#[derive(Debug, Clone)]
pub enum ListPurpose {
    /// After connecting to `host:port`.
    Connected { host: String, port: u16 },
    /// After Refresh.
    Refresh,
    /// After a lifecycle command on `count` containers.
    AfterAction { action: LifecycleAction, count: usize },
    /// After restarting all running containers.
    AfterRestartAll,
}

pub enum ListPurposeView {
    Connected { host: Seq<char>, port: u16 },
    Refresh,
    AfterAction { action: LifecycleAction, count: nat },
    AfterRestartAll,
}

impl View for ListPurpose {
    type V = ListPurposeView;

    open spec fn view(&self) -> ListPurposeView {
        match self {
            ListPurpose::Connected { host, port } => ListPurposeView::Connected { host: host@, port: *port },
            ListPurpose::Refresh => ListPurposeView::Refresh,
            ListPurpose::AfterAction { action, count } => ListPurposeView::AfterAction {
                action: *action,
                count: *count as nat,
            },
            ListPurpose::AfterRestartAll => ListPurposeView::AfterRestartAll,
        }
    }
}

/// The command to run next, and the method that takes its outcome. A plan that
/// could not be made (`Err`) is itself the outcome.
#[derive(Debug)]
pub enum Next {
    /// Nothing follows.
    Done,
    /// Test the connection; its outcome goes to `finish_connect`.
    Probe(Result<RemoteCommand, String>),
    /// List the containers; the listing goes to `containers_listed` with the purpose.
    List(ListPurpose, Result<RemoteCommand, String>),
    /// A lifecycle command on `count` containers; its outcome goes to `lifecycle_finished`.
    Lifecycle(LifecycleAction, usize, Result<RemoteCommand, String>),
    /// List the running ids; the outcome goes to `running_listed`.
    ListRunning(Result<RemoteCommand, String>),
    /// Restart the listed ids; the outcome goes to `restart_all_finished`.
    RestartListed(Result<RemoteCommand, String>),
}

pub enum NextView {
    Done,
    Probe(Result<RemoteCommandView, Seq<char>>),
    List(ListPurposeView, Result<RemoteCommandView, Seq<char>>),
    Lifecycle(LifecycleAction, nat, Result<RemoteCommandView, Seq<char>>),
    ListRunning(Result<RemoteCommandView, Seq<char>>),
    RestartListed(Result<RemoteCommandView, Seq<char>>),
}

impl View for Next {
    type V = NextView;

    open spec fn view(&self) -> NextView {
        match self {
            Next::Done => NextView::Done,
            Next::Probe(p) => NextView::Probe(plan_view(*p)),
            Next::List(purpose, p) => NextView::List(purpose@, plan_view(*p)),
            Next::Lifecycle(a, n, p) => NextView::Lifecycle(*a, *n as nat, plan_view(*p)),
            Next::ListRunning(p) => NextView::ListRunning(plan_view(*p)),
            Next::RestartListed(p) => NextView::RestartListed(plan_view(*p)),
        }
    }
}

/// What an event leads to: what to show, what to do with the saved session, and
/// the command that follows.
#[derive(Debug)]
pub struct Step {
    pub feedback: Feedback,
    pub persist: PersistAction,
    pub next: Next,
}

pub struct StepView {
    pub feedback: FeedbackView,
    pub persist: PersistView,
    pub next: NextView,
}

impl View for Step {
    type V = StepView;

    open spec fn view(&self) -> StepView {
        StepView { feedback: self.feedback@, persist: self.persist@, next: self.next@ }
    }
}

/// No status change and no message.
pub open spec fn no_feedback() -> FeedbackView {
    FeedbackView { status: None, message: None }
}

/// The listing of the containers for `purpose` over the service's connection.
pub open spec fn list_next(st: AppView, purpose: ListPurposeView) -> NextView {
    NextView::List(purpose, remote_on(st.service, list_command_text(), list_label()))
}

/// A step that shows `feedback`, leaves the saved session alone and runs `next`.
pub open spec fn step_of(feedback: FeedbackView, next: NextView) -> StepView {
    StepView { feedback, persist: PersistView::Keep, next }
}

/// The connection to probe for typed inputs, with the timeout of the defaults.
pub open spec fn connect_request_of(st: AppView, host: Seq<char>, port: u16, user: Seq<char>, password: Seq<char>) -> Result<
    DraftView,
    Seq<char>,
> {
    connection_request_of(host, port, user, password, clamp_timeout(st.defaults.command_timeout_seconds))
}

/// Start of a connection attempt: busy, no connection, list and selection; the
/// probe of the typed inputs follows.
pub open spec fn connect_started_of(st: AppView, host: Seq<char>, port: u16, user: Seq<char>, password: Seq<char>) -> (
    AppView,
    StepView,
) {
    (
        AppView { busy: true, connection: None, containers: Seq::empty(), selected: Seq::empty(), ..st },
        step_of(
            status_fb("Connecting..."@),
            NextView::Probe(
                match connect_request_of(st, host, port, user, password) {
                    Ok(d) => probe_plan_of(d),
                    Err(e) => Err(e),
                },
            ),
        ),
    )
}

/// What a finished connection attempt does: on success the service and the window
/// hold the connection, the session is saved when it is to be remembered, and the
/// containers are listed next; on failure both drop the connection.
pub open spec fn connect_finished_of(
    st: AppView,
    host: Seq<char>,
    port: u16,
    user: Seq<char>,
    password: Seq<char>,
    probe: Result<crate::ssh_util::CommandOutputView, Seq<char>>,
    remember: bool,
) -> (AppView, StepView) {
    let outcome = match connect_request_of(st, host, port, user, password) {
        Err(e) => (st.service, Err(e)),
        Ok(d) => connect_of(st.service, d, probe),
    };
    match outcome.1 {
        Ok(_) => {
            let s2 = AppView {
                service: outcome.0,
                connection: Some(
                    DraftView {
                        host,
                        port,
                        username: user,
                        password,
                        command_timeout_seconds: st.defaults.command_timeout_seconds,
                    },
                ),
                busy: true,
                ..st
            };
            (
                s2,
                StepView {
                    feedback: status_fb("Connected. Loading containers..."@),
                    persist: if remember {
                        PersistView::Save { host, port, username: user, password: Some(password) }
                    } else {
                        PersistView::Keep
                    },
                    next: list_next(s2, ListPurposeView::Connected { host, port }),
                },
            )
        },
        Err(e) => (
            AppView { service: None, connection: None, busy: false, ..st },
            step_of(
                FeedbackView { status: Some("Connection failed."@), message: Some(("SSH connect"@, e)) },
                NextView::Done,
            ),
        ),
    }
}

/// After a connection attempt the window and the service agree: both hold the
/// typed connection, and the containers are listed next, or neither holds one
/// and nothing follows. Blank hosts or users never get a connection.
pub proof fn lemma_connect_agrees(
    st: AppView,
    host: Seq<char>,
    port: u16,
    user: Seq<char>,
    password: Seq<char>,
    probe: Result<crate::ssh_util::CommandOutputView, Seq<char>>,
    remember: bool,
)
    ensures
        ({
            let (s, step) = connect_finished_of(st, host, port, user, password, probe, remember);
            &&& (s.connection is Some <==> s.service is Some)
            &&& s.service matches Some(d) ==> d.host == host && d.username == user && d.port == port
                && d.password == password
            &&& (s.service is Some <==> step.next is List)
            &&& (blank(host) || blank(user)) ==> s.service is None
        }),
{
}

/// What a container listing does to the state and the status line.
pub open spec fn loaded_of(
    st: AppView,
    outcome: Result<Seq<ContainerView>, Seq<char>>,
    after_connect: bool,
    label: Option<(Seq<char>, u16)>,
) -> (AppView, FeedbackView) {
    match outcome {
        Ok(list) => (
            AppView { containers: list, selected: Seq::empty(), last_clicked: None, busy: false, ..st },
            FeedbackView {
                status: if after_connect {
                    match label {
                        Some(l) => Some(
                            "Connected to "@ + l.0 + ":"@ + decimal(l.1 as nat) + ". "@ + count_text(
                                list.len(),
                            ) + "."@,
                        ),
                        None => None,
                    }
                } else {
                    Some("Refreshed. "@ + count_text(list.len()) + "."@)
                },
                message: None,
            },
        ),
        Err(e) => (
            AppView { busy: false, ..st },
            FeedbackView {
                status: Some(if after_connect { "Connection failed."@ } else { "Refresh failed."@ }),
                message: Some(("Docker"@, e)),
            },
        ),
    }
}

/// The status line while a lifecycle command runs.
pub open spec fn lifecycle_status_of(action: LifecycleAction, first_display: Seq<char>, count: nat) -> Seq<char> {
    if count == 1 {
        progress_of(action) + " "@ + first_display + "..."@
    } else {
        progress_of(action) + " "@ + decimal(count) + " containers (one docker "@ + docker_cli_of(action)
            + ")..."@
    }
}

/// What a lifecycle command is run with.
pub open spec fn prefix_of(a: LifecycleAction) -> Seq<char> {
    match a {
        LifecycleAction::Stop => stop_prefix(),
        LifecycleAction::Start => start_prefix(),
        LifecycleAction::Restart => restart_prefix(),
    }
}

/// The label of a failed lifecycle command.
pub open spec fn label_of(a: LifecycleAction) -> Seq<char> {
    match a {
        LifecycleAction::Stop => stop_label(),
        LifecycleAction::Start => start_label(),
        LifecycleAction::Restart => restart_label(),
    }
}

/// What a finished lifecycle command on `count` containers does: list them
/// again next, or report the failure.
pub open spec fn lifecycle_finished_of(
    st: AppView,
    action: LifecycleAction,
    count: nat,
    outcome: Result<crate::ssh_util::CommandOutputView, Seq<char>>,
) -> (AppView, StepView) {
    match checked_output_of(label_of(action), outcome) {
        Ok(_) => (
            st,
            step_of(
                status_fb("Refreshing..."@),
                list_next(st, ListPurposeView::AfterAction { action, count }),
            ),
        ),
        Err(e) => (
            AppView { busy: false, ..st },
            step_of(
                FeedbackView {
                    status: Some(failed_status_of(action)),
                    message: Some((error_title_of(action), e)),
                },
                NextView::Done,
            ),
        ),
    }
}

/// The listing after a lifecycle command: replaces the list and clears the selection.
pub open spec fn after_action_of(
    st: AppView,
    action: LifecycleAction,
    target_count: nat,
    outcome: Result<Seq<ContainerView>, Seq<char>>,
) -> (AppView, FeedbackView) {
    match outcome {
        Ok(list) => (
            AppView { containers: list, selected: Seq::empty(), busy: false, ..st },
            status_fb(
                done_noun_of(action) + " issued for "@ + count_text(target_count) + ". "@ + decimal(
                    list.len(),
                ) + " listed."@,
            ),
        ),
        Err(e) => (
            AppView { busy: false, ..st },
            FeedbackView { status: None, message: Some(("Docker"@, e)) },
        ),
    }
}

/// The listing after restarting all running containers.
pub open spec fn after_restart_all_of(st: AppView, outcome: Result<Seq<ContainerView>, Seq<char>>) -> (
    AppView,
    FeedbackView,
) {
    match outcome {
        Ok(list) => (
            AppView { containers: list, selected: Seq::empty(), busy: false, ..st },
            status_fb(
                "Restart all running completed. "@ + count_text(list.len()) + " listed."@,
            ),
        ),
        Err(e) => (
            AppView { busy: false, ..st },
            FeedbackView { status: None, message: Some(("Docker"@, e)) },
        ),
    }
}

/// A failed restart of all running containers.
pub open spec fn restart_all_failed_of(st: AppView, e: Seq<char>) -> (AppView, StepView) {
    (
        AppView { busy: false, ..st },
        step_of(
            FeedbackView {
                status: Some("Restart all running failed."@),
                message: Some(("Docker restart all"@, e)),
            },
            NextView::Done,
        ),
    )
}

/// A finished restart of all running containers: the containers are listed next.
pub open spec fn restart_all_done_of(st: AppView) -> (AppView, StepView) {
    (st, step_of(status_fb("Refreshing..."@), list_next(st, ListPurposeView::AfterRestartAll)))
}

/// After the running ids were listed: the failure, the listing when none runs,
/// or the restart of them all.
pub open spec fn running_listed_of(st: AppView, listing: Result<crate::ssh_util::CommandOutputView, Seq<char>>) -> (
    AppView,
    StepView,
) {
    match restart_listed_of(st.service, listing) {
        Err(e) => restart_all_failed_of(st, e),
        Ok(None) => restart_all_done_of(st),
        Ok(Some(c)) => (st, step_of(no_feedback(), NextView::RestartListed(Ok(c)))),
    }
}

/// After the restart of the listed ids ran (or failed to run).
pub open spec fn restart_all_finished_of(st: AppView, outcome: Result<crate::ssh_util::CommandOutputView, Seq<char>>) -> (
    AppView,
    StepView,
) {
    match checked_output_of(restart_label(), outcome) {
        Ok(_) => restart_all_done_of(st),
        Err(e) => restart_all_failed_of(st, e),
    }
}

/// What a listing does, by what it was for.
pub open spec fn listed_of(st: AppView, purpose: ListPurposeView, outcome: Result<Seq<ContainerView>, Seq<char>>) -> (
    AppView,
    FeedbackView,
) {
    match purpose {
        ListPurposeView::Connected { host, port } => loaded_of(st, outcome, true, Some((host, port))),
        ListPurposeView::Refresh => loaded_of(st, outcome, false, None),
        ListPurposeView::AfterAction { action, count } => after_action_of(st, action, count, outcome),
        ListPurposeView::AfterRestartAll => after_restart_all_of(st, outcome),
    }
}

fn message_fb(title: &str, text: String) -> (r: Feedback)
    ensures
        r@ == (FeedbackView { status: None, message: Some((title@, text@)) }),
{
    Feedback { status: None, message: Some((title.to_owned(), text)) }
}

fn status_message_fb(status: &str, title: &str, text: String) -> (r: Feedback)
    ensures
        r@ == (FeedbackView { status: Some(status@), message: Some((title@, text@)) }),
{
    Feedback { status: Some(status.to_owned()), message: Some((title.to_owned(), text)) }
}

impl AppState {
    /// Start of a connection attempt with the typed inputs: drop the old
    /// connection, list and selection; the probe follows.
    pub fn begin_connect(&mut self, host: &str, port: u16, user: &str, password: &str) -> (r: Step)
        ensures
            (final(self)@, r@) == connect_started_of(old(self)@, host@, port, user@, password@),
    {
        proof {
            use_type_invariant(&*self);
        }
        self.busy = true;
        self.connection = None;
        self.containers = Vec::new();
        self.selected_indices = Vec::new();
        assert(self@.containers =~= Seq::<ContainerView>::empty());
        let secs = clamped_timeout_secs(self.defaults.command_timeout_seconds);
        let probe = match SshDockerService::connection_request(host, port, user, password, secs) {
            Ok(d) => SshDockerService::probe_command(&d),
            Err(e) => Err(e),
        };
        Step {
            feedback: status_only("Connecting...".to_owned()),
            persist: PersistAction::Keep,
            next: Next::Probe(probe),
        }
    }

    /// End of a connection attempt: `probe` is the outcome of the probe that
    /// `begin_connect` handed out for the same inputs; `remember` is whether the
    /// connection is to be remembered.
    pub fn finish_connect(
        &mut self,
        probe: Result<DockerCommandResult, String>,
        host: &str,
        port: u16,
        user: &str,
        password: &str,
        remember: bool,
    ) -> (r: Step)
        ensures
            (final(self)@, r@) == connect_finished_of(
                old(self)@,
                host@,
                port,
                user@,
                password@,
                outcome_view(probe),
                remember,
            ),
    {
        proof {
            use_type_invariant(&*self);
        }
        let secs = clamped_timeout_secs(self.defaults.command_timeout_seconds);
        let request = SshDockerService::connection_request(host, port, user, password, secs);
        let mut service = SshDockerService::new();
        std::mem::swap(&mut service, &mut self.ssh);
        let outcome = match request {
            Err(e) => Err(e),
            Ok(d) => service.connect(d, probe),
        };
        self.ssh = service;
        match outcome {
            Ok(()) => {
                self.connection = Some(
                    ConnectionDraft {
                        host: host.to_owned(),
                        port,
                        username: user.to_owned(),
                        password: password.to_owned(),
                        command_timeout_seconds: self.defaults.command_timeout_seconds,
                    },
                );
                self.busy = true;
                let persist = if remember {
                    PersistAction::Save {
                        host: host.to_owned(),
                        port,
                        username: user.to_owned(),
                        password: Some(password.to_owned()),
                    }
                } else {
                    PersistAction::Keep
                };
                let list = self.ssh.list_containers();
                Step {
                    feedback: status_only("Connected. Loading containers...".to_owned()),
                    persist,
                    next: Next::List(ListPurpose::Connected { host: host.to_owned(), port }, list),
                }
            },
            Err(err) => {
                self.ssh = SshDockerService::new();
                self.busy = false;
                self.connection = None;
                Step {
                    feedback: status_message_fb("Connection failed.", "SSH connect", err),
                    persist: PersistAction::Keep,
                    next: Next::Done,
                }
            },
        }
    }

    /// Disconnect: drop the connection, the list and the selection.
    pub fn disconnect(&mut self) -> (r: Feedback)
        ensures
            final(self)@ == (AppView {
                service: None,
                connection: None,
                containers: Seq::empty(),
                selected: Seq::empty(),
                last_clicked: None,
                busy: false,
                ..old(self)@
            }),
            r@ == status_fb("Disconnected."@),
    {
        proof {
            use_type_invariant(&*self);
        }
        self.ssh = crate::ssh_docker::SshDockerService::new();
        self.connection = None;
        self.containers = Vec::new();
        self.selected_indices = Vec::new();
        self.last_clicked_index = None;
        self.busy = false;
        assert(self@.containers =~= Seq::<ContainerView>::empty());
        status_only("Disconnected.".to_owned())
    }

    /// Refresh: nothing without a connection; otherwise busy, and the listing follows.
    pub fn begin_refresh(&mut self) -> (r: Option<Step>)
        ensures
            old(self)@.connection is None ==> r is None && final(self)@ == old(self)@,
            old(self)@.connection is Some ==> (r matches Some(s) && s@ == step_of(
                status_fb("Refreshing..."@),
                list_next(old(self)@, ListPurposeView::Refresh),
            ) && final(self)@ == (AppView { busy: true, ..old(self)@ })),
    {
        proof {
            use_type_invariant(&*self);
        }
        if self.connection.is_none() {
            return None;
        }
        self.busy = true;
        let list = self.ssh.list_containers();
        Some(
            Step {
                feedback: status_only("Refreshing...".to_owned()),
                persist: PersistAction::Keep,
                next: Next::List(ListPurpose::Refresh, list),
            },
        )
    }

    /// A listing arrived (or failed); `purpose` is what it was handed out for.
    pub fn containers_listed(&mut self, purpose: ListPurpose, outcome: Result<Vec<ContainerInfo>, String>) -> (r: Feedback)
        ensures
            (final(self)@, r@) == listed_of(old(self)@, purpose@, list_outcome_view(outcome)),
    {
        match purpose {
            ListPurpose::Connected { host, port } => self.containers_loaded(outcome, true, Some((host, port))),
            ListPurpose::Refresh => self.containers_loaded(outcome, false, None),
            ListPurpose::AfterAction { action, count } => self.containers_after_action(action, count, outcome),
            ListPurpose::AfterRestartAll => self.containers_after_restart_all(outcome),
        }
    }

    /// The list arrived (or failed) after a connect or a refresh.
    pub fn containers_loaded(
        &mut self,
        outcome: Result<Vec<ContainerInfo>, String>,
        after_connect: bool,
        label: Option<(String, u16)>,
    ) -> (r: Feedback)
        ensures
            (final(self)@, r@) == loaded_of(
                old(self)@,
                list_outcome_view(outcome),
                after_connect,
                match label {
                    Some(l) => Some((l.0@, l.1)),
                    None => None,
                },
            ),
    {
        proof {
            use_type_invariant(&*self);
        }
        let ghost lv = match list_outcome_view(outcome) {
            Ok(l) => l,
            Err(_) => Seq::empty(),
        };
        match outcome {
            Ok(list) => {
                self.containers = list;
                self.selected_indices = Vec::new();
                self.last_clicked_index = None;
                self.busy = false;
                let count = self.containers.len();
                if after_connect {
                    match label {
                        Some((host, port)) => {
                            let mut t = "Connected to ".to_owned();
                            push_text(&mut t, host.as_str());
                            push_text(&mut t, ":");
                            push_decimal(&mut t, port as u64);
                            push_text(&mut t, ". ");
                            push_decimal(&mut t, count as u64);
                            push_text(&mut t, " container(s)");
                            push_text(&mut t, ".");
                            assert(t@ =~= "Connected to "@ + host@ + ":"@ + decimal(port as nat) + ". "@
                                + count_text(lv.len()) + "."@);
                            status_only(t)
                        },
                        None => Feedback { status: None, message: None },
                    }
                } else {
                    let mut t = "Refreshed. ".to_owned();
                    push_decimal(&mut t, count as u64);
                    push_text(&mut t, " container(s)");
                    push_text(&mut t, ".");
                    assert(t@ =~= "Refreshed. "@ + count_text(lv.len()) + "."@);
                    status_only(t)
                }
            },
            Err(err) => {
                self.busy = false;
                if after_connect {
                    status_message_fb("Connection failed.", "Docker", err)
                } else {
                    status_message_fb("Refresh failed.", "Docker", err)
                }
            },
        }
    }
}

/// Display names and targets of containers, as the confirmation lists them.
pub open spec fn name_pairs(cs: Seq<ContainerView>) -> Seq<(Seq<char>, Seq<char>)> {
    cs.map_values(
        |c: ContainerView|
            (crate::models::display_name_of(c), crate::models::restart_target_of(c)),
    )
}

/// Targets of containers.
pub open spec fn targets_of(cs: Seq<ContainerView>) -> Seq<Seq<char>> {
    cs.map_values(|c: ContainerView| crate::models::restart_target_of(c))
}

/// The restart targets of containers, in order.
fn restart_targets(selected: &Vec<ContainerInfo>) -> (targets: Vec<String>)
    ensures
        views(targets@) == targets_of(crate::ssh_docker::container_views(selected@)),
{
    let ghost sel = crate::ssh_docker::container_views(selected@);
    let n = selected.len();
    let mut targets: Vec<String> = Vec::new();
    let mut i: usize = 0;
    while i < n
        invariant
            n == selected@.len(),
            sel == crate::ssh_docker::container_views(selected@),
            i <= n,
            targets@.len() == i,
            views(targets@) == targets_of(sel).take(i as int),
        decreases n - i,
    {
        let t = selected[i].restart_target();
        targets.push(t);
        i = i + 1;
    }
    assert(targets_of(sel).take(n as int) =~= targets_of(sel));
    targets
}

/// The progress line of a lifecycle action on some containers.
fn lifecycle_status(action: LifecycleAction, selected: &Vec<ContainerInfo>) -> (r: String)
    requires
        selected@.len() > 0,
    ensures
        r@ == lifecycle_status_of(action, crate::models::display_name_of(selected@[0]@), selected@.len()),
{
    let n = selected.len();
    let display = selected[0].display_name();
    let mut status = action.progress().to_owned();
    push_text(&mut status, " ");
    if n == 1 {
        push_text(&mut status, display.as_str());
        push_text(&mut status, "...");
    } else {
        push_decimal(&mut status, n as u64);
        push_text(&mut status, " containers (one docker ");
        push_text(&mut status, action.docker_cli());
        push_text(&mut status, ")...");
    }
    status
}

/// A lifecycle command about to run: its targets, the status line and the command.
#[derive(Debug)]
pub struct LifecycleStart {
    pub targets: Vec<String>,
    pub feedback: Feedback,
    /// The command to run on the targets.
    pub next: Next,
}

impl AppState {
    /// Title and question of the confirmation before a lifecycle action, none without a selection.
    pub fn lifecycle_prompt(&self, action: LifecycleAction) -> (r: Option<(String, String)>)
        ensures
            ({
                let sel = selected_of(self@.selected, self@.containers);
                if sel.len() == 0 {
                    r is None
                } else {
                    r matches Some(p) && p.0@ == verb_of(action) && p.1@
                        == crate::ssh_docker::confirm_message_of(verb_of(action), name_pairs(sel))
                }
            }),
    {
        let selected = self.selected_containers();
        let n = selected.len();
        if n == 0 {
            return None;
        }
        let ghost sel = crate::ssh_docker::container_views(selected@);
        let mut pairs: Vec<(String, String)> = Vec::new();
        let mut i: usize = 0;
        while i < n
            invariant
                n == selected@.len(),
                sel == crate::ssh_docker::container_views(selected@),
                i <= n,
                pairs@.len() == i,
                forall|k: int| 0 <= k < i ==> (#[trigger] pairs@[k]).0@ == name_pairs(sel)[k].0
                    && pairs@[k].1@ == name_pairs(sel)[k].1,
            decreases n - i,
        {
            let c = &selected[i];
            pairs.push((c.display_name(), c.restart_target()));
            i = i + 1;
        }
        let mut refs: Vec<(&str, &str)> = Vec::new();
        let mut j: usize = 0;
        while j < n
            invariant
                n == pairs@.len(),
                j <= n,
                refs@.len() == j,
                forall|k: int| 0 <= k < j ==> (#[trigger] refs@[k]).0@ == pairs@[k].0@ && refs@[k].1@
                    == pairs@[k].1@,
            decreases n - j,
        {
            refs.push((pairs[j].0.as_str(), pairs[j].1.as_str()));
            j = j + 1;
        }
        let msg = crate::ssh_docker::build_action_confirm_message(action.verb(), refs.as_slice());
        proof {
            assert(crate::ssh_docker::pair_views(refs@) =~= name_pairs(sel));
        }
        Some((action.verb().to_owned(), msg))
    }

    /// Start of a lifecycle action: none without a selection; otherwise the targets,
    /// busy, the progress line and the command to run.
    #[verifier::spinoff_prover]
    pub fn begin_lifecycle(&mut self, action: LifecycleAction) -> (r: Option<LifecycleStart>)
        ensures
            ({
                let sel = selected_of(old(self)@.selected, old(self)@.containers);
                if sel.len() == 0 {
                    r is None && final(self)@ == old(self)@
                } else {
                    &&& r matches Some(l)
                    &&& views(l.targets@) == targets_of(sel)
                    &&& l.feedback@ == status_fb(
                        lifecycle_status_of(
                            action,
                            crate::models::display_name_of(sel[0]),
                            sel.len(),
                        ),
                    )
                    &&& l.next@ == NextView::Lifecycle(
                        action,
                        sel.len(),
                        lifecycle_plan(old(self)@.service, prefix_of(action), label_of(action), targets_of(sel)),
                    )
                    &&& final(self)@ == (AppView { busy: true, ..old(self)@ })
                }
            }),
    {
        proof {
            use_type_invariant(&*self);
        }
        let selected = self.selected_containers();
        let n = selected.len();
        if n == 0 {
            return None;
        }
        let targets = restart_targets(&selected);
        self.busy = true;
        let status = lifecycle_status(action, &selected);
        let plan = self.lifecycle_command(action, targets.as_slice());
        Some(LifecycleStart { next: Next::Lifecycle(action, n, plan), targets, feedback: status_only(status) })
    }

    /// The command that runs `action` on `targets` over the service's connection.
    pub fn lifecycle_command(&self, action: LifecycleAction, targets: &[String]) -> (r: Result<RemoteCommand, String>)
        ensures
            plan_view(r) == lifecycle_plan(self@.service, prefix_of(action), label_of(action), views(targets@)),
    {
        match action {
            LifecycleAction::Stop => self.ssh.stop_containers(targets),
            LifecycleAction::Start => self.ssh.start_containers(targets),
            LifecycleAction::Restart => self.ssh.restart_containers(targets),
        }
    }

    /// The lifecycle command finished (or failed to run) on `count` containers:
    /// the listing follows, or the failure is reported.
    pub fn lifecycle_finished(
        &mut self,
        action: LifecycleAction,
        count: usize,
        outcome: Result<DockerCommandResult, String>,
    ) -> (r: Step)
        ensures
            (final(self)@, r@) == lifecycle_finished_of(old(self)@, action, count as nat, outcome_view(outcome)),
    {
        proof {
            use_type_invariant(&*self);
        }
        let checked = match action {
            LifecycleAction::Stop => checked_output("docker stop", outcome),
            LifecycleAction::Start => checked_output("docker start", outcome),
            LifecycleAction::Restart => checked_output("docker restart", outcome),
        };
        match checked {
            Ok(_) => {
                let list = self.ssh.list_containers();
                Step {
                    feedback: status_only("Refreshing...".to_owned()),
                    persist: PersistAction::Keep,
                    next: Next::List(ListPurpose::AfterAction { action, count }, list),
                }
            },
            Err(err) => {
                self.busy = false;
                Step {
                    feedback: status_message_fb(action.failed_status(), action.error_title(), err),
                    persist: PersistAction::Keep,
                    next: Next::Done,
                }
            },
        }
    }

    /// The list after a lifecycle command.
    pub fn containers_after_action(
        &mut self,
        action: LifecycleAction,
        target_count: usize,
        outcome: Result<Vec<ContainerInfo>, String>,
    ) -> (r: Feedback)
        ensures
            (final(self)@, r@) == after_action_of(
                old(self)@,
                action,
                target_count as nat,
                list_outcome_view(outcome),
            ),
    {
        proof {
            use_type_invariant(&*self);
        }
        let ghost lv = match list_outcome_view(outcome) {
            Ok(l) => l,
            Err(_) => Seq::empty(),
        };
        match outcome {
            Ok(list) => {
                self.containers = list;
                self.selected_indices = Vec::new();
                self.busy = false;
                let count = self.containers.len();
                let mut t = action.done_noun().to_owned();
                push_text(&mut t, " issued for ");
                push_decimal(&mut t, target_count as u64);
                push_text(&mut t, " container(s)");
                push_text(&mut t, ". ");
                push_decimal(&mut t, count as u64);
                push_text(&mut t, " listed.");
                assert(t@ =~= done_noun_of(action) + " issued for "@ + count_text(target_count as nat)
                    + ". "@ + decimal(lv.len()) + " listed."@);
                status_only(t)
            },
            Err(err) => {
                self.busy = false;
                message_fb("Docker", err)
            },
        }
    }

    /// Start of restarting every running container: busy, and the listing of
    /// the running ids follows.
    pub fn begin_restart_all(&mut self) -> (r: Step)
        ensures
            final(self)@ == (AppView { busy: true, ..old(self)@ }),
            r@ == step_of(
                status_fb("Restarting all running containers..."@),
                NextView::ListRunning(remote_on(old(self)@.service, running_ids_command_text(), running_ids_label())),
            ),
    {
        proof {
            use_type_invariant(&*self);
        }
        self.busy = true;
        let plan = self.ssh.restart_all_running();
        Step {
            feedback: status_only("Restarting all running containers...".to_owned()),
            persist: PersistAction::Keep,
            next: Next::ListRunning(plan),
        }
    }

    fn restart_all_failed(&mut self, err: String) -> (r: Step)
        ensures
            (final(self)@, r@) == restart_all_failed_of(old(self)@, err@),
    {
        proof {
            use_type_invariant(&*self);
        }
        self.busy = false;
        Step {
            feedback: status_message_fb("Restart all running failed.", "Docker restart all", err),
            persist: PersistAction::Keep,
            next: Next::Done,
        }
    }

    fn restart_all_done(&self) -> (r: Step)
        ensures
            (self@, r@) == restart_all_done_of(self@),
    {
        let list = self.ssh.list_containers();
        Step {
            feedback: status_only("Refreshing...".to_owned()),
            persist: PersistAction::Keep,
            next: Next::List(ListPurpose::AfterRestartAll, list),
        }
    }

    /// The running ids were listed (or the listing failed).
    pub fn running_listed(&mut self, listing: Result<DockerCommandResult, String>) -> (r: Step)
        ensures
            (final(self)@, r@) == running_listed_of(old(self)@, outcome_view(listing)),
    {
        match self.ssh.restart_listed(listing) {
            Err(e) => self.restart_all_failed(e),
            Ok(None) => self.restart_all_done(),
            Ok(Some(c)) => Step {
                feedback: Feedback { status: None, message: None },
                persist: PersistAction::Keep,
                next: Next::RestartListed(Ok(c)),
            },
        }
    }

    /// The restart of the listed ids finished (or failed to run).
    pub fn restart_all_finished(&mut self, outcome: Result<DockerCommandResult, String>) -> (r: Step)
        ensures
            (final(self)@, r@) == restart_all_finished_of(old(self)@, outcome_view(outcome)),
    {
        match checked_output("docker restart", outcome) {
            Ok(_) => self.restart_all_done(),
            Err(e) => self.restart_all_failed(e),
        }
    }

    /// The list after restarting all running containers.
    pub fn containers_after_restart_all(&mut self, outcome: Result<Vec<ContainerInfo>, String>) -> (r: Feedback)
        ensures
            (final(self)@, r@) == after_restart_all_of(old(self)@, list_outcome_view(outcome)),
    {
        proof {
            use_type_invariant(&*self);
        }
        let ghost lv = match list_outcome_view(outcome) {
            Ok(l) => l,
            Err(_) => Seq::empty(),
        };
        match outcome {
            Ok(list) => {
                self.containers = list;
                self.selected_indices = Vec::new();
                self.busy = false;
                let count = self.containers.len();
                let mut t = "Restart all running completed. ".to_owned();
                push_decimal(&mut t, count as u64);
                push_text(&mut t, " container(s)");
                push_text(&mut t, " listed.");
                assert(t@ =~= "Restart all running completed. "@ + count_text(lv.len()) + " listed."@);
                status_only(t)
            },
            Err(err) => {
                self.busy = false;
                message_fb("Docker", err)
            },
        }
    }

    /// What Exec opens a terminal on: the connection and the one selected container, if exactly one is selected.
    pub fn exec_target(&self) -> (r: Option<(ConnectionDraft, ContainerInfo)>)
        ensures
            ({
                let sel = selected_of(self@.selected, self@.containers);
                match self@.connection {
                    None => r is None,
                    Some(c) => if sel.len() != 1 {
                        r is None
                    } else {
                        r matches Some(p) && p.0@ == c && p.1@ == sel[0]
                    },
                }
            }),
    {
        let connection = match &self.connection {
            Some(c) => c.duplicate(),
            None => return None,
        };
        let selected = self.selected_containers();
        if selected.len() != 1 {
            return None;
        }
        let c = selected[0].duplicate();
        Some((connection, c))
    }
}

/// Feedback when typed connection inputs are refused: a message box after the
/// Connect button, a status line when connecting from a saved session at startup.
pub open spec fn input_feedback_of(problem: Option<Seq<char>>, automatic: bool) -> FeedbackView {
    if automatic {
        match problem {
            None => status_fb(
                "Disconnected. Saved connection needs host, user, and password. Enter missing values and Connect."@,
            ),
            Some(_) => status_fb("Disconnected. Fix the port, then Connect."@),
        }
    } else {
        match problem {
            None => FeedbackView {
                status: None,
                message: Some(("Connect"@, "Host, user, and password are required."@)),
            },
            Some(e) => FeedbackView { status: None, message: Some(("Connect"@, e)) },
        }
    }
}

pub fn input_feedback(problem: InputProblem, automatic: bool) -> (r: Feedback)
    ensures
        r@ == input_feedback_of(
            match problem {
                InputProblem::Missing => None,
                InputProblem::BadPort(e) => Some(e@),
            },
            automatic,
        ),
{
    if automatic {
        match problem {
            InputProblem::Missing => status_only(
                "Disconnected. Saved connection needs host, user, and password. Enter missing values and Connect.".to_owned(),
            ),
            InputProblem::BadPort(_) => status_only("Disconnected. Fix the port, then Connect.".to_owned()),
        }
    } else {
        match problem {
            InputProblem::Missing => message_fb("Connect", "Host, user, and password are required.".to_owned()),
            InputProblem::BadPort(e) => message_fb("Connect", e),
        }
    }
}

/// Title and question of the confirmation before restarting all running containers.
pub fn restart_all_prompt() -> (r: (String, String))
    ensures
        r.0@ == "Restart all running"@,
        r.1@ == "Restart every running container on the remote host?\nThis runs docker ps -q, then docker restart --time 10 on the results."@,
{
    (
        "Restart all running".to_owned(),
        "Restart every running container on the remote host?\nThis runs docker ps -q, then docker restart --time 10 on the results.".to_owned(),
    )
}

proof fn lemma_decimal_digits(n: nat)
    ensures
        decimal(n).len() > 0,
        forall|i: int| 0 <= i < decimal(n).len() ==> crate::text::is_digit(#[trigger] decimal(n)[i]),
        crate::text::digits_value(decimal(n)) == n,
    decreases n,
{
    let d = digit_char(n % 10);
    if n >= 10 {
        lemma_decimal_digits(n / 10);
        let p = decimal(n / 10);
        assert(n == (n / 10) * 10 + n % 10) by (nonlinear_arith);
        assert(decimal(n).drop_last() =~= p);
        assert forall|i: int| 0 <= i < decimal(n).len() implies crate::text::is_digit(#[trigger] decimal(n)[i]) by {
        }
    } else {
        assert(decimal(n).drop_last() =~= Seq::<char>::empty());
        assert(crate::text::digits_value(decimal(n)) == crate::text::digits_value(Seq::<char>::empty()) * 10 + crate::text::digit_value(d));
    }
}

proof fn lemma_no_outer_ws(s: Seq<char>)
    requires
        s.len() > 0,
        forall|i: int| 0 <= i < s.len() ==> crate::text::is_digit(#[trigger] s[i]),
    ensures
        trim(s) == s,
{
}

/// The port shown in the UI reads back as that port (22 for port 0).
pub proof fn lemma_port_text_reads_back(port: u16)
    ensures
        parse_port_of(port_string_of(port)) == Ok::<u16, Seq<char>>(if port == 0 { 22 } else { port }),
{
    if port > 0 {
        let d = decimal(port as nat);
        lemma_decimal_digits(port as nat);
        lemma_no_outer_ws(d);
    } else {
        reveal_strlit("22");
        let d = "22"@;
        lemma_no_outer_ws(d);
        assert(crate::text::digits_value(d.drop_last().drop_last()) == 0);
        assert(crate::text::digits_value(d.drop_last()) == 2);
    }
}

/// The rows from `lo` to `hi`, in ascending order.
pub open spec fn row_range(lo: int, hi: int) -> Seq<usize> {
    Seq::new((hi - lo + 1) as nat, |i: int| (lo + i) as usize)
}

proof fn lemma_add_range_fresh(lo: int, hi: int)
    requires
        0 <= lo,
        lo - 1 <= hi <= usize::MAX,
    ensures
        add_range(Seq::empty(), lo, hi) =~= row_range(lo, hi),
    decreases hi - lo + 1,
{
    if hi >= lo {
        lemma_add_range_fresh(lo, hi - 1);
        let s = add_range(Seq::<usize>::empty(), lo, hi - 1);
        assert forall|k: int| 0 <= k < s.len() implies s[k] != hi as usize by {
            assert(s[k] == (lo + k) as usize);
        }
    }
}

proof fn lemma_add_range_members(sel: Seq<usize>, lo: int, hi: int)
    requires
        0 <= lo,
        hi <= usize::MAX,
    ensures
        add_range(sel, lo, hi).take(sel.len() as int) == sel,
        add_range(sel, lo, hi).len() >= sel.len(),
        forall|r: usize| #[trigger] add_range(sel, lo, hi).contains(r) <==> (sel.contains(r) || (lo <= r && r <= hi)),
    decreases hi - lo + 1,
{
    if hi < lo {
        assert(sel.take(sel.len() as int) =~= sel);
    } else {
        lemma_add_range_members(sel, lo, hi - 1);
        let s = add_range(sel, lo, hi - 1);
        if !s.contains(hi as usize) {
            assert(s.push(hi as usize).take(sel.len() as int) =~= s.take(sel.len() as int));
            assert forall|r: usize| #[trigger] s.push(hi as usize).contains(r) <==> (s.contains(r) || r == hi) by {
                if r == hi {
                    assert(s.push(hi as usize)[s.len() as int] == r);
                }
                if s.contains(r) {
                    let k = choose|k: int| 0 <= k < s.len() && s[k] == r;
                    assert(s.push(hi as usize)[k] == r);
                }
            }
        }
    }
}

/// A Shift-click on row `index` while a row was clicked before: without Ctrl the
/// selection becomes exactly the rows between the two clicks, in ascending order,
/// and nothing else; with Ctrl those rows are added after the earlier selection,
/// which is kept as it was.
pub proof fn lemma_shift_click_selects_range(st: AppView, index: usize)
    requires
        index < st.containers.len(),
        st.last_clicked is Some,
    ensures
        ({
            let a = st.last_clicked->0;
            let lo: int = if a < index { a as int } else { index as int };
            let hi: int = if a < index { index as int } else { a as int };
            let plain = click_of(st, index, false, true).selected;
            let ctrl = click_of(st, index, true, true).selected;
            &&& plain == row_range(lo, hi)
            &&& forall|r: usize| #[trigger] plain.contains(r) <==> (lo <= r && r <= hi)
            &&& ctrl.take(st.selected.len() as int) == st.selected
            &&& forall|r: usize| #[trigger] ctrl.contains(r) <==> (st.selected.contains(r) || (lo <= r && r <= hi))
        }),
{
    let a = st.last_clicked->0;
    let lo: int = if a < index { a as int } else { index as int };
    let hi: int = if a < index { index as int } else { a as int };
    lemma_add_range_fresh(lo, hi);
    lemma_add_range_members(Seq::empty(), lo, hi);
    lemma_add_range_members(st.selected, lo, hi);
}

/// After a connection attempt the saved session is touched only when the
/// connection is to be remembered and it succeeded: then the typed connection,
/// with its password, is saved; otherwise the saved session is left as it is.
pub proof fn lemma_connect_saves_only_when_remembered(
    st: AppView,
    host: Seq<char>,
    port: u16,
    user: Seq<char>,
    password: Seq<char>,
    probe: Result<crate::ssh_util::CommandOutputView, Seq<char>>,
    remember: bool,
)
    ensures
        ({
            let (s, step) = connect_finished_of(st, host, port, user, password, probe, remember);
            &&& !remember ==> step.persist == PersistView::Keep
            &&& s.connection is None ==> step.persist == PersistView::Keep
            &&& remember && s.connection is Some ==> step.persist == (PersistView::Save {
                host,
                port,
                username: user,
                password: Some(password),
            })
        }),
{
}

/// The lifecycle targets are the restart targets of the containers, one each,
/// in the same order: the i-th target belongs to the i-th container.
pub proof fn lemma_targets_follow_containers(cs: Seq<ContainerView>)
    ensures
        targets_of(cs).len() == cs.len(),
        forall|i: int| 0 <= i < cs.len() ==> #[trigger] targets_of(cs)[i] == crate::models::restart_target_of(cs[i]),
{
}

/// The confirmation names each container by its own display name and target,
/// one entry per container, in the same order.
pub proof fn lemma_prompt_names_each_container(cs: Seq<ContainerView>)
    ensures
        name_pairs(cs).len() == cs.len(),
        forall|i: int| 0 <= i < cs.len() ==> #[trigger] name_pairs(cs)[i] == (
            crate::models::display_name_of(cs[i]),
            crate::models::restart_target_of(cs[i]),
        ),
{
}

/// With every selected index inside the list, the selected containers are the
/// containers at those indices, in selection order; so the i-th lifecycle target
/// is the restart target of the container at the i-th selected row.
pub proof fn lemma_selected_rows(selected: Seq<usize>, containers: Seq<ContainerView>)
    requires
        forall|k: int| 0 <= k < selected.len() ==> (#[trigger] selected[k] as int) < containers.len(),
    ensures
        selected_of(selected, containers).len() == selected.len(),
        forall|k: int| 0 <= k < selected.len() ==> #[trigger] selected_of(selected, containers)[k]
            == containers[selected[k] as int],
        forall|k: int| 0 <= k < selected.len() ==> #[trigger] targets_of(selected_of(selected, containers))[k]
            == crate::models::restart_target_of(containers[selected[k] as int]),
    decreases selected.len(),
{
    if selected.len() > 0 {
        let d = selected.drop_last();
        assert forall|k: int| 0 <= k < d.len() implies (#[trigger] d[k] as int) < containers.len() by {
            assert(d[k] == selected[k]);
        }
        lemma_selected_rows(d, containers);
        assert(selected.last() == selected[selected.len() - 1]);
        assert forall|k: int| 0 <= k < selected.len() implies #[trigger] selected_of(selected, containers)[k]
            == containers[selected[k] as int] by {
            if k < d.len() {
                assert(d[k] == selected[k]);
            }
        }
        lemma_targets_follow_containers(selected_of(selected, containers));
    }
}

} // verus!


