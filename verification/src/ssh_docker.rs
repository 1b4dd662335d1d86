//! Remote Docker operations over SSH: the commands sent, and what their output means.

use vstd::prelude::*;
use vstd::string::*;
use crate::models::{ConnectionDraft, ContainerInfo, ContainerView, DraftView};
use crate::ssh_util::{CommandOutputView, SshCommandResult};
use crate::text::{
    blank, decimal, is_blank, join, push_char, push_decimal, push_replaced, push_text,
    replace_char, result_view, trim, trim_text, views,
};

verus! {

/// Exit code and output of one remote Docker command.
#[derive(Debug, Clone)]
pub struct DockerCommandResult {
    pub exit_code: i32,
    pub stdout: String,
    pub stderr: String,
}

impl View for DockerCommandResult {
    type V = CommandOutputView;

    open spec fn view(&self) -> CommandOutputView {
        CommandOutputView { exit_code: self.exit_code, stdout: self.stdout@, stderr: self.stderr@ }
    }
}

impl From<SshCommandResult> for DockerCommandResult {
    fn from(value: SshCommandResult) -> (r: DockerCommandResult) {
        DockerCommandResult { exit_code: value.exit_code, stdout: value.stdout, stderr: value.stderr }
    }
}

impl vstd::std_specs::convert::FromSpecImpl<SshCommandResult> for DockerCommandResult {
    open spec fn obeys_from_spec() -> bool {
        true
    }

    open spec fn from_spec(value: SshCommandResult) -> DockerCommandResult {
        DockerCommandResult { exit_code: value.exit_code, stdout: value.stdout, stderr: value.stderr }
    }
}

impl DockerCommandResult {
    /// The same exit code and output, as a Docker command result.
    pub fn from_ssh(value: SshCommandResult) -> (r: DockerCommandResult)
        ensures
            r@ == value@,
    {
        DockerCommandResult::from(value)
    }
}

/// What replaces each `'` inside a single-quoted POSIX word: close, escaped quote, reopen.
pub open spec fn quote_escape() -> Seq<char> {
    seq!['\'', '\\', '\'', '\'']
}

/// `value` with each `'` written as `'\''`.
pub open spec fn escaped_single(value: Seq<char>) -> Seq<char> {
    replace_char(value, '\'', quote_escape())
}

/// `value` as one single-quoted POSIX shell word.
pub open spec fn single_quoted(value: Seq<char>) -> Seq<char> {
    seq!['\''] + escaped_single(value) + seq!['\'']
}

fn append_escaped_single(out: &mut String, value: &str)
    ensures
        final(out)@ == old(out)@ + escaped_single(value@),
{
    let mut with = String::new();
    push_char(&mut with, '\'');
    push_char(&mut with, '\\');
    push_char(&mut with, '\'');
    push_char(&mut with, '\'');
    assert(with@ =~= quote_escape());
    push_replaced(out, value, '\'', with.as_str());
}

pub fn escape_for_single_quoted_unix_shell(value: &str) -> (r: String)
    ensures
        r@ == escaped_single(value@),
{
    let mut r = String::new();
    append_escaped_single(&mut r, value);
    r
}

/// The single-quoted words of the targets, separated by single spaces.
pub open spec fn quoted_args(targets: Seq<Seq<char>>) -> Seq<char> {
    join(targets.map_values(|t: Seq<char>| single_quoted(t)), seq![' '])
}

/// Some target is blank (empty after trimming).
pub open spec fn has_blank(targets: Seq<Seq<char>>) -> bool {
    exists|i: int| 0 <= i < targets.len() && blank(#[trigger] targets[i])
}

/// The argument text for a list of targets, or why there is none.
pub open spec fn quoted_args_result(targets: Seq<Seq<char>>) -> Result<Seq<char>, Seq<char>> {
    if targets.len() == 0 {
        Err("At least one container id or name is required."@)
    } else if has_blank(targets) {
        Err("Container id or name cannot be empty."@)
    } else {
        Ok(quoted_args(targets))
    }
}

/// Space-separated single-quoted container ids/names for POSIX shell.
pub fn build_quoted_container_args(container_ids_or_names: &[String]) -> (r: Result<String, String>)
    ensures
        result_view(r) == quoted_args_result(views(container_ids_or_names@)),
{
    let n = container_ids_or_names.len();
    if n == 0 {
        return Err("At least one container id or name is required.".to_owned());
    }
    let ghost ts = views(container_ids_or_names@);
    let ghost qs = ts.map_values(|t: Seq<char>| single_quoted(t));
    let mut out = String::new();
    let mut i: usize = 0;
    while i < n
        invariant
            n == container_ids_or_names@.len(),
            n > 0,
            i <= n,
            ts == views(container_ids_or_names@),
            qs == ts.map_values(|t: Seq<char>| single_quoted(t)),
            forall|k: int| 0 <= k < i ==> !blank(#[trigger] ts[k]),
            out@ == join(qs.take(i as int), seq![' ']),
        decreases n - i,
    {
        let item = &container_ids_or_names[i];
        if is_blank(item.as_str()) {
            assert(blank(ts[i as int]));
            return Err("Container id or name cannot be empty.".to_owned());
        }
        if i > 0 {
            push_char(&mut out, ' ');
        }
        push_char(&mut out, '\'');
        append_escaped_single(&mut out, item.as_str());
        push_char(&mut out, '\'');
        proof {
            let p = qs.take(i + 1);
            assert(p.drop_last() =~= qs.take(i as int));
        }
        i = i + 1;
    }
    assert(qs.take(n as int) =~= qs);
    Ok(out)
}

/// Message for a failed remote command: label and exit code, then the trimmed
/// stderr, or the trimmed stdout when stderr is blank.
pub open spec fn docker_error_text(label: Seq<char>, result: CommandOutputView) -> Seq<char> {
    let head = label + " failed (exit "@ + crate::text::signed_decimal(result.exit_code as int) + ")."@;
    if !blank(result.stderr) {
        head + " "@ + trim(result.stderr)
    } else if !blank(result.stdout) {
        head + " "@ + trim(result.stdout)
    } else {
        head
    }
}

pub fn build_docker_error(label: &str, result: &DockerCommandResult) -> (r: String)
    ensures
        r@ == docker_error_text(label@, result@),
{
    let mut msg = label.to_owned();
    push_text(&mut msg, " failed (exit ");
    crate::text::push_signed_decimal(&mut msg, result.exit_code as i64);
    push_text(&mut msg, ").");
    if !is_blank(result.stderr.as_str()) {
        push_text(&mut msg, " ");
        let t = trim_text(result.stderr.as_str());
        push_text(&mut msg, t.as_str());
    } else if !is_blank(result.stdout.as_str()) {
        push_text(&mut msg, " ");
        let t = trim_text(result.stdout.as_str());
        push_text(&mut msg, t.as_str());
    }
    msg
}

/// Number of bytes of a character in UTF-8.
pub open spec fn utf8_width(c: char) -> nat {
    if (c as u32) < 0x80 {
        1
    } else if (c as u32) < 0x800 {
        2
    } else if (c as u32) < 0x10000 {
        3
    } else {
        4
    }
}

/// Number of bytes of a string in UTF-8 (what `str::len` returns).
pub open spec fn utf8_len(s: Seq<char>) -> nat
    decreases s.len(),
{
    if s.len() == 0 {
        0
    } else {
        utf8_len(s.drop_last()) + utf8_width(s.last())
    }
}

/// `max` falls on a character boundary of `s`, or past its end: slicing
/// `&s[..max]` does not panic.
pub open spec fn truncatable(s: Seq<char>, max: usize) -> bool {
    utf8_len(s) > max ==> exists|k: int| 0 <= k <= s.len() && #[trigger] utf8_len(s.take(k)) == max
}

/// `s` when it has at most `max` bytes, else its first `max` bytes followed by `...`.
pub open spec fn truncated(s: Seq<char>, max: usize) -> Seq<char> {
    if utf8_len(s) <= max {
        s
    } else {
        let k = choose|k: int| 0 <= k <= s.len() && #[trigger] utf8_len(s.take(k)) == max;
        s.take(k) + "..."@
    }
}

fn char_width(c: char) -> (w: u64)
    ensures
        w == utf8_width(c),
{
    let v = c as u32;
    if v < 0x80 {
        1
    } else if v < 0x800 {
        2
    } else if v < 0x10000 {
        3
    } else {
        4
    }
}

proof fn lemma_utf8_len_prefix_grows(s: Seq<char>, a: int, b: int)
    requires
        0 <= a <= b <= s.len(),
    ensures
        utf8_len(s.take(a)) + (b - a) <= utf8_len(s.take(b)),
        a < b ==> utf8_len(s.take(a + 1)) <= utf8_len(s.take(b)),
    decreases b - a,
{
    if a < b {
        lemma_utf8_len_prefix_grows(s, a, b - 1);
        assert(s.take(b).drop_last() =~= s.take(b - 1));
    }
}

pub fn truncate(s: &str, max: usize) -> (r: String)
    requires
        truncatable(s@, max),
    ensures
        r@ == truncated(s@, max),
{
    let n = s.unicode_len();
    let mut i: usize = 0;
    let mut acc: u128 = 0;
    while i < n
        invariant
            n == s@.len(),
            i <= n,
            acc == utf8_len(s@.take(i as int)),
            acc <= max,
        ensures
            i <= n,
            acc == utf8_len(s@.take(i as int)),
            acc <= max,
            i < n ==> acc + utf8_width(s@[i as int]) > max,
        decreases n - i,
    {
        let w = char_width(s.get_char(i));
        if acc + (w as u128) > (max as u128) {
            break;
        }
        proof {
            assert(s@.take(i + 1).drop_last() =~= s@.take(i as int));
        }
        acc = acc + (w as u128);
        i = i + 1;
    }
    if i == n {
        assert(s@.take(n as int) =~= s@);
        return s.to_owned();
    }
    proof {
        assert(s@.take(i + 1).drop_last() =~= s@.take(i as int));
        lemma_utf8_len_prefix_grows(s@, i + 1, n as int);
        assert(s@.take(n as int) =~= s@);
        let k = choose|k: int| 0 <= k <= s@.len() && #[trigger] utf8_len(s@.take(k)) == max;
        if k < i {
            lemma_utf8_len_prefix_grows(s@, k, i as int);
        } else if k > i {
            lemma_utf8_len_prefix_grows(s@, i as int, k);
        }
    }
    let mut r = s.substring_char(0, i).to_owned();
    push_text(&mut r, "...");
    r
}

/// Display name and target of each container, as text.
pub open spec fn pair_views(names: Seq<(&str, &str)>) -> Seq<(Seq<char>, Seq<char>)> {
    names.map_values(|p: (&str, &str)| (p.0@, p.1@))
}

/// Most containers listed by name in a confirmation.
pub open spec fn max_listed() -> nat {
    12
}

/// The listed part of a multi-container confirmation: one `- name` line for
/// each of the first twelve, then a line counting the rest.
pub open spec fn confirm_body(names: Seq<(Seq<char>, Seq<char>)>) -> Seq<char> {
    let shown = if names.len() > max_listed() { names.take(max_listed() as int) } else { names };
    let lines = shown.map_values(|p: (Seq<char>, Seq<char>)| "- "@ + p.0);
    join(lines, seq!['\n']) + if names.len() > max_listed() {
        "\n... and "@ + decimal((names.len() - max_listed()) as nat) + " more."@
    } else {
        Seq::empty()
    }
}

/// The question asked before a lifecycle action on the given containers.
pub open spec fn confirm_message_of(verb: Seq<char>, names: Seq<(Seq<char>, Seq<char>)>) -> Seq<char> {
    if names.len() == 0 {
        Seq::empty()
    } else if names.len() == 1 {
        verb + " container \""@ + names[0].0 + "\" ("@ + names[0].1 + ")?"@
    } else {
        verb + " "@ + decimal(names.len()) + " containers?\n\n"@ + confirm_body(names)
    }
}

pub fn build_action_confirm_message(verb: &str, names: &[(&str, &str)]) -> (r: String)
    ensures
        r@ == confirm_message_of(verb@, pair_views(names@)),
{
    let n = names.len();
    let ghost ps = pair_views(names@);
    if n == 0 {
        return String::new();
    }
    if n == 1 {
        let (display, target) = names[0];
        let mut r = verb.to_owned();
        push_text(&mut r, " container \"");
        push_text(&mut r, display);
        push_text(&mut r, "\" (");
        push_text(&mut r, target);
        push_text(&mut r, ")?");
        return r;
    }
    let shown: usize = if n > 12 { 12 } else { n };
    let ghost shown_ps = if n > 12 { ps.take(12) } else { ps };
    let ghost lines = shown_ps.map_values(|p: (Seq<char>, Seq<char>)| "- "@ + p.0);
    let mut body = String::new();
    let mut i: usize = 0;
    while i < shown
        invariant
            n == names@.len(),
            ps == pair_views(names@),
            shown <= n,
            shown == shown_ps.len(),
            shown_ps == (if n > 12 { ps.take(12) } else { ps }),
            lines == shown_ps.map_values(|p: (Seq<char>, Seq<char>)| "- "@ + p.0),
            i <= shown,
            body@ == join(lines.take(i as int), seq!['\n']),
        decreases shown - i,
    {
        if i > 0 {
            push_char(&mut body, '\n');
        }
        let (display, _) = names[i];
        push_text(&mut body, "- ");
        push_text(&mut body, display);
        proof {
            let p = lines.take(i + 1);
            assert(p.drop_last() =~= lines.take(i as int));
        }
        i = i + 1;
    }
    assert(lines.take(shown as int) =~= lines);
    if n > 12 {
        push_text(&mut body, "\n... and ");
        push_decimal(&mut body, (n - 12) as u64);
        push_text(&mut body, " more.");
    }
    let mut r = verb.to_owned();
    push_text(&mut r, " ");
    push_decimal(&mut r, n as u64);
    push_text(&mut r, " containers?\n\n");
    push_text(&mut r, body.as_str());
    r
}

/// The pieces of `s` between line feeds (one more piece than there are `\n`).
pub open spec fn split_lines(s: Seq<char>) -> Seq<Seq<char>>
    decreases s.len(),
{
    if s.len() == 0 {
        seq![Seq::empty()]
    } else {
        let p = split_lines(s.drop_last());
        if s.last() == '\n' {
            p.push(Seq::empty())
        } else {
            p.update(p.len() - 1, p.last().push(s.last()))
        }
    }
}

/// The non-blank pieces, trimmed.
pub open spec fn kept_rows(pieces: Seq<Seq<char>>) -> Seq<Seq<char>>
    decreases pieces.len(),
{
    if pieces.len() == 0 {
        Seq::empty()
    } else if blank(pieces.last()) {
        kept_rows(pieces.drop_last())
    } else {
        kept_rows(pieces.drop_last()).push(trim(pieces.last()))
    }
}

/// The non-blank lines of command output, trimmed.
pub open spec fn output_rows(s: Seq<char>) -> Seq<Seq<char>> {
    kept_rows(split_lines(s))
}

/// The non-blank lines of `text`, trimmed, in order.
pub fn output_lines(text: &str) -> (r: Vec<String>)
    ensures
        views(r@) == output_rows(text@),
{
    let n = text.unicode_len();
    let mut out: Vec<String> = Vec::new();
    let mut cur = String::new();
    let mut i: usize = 0;
    while i < n
        invariant
            n == text@.len(),
            i <= n,
            split_lines(text@.take(i as int)).len() >= 1,
            cur@ == split_lines(text@.take(i as int)).last(),
            views(out@) == kept_rows(split_lines(text@.take(i as int)).drop_last()),
        decreases n - i,
    {
        let c = text.get_char(i);
        let ghost pre = text@.take(i as int);
        let ghost post = text@.take(i + 1);
        proof {
            assert(post.drop_last() =~= pre);
        }
        if c == '\n' {
            if !is_blank(cur.as_str()) {
                let t = trim_text(cur.as_str());
                out.push(t);
            }
            cur = String::new();
            proof {
                let p = split_lines(pre);
                assert(split_lines(post).drop_last() =~= p);
            }
        } else {
            push_char(&mut cur, c);
            proof {
                let p = split_lines(pre);
                let q = split_lines(post);
                assert(q.drop_last() =~= p.drop_last());
            }
        }
        i = i + 1;
    }
    proof {
        assert(text@.take(n as int) =~= text@);
    }
    if !is_blank(cur.as_str()) {
        let t = trim_text(cur.as_str());
        out.push(t);
    }
    out
}

/// Characters before the first line feed.
pub open spec fn line_head(s: Seq<char>) -> Seq<char>
    decreases s.len(),
{
    if s.len() == 0 {
        Seq::empty()
    } else if s[0] == '\n' {
        Seq::empty()
    } else {
        seq![s[0]] + line_head(s.drop_first())
    }
}

/// `s.lines().next().unwrap_or("")`: the text before the first `\n`, without a
/// `\r` that ends it when a `\n` follows.
pub open spec fn first_line(s: Seq<char>) -> Seq<char> {
    let h = line_head(s);
    if h.len() < s.len() && h.len() > 0 && h.last() == '\r' {
        h.drop_last()
    } else {
        h
    }
}

proof fn lemma_line_head_at(s: Seq<char>, k: int)
    requires
        0 <= k <= s.len(),
        forall|j: int| 0 <= j < k ==> #[trigger] s[j] != '\n',
        k == s.len() || s[k] == '\n',
    ensures
        line_head(s) =~= s.take(k),
    decreases k,
{
    if k > 0 {
        let t = s.drop_first();
        assert forall|j: int| 0 <= j < k - 1 implies #[trigger] t[j] != '\n' by {
        }
        lemma_line_head_at(t, k - 1);
    }
}

/// The first line of `s` (see `first_line`).
pub fn first_line_text(s: &str) -> (r: String)
    ensures
        r@ == first_line(s@),
{
    let n = s.unicode_len();
    let mut k: usize = 0;
    while k < n
        invariant
            n == s@.len(),
            k <= n,
            forall|j: int| 0 <= j < k ==> #[trigger] s@[j] != '\n',
        ensures
            k <= n,
            forall|j: int| 0 <= j < k ==> #[trigger] s@[j] != '\n',
            k == n || s@[k as int] == '\n',
        decreases n - k,
    {
        if s.get_char(k) == '\n' {
            break;
        }
        k = k + 1;
    }
    proof {
        lemma_line_head_at(s@, k as int);
    }
    let mut end = k;
    if k < n && k > 0 && s.get_char(k - 1) == '\r' {
        end = k - 1;
    }
    let r = s.substring_char(0, end).to_owned();
    r
}

/// Views of a vector of containers.
pub open spec fn container_views(v: Seq<ContainerInfo>) -> Seq<ContainerView> {
    v.map_values(|c: ContainerInfo| c@)
}

/// Views of parsed rows (`None` where a row did not parse).
pub open spec fn row_views(v: Seq<Option<ContainerInfo>>) -> Seq<Option<ContainerView>> {
    v.map_values(|o: Option<ContainerInfo>| match o {
        Some(c) => Some(c@),
        None => None,
    })
}

/// The rows that parsed, in order.
pub open spec fn parsed_rows(rows: Seq<Option<ContainerView>>) -> Seq<ContainerView>
    decreases rows.len(),
{
    if rows.len() == 0 {
        Seq::empty()
    } else {
        match rows.last() {
            Some(c) => parsed_rows(rows.drop_last()).push(c),
            None => parsed_rows(rows.drop_last()),
        }
    }
}

/// How many rows did not parse.
pub open spec fn failed_rows(rows: Seq<Option<ContainerView>>) -> nat
    decreases rows.len(),
{
    if rows.len() == 0 {
        0
    } else {
        failed_rows(rows.drop_last()) + if rows.last() is None { 1nat } else { 0nat }
    }
}

/// Longest sample of unparsable output quoted in the error.
pub open spec fn sample_limit() -> usize {
    240
}

/// The error when `docker ps` printed something but no row parsed.
pub open spec fn listing_hint(result: CommandOutputView, failures: nat) -> Seq<char> {
    "docker ps returned output but no rows could be parsed."@ + (if failures > 0 {
        " JSON parse failures: "@ + decimal(failures) + "."@
    } else {
        Seq::empty()
    }) + " First line: "@ + truncated(first_line(trim(result.stdout)), sample_limit()) + (
    if !blank(result.stderr) {
        " stderr: "@ + trim(result.stderr)
    } else {
        Seq::empty()
    })
}

/// The container list from `docker ps` output whose rows were parsed one by one.
pub open spec fn listing_of(result: CommandOutputView, rows: Seq<Option<ContainerView>>) -> Result<
    Seq<ContainerView>,
    Seq<char>,
> {
    if parsed_rows(rows).len() == 0 && !blank(result.stdout) {
        Err(listing_hint(result, failed_rows(rows)))
    } else {
        Ok(parsed_rows(rows))
    }
}

/// When no row parsed, the quoted sample must be cut at a character boundary.
pub open spec fn listing_sample_ok(result: CommandOutputView, rows: Seq<Option<ContainerView>>) -> bool {
    parsed_rows(rows).len() == 0 && !blank(result.stdout) ==> truncatable(
        first_line(trim(result.stdout)),
        sample_limit(),
    )
}

/// Keeps the rows that parsed; when output was printed but none parsed, explains why.
/// `rows` holds, for each line of `output_lines(stdout)`, the container that line
/// parsed to, or `None`.
pub fn collect_listing(result: &DockerCommandResult, rows: Vec<Option<ContainerInfo>>) -> (r: Result<
    Vec<ContainerInfo>,
    String,
>)
    requires
        rows@.len() == output_rows(result@.stdout).len(),
        listing_sample_ok(result@, row_views(rows@)),
    ensures
        match r {
            Ok(list) => listing_of(result@, row_views(rows@)) == Ok::<Seq<ContainerView>, Seq<char>>(
                container_views(list@),
            ),
            Err(e) => listing_of(result@, row_views(rows@)) == Err::<Seq<ContainerView>, Seq<char>>(
                e@,
            ),
        },
{
    let ghost rv = row_views(rows@);
    let mut list: Vec<ContainerInfo> = Vec::new();
    let mut failures: u64 = 0;
    let n = rows.len();
    let mut rows = rows;
    let ghost all = rows@;
    let mut taken: Vec<Option<ContainerInfo>> = Vec::new();
    let mut i: usize = 0;
    while i < n
        invariant
            n == all.len(),
            rv == row_views(all),
            i <= n,
            rows@ == all,
            container_views(list@) == parsed_rows(rv.take(i as int)),
            failures == failed_rows(rv.take(i as int)),
            failures <= i,
        decreases n - i,
    {
        let ghost pre = rv.take(i as int);
        let ghost post = rv.take(i + 1);
        proof {
            assert(post.drop_last() =~= pre);
        }
        match &rows[i] {
            Some(c) => {
                let d = c.duplicate();
                list.push(d);
            },
            None => {
                failures = failures + 1;
            },
        }
        i = i + 1;
    }
    proof {
        assert(rv.take(n as int) =~= rv);
    }
    if list.len() == 0 && !is_blank(result.stdout.as_str()) {
        let mut hint = "docker ps returned output but no rows could be parsed.".to_owned();
        if failures > 0 {
            push_text(&mut hint, " JSON parse failures: ");
            push_decimal(&mut hint, failures);
            push_text(&mut hint, ".");
        }
        push_text(&mut hint, " First line: ");
        let trimmed = trim_text(result.stdout.as_str());
        let line = first_line_text(trimmed.as_str());
        let sample = truncate(line.as_str(), 240);
        push_text(&mut hint, sample.as_str());
        if !is_blank(result.stderr.as_str()) {
            push_text(&mut hint, " stderr: ");
            let t = trim_text(result.stderr.as_str());
            push_text(&mut hint, t.as_str());
        }
        assert(hint@ =~= listing_hint(result@, failed_rows(rv)));
        return Err(hint);
    }
    Ok(list)
}

/// A command to run on the remote host over a connection, with the label that
/// names it in the error of a failed run.
#[derive(Debug, Clone)]
pub struct RemoteCommand {
    pub connection: ConnectionDraft,
    pub command: String,
    pub label: String,
}

/// Mathematical model of a remote command.
pub struct RemoteCommandView {
    pub connection: DraftView,
    pub command: Seq<char>,
    pub label: Seq<char>,
}

impl View for RemoteCommand {
    type V = RemoteCommandView;

    open spec fn view(&self) -> RemoteCommandView {
        RemoteCommandView { connection: self.connection@, command: self.command@, label: self.label@ }
    }
}

/// View of a planned command.
pub open spec fn plan_view(r: Result<RemoteCommand, String>) -> Result<RemoteCommandView, Seq<char>> {
    match r {
        Ok(c) => Ok(c@),
        Err(e) => Err(e@),
    }
}

/// View of a command outcome.
pub open spec fn outcome_view(r: Result<DockerCommandResult, String>) -> Result<CommandOutputView, Seq<char>> {
    match r {
        Ok(c) => Ok(c@),
        Err(e) => Err(e@),
    }
}

/// View of a unit result with a text error.
pub open spec fn unit_view(r: Result<(), String>) -> Result<(), Seq<char>> {
    match r {
        Ok(_) => Ok(()),
        Err(e) => Err(e@),
    }
}

/// A command's output when it ran and exited 0; otherwise the error to report.
pub open spec fn checked_output_of(label: Seq<char>, outcome: Result<CommandOutputView, Seq<char>>) -> Result<
    CommandOutputView,
    Seq<char>,
> {
    match outcome {
        Err(e) => Err(e),
        Ok(out) => if out.exit_code != 0 {
            Err(docker_error_text(label, out))
        } else {
            Ok(out)
        },
    }
}

/// Success or the error of a checked outcome, without the output.
pub open spec fn completed_of(r: Result<CommandOutputView, Seq<char>>) -> Result<(), Seq<char>> {
    match r {
        Ok(_) => Ok(()),
        Err(e) => Err(e),
    }
}

pub(crate) fn checked_output(label: &str, outcome: Result<DockerCommandResult, String>) -> (r: Result<
    DockerCommandResult,
    String,
>)
    ensures
        outcome_view(r) == checked_output_of(label@, outcome_view(outcome)),
{
    match outcome {
        Err(e) => Err(e),
        Ok(out) => {
            if out.exit_code != 0 {
                Err(build_docker_error(label, &out))
            } else {
                Ok(out)
            }
        },
    }
}

impl RemoteCommand {
    /// The output of a run of this command when it exited 0; otherwise the
    /// error, named by the command's label.
    pub fn checked(&self, outcome: Result<DockerCommandResult, String>) -> (r: Result<DockerCommandResult, String>)
        ensures
            outcome_view(r) == checked_output_of(self@.label, outcome_view(outcome)),
    {
        checked_output(self.label.as_str(), outcome)
    }

    /// `Ok(())` when a run of this command exited 0; otherwise the error to report.
    pub fn completed(&self, outcome: Result<DockerCommandResult, String>) -> (r: Result<(), String>)
        ensures
            unit_view(r) == completed_of(checked_output_of(self@.label, outcome_view(outcome))),
    {
        match self.checked(outcome) {
            Ok(_) => Ok(()),
            Err(e) => Err(e),
        }
    }
}

/// Runs remote Docker commands over one SSH connection at a time. The service
/// is one owned value, not a handle: it is not `Clone`, so every `connect` and
/// `disconnect` is seen by every later command planned on it (the window state
/// owns the single service).
pub struct SshDockerService {
    connection: Option<ConnectionDraft>,
}

/// The message when a command is asked for without a connection.
pub open spec fn not_connected_text() -> Seq<char> {
    "Not connected. Connect before running Docker commands."@
}

/// The message when the host or the user is blank.
pub open spec fn host_user_required_text() -> Seq<char> {
    "Host and username are required."@
}

/// The command to run `text` over the current connection, named by `label`.
pub open spec fn remote_on(connection: Option<DraftView>, text: Seq<char>, label: Seq<char>) -> Result<
    RemoteCommandView,
    Seq<char>,
> {
    match connection {
        Some(c) => Ok(RemoteCommandView { connection: c, command: text, label }),
        None => Err(not_connected_text()),
    }
}

/// A lifecycle command over the current connection: invalid targets first, then no connection.
pub open spec fn lifecycle_plan(
    connection: Option<DraftView>,
    prefix: Seq<char>,
    label: Seq<char>,
    targets: Seq<Seq<char>>,
) -> Result<RemoteCommandView, Seq<char>> {
    match quoted_args_result(targets) {
        Err(e) => Err(e),
        Ok(args) => remote_on(connection, prefix + args, label),
    }
}

/// What `docker restart` is run with.
pub open spec fn restart_prefix() -> Seq<char> {
    "docker restart --time 10 "@
}

/// What `docker stop` is run with.
pub open spec fn stop_prefix() -> Seq<char> {
    "docker stop --time 10 "@
}

/// What `docker start` is run with.
pub open spec fn start_prefix() -> Seq<char> {
    "docker start "@
}

/// Label of a failed restart.
pub open spec fn restart_label() -> Seq<char> {
    "docker restart"@
}

/// Label of a failed stop.
pub open spec fn stop_label() -> Seq<char> {
    "docker stop"@
}

/// Label of a failed start.
pub open spec fn start_label() -> Seq<char> {
    "docker start"@
}

/// The listing command.
pub open spec fn list_command_text() -> Seq<char> {
    "docker ps -a --format '{{json .}}'"@
}

/// Label of a failed listing.
pub open spec fn list_label() -> Seq<char> {
    "docker ps"@
}

/// The command listing the ids of running containers.
pub open spec fn running_ids_command_text() -> Seq<char> {
    "docker ps -q"@
}

/// Label of a failed listing of running ids.
pub open spec fn running_ids_label() -> Seq<char> {
    "docker ps -q"@
}

/// The command run to test a new connection.
pub open spec fn probe_command_text() -> Seq<char> {
    "echo connected"@
}

/// Label of a failed connection test.
pub open spec fn probe_label() -> Seq<char> {
    "SSH connect"@
}

/// A draft whose host or user is blank is refused.
pub open spec fn draft_refused(d: DraftView) -> bool {
    blank(d.host) || blank(d.username)
}

/// The connection that a successful `connect` stores, or why the inputs are refused.
pub open spec fn connection_request_of(
    host: Seq<char>,
    port: u16,
    username: Seq<char>,
    password: Seq<char>,
    timeout_secs: u64,
) -> Result<DraftView, Seq<char>> {
    let d = DraftView { host, port, username, password, command_timeout_seconds: timeout_secs };
    if draft_refused(d) {
        Err(host_user_required_text())
    } else {
        Ok(d)
    }
}

/// The command that tests a draft, or why the draft is refused.
pub open spec fn probe_plan_of(draft: DraftView) -> Result<RemoteCommandView, Seq<char>> {
    if draft_refused(draft) {
        Err(host_user_required_text())
    } else {
        Ok(RemoteCommandView { connection: draft, command: probe_command_text(), label: probe_label() })
    }
}

/// The connection after `connect`: a refused draft changes nothing; otherwise the
/// draft is stored when its probe ran and exited 0.
pub open spec fn connect_of(
    before: Option<DraftView>,
    draft: DraftView,
    probe: Result<CommandOutputView, Seq<char>>,
) -> (Option<DraftView>, Result<(), Seq<char>>) {
    if draft_refused(draft) {
        (before, Err(host_user_required_text()))
    } else {
        match checked_output_of(probe_label(), probe) {
            Ok(_) => (Some(draft), Ok(())),
            Err(e) => (before, Err(e)),
        }
    }
}

/// The second step of restarting every running container, from the outcome of
/// listing their ids: the error, nothing when none runs, or the restart of them all.
pub open spec fn restart_listed_of(
    connection: Option<DraftView>,
    listing: Result<CommandOutputView, Seq<char>>,
) -> Result<Option<RemoteCommandView>, Seq<char>> {
    match checked_output_of(running_ids_label(), listing) {
        Err(e) => Err(e),
        Ok(out) => if output_rows(out.stdout).len() == 0 {
            Ok(None)
        } else {
            match lifecycle_plan(connection, restart_prefix(), restart_label(), output_rows(out.stdout)) {
                Ok(c) => Ok(Some(c)),
                Err(e) => Err(e),
            }
        },
    }
}

/// View of an optional planned command.
pub open spec fn opt_plan_view(r: Result<Option<RemoteCommand>, String>) -> Result<Option<RemoteCommandView>, Seq<char>> {
    match r {
        Ok(Some(c)) => Ok(Some(c@)),
        Ok(None) => Ok(None),
        Err(e) => Err(e@),
    }
}

impl View for SshDockerService {
    type V = Option<DraftView>;

    closed spec fn view(&self) -> Option<DraftView> {
        match self.connection {
            Some(c) => Some(c@),
            None => None,
        }
    }
}

impl Default for SshDockerService {
    fn default() -> (s: SshDockerService)
        ensures
            s@ is None,
    {
        SshDockerService::new()
    }
}

impl SshDockerService {
    pub fn new() -> (s: SshDockerService)
        ensures
            s@ is None,
    {
        SshDockerService { connection: None }
    }

    pub fn is_connected(&self) -> (b: bool)
        ensures
            b == self@ is Some,
    {
        self.connection.is_some()
    }

    /// The current connection, if any.
    pub fn connection(&self) -> (r: Option<ConnectionDraft>)
        ensures
            match r {
                Some(c) => self@ == Some(c@),
                None => self@ is None,
            },
    {
        match &self.connection {
            Some(c) => Some(c.duplicate()),
            None => None,
        }
    }

    /// Checks the inputs of `connect` and builds the connection to probe.
    pub fn connection_request(
        host: &str,
        port: u16,
        username: &str,
        password: &str,
        timeout_secs: u64,
    ) -> (r: Result<ConnectionDraft, String>)
        ensures
            match r {
                Ok(d) => connection_request_of(host@, port, username@, password@, timeout_secs)
                    == Ok::<DraftView, Seq<char>>(d@),
                Err(e) => connection_request_of(host@, port, username@, password@, timeout_secs)
                    == Err::<DraftView, Seq<char>>(e@),
            },
    {
        if is_blank(host) || is_blank(username) {
            return Err("Host and username are required.".to_owned());
        }
        Ok(
            ConnectionDraft {
                host: host.to_owned(),
                port,
                username: username.to_owned(),
                password: password.to_owned(),
                command_timeout_seconds: timeout_secs,
            },
        )
    }

    /// The command that tests a new connection; a blank host or user is refused
    /// before anything runs.
    pub fn probe_command(draft: &ConnectionDraft) -> (r: Result<RemoteCommand, String>)
        ensures
            plan_view(r) == probe_plan_of(draft@),
    {
        if is_blank(draft.host.as_str()) || is_blank(draft.username.as_str()) {
            return Err("Host and username are required.".to_owned());
        }
        Ok(
            RemoteCommand {
                connection: draft.duplicate(),
                command: "echo connected".to_owned(),
                label: "SSH connect".to_owned(),
            },
        )
    }

    /// Stores the connection when its host and user are not blank and its probe
    /// ran and exited 0.
    pub fn connect(&mut self, draft: ConnectionDraft, probe: Result<DockerCommandResult, String>) -> (r: Result<(), String>)
        ensures
            (final(self)@, unit_view(r)) == connect_of(old(self)@, draft@, outcome_view(probe)),
    {
        if is_blank(draft.host.as_str()) || is_blank(draft.username.as_str()) {
            return Err("Host and username are required.".to_owned());
        }
        match checked_output("SSH connect", probe) {
            Ok(_) => {
                self.connection = Some(draft);
                Ok(())
            },
            Err(e) => Err(e),
        }
    }

    pub fn disconnect(&mut self)
        ensures
            final(self)@ is None,
    {
        self.connection = None;
    }

    /// `remote_command` over the current connection, named by `label`, or the
    /// not-connected error.
    fn run_command(&self, remote_command: &str, label: &str) -> (r: Result<RemoteCommand, String>)
        ensures
            plan_view(r) == remote_on(self@, remote_command@, label@),
    {
        match &self.connection {
            Some(c) => Ok(
                RemoteCommand {
                    connection: c.duplicate(),
                    command: remote_command.to_owned(),
                    label: label.to_owned(),
                },
            ),
            None => Err("Not connected. Connect before running Docker commands.".to_owned()),
        }
    }

    fn lifecycle(&self, prefix: &str, label: &str, targets: &[String]) -> (r: Result<RemoteCommand, String>)
        ensures
            plan_view(r) == lifecycle_plan(self@, prefix@, label@, views(targets@)),
    {
        let args = match build_quoted_container_args(targets) {
            Ok(a) => a,
            Err(e) => return Err(e),
        };
        let mut cmd = prefix.to_owned();
        push_text(&mut cmd, args.as_str());
        self.run_command(cmd.as_str(), label)
    }

    pub fn restart_containers(&self, targets: &[String]) -> (r: Result<RemoteCommand, String>)
        ensures
            plan_view(r) == lifecycle_plan(self@, restart_prefix(), restart_label(), views(targets@)),
    {
        self.lifecycle("docker restart --time 10 ", "docker restart", targets)
    }

    pub fn stop_containers(&self, targets: &[String]) -> (r: Result<RemoteCommand, String>)
        ensures
            plan_view(r) == lifecycle_plan(self@, stop_prefix(), stop_label(), views(targets@)),
    {
        self.lifecycle("docker stop --time 10 ", "docker stop", targets)
    }

    pub fn start_containers(&self, targets: &[String]) -> (r: Result<RemoteCommand, String>)
        ensures
            plan_view(r) == lifecycle_plan(self@, start_prefix(), start_label(), views(targets@)),
    {
        self.lifecycle("docker start ", "docker start", targets)
    }

    /// The listing command over the current connection.
    pub fn list_containers(&self) -> (r: Result<RemoteCommand, String>)
        ensures
            plan_view(r) == remote_on(self@, list_command_text(), list_label()),
    {
        self.run_command("docker ps -a --format '{{json .}}'", "docker ps")
    }

    /// First step of restarting every running container: list their ids.
    pub fn restart_all_running(&self) -> (r: Result<RemoteCommand, String>)
        ensures
            plan_view(r) == remote_on(self@, running_ids_command_text(), running_ids_label()),
    {
        self.run_command("docker ps -q", "docker ps -q")
    }

    /// Second step: the restart of the listed ids, none when no container runs.
    pub fn restart_listed(&self, listing: Result<DockerCommandResult, String>) -> (r: Result<
        Option<RemoteCommand>,
        String,
    >)
        ensures
            opt_plan_view(r) == restart_listed_of(self@, outcome_view(listing)),
    {
        let out = match checked_output("docker ps -q", listing) {
            Ok(o) => o,
            Err(e) => return Err(e),
        };
        let ids = output_lines(out.stdout.as_str());
        if ids.len() == 0 {
            return Ok(None);
        }
        match self.restart_containers(ids.as_slice()) {
            Ok(c) => Ok(Some(c)),
            Err(e) => Err(e),
        }
    }
}

/// Every listed row either parsed or is counted as a failure.
pub proof fn lemma_rows_accounted(rows: Seq<Option<ContainerView>>)
    ensures
        parsed_rows(rows).len() + failed_rows(rows) == rows.len(),
    decreases rows.len(),
{
    if rows.len() > 0 {
        lemma_rows_accounted(rows.drop_last());
    }
}

/// Without a connection no Docker command is handed out: each one is refused,
/// with the invalid-targets message first where the targets are invalid.
pub proof fn lemma_commands_need_connection(
    prefix: Seq<char>,
    label: Seq<char>,
    targets: Seq<Seq<char>>,
    text: Seq<char>,
)
    ensures
        remote_on(None, text, label) == Err::<RemoteCommandView, Seq<char>>(not_connected_text()),
        lifecycle_plan(None, prefix, label, targets) is Err,
        quoted_args_result(targets) is Ok ==> lifecycle_plan(None, prefix, label, targets) == Err::<
            RemoteCommandView,
            Seq<char>,
        >(not_connected_text()),
{
}

/// After a successful `connect`, commands run over the connection that was probed;
/// after a failed one, the service is as it was; a draft with a blank host or
/// user is never stored.
pub proof fn lemma_connect_then_command(
    before: Option<DraftView>,
    draft: DraftView,
    probe: Result<CommandOutputView, Seq<char>>,
    text: Seq<char>,
    label: Seq<char>,
)
    ensures
        connect_of(before, draft, probe).1 is Ok ==> remote_on(connect_of(before, draft, probe).0, text, label)
            == Ok::<RemoteCommandView, Seq<char>>(RemoteCommandView { connection: draft, command: text, label }),
        connect_of(before, draft, probe).1 is Err ==> connect_of(before, draft, probe).0 == before,
        draft_refused(draft) ==> connect_of(before, draft, probe) == (
            before,
            Err::<(), Seq<char>>(host_user_required_text()),
        ),
        !draft_refused(draft) && (probe matches Ok(out) && out.exit_code == 0) ==> connect_of(
            before,
            draft,
            probe,
        ).1 is Ok,
{
}

proof fn lemma_split_lines_nonempty(s: Seq<char>)
    ensures
        split_lines(s).len() >= 1,
    decreases s.len(),
{
    if s.len() > 0 {
        lemma_split_lines_nonempty(s.drop_last());
    }
}

/// A text without a line feed is one piece: itself.
pub proof fn lemma_split_lines_single(s: Seq<char>)
    requires
        !s.contains('\n'),
    ensures
        split_lines(s) == seq![s],
    decreases s.len(),
{
    if s.len() > 0 {
        let d = s.drop_last();
        assert(!d.contains('\n')) by {
            if d.contains('\n') {
                let k = choose|k: int| 0 <= k < d.len() && d[k] == '\n';
                assert(s[k] == '\n');
            }
        }
        lemma_split_lines_single(d);
        assert(s.last() != '\n') by {
            assert(s[s.len() - 1] == s.last());
        }
        assert(d.push(s.last()) =~= s);
        assert(seq![d].update(0, d.push(s.last())) =~= seq![s]);
    } else {
        assert(s =~= Seq::<char>::empty());
    }
}

/// A line feed separates: the pieces of `a`, `\n`, `b` are those of `a` followed by those of `b`.
pub proof fn lemma_split_lines_concat(a: Seq<char>, b: Seq<char>)
    ensures
        split_lines(a + seq!['\n'] + b) == split_lines(a) + split_lines(b),
    decreases b.len(),
{
    let s = a + seq!['\n'] + b;
    if b.len() == 0 {
        assert(s.drop_last() =~= a);
        assert(split_lines(a).push(Seq::empty()) =~= split_lines(a) + seq![Seq::<char>::empty()]);
    } else {
        let bd = b.drop_last();
        lemma_split_lines_concat(a, bd);
        lemma_split_lines_nonempty(bd);
        assert(s.drop_last() =~= a + seq!['\n'] + bd);
        let p = split_lines(a) + split_lines(bd);
        let q = split_lines(bd);
        if b.last() == '\n' {
            assert(p.push(Seq::empty()) =~= split_lines(a) + q.push(Seq::empty()));
        } else {
            assert(p.last() == q.last());
            assert(p.update(p.len() - 1, p.last().push(b.last())) =~= split_lines(a) + q.update(
                q.len() - 1,
                q.last().push(b.last()),
            ));
        }
    }
}

proof fn lemma_kept_rows_concat(p: Seq<Seq<char>>, q: Seq<Seq<char>>)
    ensures
        kept_rows(p + q) == kept_rows(p) + kept_rows(q),
    decreases q.len(),
{
    if q.len() == 0 {
        assert(p + q =~= p);
        assert(kept_rows(p) + kept_rows(q) =~= kept_rows(p));
    } else {
        lemma_kept_rows_concat(p, q.drop_last());
        assert((p + q).drop_last() =~= p + q.drop_last());
        assert((p + q).last() == q.last());
        if !blank(q.last()) {
            assert((kept_rows(p) + kept_rows(q.drop_last())).push(trim(q.last())) =~= kept_rows(p) + kept_rows(
                q.drop_last(),
            ).push(trim(q.last())));
        }
    }
}

/// Rows of command output: a line without a line feed gives one row, its trim,
/// unless it is blank, which gives none; and a line feed separates, the rows of
/// `a`, `\n`, `b` being those of `a` followed by those of `b`. So each row is the
/// trim of a whole line, in order.
pub proof fn lemma_output_rows_are_lines(a: Seq<char>, b: Seq<char>, line: Seq<char>)
    ensures
        !line.contains('\n') && !blank(line) ==> output_rows(line) == seq![trim(line)],
        !line.contains('\n') && blank(line) ==> output_rows(line) == Seq::<Seq<char>>::empty(),
        output_rows(a + seq!['\n'] + b) == output_rows(a) + output_rows(b),
{
    if !line.contains('\n') {
        lemma_split_lines_single(line);
        let one = seq![line];
        assert(one.drop_last() =~= Seq::<Seq<char>>::empty());
        assert(one.last() == line);
        assert(kept_rows(Seq::<Seq<char>>::empty()) == Seq::<Seq<char>>::empty());
        assert(kept_rows(one) == (if blank(line) {
            kept_rows(one.drop_last())
        } else {
            kept_rows(one.drop_last()).push(trim(line))
        }));
        if !blank(line) {
            assert(Seq::<Seq<char>>::empty().push(trim(line)) =~= seq![trim(line)]);
        }
    }
    lemma_split_lines_concat(a, b);
    lemma_kept_rows_concat(split_lines(a), split_lines(b));
}

} // verus!

