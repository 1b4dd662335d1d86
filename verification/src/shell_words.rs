//! How a POSIX shell reads back the words of a command line: field splitting
//! on blanks and quote removal, as a model to check the quoting against.

use vstd::prelude::*;
use crate::ssh_docker::{
    escaped_single, has_blank, kept_rows, lifecycle_plan, output_rows, quote_escape, quoted_args,
    quoted_args_result, restart_label, restart_prefix, single_quoted, RemoteCommandView,
};
use crate::models::DraftView;
use crate::text::{blank, join, lemma_trim_keeps_nonblank, replace_char, trim};
use crate::exec::exec_remote_command_of;

verus! {

/// Where the reader is inside the current word.
pub enum QuoteMode {
    Plain,
    Quoted,
    Escaped,
    Refused,
}

/// Reader state: finished words, the word being read, whether one is being read.
pub struct WordScan {
    pub words: Seq<Seq<char>>,
    pub cur: Seq<char>,
    pub in_word: bool,
    pub mode: QuoteMode,
}

/// Characters that separate words outside quotes.
pub open spec fn is_blank_sep(c: char) -> bool {
    c == ' ' || c == '\t' || c == '\n'
}

/// Unquoted characters that the shell would treat specially; this reader refuses them.
pub open spec fn is_meta(c: char) -> bool {
    c == '|' || c == '&' || c == ';' || c == '<' || c == '>' || c == '(' || c == ')' || c == '$'
        || c == '`' || c == '"' || c == '*' || c == '?' || c == '[' || c == '#' || c == '~'
}

/// One character read.
pub open spec fn scan_step(st: WordScan, c: char) -> WordScan {
    match st.mode {
        QuoteMode::Refused => st,
        QuoteMode::Quoted => if c == '\'' {
            WordScan { mode: QuoteMode::Plain, ..st }
        } else {
            WordScan { cur: st.cur.push(c), ..st }
        },
        QuoteMode::Escaped => if c == '\n' {
            WordScan { mode: QuoteMode::Plain, ..st }
        } else {
            WordScan { cur: st.cur.push(c), mode: QuoteMode::Plain, ..st }
        },
        QuoteMode::Plain => if c == '\'' {
            WordScan { in_word: true, mode: QuoteMode::Quoted, ..st }
        } else if c == '\\' {
            WordScan { in_word: true, mode: QuoteMode::Escaped, ..st }
        } else if is_blank_sep(c) {
            if st.in_word {
                WordScan { words: st.words.push(st.cur), cur: Seq::empty(), in_word: false, ..st }
            } else {
                st
            }
        } else if is_meta(c) {
            WordScan { mode: QuoteMode::Refused, ..st }
        } else {
            WordScan { cur: st.cur.push(c), in_word: true, ..st }
        },
    }
}

/// Reads `s` from state `st`.
pub open spec fn scan_from(st: WordScan, s: Seq<char>) -> WordScan
    decreases s.len(),
{
    if s.len() == 0 {
        st
    } else {
        scan_step(scan_from(st, s.drop_last()), s.last())
    }
}

/// The state before anything is read.
pub open spec fn scan_start() -> WordScan {
    WordScan { words: Seq::empty(), cur: Seq::empty(), in_word: false, mode: QuoteMode::Plain }
}

/// The words the shell reads from `s`; `None` for unbalanced quotes, a trailing
/// backslash, or an unquoted special character.
pub open spec fn shell_words(s: Seq<char>) -> Option<Seq<Seq<char>>> {
    let st = scan_from(scan_start(), s);
    match st.mode {
        QuoteMode::Plain => Some(if st.in_word { st.words.push(st.cur) } else { st.words }),
        _ => None,
    }
}

proof fn lemma_scan_push(st: WordScan, s: Seq<char>, c: char)
    ensures
        scan_from(st, s.push(c)) == scan_step(scan_from(st, s), c),
{
    assert(s.push(c).drop_last() =~= s);
}

proof fn lemma_scan_one(st: WordScan, c: char)
    ensures
        scan_from(st, seq![c]) == scan_step(st, c),
{
    lemma_scan_push(st, Seq::empty(), c);
}

proof fn lemma_scan_concat(st: WordScan, a: Seq<char>, b: Seq<char>)
    ensures
        scan_from(st, a + b) == scan_from(scan_from(st, a), b),
    decreases b.len(),
{
    if b.len() > 0 {
        lemma_scan_concat(st, a, b.drop_last());
        assert((a + b).drop_last() =~= a + b.drop_last());
    }
}

proof fn lemma_scan_quoted_body(words: Seq<Seq<char>>, cur: Seq<char>, v: Seq<char>)
    ensures
        scan_from(
            WordScan { words, cur, in_word: true, mode: QuoteMode::Quoted },
            escaped_single(v),
        ) == (WordScan { words, cur: cur + v, in_word: true, mode: QuoteMode::Quoted }),
    decreases v.len(),
{
    let st = WordScan { words, cur, in_word: true, mode: QuoteMode::Quoted };
    if v.len() > 0 {
        let d = v.drop_last();
        lemma_scan_quoted_body(words, cur, d);
        let mid = WordScan { words, cur: cur + d, in_word: true, mode: QuoteMode::Quoted };
        if v.last() == '\'' {
            let q = quote_escape();
            lemma_scan_concat(st, escaped_single(d), q);
            let q1 = seq!['\''];
            let q2 = q1.push('\\');
            let q3 = q2.push('\'');
            assert(q =~= q3.push('\''));
            lemma_scan_one(mid, '\'');
            lemma_scan_push(mid, q1, '\\');
            lemma_scan_push(mid, q2, '\'');
            lemma_scan_push(mid, q3, '\'');
            assert(cur + v =~= (cur + d).push('\''));
        } else {
            assert(escaped_single(v).drop_last() =~= escaped_single(d));
            assert(cur + v =~= (cur + d).push(v.last()));
        }
    }
}

proof fn lemma_scan_single_quoted(words: Seq<Seq<char>>, v: Seq<char>)
    ensures
        scan_from(
            WordScan { words, cur: Seq::empty(), in_word: false, mode: QuoteMode::Plain },
            single_quoted(v),
        ) == (WordScan { words, cur: v, in_word: true, mode: QuoteMode::Plain }),
{
    let st = WordScan { words, cur: Seq::empty(), in_word: false, mode: QuoteMode::Plain };
    let open = seq!['\''];
    lemma_scan_one(st, '\'');
    lemma_scan_quoted_body(words, Seq::empty(), v);
    lemma_scan_concat(st, open, escaped_single(v));
    lemma_scan_concat(st, open + escaped_single(v), seq!['\'']);
    lemma_scan_one(WordScan { words, cur: v, in_word: true, mode: QuoteMode::Quoted }, '\'');
}

proof fn lemma_scan_quoted_prefix(targets: Seq<Seq<char>>, i: int)
    requires
        1 <= i <= targets.len(),
    ensures
        scan_from(
            scan_start(),
            join(targets.map_values(|t: Seq<char>| single_quoted(t)).take(i), seq![' ']),
        ) == (WordScan {
            words: targets.take(i - 1),
            cur: targets[i - 1],
            in_word: true,
            mode: QuoteMode::Plain,
        }),
    decreases i,
{
    let qs = targets.map_values(|t: Seq<char>| single_quoted(t));
    let p = qs.take(i);
    if i == 1 {
        assert(targets.take(0) =~= Seq::<Seq<char>>::empty());
        lemma_scan_single_quoted(Seq::empty(), targets[0]);
        assert(scan_start() == WordScan {
            words: Seq::<Seq<char>>::empty(),
            cur: Seq::empty(),
            in_word: false,
            mode: QuoteMode::Plain,
        });
    } else {
        lemma_scan_quoted_prefix(targets, i - 1);
        assert(p.drop_last() =~= qs.take(i - 1));
        let before = join(qs.take(i - 1), seq![' ']);
        let st1 = scan_from(scan_start(), before);
        lemma_scan_concat(scan_start(), before, seq![' ']);
        lemma_scan_one(st1, ' ');
        assert(targets.take(i - 2).push(targets[i - 2]) =~= targets.take(i - 1));
        lemma_scan_concat(scan_start(), before + seq![' '], single_quoted(targets[i - 1]));
        lemma_scan_single_quoted(targets.take(i - 1), targets[i - 1]);
    }
}

/// The shell reads a single-quoted word back as exactly the text that was quoted.
pub proof fn lemma_single_quoted_reads_back(value: Seq<char>)
    ensures
        shell_words(single_quoted(value)) == Some(seq![value]),
{
    lemma_scan_single_quoted(Seq::empty(), value);
    assert(scan_start() == WordScan {
        words: Seq::<Seq<char>>::empty(),
        cur: Seq::empty(),
        in_word: false,
        mode: QuoteMode::Plain,
    });
}

/// The shell splits the quoted argument text back into exactly the targets,
/// whatever characters they hold.
pub proof fn lemma_quoted_args_read_back(targets: Seq<Seq<char>>)
    requires
        targets.len() > 0,
    ensures
        shell_words(quoted_args(targets)) == Some(targets),
{
    let n = targets.len() as int;
    let qs = targets.map_values(|t: Seq<char>| single_quoted(t));
    lemma_scan_quoted_prefix(targets, n);
    assert(qs.take(n) =~= qs);
}

/// A character that a plain (unquoted) word can hold as it is.
pub open spec fn is_plain(c: char) -> bool {
    !is_blank_sep(c) && !is_meta(c) && c != '\'' && c != '\\'
}

proof fn lemma_scan_plain(st: WordScan, w: Seq<char>)
    requires
        st.mode == QuoteMode::Plain,
        forall|i: int| 0 <= i < w.len() ==> is_plain(#[trigger] w[i]),
    ensures
        scan_from(st, w) == (WordScan {
            cur: st.cur + w,
            in_word: st.in_word || w.len() > 0,
            ..st
        }),
    decreases w.len(),
{
    if w.len() > 0 {
        let d = w.drop_last();
        assert forall|i: int| 0 <= i < d.len() implies is_plain(#[trigger] d[i]) by {
        }
        lemma_scan_plain(st, d);
        assert(st.cur + w =~= (st.cur + d).push(w.last()));
    }
}

proof fn lemma_scan_word_then_blank(st: WordScan, w: Seq<char>)
    requires
        st.mode == QuoteMode::Plain,
        !st.in_word,
        st.cur.len() == 0,
        w.len() > 0,
        forall|i: int| 0 <= i < w.len() ==> is_plain(#[trigger] w[i]),
    ensures
        scan_from(st, w + seq![' ']) == (WordScan {
            words: st.words.push(w),
            cur: Seq::empty(),
            in_word: false,
            mode: QuoteMode::Plain,
        }),
{
    lemma_scan_plain(st, w);
    lemma_scan_concat(st, w, seq![' ']);
    let mid = WordScan { cur: st.cur + w, in_word: true, ..st };
    lemma_scan_one(mid, ' ');
}

/// The remote command of the exec terminal reads back as `docker exec -it`,
/// exactly the container target, and `bash`.
pub proof fn lemma_exec_command_reads_back(target: Seq<char>)
    ensures
        shell_words(exec_remote_command_of(target)) == Some(
            seq!["docker"@, "exec"@, "-it"@, target, "bash"@],
        ),
{
    reveal_strlit("docker exec -it ");
    reveal_strlit(" bash");
    reveal_strlit("docker");
    reveal_strlit("exec");
    reveal_strlit("-it");
    reveal_strlit("bash");
    let docker = seq!['d', 'o', 'c', 'k', 'e', 'r'];
    let exec = seq!['e', 'x', 'e', 'c'];
    let it = seq!['-', 'i', 't'];
    let bash = seq!['b', 'a', 's', 'h'];
    let sp = seq![' '];
    assert("docker"@ =~= docker);
    assert("exec"@ =~= exec);
    assert("-it"@ =~= it);
    assert("bash"@ =~= bash);
    let s0 = scan_start();
    lemma_scan_word_then_blank(s0, docker);
    let s1 = scan_from(s0, docker + sp);
    lemma_scan_word_then_blank(s1, exec);
    let s2 = scan_from(s1, exec + sp);
    lemma_scan_word_then_blank(s2, it);
    let s3 = scan_from(s2, it + sp);
    lemma_scan_concat(s0, docker + sp, exec + sp);
    lemma_scan_concat(s0, (docker + sp) + (exec + sp), it + sp);
    let a = (docker + sp) + (exec + sp) + (it + sp);
    lemma_scan_single_quoted(s3.words, target);
    lemma_scan_concat(s0, a, single_quoted(target));
    let s4 = WordScan { words: s3.words, cur: target, in_word: true, mode: QuoteMode::Plain };
    lemma_scan_concat(s0, a + single_quoted(target), sp + bash);
    lemma_scan_concat(s4, sp, bash);
    lemma_scan_one(s4, ' ');
    let s5 = WordScan { words: s3.words.push(target), cur: Seq::empty(), in_word: false, mode: QuoteMode::Plain };
    lemma_scan_plain(s5, bash);
    assert(exec_remote_command_of(target) == a + single_quoted(target) + (sp + bash));
}

proof fn lemma_kept_rows_nonblank(pieces: Seq<Seq<char>>)
    ensures
        forall|i: int| 0 <= i < kept_rows(pieces).len() ==> !blank(#[trigger] kept_rows(pieces)[i]),
    decreases pieces.len(),
{
    if pieces.len() > 0 {
        lemma_kept_rows_nonblank(pieces.drop_last());
        let prev = kept_rows(pieces.drop_last());
        let k = kept_rows(pieces);
        if !blank(pieces.last()) {
            lemma_trim_keeps_nonblank(pieces.last());
            assert(k == prev.push(trim(pieces.last())));
            assert forall|i: int| 0 <= i < k.len() implies !blank(#[trigger] k[i]) by {
                if i < prev.len() {
                    assert(k[i] == prev[i]);
                }
            }
        }
    }
}

/// Restarting all running containers restarts exactly the ids that `docker ps -q`
/// printed: the non-blank lines, trimmed, each as one single-quoted word that the
/// remote shell reads back as that id.
pub proof fn lemma_restart_all_targets_listed_ids(connection: DraftView, listing: Seq<char>)
    requires
        output_rows(listing).len() > 0,
    ensures
        lifecycle_plan(Some(connection), restart_prefix(), restart_label(), output_rows(listing)) == Ok::<
            RemoteCommandView,
            Seq<char>,
        >(RemoteCommandView {
            connection,
            command: restart_prefix() + quoted_args(output_rows(listing)),
            label: restart_label(),
        }),
        shell_words(quoted_args(output_rows(listing))) == Some(output_rows(listing)),
{
    let rows = output_rows(listing);
    lemma_kept_rows_nonblank(crate::ssh_docker::split_lines(listing));
    assert(!has_blank(rows));
    assert(quoted_args_result(rows) == Ok::<Seq<char>, Seq<char>>(quoted_args(rows)));
    lemma_quoted_args_read_back(rows);
}

} // verus!
