//! Results of shell commands, the shared buffer of streamed output lines,
//! and the rules by which output is merged into the on-screen log.

use vstd::prelude::*;
use crate::text::{
    trim, lines, join, strings_view, chars_of, chars_of_string, trim_exec, lines_of, join_str,
    extend, extend_str, push_char, to_string, lemma_deep_view_chars, push_piece,
};

verus! {

/// Outcome of a command: whether it succeeded and what it printed.
#[derive(Debug, Clone)]
pub struct CmdResult {
    pub success: bool,
    pub output: String,
}

/// What a command printed, from its standard output and standard error:
/// nothing when both are blank, the one that is not blank, or both,
/// standard output first, on separate lines.
pub open spec fn merged(stdout: Seq<char>, stderr: Seq<char>) -> Seq<char> {
    let out_blank = trim(stdout).len() == 0;
    let err_blank = trim(stderr).len() == 0;
    if out_blank && err_blank {
        seq![]
    } else if !out_blank && err_blank {
        stdout
    } else if out_blank && !err_blank {
        stderr
    } else {
        stdout + seq!['\n'] + stderr
    }
}

/// Merges the two output streams of a finished command.
pub fn merge(stdout: String, stderr: String) -> (r: String)
    ensures
        r@ == merged(stdout@, stderr@),
{
    let o = chars_of_string(&stdout);
    let e = chars_of_string(&stderr);
    let out_blank = trim_exec(o.as_slice()).len() == 0;
    let err_blank = trim_exec(e.as_slice()).len() == 0;
    if out_blank && err_blank {
        String::new()
    } else if !out_blank && err_blank {
        stdout
    } else if out_blank && !err_blank {
        stderr
    } else {
        let mut v = o;
        v.push('\n');
        extend(&mut v, e.as_slice());
        to_string(v.as_slice())
    }
}

/// The result of a command that ran to its end, from its exit status and
/// its two output streams.
pub fn command_result(success: bool, stdout: String, stderr: String) -> (r: CmdResult)
    ensures
        r.success == success,
        r.output@ == merged(stdout@, stderr@),
{
    CmdResult { success, output: merge(stdout, stderr) }
}

/// The log after keeping only its last `max` lines: unchanged when it has
/// no more lines than that, otherwise those lines, each ended by a newline.
pub open spec fn trimmed_log(log: Seq<char>, max: nat) -> Seq<char> {
    let ls = lines(log);
    if ls.len() > max {
        join(ls.skip(ls.len() - max), seq!['\n']) + seq!['\n']
    } else {
        log
    }
}

/// Keeps only the last `max` lines of the log.
pub fn trim_log(out: &mut String, max: usize)
    ensures
        final(out)@ == trimmed_log(old(out)@, max as nat),
{
    let ls = lines_of(out.as_str());
    assert(ls.deep_view().len() == ls@.len());
    if ls.len() > max {
        let start = ls.len() - max;
        let mut tail: Vec<Vec<char>> = Vec::new();
        let mut i: usize = start;
        let ghost lv = ls.deep_view();
        assert(tail.deep_view() =~= lv.subrange(start as int, start as int));
        while i < ls.len()
            invariant
                start <= i <= ls.len(),
                lv == ls.deep_view(),
                tail.deep_view() == lv.subrange(start as int, i as int),
            decreases ls.len() - i,
        {
            proof { lemma_deep_view_chars(&ls[i as int]); }
            let l = ls[i].clone();
            assert(l@ == lv[i as int]);
            push_piece(&mut tail, l);
            assert(lv.subrange(start as int, i + 1) =~= lv.subrange(start as int, i as int).push(lv[i as int]));
            i += 1;
        }
        assert(lv.subrange(start as int, ls.len() as int) =~= lv.skip(start as int));
        proof { reveal_strlit("\n"); }
        assert("\n"@ =~= seq!['\n']);
        let mut j = join_str(&tail, "\n");
        assert(j@ == join(lv.skip(start as int), seq!['\n']));
        j.push('\n');
        assert(j@ == join(lines(old(out)@).skip(lines(old(out)@).len() - max), seq!['\n']) + seq!['\n']);
        *out = to_string(j.as_slice());
    }
}

/// The line appended to the log for a command's result: `[OK]` or `[ERR]`,
/// a space, the trimmed output and a newline.
pub open spec fn log_entry(r: CmdResult) -> Seq<char> {
    (if r.success { "[OK]"@ } else { "[ERR]"@ }) + seq![' '] + trim(r.output@) + seq!['\n']
}

/// Appends a command's result to the log, which then keeps its last 300 lines.
pub fn push_log(out: &mut String, r: CmdResult)
    ensures
        final(out)@ == trimmed_log(old(out)@ + log_entry(r), 300),
{
    let mut v = chars_of_string(out);
    if r.success {
        extend_str(&mut v, "[OK]");
    } else {
        extend_str(&mut v, "[ERR]");
    }
    v.push(' ');
    let o = chars_of_string(&r.output);
    let t = trim_exec(o.as_slice());
    extend(&mut v, t.as_slice());
    v.push('\n');
    let mut s = to_string(v.as_slice());
    assert(s@ =~= old(out)@ + log_entry(r));
    trim_log(&mut s, 300);
    *out = s;
}

/// Appends streamed lines to the log, each followed by a newline; when there
/// were any, the log then keeps its last 400 lines.
pub open spec fn with_stream(log: Seq<char>, ls: Seq<Seq<char>>) -> Seq<char> {
    if ls.len() == 0 {
        log
    } else {
        trimmed_log(log + ls.fold_left(seq![], |acc: Seq<char>, l: Seq<char>| acc + l + seq!['\n']), 400)
    }
}

/// Appends the lines drained from the stream buffer to the log.
pub fn append_stream_lines(out: &mut String, ls: &Vec<String>)
    ensures
        final(out)@ == with_stream(old(out)@, strings_view(ls@)),
{
    if ls.len() == 0 {
        return;
    }
    let ghost sv = strings_view(ls@);
    let ghost f = |acc: Seq<char>, l: Seq<char>| acc + l + seq!['\n'];
    let mut v = chars_of_string(out);
    let mut i: usize = 0;
    assert(sv.take(0).fold_left(seq![], f) =~= seq![]);
    assert(v@ =~= old(out)@ + sv.take(0).fold_left(seq![], f));
    while i < ls.len()
        invariant
            i <= ls.len(),
            sv == strings_view(ls@),
            f == (|acc: Seq<char>, l: Seq<char>| acc + l + seq!['\n']),
            v@ == old(out)@ + sv.take(i as int).fold_left(seq![], f),
        decreases ls.len() - i,
    {
        let c = chars_of_string(&ls[i]);
        extend(&mut v, c.as_slice());
        v.push('\n');
        assert(sv.take(i + 1).drop_last() =~= sv.take(i as int));
        assert(sv.take(i + 1).last() == ls@[i as int]@);
        i += 1;
        assert(v@ =~= old(out)@ + sv.take(i as int).fold_left(seq![], f));
    }
    assert(sv.take(ls.len() as int) =~= sv);
    let mut s = to_string(v.as_slice());
    trim_log(&mut s, 400);
    *out = s;
}

/// Lines printed by a running command that have not been shown yet, in the
/// order in which they were printed.
pub struct StreamBuf {
    pub lines: Vec<String>,
}

impl View for StreamBuf {
    type V = Seq<Seq<char>>;

    open spec fn view(&self) -> Seq<Seq<char>> {
        strings_view(self.lines@)
    }
}

impl StreamBuf {
    /// An empty buffer.
    pub fn new() -> (b: StreamBuf)
        ensures
            b@ == Seq::<Seq<char>>::empty(),
    {
        let b = StreamBuf { lines: Vec::new() };
        assert(b@ =~= Seq::<Seq<char>>::empty());
        b
    }
}

/// Adds a line at the end of the buffer.
pub fn stream_push(buf: &mut StreamBuf, line: String)
    ensures
        final(buf)@ == old(buf)@.push(line@),
{
    let ghost before = buf.lines@;
    buf.lines.push(line);
    assert(strings_view(buf.lines@) =~= strings_view(before).push(line@));
}

/// Takes every line out of the buffer, in order, and leaves it empty.
pub fn stream_drain(buf: &mut StreamBuf) -> (r: Vec<String>)
    ensures
        strings_view(r@) == old(buf)@,
        final(buf)@ == Seq::<Seq<char>>::empty(),
{
    let mut taken: Vec<String> = Vec::new();
    std::mem::swap(&mut taken, &mut buf.lines);
    assert(strings_view(buf.lines@) =~= Seq::<Seq<char>>::empty());
    taken
}

/// A command's log text is empty exactly when both of its streams are
/// blank; a blank stream never hides the other one, and with both present
/// standard output comes first.
pub proof fn law_merge(stdout: Seq<char>, stderr: Seq<char>)
    ensures
        (merged(stdout, stderr).len() == 0) == (trim(stdout).len() == 0 && trim(stderr).len() == 0),
        trim(stdout).len() > 0 && trim(stderr).len() == 0 ==> merged(stdout, stderr) == stdout,
        trim(stdout).len() == 0 && trim(stderr).len() > 0 ==> merged(stdout, stderr) == stderr,
        trim(stdout).len() > 0 && trim(stderr).len() > 0 ==> merged(stdout, stderr).take(stdout.len() as int) == stdout,
{
    crate::text::lemma_trim_len(stdout);
    crate::text::lemma_trim_len(stderr);
    if trim(stdout).len() > 0 && trim(stderr).len() > 0 {
        assert((stdout + seq!['\n'] + stderr).take(stdout.len() as int) =~= stdout);
    }
}

/// A piece of text without a line break.
pub open spec fn no_newline(l: Seq<char>) -> bool {
    forall|j: int| 0 <= j < l.len() ==> l[j] != '\n'
}

pub proof fn lemma_lines_have_no_newline(s: Seq<char>)
    ensures
        forall|k: int| 0 <= k < lines(s).len() ==> no_newline(#[trigger] lines(s)[k]),
    decreases s.len(),
{
    if s.len() > 0 {
        crate::text::lemma_find_char(s, '\n');
        match crate::text::find_char(s, '\n') {
            Some(i) => {
                lemma_lines_have_no_newline(s.skip(i + 1));
                let head = crate::text::strip_cr(s.take(i));
                assert(no_newline(head));
                assert forall|k: int| 0 <= k < lines(s).len() implies no_newline(#[trigger] lines(s)[k]) by {
                    if k > 0 {
                        assert(lines(s)[k] == lines(s.skip(i + 1))[k - 1]);
                    }
                }
            },
            None => {
                assert(lines(s) == seq![s]);
            },
        }
    }
}

/// Lines split at a line break add up: the lines of text that ends a line,
/// followed by more text, are its lines followed by those of the rest.
pub proof fn lemma_lines_append(a: Seq<char>, b: Seq<char>)
    requires
        a.len() == 0 || a.last() == '\n',
    ensures
        lines(a + b) == lines(a) + lines(b),
    decreases a.len(),
{
    if a.len() == 0 {
        assert(a + b =~= b);
        assert(lines(a) =~= Seq::<Seq<char>>::empty());
        assert(lines(b) =~= Seq::<Seq<char>>::empty() + lines(b));
    } else {
        crate::text::lemma_find_char(a, '\n');
        let i = crate::text::find_char(a, '\n')->0;
        let ab = a + b;
        assert(ab[i] == '\n');
        assert forall|j: int| 0 <= j < i implies ab[j] != '\n' by {
            assert(ab[j] == a[j]);
        }
        crate::text::lemma_find_char_first(ab, '\n', i);
        assert(ab.take(i) =~= a.take(i));
        assert(ab.skip(i + 1) =~= a.skip(i + 1) + b);
        let rest = a.skip(i + 1);
        assert(rest.len() == 0 || rest.last() == '\n');
        lemma_lines_append(rest, b);
        assert(lines(ab) =~= lines(a) + lines(b));
    }
}

pub proof fn lemma_lines_of_line(l: Seq<char>)
    requires
        no_newline(l),
    ensures
        lines(l + seq!['\n']) == seq![crate::text::strip_cr(l)],
{
    let t = l + seq!['\n'];
    crate::text::lemma_find_char_first(t, '\n', l.len() as int);
    assert(t.take(l.len() as int) =~= l);
    let rest = t.skip(l.len() as int + 1);
    assert(rest =~= Seq::<char>::empty());
    assert(lines(rest) =~= Seq::<Seq<char>>::empty());
    assert(lines(t) =~= seq![crate::text::strip_cr(l)]);
}

/// Joining lines with line breaks and ending the last gives back as many lines.
pub proof fn lemma_joined_line_count(ls: Seq<Seq<char>>)
    requires
        ls.len() > 0,
        forall|k: int| 0 <= k < ls.len() ==> no_newline(#[trigger] ls[k]),
    ensures
        lines(join(ls, seq!['\n']) + seq!['\n']).len() == ls.len(),
    decreases ls.len(),
{
    if ls.len() == 1 {
        assert(join(ls, seq!['\n']) == ls[0]);
        lemma_lines_of_line(ls[0]);
    } else {
        let init = ls.drop_last();
        assert forall|k: int| 0 <= k < init.len() implies no_newline(#[trigger] init[k]) by {
            assert(init[k] == ls[k]);
        }
        lemma_joined_line_count(init);
        let a = join(init, seq!['\n']) + seq!['\n'];
        let b = ls.last() + seq!['\n'];
        assert(join(ls, seq!['\n']) + seq!['\n'] =~= a + b);
        lemma_lines_append(a, b);
        lemma_lines_of_line(ls.last());
    }
}

/// The log keeps at most its last `max` lines: trimming leaves as many lines
/// as there were, or `max` when there were more.
pub proof fn law_trim_log_line_count(log: Seq<char>, max: nat)
    requires
        max >= 1,
    ensures
        lines(trimmed_log(log, max)).len()
            == (if lines(log).len() > max { max } else { lines(log).len() }),
{
    let ls = lines(log);
    if ls.len() > max {
        lemma_lines_have_no_newline(log);
        let tail = ls.skip(ls.len() - max);
        assert forall|k: int| 0 <= k < tail.len() implies no_newline(#[trigger] tail[k]) by {
            assert(tail[k] == ls[ls.len() - max + k]);
        }
        lemma_joined_line_count(tail);
    }
}

} // verus!
