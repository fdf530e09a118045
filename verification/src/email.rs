//! The email reader's data: parsing one mail record out of plain text, the
//! mailbox holding the parsed mails sorted by date, and the selection the
//! reader moves through them.
//!
//! A record is five header lines — `from:`, `to:`, `cc:`, `date:`,
//! `subject:`, in exactly that order — followed by the body. Each body
//! line runs through a small inline-markup scanner: `*`, `_` and `~`
//! toggle bold, italic and an accent color, a backslash makes the next
//! character literal, and the style state starts fresh on every line.

use vstd::prelude::*;
use vstd::string::StrSliceExecFns;
use crate::input::{KeyCode, KeyEvent};
use crate::text::{chars_le, lemma_lex_le_total, lemma_lex_le_trans, lex_le};

verus! {

/// The styling of one run of text, an opaque tag to the logic; the
/// terminal front end decides what the flags look like.
#[derive(Debug, Clone, Copy, PartialEq, Eq, Structural)]
pub struct TextStyle {
    pub bold: bool,
    pub italic: bool,
    pub colored: bool,
}

/// The style every body line starts in.
pub open spec fn plain_style() -> TextStyle {
    TextStyle { bold: false, italic: false, colored: false }
}

/// A maximal stretch of characters drawn in one style.
#[derive(Debug, Clone, PartialEq, Eq)]
pub struct Run {
    pub text: Vec<char>,
    pub style: TextStyle,
}

/// The mathematical value of a run.
pub ghost struct RunV {
    pub text: Seq<char>,
    pub style: TextStyle,
}

impl View for Run {
    type V = RunV;

    open spec fn view(&self) -> RunV {
        RunV { text: self.text@, style: self.style }
    }
}

/// The three markup delimiters.
pub open spec fn is_delim(c: char) -> bool {
    c == '*' || c == '_' || c == '~'
}

/// The style after the delimiter `c` toggles its flag.
pub open spec fn toggle_style(style: TextStyle, c: char) -> TextStyle {
    if c == '*' {
        TextStyle { bold: !style.bold, ..style }
    } else if c == '_' {
        TextStyle { italic: !style.italic, ..style }
    } else {
        TextStyle { colored: !style.colored, ..style }
    }
}

/// `runs` with `c` stuck onto the front of its first run.
pub open spec fn prepend_run_char(c: char, runs: Seq<RunV>) -> Seq<RunV>
    recommends
        runs.len() > 0,
{
    runs.update(0, RunV { text: seq![c] + runs[0].text, style: runs[0].style })
}

/// `runs` with `t` stuck onto the front of its first run.
pub open spec fn prepend_run_text(t: Seq<char>, runs: Seq<RunV>) -> Seq<RunV>
    recommends
        runs.len() > 0,
{
    runs.update(0, RunV { text: t + runs[0].text, style: runs[0].style })
}

/// The runs the markup scanner produces for the rest of a line, entered
/// with the style `style`, escaping the next character when `esc` holds.
/// A delimiter closes the current run — possibly empty — and toggles the
/// style; the run being built when the line ends is closed too.
pub open spec fn spec_scan(s: Seq<char>, style: TextStyle, esc: bool) -> Seq<RunV>
    decreases s.len(),
{
    if s.len() == 0 {
        seq![RunV { text: Seq::empty(), style }]
    } else if esc {
        prepend_run_char(s[0], spec_scan(s.skip(1), style, false))
    } else if s[0] == '\\' {
        spec_scan(s.skip(1), style, true)
    } else if is_delim(s[0]) {
        seq![RunV { text: Seq::empty(), style }] + spec_scan(s.skip(1), toggle_style(style, s[0]), false)
    } else {
        prepend_run_char(s[0], spec_scan(s.skip(1), style, false))
    }
}

/// The scanner always yields at least one run.
pub proof fn lemma_scan_nonempty(s: Seq<char>, style: TextStyle, esc: bool)
    ensures
        spec_scan(s, style, esc).len() > 0,
    decreases s.len(),
{
    if s.len() > 0 {
        if esc {
            lemma_scan_nonempty(s.skip(1), style, false);
        } else if s[0] == '\\' {
            lemma_scan_nonempty(s.skip(1), style, true);
        } else if is_delim(s[0]) {
        } else {
            lemma_scan_nonempty(s.skip(1), style, false);
        }
    }
}

proof fn lemma_prepend_empty_text(runs: Seq<RunV>)
    requires
        runs.len() > 0,
    ensures
        prepend_run_text(Seq::empty(), runs) == runs,
{
    assert(Seq::empty() + runs[0].text =~= runs[0].text);
    assert(prepend_run_text(Seq::empty(), runs) =~= runs);
}

proof fn lemma_prepend_text_char(t: Seq<char>, c: char, runs: Seq<RunV>)
    requires
        runs.len() > 0,
    ensures
        prepend_run_text(t, prepend_run_char(c, runs)) == prepend_run_text(t.push(c), runs),
{
    assert(t + (seq![c] + runs[0].text) =~= t.push(c) + runs[0].text);
    assert(prepend_run_text(t, prepend_run_char(c, runs)) =~= prepend_run_text(t.push(c), runs));
}

proof fn lemma_prepend_text_front(t: Seq<char>, first: RunV, rest: Seq<RunV>)
    ensures
        prepend_run_text(t, seq![first] + rest) == seq![
            RunV { text: t + first.text, style: first.style },
        ] + rest,
{
    assert(prepend_run_text(t, seq![first] + rest) =~= seq![
        RunV { text: t + first.text, style: first.style },
    ] + rest);
}

/// Scan one body line, starting from the plain style.
pub fn scan_line(line: &Vec<char>) -> (runs: Vec<Run>)
    ensures
        runs@.map_values(|r: Run| r@) == spec_scan(line@, plain_style(), false),
{
    let ghost whole = spec_scan(line@, plain_style(), false);
    let mut runs: Vec<Run> = Vec::new();
    let mut cur: Vec<char> = Vec::new();
    let mut style = TextStyle { bold: false, italic: false, colored: false };
    let mut esc = false;
    let mut i: usize = 0;
    proof {
        lemma_scan_nonempty(line@, plain_style(), false);
        lemma_prepend_empty_text(whole);
        assert(runs@.map_values(|r: Run| r@) =~= Seq::<RunV>::empty());
        assert(line@.skip(0) =~= line@);
        assert(Seq::<RunV>::empty() + whole =~= whole);
    }
    while i < line.len()
        invariant
            i <= line@.len(),
            whole == spec_scan(line@, plain_style(), false),
            whole == runs@.map_values(|r: Run| r@) + prepend_run_text(
                cur@,
                spec_scan(line@.skip(i as int), style, esc),
            ),
        decreases line@.len() - i,
    {
        let c = line[i];
        proof {
            lemma_scan_nonempty(line@.skip(i as int), style, esc);
            lemma_scan_nonempty(line@.skip(i + 1), style, esc);
            assert(line@.skip(i as int)[0] == c);
            assert(line@.skip(i as int).skip(1) =~= line@.skip(i + 1));
        }
        if esc {
            proof {
                lemma_scan_nonempty(line@.skip(i + 1), style, false);
                lemma_prepend_text_char(cur@, c, spec_scan(line@.skip(i + 1), style, false));
            }
            cur.push(c);
            esc = false;
        } else if c == '\\' {
            esc = true;
        } else if c == '*' || c == '_' || c == '~' {
            proof {
                lemma_scan_nonempty(line@.skip(i + 1), toggle_style(style, c), false);
                lemma_prepend_text_front(
                    cur@,
                    RunV { text: Seq::empty(), style },
                    spec_scan(line@.skip(i + 1), toggle_style(style, c), false),
                );
            }
            let finished = Run { text: cur, style };
            proof {
                assert((runs@ + seq![finished]).map_values(|r: Run| r@) =~= runs@.map_values(
                    |r: Run| r@,
                ) + seq![finished@]);
                assert(cur@ + Seq::<char>::empty() =~= cur@);
            }
            runs.push(finished);
            cur = Vec::new();
            style = toggle_style_exec(style, c);
        } else {
            proof {
                lemma_scan_nonempty(line@.skip(i + 1), style, false);
                lemma_prepend_text_char(cur@, c, spec_scan(line@.skip(i + 1), style, false));
            }
            cur.push(c);
        }
        i = i + 1;
    }
    proof {
        assert(line@.skip(i as int) =~= Seq::<char>::empty());
        assert(cur@ + Seq::<char>::empty() =~= cur@);
    }
    let last = Run { text: cur, style };
    proof {
        assert((runs@ + seq![last]).map_values(|r: Run| r@) =~= runs@.map_values(|r: Run| r@)
            + seq![last@]);
        assert(runs@.map_values(|r: Run| r@) + seq![last@] =~= whole);
    }
    runs.push(last);
    runs
}

/// The style after the delimiter `c` toggles its flag.
fn toggle_style_exec(style: TextStyle, c: char) -> (r: TextStyle)
    ensures
        r == toggle_style(style, c),
{
    if c == '*' {
        TextStyle { bold: !style.bold, ..style }
    } else if c == '_' {
        TextStyle { italic: !style.italic, ..style }
    } else {
        TextStyle { colored: !style.colored, ..style }
    }
}

/// The plain text of a row of runs, styles forgotten.
pub open spec fn runs_text(runs: Seq<RunV>) -> Seq<char>
    decreases runs.len(),
{
    if runs.len() == 0 {
        Seq::empty()
    } else {
        runs[0].text + runs_text(runs.skip(1))
    }
}

/// A body line with its markup removed: unescaped delimiters and the
/// escaping backslashes vanish, escaped characters stay literally; entered
/// with `esc` raised, the first character stays whatever it is.
pub open spec fn strip_markup_from(s: Seq<char>, esc: bool) -> Seq<char>
    decreases s.len(),
{
    if s.len() == 0 {
        Seq::empty()
    } else if esc {
        seq![s[0]] + strip_markup_from(s.skip(1), false)
    } else if s[0] == '\\' {
        strip_markup_from(s.skip(1), true)
    } else if is_delim(s[0]) {
        strip_markup_from(s.skip(1), false)
    } else {
        seq![s[0]] + strip_markup_from(s.skip(1), false)
    }
}

pub open spec fn strip_markup(s: Seq<char>) -> Seq<char> {
    strip_markup_from(s, false)
}

proof fn lemma_runs_text_prepend(c: char, runs: Seq<RunV>)
    requires
        runs.len() > 0,
    ensures
        runs_text(prepend_run_char(c, runs)) == seq![c] + runs_text(runs),
{
    let p = prepend_run_char(c, runs);
    assert(p.skip(1) =~= runs.skip(1));
    assert(runs_text(p) == p[0].text + runs_text(p.skip(1)));
    assert((seq![c] + runs[0].text) + runs_text(runs.skip(1)) =~= seq![c] + (runs[0].text
        + runs_text(runs.skip(1))));
}

proof fn lemma_runs_text_front(first: RunV, rest: Seq<RunV>)
    ensures
        runs_text(seq![first] + rest) == first.text + runs_text(rest),
{
    let w = seq![first] + rest;
    assert(w[0] == first);
    assert(w.skip(1) =~= rest);
}

/// Round trip of the markup scanner: the texts of the scanned runs,
/// concatenated in order, are exactly the line with its markup stripped —
/// delimiters removed, escaped characters kept literally.
pub proof fn lemma_scan_strips_markup(s: Seq<char>, style: TextStyle, esc: bool)
    ensures
        runs_text(spec_scan(s, style, esc)) == strip_markup_from(s, esc),
    decreases s.len(),
{
    if s.len() == 0 {
        let w = spec_scan(s, style, esc);
        assert(w.skip(1) =~= Seq::<RunV>::empty());
        assert(runs_text(w.skip(1)) == Seq::<char>::empty());
        assert(runs_text(w) == w[0].text + runs_text(w.skip(1)));
        assert(Seq::<char>::empty() + Seq::<char>::empty() =~= Seq::<char>::empty());
        assert(runs_text(w) =~= strip_markup_from(s, esc));
    } else if esc {
        lemma_scan_strips_markup(s.skip(1), style, false);
        lemma_scan_nonempty(s.skip(1), style, false);
        lemma_runs_text_prepend(s[0], spec_scan(s.skip(1), style, false));
    } else if s[0] == '\\' {
        lemma_scan_strips_markup(s.skip(1), style, true);
    } else if is_delim(s[0]) {
        lemma_scan_strips_markup(s.skip(1), toggle_style(style, s[0]), false);
        lemma_runs_text_front(
            RunV { text: Seq::empty(), style },
            spec_scan(s.skip(1), toggle_style(style, s[0]), false),
        );
        assert(Seq::<char>::empty() + strip_markup_from(s.skip(1), false) =~= strip_markup_from(
            s.skip(1),
            false,
        ));
    } else {
        lemma_scan_strips_markup(s.skip(1), style, false);
        lemma_scan_nonempty(s.skip(1), style, false);
        lemma_runs_text_prepend(s[0], spec_scan(s.skip(1), style, false));
    }
}

/// The line split a record's text goes through before parsing: lines end
/// at `\n` or `\r\n`, the terminator is not part of the line, and a final
/// terminator does not open an empty last line.
pub open spec fn spec_lines(s: Seq<char>) -> Seq<Seq<char>>
    decreases s.len(),
{
    if s.len() == 0 {
        Seq::empty()
    } else if s[0] == '\n' {
        seq![Seq::<char>::empty()] + spec_lines(s.skip(1))
    } else if s[0] == '\r' && s.len() >= 2 && s[1] == '\n' {
        seq![Seq::<char>::empty()] + spec_lines(s.skip(2))
    } else {
        let rest = spec_lines(s.skip(1));
        if rest.len() == 0 {
            seq![seq![s[0]]]
        } else {
            seq![seq![s[0]] + rest[0]] + rest.skip(1)
        }
    }
}

/// `t` stuck onto the front of the first line, opening that line when
/// there is none and `t` is not empty.
pub open spec fn prepend_line(t: Seq<char>, lines: Seq<Seq<char>>) -> Seq<Seq<char>> {
    if lines.len() == 0 {
        if t.len() == 0 {
            Seq::empty()
        } else {
            seq![t]
        }
    } else {
        seq![t + lines[0]] + lines.skip(1)
    }
}

proof fn lemma_prepend_line_char(t: Seq<char>, c: char, lines: Seq<Seq<char>>)
    ensures
        prepend_line(t, prepend_line(seq![c], lines)) == prepend_line(t.push(c), lines),
{
    if lines.len() == 0 {
        assert(t + seq![c] =~= t.push(c));
        assert(prepend_line(t, prepend_line(seq![c], lines)) =~= prepend_line(t.push(c), lines));
    } else {
        assert((seq![seq![c] + lines[0]] + lines.skip(1)).skip(1) =~= lines.skip(1));
        assert(t + (seq![c] + lines[0]) =~= t.push(c) + lines[0]);
        assert(prepend_line(t, prepend_line(seq![c], lines)) =~= prepend_line(t.push(c), lines));
    }
}

proof fn lemma_prepend_line_close(t: Seq<char>, lines: Seq<Seq<char>>)
    ensures
        prepend_line(t, seq![Seq::<char>::empty()] + lines) == seq![t] + lines,
{
    assert((seq![Seq::<char>::empty()] + lines).skip(1) =~= lines);
    assert(t + Seq::<char>::empty() =~= t);
    assert(prepend_line(t, seq![Seq::<char>::empty()] + lines) =~= seq![t] + lines);
}

proof fn lemma_lines_char(u: Seq<char>)
    requires
        u.len() > 0,
        u[0] != '\n',
        !(u[0] == '\r' && u.len() >= 2 && u[1] == '\n'),
    ensures
        spec_lines(u) == prepend_line(seq![u[0]], spec_lines(u.skip(1))),
{
    let rest = spec_lines(u.skip(1));
    if rest.len() == 0 {
        assert(spec_lines(u) =~= prepend_line(seq![u[0]], rest));
    } else {
        assert(spec_lines(u) =~= prepend_line(seq![u[0]], rest));
    }
}

/// Split a record's text into its lines.
pub fn split_lines(text: &Vec<char>) -> (lines: Vec<Vec<char>>)
    ensures
        lines@.map_values(|l: Vec<char>| l@) == spec_lines(text@),
{
    let ghost whole = spec_lines(text@);
    let mut lines: Vec<Vec<char>> = Vec::new();
    let mut cur: Vec<char> = Vec::new();
    let mut i: usize = 0;
    proof {
        assert(lines@.map_values(|l: Vec<char>| l@) =~= Seq::<Seq<char>>::empty());
        assert(text@.skip(0) =~= text@);
        assert(Seq::<Seq<char>>::empty() + prepend_line(cur@, whole) =~= prepend_line(
            cur@,
            whole,
        ));
    }
    while i < text.len()
        invariant
            i <= text@.len(),
            whole == spec_lines(text@),
            whole == lines@.map_values(|l: Vec<char>| l@) + prepend_line(
                cur@,
                spec_lines(text@.skip(i as int)),
            ),
        decreases text@.len() - i,
    {
        let c = text[i];
        proof {
            assert(text@.skip(i as int)[0] == c);
            assert(text@.skip(i as int).skip(1) =~= text@.skip(i + 1));
        }
        if c == '\n' {
            proof {
                lemma_prepend_line_close(cur@, spec_lines(text@.skip(i + 1)));
            }
            let finished = cur;
            proof {
                assert((lines@ + seq![finished]).map_values(|l: Vec<char>| l@) =~= lines@.map_values(
                    |l: Vec<char>| l@,
                ) + seq![finished@]);
                assert(lines@.map_values(|l: Vec<char>| l@) + (seq![finished@] + spec_lines(
                    text@.skip(i + 1),
                )) =~= (lines@.map_values(|l: Vec<char>| l@) + seq![finished@]) + spec_lines(
                    text@.skip(i + 1),
                ));
                lemma_prepend_empty_line(spec_lines(text@.skip(i + 1)));
            }
            lines.push(finished);
            cur = Vec::new();
            i = i + 1;
        } else if c == '\r' && i + 1 < text.len() && text[i + 1] == '\n' {
            proof {
                assert(text@.skip(i as int)[1] == text@[i + 1]);
                assert(text@.skip(i as int).skip(2) =~= text@.skip(i + 2));
                lemma_prepend_line_close(cur@, spec_lines(text@.skip(i + 2)));
                lemma_prepend_empty_line(spec_lines(text@.skip(i + 2)));
            }
            let finished = cur;
            proof {
                assert((lines@ + seq![finished]).map_values(|l: Vec<char>| l@) =~= lines@.map_values(
                    |l: Vec<char>| l@,
                ) + seq![finished@]);
                assert(lines@.map_values(|l: Vec<char>| l@) + (seq![finished@] + spec_lines(
                    text@.skip(i + 2),
                )) =~= (lines@.map_values(|l: Vec<char>| l@) + seq![finished@]) + spec_lines(
                    text@.skip(i + 2),
                ));
            }
            lines.push(finished);
            cur = Vec::new();
            i = i + 2;
        } else {
            proof {
                lemma_lines_char(text@.skip(i as int));
                lemma_prepend_line_char(cur@, c, spec_lines(text@.skip(i + 1)));
            }
            cur.push(c);
            i = i + 1;
        }
    }
    proof {
        assert(text@.skip(i as int) =~= Seq::<char>::empty());
    }
    if cur.len() > 0 {
        let last = cur;
        proof {
            assert((lines@ + seq![last]).map_values(|l: Vec<char>| l@) =~= lines@.map_values(
                |l: Vec<char>| l@,
            ) + seq![last@]);
            assert(lines@.map_values(|l: Vec<char>| l@) + seq![last@] =~= whole);
        }
        lines.push(last);
    } else {
        proof {
            assert(lines@.map_values(|l: Vec<char>| l@) + Seq::<Seq<char>>::empty() =~= lines@.map_values(
                |l: Vec<char>| l@,
            ));
        }
    }
    lines
}

proof fn lemma_prepend_empty_line(lines: Seq<Seq<char>>)
    ensures
        prepend_line(Seq::<char>::empty(), lines) == lines,
{
    if lines.len() == 0 {
    } else {
        assert(Seq::<char>::empty() + lines[0] =~= lines[0]);
        assert(prepend_line(Seq::<char>::empty(), lines) =~= lines);
    }
}

/// The blanks the header values are trimmed of.
pub open spec fn is_blank(c: char) -> bool {
    c == ' ' || c == '\t'
}

pub open spec fn trim_start(s: Seq<char>) -> Seq<char>
    decreases s.len(),
{
    if s.len() > 0 && is_blank(s[0]) {
        trim_start(s.skip(1))
    } else {
        s
    }
}

pub open spec fn trim_end(s: Seq<char>) -> Seq<char>
    decreases s.len(),
{
    if s.len() > 0 && is_blank(s.last()) {
        trim_end(s.drop_last())
    } else {
        s
    }
}

/// `s` without its leading and trailing blanks.
pub open spec fn spec_trim(s: Seq<char>) -> Seq<char> {
    trim_end(trim_start(s))
}

proof fn lemma_trim_start_is(s: Seq<char>, lo: int)
    requires
        0 <= lo <= s.len(),
        forall|m: int| 0 <= m < lo ==> is_blank(#[trigger] s[m]),
        lo == s.len() || !is_blank(s[lo]),
    ensures
        trim_start(s) == s.skip(lo),
    decreases lo,
{
    if lo == 0 {
        assert(s.skip(0) =~= s);
    } else {
        assert(s.skip(1).skip(lo - 1) =~= s.skip(lo));
        lemma_trim_start_is(s.skip(1), lo - 1);
    }
}

proof fn lemma_trim_end_is(s: Seq<char>, hi: int)
    requires
        0 <= hi <= s.len(),
        forall|m: int| hi <= m < s.len() ==> is_blank(#[trigger] s[m]),
        hi == 0 || !is_blank(s[hi - 1]),
    ensures
        trim_end(s) == s.take(hi),
    decreases s.len() - hi,
{
    if hi == s.len() {
        assert(s.take(hi) =~= s);
    } else {
        assert(s.drop_last() =~= s.take(s.len() - 1));
        assert(s.take(s.len() - 1).take(hi) =~= s.take(hi));
        lemma_trim_end_is(s.take(s.len() - 1), hi);
    }
}

/// `s` starts with the prefix `p`.
pub open spec fn starts_with(s: Seq<char>, p: Seq<char>) -> bool {
    p.len() <= s.len() && s.take(p.len() as int) == p
}

/// Copy `v[lo..hi]`.
fn copy_range(v: &Vec<char>, lo: usize, hi: usize) -> (r: Vec<char>)
    requires
        lo <= hi <= v@.len(),
    ensures
        r@ == v@.subrange(lo as int, hi as int),
{
    let mut r: Vec<char> = Vec::new();
    let mut i: usize = lo;
    proof {
        assert(r@ =~= v@.subrange(lo as int, lo as int));
    }
    while i < hi
        invariant
            lo <= i <= hi <= v@.len(),
            r@ == v@.subrange(lo as int, i as int),
        decreases hi - i,
    {
        r.push(v[i]);
        proof {
            assert(v@.subrange(lo as int, i as int).push(v@[i as int]) =~= v@.subrange(
                lo as int,
                i + 1,
            ));
        }
        i = i + 1;
    }
    r
}

/// `v` without its leading and trailing blanks.
fn trim_blanks(v: &Vec<char>) -> (r: Vec<char>)
    ensures
        r@ == spec_trim(v@),
{
    let n = v.len();
    let mut lo: usize = 0;
    while lo < n && (v[lo] == ' ' || v[lo] == '\t')
        invariant
            lo <= n,
            n == v@.len(),
            forall|m: int| 0 <= m < lo ==> is_blank(#[trigger] v@[m]),
        decreases n - lo,
    {
        lo = lo + 1;
    }
    proof {
        lemma_trim_start_is(v@, lo as int);
    }
    if lo == n {
        proof {
            assert(v@.skip(lo as int) =~= Seq::<char>::empty());
        }
        return Vec::new();
    }
    let mut hi: usize = n;
    while hi > lo && (v[hi - 1] == ' ' || v[hi - 1] == '\t')
        invariant
            lo <= hi <= n,
            n == v@.len(),
            forall|m: int| hi <= m < n ==> is_blank(#[trigger] v@[m]),
        decreases hi,
    {
        hi = hi - 1;
    }
    // The character at `lo` is no blank, so the scan from the right stops
    // at or after it.
    proof {
        let u = v@.skip(lo as int);
        lemma_trim_end_is(u, hi - lo);
        assert(u.take(hi - lo) =~= v@.subrange(lo as int, hi as int));
    }
    copy_range(v, lo, hi)
}

/// Does `line` start with the label `p`? `p` is given as a literal.
fn line_starts_with(line: &Vec<char>, p: &str) -> (r: bool)
    ensures
        r == starts_with(line@, p@),
{
    let pn = p.unicode_len();
    if pn > line.len() {
        return false;
    }
    let mut i: usize = 0;
    while i < pn
        invariant
            i <= pn,
            pn == p@.len(),
            pn <= line@.len(),
            forall|j: int| 0 <= j < i ==> line@[j] == p@[j],
        decreases pn - i,
    {
        if line[i] != p.get_char(i) {
            proof {
                assert(line@.take(pn as int)[i as int] != p@[i as int]);
            }
            return false;
        }
        i = i + 1;
    }
    proof {
        assert(line@.take(pn as int) =~= p@);
    }
    true
}

/// What a header line yields: `None` when the label is missing, else the
/// text after the label, trimmed of blanks unless `keep_blanks`.
pub open spec fn spec_header_value(line: Seq<char>, p: Seq<char>, keep_blanks: bool) -> Option<
    Seq<char>,
> {
    if !starts_with(line, p) {
        None
    } else if keep_blanks {
        Some(line.skip(p.len() as int))
    } else {
        Some(spec_trim(line.skip(p.len() as int)))
    }
}

/// Extract one header value from `line`.
fn header_value(line: &Vec<char>, p: &str, keep_blanks: bool) -> (r: Option<Vec<char>>)
    ensures
        match r {
            Some(v) => spec_header_value(line@, p@, keep_blanks) == Some(v@),
            None => spec_header_value(line@, p@, keep_blanks) is None,
        },
{
    if !line_starts_with(line, p) {
        return None;
    }
    let pn = p.unicode_len();
    let tail = copy_range(line, pn, line.len());
    proof {
        assert(line@.subrange(pn as int, line@.len() as int) =~= line@.skip(pn as int));
    }
    if keep_blanks {
        Some(tail)
    } else {
        Some(trim_blanks(&tail))
    }
}

/// Why a record failed to parse: the header line that is missing or does
/// not carry its label.
#[derive(Debug, Clone, Copy, PartialEq, Eq, Structural)]
pub enum EmailParseError {
    MissingFrom,
    MissingTo,
    MissingCc,
    MissingDate,
    MissingSubject,
}

/// One parsed mail: the five header values and the body, one row of
/// styled runs per body line.
#[derive(Debug, Clone, PartialEq, Eq)]
pub struct Email {
    pub from: Vec<char>,
    pub to: Vec<char>,
    pub cc: Vec<char>,
    pub date: Vec<char>,
    pub subject: Vec<char>,
    pub body: Vec<Vec<Run>>,
}

/// The mathematical value of a parsed mail.
pub ghost struct EmailV {
    pub from: Seq<char>,
    pub to: Seq<char>,
    pub cc: Seq<char>,
    pub date: Seq<char>,
    pub subject: Seq<char>,
    pub body: Seq<Seq<RunV>>,
}

impl View for Email {
    type V = EmailV;

    open spec fn view(&self) -> EmailV {
        EmailV {
            from: self.from@,
            to: self.to@,
            cc: self.cc@,
            date: self.date@,
            subject: self.subject@,
            body: self.body@.map_values(|l: Vec<Run>| l@.map_values(|r: Run| r@)),
        }
    }
}

/// The body starts after the headers, leading empty lines dropped.
pub open spec fn skip_empty_lines(ls: Seq<Seq<char>>) -> Seq<Seq<char>>
    decreases ls.len(),
{
    if ls.len() > 0 && ls[0].len() == 0 {
        skip_empty_lines(ls.skip(1))
    } else {
        ls
    }
}

/// The scanned body: an empty line stays an empty row, every other line
/// goes through the markup scanner, starting from the plain style.
pub open spec fn spec_body(ls: Seq<Seq<char>>) -> Seq<Seq<RunV>> {
    ls.map_values(
        |l: Seq<char>|
            if l.len() == 0 {
                Seq::<RunV>::empty()
            } else {
                spec_scan(l, plain_style(), false)
            },
    )
}

/// What parsing a record's text yields: the five header lines must come
/// first, each carrying its label, in the fixed order; everything after
/// them, leading empty lines dropped, is the body.
pub open spec fn spec_parse_email(s: Seq<char>) -> Result<EmailV, EmailParseError> {
    let lines = spec_lines(s);
    if lines.len() < 1 || spec_header_value(lines[0], "from:"@, false) is None {
        Err(EmailParseError::MissingFrom)
    } else if lines.len() < 2 || spec_header_value(lines[1], "to:"@, false) is None {
        Err(EmailParseError::MissingTo)
    } else if lines.len() < 3 || spec_header_value(lines[2], "cc:"@, true) is None {
        Err(EmailParseError::MissingCc)
    } else if lines.len() < 4 || spec_header_value(lines[3], "date:"@, false) is None {
        Err(EmailParseError::MissingDate)
    } else if lines.len() < 5 || spec_header_value(lines[4], "subject:"@, false) is None {
        Err(EmailParseError::MissingSubject)
    } else {
        Ok(
            EmailV {
                from: spec_header_value(lines[0], "from:"@, false)->Some_0,
                to: spec_header_value(lines[1], "to:"@, false)->Some_0,
                cc: spec_header_value(lines[2], "cc:"@, true)->Some_0,
                date: spec_header_value(lines[3], "date:"@, false)->Some_0,
                subject: spec_header_value(lines[4], "subject:"@, false)->Some_0,
                body: spec_body(skip_empty_lines(lines.skip(5))),
            },
        )
    }
}

proof fn lemma_skip_empty_is(ls: Seq<Seq<char>>, k: int)
    requires
        0 <= k <= ls.len(),
        forall|m: int| 0 <= m < k ==> (#[trigger] ls[m]).len() == 0,
        k == ls.len() || ls[k].len() > 0,
    ensures
        skip_empty_lines(ls) == ls.skip(k),
    decreases k,
{
    if k == 0 {
        assert(ls.skip(0) =~= ls);
    } else {
        assert(ls.skip(1).skip(k - 1) =~= ls.skip(k));
        lemma_skip_empty_is(ls.skip(1), k - 1);
    }
}

impl Email {
    /// Parse one record. The result and the error are exactly those of
    /// [`spec_parse_email`] on the record's characters.
    pub fn parse(text: &str) -> (r: Result<Email, EmailParseError>)
        ensures
            match r {
                Ok(e) => spec_parse_email(text@) == Ok::<EmailV, EmailParseError>(e@),
                Err(x) => spec_parse_email(text@) == Err::<EmailV, EmailParseError>(x),
            },
    {
        let chars = crate::text::chars_of(text);
        let lines = split_lines(&chars);
        let ghost lv = lines@.map_values(|l: Vec<char>| l@);
        let n = lines.len();
        let from = if n >= 1 {
            header_value(&lines[0], "from:", false)
        } else {
            None
        };
        let Some(from) = from else { return Err(EmailParseError::MissingFrom) };
        let to = if n >= 2 {
            header_value(&lines[1], "to:", false)
        } else {
            None
        };
        let Some(to) = to else { return Err(EmailParseError::MissingTo) };
        let cc = if n >= 3 {
            header_value(&lines[2], "cc:", true)
        } else {
            None
        };
        let Some(cc) = cc else { return Err(EmailParseError::MissingCc) };
        let date = if n >= 4 {
            header_value(&lines[3], "date:", false)
        } else {
            None
        };
        let Some(date) = date else { return Err(EmailParseError::MissingDate) };
        let subject = if n >= 5 {
            header_value(&lines[4], "subject:", false)
        } else {
            None
        };
        let Some(subject) = subject else { return Err(EmailParseError::MissingSubject) };

        let mut k: usize = 5;
        while k < n && lines[k].len() == 0
            invariant
                5 <= k <= n,
                n == lines@.len(),
                lv == lines@.map_values(|l: Vec<char>| l@),
                forall|m: int| 5 <= m < k ==> (#[trigger] lv[m]).len() == 0,
            decreases n - k,
        {
            k = k + 1;
        }
        proof {
            assert(forall|m: int|
                0 <= m < k - 5 ==> (#[trigger] lv.skip(5)[m]).len() == 0);
            lemma_skip_empty_is(lv.skip(5), k - 5);
            assert(lv.skip(5).skip(k - 5) =~= lv.skip(k as int));
        }
        let ghost body_lv = skip_empty_lines(lv.skip(5));
        let mut body: Vec<Vec<Run>> = Vec::new();
        let mut j: usize = k;
        proof {
            assert(body@.map_values(|l: Vec<Run>| l@.map_values(|r: Run| r@)) =~= spec_body(
                lv.subrange(k as int, j as int),
            ));
        }
        while j < n
            invariant
                k <= j <= n,
                n == lines@.len(),
                lv == lines@.map_values(|l: Vec<char>| l@),
                body@.map_values(|l: Vec<Run>| l@.map_values(|r: Run| r@)) == spec_body(
                    lv.subrange(k as int, j as int),
                ),
            decreases n - j,
        {
            let row = if lines[j].len() == 0 {
                Vec::new()
            } else {
                scan_line(&lines[j])
            };
            proof {
                let ghost old_body = body@;
                assert(lv.subrange(k as int, j + 1) =~= lv.subrange(k as int, j as int).push(
                    lv[j as int],
                ));
                assert(spec_body(lv.subrange(k as int, j as int).push(lv[j as int]))
                    =~= spec_body(lv.subrange(k as int, j as int)).push(
                    if lv[j as int].len() == 0 {
                        Seq::<RunV>::empty()
                    } else {
                        spec_scan(lv[j as int], plain_style(), false)
                    },
                ));
                assert((old_body.push(row)).map_values(|l: Vec<Run>| l@.map_values(|r: Run| r@))
                    =~= old_body.map_values(|l: Vec<Run>| l@.map_values(|r: Run| r@)).push(
                    row@.map_values(|r: Run| r@),
                ));
                if lines@[j as int]@.len() == 0 {
                    assert(row@.map_values(|r: Run| r@) =~= Seq::<RunV>::empty());
                }
            }
            body.push(row);
            j = j + 1;
        }
        proof {
            assert(lv.subrange(k as int, n as int) =~= lv.skip(k as int));
        }
        Ok(Email { from, to, cc, date, subject, body })
    }
}

/// Why the mailbox could not be built.
#[derive(Debug, Clone, Copy, PartialEq, Eq, Structural)]
pub enum MailboxError {
    /// The reader needs at least one mail; an empty folder is a
    /// configuration error caught at load time.
    NoEmails,
}

/// The mails newest first: every date reads lexicographically at or above
/// the later ones.
pub open spec fn dates_sorted_desc(s: Seq<Email>) -> bool {
    forall|i: int, j: int|
        0 <= i < j < s.len() ==> lex_le(#[trigger] s[j].date@, #[trigger] s[i].date@)
}

/// Sort the mails by their date text, newest first. The dates are compared
/// as raw text, not as calendar values.
fn sort_by_date_desc(v: &mut Vec<Email>)
    ensures
        final(v)@.len() == old(v)@.len(),
        dates_sorted_desc(final(v)@),
        final(v)@.to_multiset() == old(v)@.to_multiset(),
{
    if v.len() <= 1 {
        return ;
    }
    let mut i: usize = 1;
    proof {
        assert(v@.take(1) =~= seq![v@[0]]);
    }
    while i < v.len()
        invariant
            1 <= i <= v@.len(),
            v@.len() == old(v)@.len(),
            dates_sorted_desc(v@.take(i as int)),
            v@.to_multiset() == old(v)@.to_multiset(),
        decreases v@.len() - i,
    {
        let ghost before = v@;
        let e = v.remove(i);
        let mut j: usize = 0;
        while j < i && chars_le(&e.date, &v[j].date)
            invariant
                j <= i < before.len(),
                v@ == before.remove(i as int),
                e == before[i as int],
                dates_sorted_desc(before.take(i as int)),
                forall|m: int| 0 <= m < j ==> lex_le(e.date@, #[trigger] v@[m].date@),
            decreases i - j,
        {
            j = j + 1;
        }
        proof {
            if j < i {
                lemma_lex_le_total(e.date@, v@[j as int].date@);
            }
        }
        let ghost mid = v@;
        v.insert(j, e);
        proof {
            assert(forall|m: int| 0 <= m < i ==> #[trigger] mid[m] == before[m]);
            assert forall|p: int, q: int| 0 <= p < q < i + 1 implies lex_le(
                #[trigger] v@[q].date@,
                #[trigger] v@[p].date@,
            ) by {
                let jj = j as int;
                if p < jj && q < jj {
                    assert(before.take(i as int)[q] == v@[q]);
                    assert(before.take(i as int)[p] == v@[p]);
                } else if p < jj && q == jj {
                    assert(v@[q] == e);
                } else if p < jj && q > jj {
                    assert(v@[q] == mid[q - 1]);
                    assert(before.take(i as int)[q - 1] == mid[q - 1]);
                    assert(before.take(i as int)[p] == v@[p]);
                } else if p == jj {
                    assert(v@[q] == mid[q - 1]);
                    if q - 1 == jj {
                        lemma_lex_le_total(e.date@, mid[jj].date@);
                    } else {
                        assert(before.take(i as int)[q - 1] == mid[q - 1]);
                        assert(before.take(i as int)[jj] == mid[jj]);
                        assert(lex_le(mid[q - 1].date@, mid[jj].date@));
                        lemma_lex_le_total(e.date@, mid[jj].date@);
                        lemma_lex_le_trans(mid[q - 1].date@, mid[jj].date@, e.date@);
                    }
                } else {
                    assert(v@[q] == mid[q - 1]);
                    assert(v@[p] == mid[p - 1]);
                    assert(before.take(i as int)[q - 1] == mid[q - 1]);
                    assert(before.take(i as int)[p - 1] == mid[p - 1]);
                }
            }
            assert(dates_sorted_desc(v@.take(i + 1)));
            broadcast use vstd::seq_lib::group_to_multiset_ensures;
            broadcast use vstd::multiset::group_multiset_axioms;

            assert(mid == before.remove(i as int));
            assert(before.remove(i as int).to_multiset() =~= before.to_multiset().remove(
                before[i as int],
            ));
            assert(v@ == mid.insert(j as int, e));
            assert(mid.insert(j as int, e).to_multiset() == mid.to_multiset().insert(e));
            assert(before.to_multiset().count(e) > 0) by {
                assert(before[i as int] == e);
                assert(before.contains(e));
            }
            assert(before.to_multiset().remove(e).insert(e) =~= before.to_multiset());
        }
        i = i + 1;
    }
    proof {
        assert(v@.take(v@.len() as int) =~= v@);
    }
}

/// The mailbox: the parsed mails, sorted newest first once at load time.
#[derive(Debug, Clone, PartialEq, Eq)]
pub struct EmailProgram {
    emails: Vec<Email>,
}

impl View for EmailProgram {
    type V = Seq<Email>;

    closed spec fn view(&self) -> Seq<Email> {
        self.emails@
    }
}

impl EmailProgram {
    /// A well-formed mailbox holds at least one mail, newest first.
    pub open spec fn wf(self) -> bool {
        self@.len() > 0 && dates_sorted_desc(self@)
    }

    /// Build the mailbox from the parsed mails: sort them by date text,
    /// newest first. An empty list is refused.
    pub fn new(emails: Vec<Email>) -> (r: Result<EmailProgram, MailboxError>)
        ensures
            emails@.len() == 0 ==> r == Err::<EmailProgram, MailboxError>(MailboxError::NoEmails),
            emails@.len() > 0 ==> r is Ok,
            r matches Ok(p) ==> p.wf() && p@.to_multiset() == emails@.to_multiset(),
    {
        if emails.len() == 0 {
            return Err(MailboxError::NoEmails);
        }
        let mut emails = emails;
        sort_by_date_desc(&mut emails);
        Ok(EmailProgram { emails })
    }

    /// How many mails the mailbox holds.
    pub fn len(&self) -> (n: usize)
        ensures
            n == self@.len(),
    {
        self.emails.len()
    }

    /// The mails, newest first.
    pub fn emails(&self) -> (v: &Vec<Email>)
        ensures
            v@ == self@,
    {
        &self.emails
    }

    /// Feed one key press to the reader: the up and down keys move the
    /// selection with wraparound; no key ever leaves this tab.
    pub fn handle_input(&self, key: KeyEvent, state: &mut EmailProgramState) -> (nav: Option<
        usize,
    >)
        requires
            old(state)@ < self@.len(),
        ensures
            final(state)@ == email_step(old(state)@, self@.len() as int, key),
            final(state)@ < self@.len(),
            nav is None,
    {
        let n = self.emails.len();
        match key.code {
            KeyCode::Down => {
                state.selected = (state.selected + 1) % n;
            },
            KeyCode::Up => {
                if state.selected == 0 {
                    state.selected = n - 1;
                } else {
                    state.selected = state.selected - 1;
                }
                proof {
                    lemma_sel_up_form(old(state)@, self@.len() as int);
                }
            },
            _ => {},
        }
        None
    }
}

/// Mutable state of the email reader: which mail is selected.
#[derive(Debug, Clone, PartialEq, Eq, Structural)]
pub struct EmailProgramState {
    selected: usize,
}

impl View for EmailProgramState {
    type V = int;

    closed spec fn view(&self) -> int {
        self.selected as int
    }
}

impl EmailProgramState {
    /// The reader opens on the newest mail.
    pub fn new() -> (s: Self)
        ensures
            s@ == 0,
    {
        EmailProgramState { selected: 0 }
    }

    /// The selected index.
    pub fn selected(&self) -> (i: usize)
        ensures
            i == self@,
    {
        self.selected
    }
}

/// One step of the selection: down moves to the next mail, up to the
/// previous one, both wrapping around the `n` mails.
pub open spec fn sel_down(sel: int, n: int) -> int {
    (sel + 1) % n
}

pub open spec fn sel_up(sel: int, n: int) -> int {
    (sel + n - 1) % n
}

pub open spec fn email_step(sel: int, n: int, key: KeyEvent) -> int {
    match key.code {
        KeyCode::Down => sel_down(sel, n),
        KeyCode::Up => sel_up(sel, n),
        _ => sel,
    }
}

/// Moving up is one wraparound step back: `n - 1` from the top, else one
/// less.
proof fn lemma_sel_up_form(sel: int, n: int)
    requires
        0 <= sel < n,
    ensures
        sel_up(sel, n) == if sel == 0 {
            n - 1
        } else {
            sel - 1
        },
{
    if sel == 0 {
        vstd::arithmetic::div_mod::lemma_small_mod((n - 1) as nat, n as nat);
    } else {
        vstd::arithmetic::div_mod::lemma_mod_multiples_vanish(1, sel - 1, n);
        vstd::arithmetic::div_mod::lemma_small_mod((sel - 1) as nat, n as nat);
    }
}

/// Down and up are exact inverses on a non-empty mailbox.
pub proof fn lemma_up_down_inverse(sel: int, n: int)
    requires
        0 <= sel < n,
    ensures
        sel_up(sel_down(sel, n), n) == sel,
        sel_down(sel_up(sel, n), n) == sel,
{
    lemma_sel_up_form(sel, n);
    if sel + 1 == n {
        vstd::arithmetic::div_mod::lemma_mod_self_0(n);
        lemma_sel_up_form(0, n);
    } else {
        vstd::arithmetic::div_mod::lemma_small_mod((sel + 1) as nat, n as nat);
        lemma_sel_up_form(sel + 1, n);
    }
    if sel == 0 {
        vstd::arithmetic::div_mod::lemma_mod_self_0(n);
        vstd::arithmetic::div_mod::lemma_small_mod((n - 1) as nat, n as nat);
    } else {
        vstd::arithmetic::div_mod::lemma_small_mod(sel as nat, n as nat);
    }
}

/// Pressing down `k` times from `sel` lands on `(sel + k) mod n`: the
/// selection cycles through all the mails in order.
pub proof fn lemma_down_cycles(sel: int, n: int, k: nat)
    requires
        0 <= sel < n,
    ensures
        down_iter(sel, n, k) == (sel + k) % n,
    decreases k,
{
    if k == 0 {
        vstd::arithmetic::div_mod::lemma_small_mod(sel as nat, n as nat);
    } else {
        lemma_down_cycles(sel, n, (k - 1) as nat);
        let prev = (sel + k - 1) % n;
        vstd::arithmetic::div_mod::lemma_mod_twice(sel + k - 1, n);
        vstd::arithmetic::div_mod::lemma_add_mod_noop(sel + k - 1, 1, n);
        if n == 1 {
            vstd::arithmetic::div_mod::lemma_mod_multiples_vanish(sel + k, 0, 1);
            vstd::arithmetic::div_mod::lemma_mod_multiples_vanish(prev + 1, 0, 1);
            vstd::arithmetic::div_mod::lemma_small_mod(0, 1);
        } else {
            vstd::arithmetic::div_mod::lemma_small_mod(1nat, n as nat);
        }
    }
}

/// The selection after pressing down `k` times.
pub open spec fn down_iter(sel: int, n: int, k: nat) -> int
    decreases k,
{
    if k == 0 {
        sel
    } else {
        sel_down(down_iter(sel, n, (k - 1) as nat), n)
    }
}

} // verus!
