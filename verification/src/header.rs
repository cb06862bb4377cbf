//! Recovery of the command line of a run from the comment header of the
//! Stan CSV file it wrote, and the reading of a model's `info` output.
//!
//! The header lists the options one per line, as `# key = value` for a
//! valued option and `# key` for a declaration, possibly followed by
//! `(Default)`. The lines from the one that starts with `method` up to the
//! one that starts with `num_threads` are put back together into one
//! statement of the command line language.
use vstd::prelude::*;
use crate::text::{chars_of, string_of};
use crate::argtree::opt_text;

verus! {

broadcast use vstd::string::group_string_axioms;

/// The characters with the Unicode `White_Space` property (what
/// `char::is_whitespace` tests).
pub open spec fn white_space(c: char) -> bool {
    ||| '\u{9}' <= c <= '\u{d}'
    ||| c == ' '
    ||| c == '\u{85}'
    ||| c == '\u{a0}'
    ||| c == '\u{1680}'
    ||| '\u{2000}' <= c <= '\u{200a}'
    ||| c == '\u{2028}'
    ||| c == '\u{2029}'
    ||| c == '\u{202f}'
    ||| c == '\u{205f}'
    ||| c == '\u{3000}'
}

/// Whether `c` has the Unicode `White_Space` property.
pub fn is_white_space(c: char) -> (b: bool)
    ensures
        b == white_space(c),
{
    ('\u{9}' <= c && c <= '\u{d}') || c == ' ' || c == '\u{85}' || c == '\u{a0}' || c == '\u{1680}'
        || ('\u{2000}' <= c && c <= '\u{200a}') || c == '\u{2028}' || c == '\u{2029}' || c
        == '\u{202f}' || c == '\u{205f}' || c == '\u{3000}'
}

/// `s` without its leading `'#'` characters.
pub open spec fn skip_hashes(s: Seq<char>) -> Seq<char>
    decreases s.len(),
{
    if s.len() > 0 && s[0] == '#' {
        skip_hashes(s.drop_first())
    } else {
        s
    }
}

/// `s` without its leading white space.
pub open spec fn trim_start(s: Seq<char>) -> Seq<char>
    decreases s.len(),
{
    if s.len() > 0 && white_space(s[0]) {
        trim_start(s.drop_first())
    } else {
        s
    }
}

/// `s` without its trailing white space.
pub open spec fn trim_end(s: Seq<char>) -> Seq<char>
    decreases s.len(),
{
    if s.len() > 0 && white_space(s.last()) {
        trim_end(s.drop_last())
    } else {
        s
    }
}

/// `s` without white space at either end.
pub open spec fn trim(s: Seq<char>) -> Seq<char> {
    trim_end(trim_start(s))
}

/// Whether `s` starts with `p`.
pub open spec fn starts_with(s: Seq<char>, p: Seq<char>) -> bool {
    p.len() <= s.len() && s.take(p.len() as int) == p
}

/// Whether `s` ends with `p`.
pub open spec fn ends_with(s: Seq<char>, p: Seq<char>) -> bool {
    p.len() <= s.len() && s.skip(s.len() - p.len()) == p
}

/// `s` without any number of trailing `"(Default)"`.
pub open spec fn strip_defaults(s: Seq<char>) -> Seq<char>
    decreases s.len(),
{
    if s.len() >= 9 && ends_with(s, "(Default)"@) {
        strip_defaults(s.take(s.len() - 9))
    } else {
        s
    }
}

/// `" = "` occurs in `s` at `i`.
pub open spec fn equals_at(s: Seq<char>, i: int) -> bool {
    0 <= i && i + 3 <= s.len() && s[i] == ' ' && s[i + 1] == '=' && s[i + 2] == ' '
}

/// The first occurrence of `" = "` in `s` at or after `i`.
pub open spec fn find_equals_from(s: Seq<char>, i: int) -> Option<int>
    decreases s.len() - i,
{
    if i < 0 || i + 3 > s.len() {
        None
    } else if equals_at(s, i) {
        Some(i)
    } else {
        find_equals_from(s, i + 1)
    }
}

/// `s` split at its first `" = "`, if it has one.
pub open spec fn split_equals(s: Seq<char>) -> Option<(Seq<char>, Seq<char>)> {
    match find_equals_from(s, 0) {
        Some(i) => Some((s.take(i), s.skip(i + 3))),
        None => None,
    }
}

/// The option that a header line states: without its leading `'#'`s and
/// white space and its trailing `"(Default)"`s.
pub open spec fn header_option(line: Seq<char>) -> Seq<char> {
    strip_defaults(trim_start(skip_hashes(line)))
}

/// The statement `s` after the header line `line`, and whether `line` is
/// the last one of the command line: `key = value` adds `key=value `; a
/// declaration adds itself and a space, unless the statement already ends
/// with it.
pub open spec fn consume(s: Seq<char>, line: Seq<char>) -> (Seq<char>, bool) {
    let l = header_option(line);
    let t = match split_equals(l) {
        Some((key, value)) => s + key + seq!['='] + value + seq![' '],
        None => if !ends_with(trim(s), trim_end(l)) {
            s + l + seq![' ']
        } else {
            s
        },
    };
    (t, starts_with(l, "num_threads"@))
}

/// `line` without its line break (`"\n"` or `"\r\n"`).
pub open spec fn remove_newline(line: Seq<char>) -> Seq<char> {
    if line.len() > 0 && line.last() == '\n' {
        let l = line.drop_last();
        if l.len() > 0 && l.last() == '\r' {
            l.drop_last()
        } else {
            l
        }
    } else {
        line
    }
}

/// The most lines read after the first line of the command line.
pub open spec fn max_header_lines() -> nat {
    255
}

/// Model of a scan of a CSV header.
pub struct ScanModel {
    /// The statement put together so far.
    pub text: Seq<char>,
    /// The line that starts the command line has been read.
    pub started: bool,
    /// No more lines are wanted.
    pub done: bool,
    /// Lines read after the first line of the command line.
    pub lines: nat,
}

/// The scan `st` after the next line (`None` at the end of the input).
pub open spec fn scan_step(st: ScanModel, line: Option<Seq<char>>) -> ScanModel {
    if st.done {
        st
    } else if !st.started {
        match line {
            None => ScanModel {
                text: consume(st.text, Seq::empty()).0,
                started: true,
                done: true,
                lines: 0,
            },
            Some(l) => if starts_with(trim_start(skip_hashes(l)), "method"@) {
                ScanModel {
                    text: consume(st.text, remove_newline(l)).0,
                    started: true,
                    done: false,
                    lines: 0,
                }
            } else {
                st
            },
        }
    } else {
        match line {
            None => ScanModel { done: true, ..st },
            Some(l) => {
                let (t, stop) = consume(st.text, remove_newline(l));
                ScanModel {
                    text: t,
                    started: true,
                    done: stop || st.lines + 1 == max_header_lines(),
                    lines: st.lines + 1,
                }
            },
        }
    }
}

fn skip_hashes_from(v: &Vec<char>, i: usize) -> (j: usize)
    requires
        i <= v@.len(),
    ensures
        i <= j <= v@.len(),
        v@.skip(j as int) == skip_hashes(v@.skip(i as int)),
{
    let mut j = i;
    while j < v.len() && v[j] == '#'
        invariant
            i <= j <= v@.len(),
            skip_hashes(v@.skip(i as int)) == skip_hashes(v@.skip(j as int)),
        decreases v@.len() - j,
    {
        proof {
            assert(v@.skip(j as int).drop_first() =~= v@.skip(j + 1));
        }
        j = j + 1;
    }
    j
}

fn trim_start_from(v: &Vec<char>, i: usize) -> (j: usize)
    requires
        i <= v@.len(),
    ensures
        i <= j <= v@.len(),
        v@.skip(j as int) == trim_start(v@.skip(i as int)),
{
    let mut j = i;
    while j < v.len() && is_white_space(v[j])
        invariant
            i <= j <= v@.len(),
            trim_start(v@.skip(i as int)) == trim_start(v@.skip(j as int)),
        decreases v@.len() - j,
    {
        proof {
            assert(v@.skip(j as int).drop_first() =~= v@.skip(j + 1));
        }
        j = j + 1;
    }
    j
}

fn trim_end_to(v: &Vec<char>, i: usize, e: usize) -> (k: usize)
    requires
        i <= e <= v@.len(),
    ensures
        i <= k <= e,
        v@.subrange(i as int, k as int) == trim_end(v@.subrange(i as int, e as int)),
{
    let mut k = e;
    while k > i && is_white_space(v[k - 1])
        invariant
            i <= k <= e <= v@.len(),
            trim_end(v@.subrange(i as int, e as int)) == trim_end(v@.subrange(i as int, k as int)),
        decreases k,
    {
        proof {
            assert(v@.subrange(i as int, k as int).drop_last() =~= v@.subrange(i as int, k - 1));
        }
        k = k - 1;
    }
    k
}

fn ends_with_default(v: &Vec<char>, i: usize, k: usize) -> (b: bool)
    requires
        i <= k <= v@.len(),
    ensures
        b == (k - i >= 9 && ends_with(v@.subrange(i as int, k as int), "(Default)"@)),
{
    proof {
        reveal_strlit("(Default)");
    }
    if k - i < 9 {
        return false;
    }
    let p = ['(', 'D', 'e', 'f', 'a', 'u', 'l', 't', ')'];
    let ghost w = v@.subrange(i as int, k as int);
    let mut m: usize = 0;
    while m < 9
        invariant
            i + 9 <= k <= v@.len(),
            w == v@.subrange(i as int, k as int),
            p@ == "(Default)"@,
            0 <= m <= 9,
            forall|q: int| 0 <= q < m ==> v@[k - 9 + q] == p@[q],
        decreases 9 - m,
    {
        if v[k - 9 + m] != p[m] {
            proof {
                assert(w.skip(w.len() - 9)[m as int] == v@[k - 9 + m]);
            }
            return false;
        }
        m = m + 1;
    }
    proof {
        assert(w.skip(w.len() - 9) =~= "(Default)"@) by {
            assert forall|q: int| 0 <= q < 9 implies w.skip(w.len() - 9)[q] == p@[q] by {
                assert(w.skip(w.len() - 9)[q] == v@[k - 9 + q]);
            }
        }
    }
    true
}

fn strip_defaults_to(v: &Vec<char>, i: usize, e: usize) -> (k: usize)
    requires
        i <= e <= v@.len(),
    ensures
        i <= k <= e,
        v@.subrange(i as int, k as int) == strip_defaults(v@.subrange(i as int, e as int)),
{
    let mut k = e;
    while ends_with_default(v, i, k)
        invariant
            i <= k <= e <= v@.len(),
            strip_defaults(v@.subrange(i as int, e as int)) == strip_defaults(
                v@.subrange(i as int, k as int),
            ),
        decreases k,
    {
        proof {
            let w = v@.subrange(i as int, k as int);
            assert(w.take(w.len() - 9) =~= v@.subrange(i as int, k - 9));
        }
        k = k - 9;
    }
    k
}

fn find_equals(v: &Vec<char>, i: usize, e: usize) -> (r: Option<usize>)
    requires
        i <= e <= v@.len(),
    ensures
        match r {
            Some(x) => find_equals_from(v@.subrange(i as int, e as int), 0) == Some(x - i),
            None => find_equals_from(v@.subrange(i as int, e as int), 0) is None,
        },
        r matches Some(x) ==> i <= x && x + 3 <= e,
{
    let ghost w = v@.subrange(i as int, e as int);
    let mut j = i;
    while e - j >= 3
        invariant
            i <= j <= e <= v@.len(),
            w == v@.subrange(i as int, e as int),
            find_equals_from(w, 0) == find_equals_from(w, j - i),
        decreases e - j,
    {
        if v[j] == ' ' && v[j + 1] == '=' && v[j + 2] == ' ' {
            proof {
                assert(equals_at(w, j - i));
            }
            return Some(j);
        }
        proof {
            assert(!equals_at(w, j - i));
        }
        j = j + 1;
    }
    None
}

fn trimmed_ends_with(s: &Vec<char>, p: &Vec<char>, i: usize, k: usize) -> (b: bool)
    requires
        i <= k <= p@.len(),
    ensures
        b == ends_with(trim(s@), p@.subrange(i as int, k as int)),
{
    let a = trim_start_from(s, 0);
    let z = trim_end_to(s, a, s.len());
    proof {
        assert(s@.skip(0) =~= s@);
        assert(s@.skip(a as int) =~= s@.subrange(a as int, s@.len() as int));
    }
    let ghost t = s@.subrange(a as int, z as int);
    assert(t == trim(s@));
    let ghost q = p@.subrange(i as int, k as int);
    let n = k - i;
    if n > z - a {
        proof {
            assert(t.len() == z - a);
            assert(q.len() == n);
        }
        return false;
    }
    let mut m: usize = 0;
    while m < n
        invariant
            a <= z <= s@.len(),
            i <= k <= p@.len(),
            n == k - i,
            n <= z - a,
            t == s@.subrange(a as int, z as int),
            t == trim(s@),
            q == p@.subrange(i as int, k as int),
            0 <= m <= n,
            forall|x: int| 0 <= x < m ==> #[trigger] q[x] == t.skip(t.len() - q.len())[x],
        decreases n - m,
    {
        proof {
            assert(t.skip(t.len() - q.len())[m as int] == s@[z - n + m]);
            assert(q[m as int] == p@[i + m]);
        }
        if s[z - n + m] != p[i + m] {
            return false;
        }
        m = m + 1;
    }
    proof {
        assert(t.skip(t.len() - q.len()) =~= q);
    }
    true
}

fn starts_with_at(v: &Vec<char>, i: usize, k: usize, p: &str) -> (b: bool)
    requires
        i <= k <= v@.len(),
    ensures
        b == starts_with(v@.subrange(i as int, k as int), p@),
{
    let pc = chars_of(p);
    let ghost w = v@.subrange(i as int, k as int);
    if pc.len() > k - i {
        return false;
    }
    let mut m: usize = 0;
    while m < pc.len()
        invariant
            i <= k <= v@.len(),
            w == v@.subrange(i as int, k as int),
            pc@ == p@,
            pc@.len() <= k - i,
            0 <= m <= pc@.len(),
            forall|x: int| 0 <= x < m ==> v@[i + x] == pc@[x],
        decreases pc@.len() - m,
    {
        if v[i + m] != pc[m] {
            proof {
                assert(w.take(pc@.len() as int)[m as int] == v@[i + m]);
            }
            return false;
        }
        m = m + 1;
    }
    proof {
        assert(w.take(pc@.len() as int) =~= pc@) by {
            assert forall|x: int| 0 <= x < pc@.len() implies w.take(pc@.len() as int)[x] == pc@[x] by {
                assert(w.take(pc@.len() as int)[x] == v@[i + x]);
            }
        }
    }
    true
}

fn append_range(s: &mut Vec<char>, v: &Vec<char>, i: usize, k: usize)
    requires
        i <= k <= v@.len(),
    ensures
        final(s)@ == old(s)@ + v@.subrange(i as int, k as int),
{
    let mut m = i;
    while m < k
        invariant
            i <= m <= k <= v@.len(),
            s@ == old(s)@ + v@.subrange(i as int, m as int),
        decreases k - m,
    {
        s.push(v[m]);
        proof {
            assert(v@.subrange(i as int, m + 1) =~= v@.subrange(i as int, m as int).push(v@[m as int]));
            assert(old(s)@ + v@.subrange(i as int, m + 1) =~= old(s)@ + v@.subrange(i as int, m as int) + seq![v@[m as int]]);
        }
        m = m + 1;
    }
}

/// Adds the header line `line` to the statement `s`; returns whether
/// `line` is the last one of the command line.
pub fn consume_line(s: &mut Vec<char>, line: &Vec<char>) -> (stop: bool)
    ensures
        (final(s)@, stop) == consume(old(s)@, line@),
{
    let a = skip_hashes_from(line, 0);
    let b = trim_start_from(line, a);
    let e = strip_defaults_to(line, b, line.len());
    proof {
        assert(line@.skip(0) =~= line@);
        assert(line@.skip(b as int) =~= line@.subrange(b as int, line@.len() as int));
    }
    let ghost l = line@.subrange(b as int, e as int);
    assert(l == header_option(line@));
    let stop = starts_with_at(line, b, e, "num_threads");
    match find_equals(line, b, e) {
        Some(x) => {
            append_range(s, line, b, x);
            s.push('=');
            append_range(s, line, x + 3, e);
            s.push(' ');
            proof {
                assert(l.take(x - b) =~= line@.subrange(b as int, x as int));
                assert(l.skip(x - b + 3) =~= line@.subrange(x + 3, e as int));
                assert(split_equals(l) == Some((l.take(x - b), l.skip(x - b + 3))));
                assert(s@ =~= old(s)@ + l.take(x - b) + seq!['='] + l.skip(x - b + 3) + seq![' ']);
            }
        },
        None => {
            let z = trim_end_to(line, b, e);
            assert(split_equals(l) is None);
            assert(line@.subrange(b as int, z as int) == trim_end(l));
            if !trimmed_ends_with(s, line, b, z) {
                append_range(s, line, b, e);
                s.push(' ');
                assert(s@ =~= old(s)@ + l + seq![' ']);
            }
        },
    }
    assert(s@ =~= consume(old(s)@, line@).0);
    stop
}

/// Removes the line break (`"\n"` or `"\r\n"`) that ends `line`.
pub fn remove_newline_exec(line: &mut Vec<char>)
    ensures
        final(line)@ == remove_newline(old(line)@),
{
    if line.len() > 0 && line[line.len() - 1] == '\n' {
        line.pop();
        if line.len() > 0 && line[line.len() - 1] == '\r' {
            line.pop();
        }
    }
}

/// A scan of the comment header of a Stan CSV file, fed one line at a
/// time, that puts the command line of the run back together.
#[derive(Debug)]
pub struct HeaderScan {
    text: Vec<char>,
    started: bool,
    done: bool,
    lines: u8,
}

impl View for HeaderScan {
    type V = ScanModel;

    closed spec fn view(&self) -> ScanModel {
        ScanModel {
            text: self.text@,
            started: self.started,
            done: self.done,
            lines: self.lines as nat,
        }
    }
}

impl HeaderScan {
    /// A scan stops for good before its line count would exceed the
    /// limit.
    #[verifier::type_invariant]
    spec fn counted(self) -> bool {
        !self.done ==> self.lines < max_header_lines()
    }

    /// A scan that has read nothing.
    pub fn new() -> (h: HeaderScan)
        ensures
            h@ == (ScanModel { text: Seq::empty(), started: false, done: false, lines: 0 }),
    {
        HeaderScan { text: Vec::new(), started: false, done: false, lines: 0 }
    }

    /// Whether the scan wants another line.
    pub fn wants_more(&self) -> (b: bool)
        ensures
            b == !self@.done,
    {
        !self.done
    }

    /// Feeds the next line of the file, line break included, or `None` at
    /// the end of the file.
    pub fn feed(&mut self, line: Option<&str>)
        ensures
            final(self)@ == scan_step(
                old(self)@,
                match line {
                    Some(l) => Some(l@),
                    None => None,
                },
            ),
    {
        proof {
            use_type_invariant(&*self);
        }
        if self.done {
            return;
        }
        let mut text = self.text.clone();
        assert(text@ == self.text@);
        if !self.started {
            match line {
                None => {
                    let empty: Vec<char> = Vec::new();
                    consume_line(&mut text, &empty);
                    *self = HeaderScan { text, started: true, done: true, lines: 0 };
                },
                Some(l) => {
                    let mut v = chars_of(l);
                    let a = skip_hashes_from(&v, 0);
                    let b = trim_start_from(&v, a);
                    proof {
                        assert(v@.skip(0) =~= v@);
                        assert(v@.skip(b as int) =~= v@.subrange(b as int, v@.len() as int));
                    }
                    if starts_with_at(&v, b, v.len(), "method") {
                        remove_newline_exec(&mut v);
                        consume_line(&mut text, &v);
                        *self = HeaderScan { text, started: true, done: false, lines: 0 };
                    }
                },
            }
        } else {
            match line {
                None => {
                    self.done = true;
                },
                Some(l) => {
                    let mut v = chars_of(l);
                    remove_newline_exec(&mut v);
                    let stop = consume_line(&mut text, &v);
                    let n = self.lines + 1;
                    *self = HeaderScan { text, started: true, done: stop || n == 255, lines: n };
                },
            }
        }
    }

    /// The statement put together so far, without white space at either
    /// end.
    pub fn statement(&self) -> (s: String)
        ensures
            s@ == trim(self@.text),
    {
        let a = trim_start_from(&self.text, 0);
        let z = trim_end_to(&self.text, a, self.text.len());
        proof {
            assert(self.text@.skip(0) =~= self.text@);
            assert(self.text@.skip(a as int) =~= self.text@.subrange(
                a as int,
                self.text@.len() as int,
            ));
        }
        crate::text::string_of_range(&self.text, a, z)
    }
}

/// The first line break at or after `i`, or the end of `s`.
pub open spec fn line_end(s: Seq<char>, i: int) -> int
    decreases s.len() - i,
{
    if i < 0 || i >= s.len() || s[i] == '\n' {
        i
    } else {
        line_end(s, i + 1)
    }
}

/// The first `'='` at or after `i` in `s`.
pub open spec fn first_equal_from(s: Seq<char>, i: int) -> Option<int>
    decreases s.len() - i,
{
    if i < 0 || i >= s.len() {
        None
    } else if s[i] == '=' {
        Some(i)
    } else {
        first_equal_from(s, i + 1)
    }
}

/// The `key=value` pairs of the lines of `s` from position `i` on, each
/// side without white space at either end; lines without `'='` are
/// skipped.
pub open spec fn info_pairs_from(s: Seq<char>, i: int) -> Seq<(Seq<char>, Seq<char>)>
    decreases s.len() - i,
{
    if i < 0 || i > s.len() {
        Seq::empty()
    } else {
        let e = line_end(s, i);
        let line = s.subrange(i, e);
        let rest = if e >= s.len() || e < i {
            Seq::empty()
        } else {
            info_pairs_from(s, e + 1)
        };
        match first_equal_from(line, 0) {
            Some(k) => seq![(trim(line.take(k)), trim(line.skip(k + 1)))] + rest,
            None => rest,
        }
    }
}

proof fn lemma_line_end(s: Seq<char>, i: int)
    requires
        0 <= i <= s.len(),
    ensures
        i <= line_end(s, i) <= s.len(),
        line_end(s, i) < s.len() ==> s[line_end(s, i)] == '\n',
        forall|m: int| i <= m < line_end(s, i) ==> s[m] != '\n',
    decreases s.len() - i,
{
    if i < s.len() && s[i] != '\n' {
        lemma_line_end(s, i + 1);
    }
}

fn trimmed_range(v: &Vec<char>, i: usize, e: usize) -> (s: String)
    requires
        i <= e <= v@.len(),
    ensures
        s@ == trim(v@.subrange(i as int, e as int)),
{
    let a = trim_start_from(v, i);
    proof {
        assert(v@.skip(i as int) =~= v@.subrange(i as int, v@.len() as int));
        assert(v@.skip(a as int) =~= v@.subrange(a as int, v@.len() as int));
    }
    let (a2, z) = trim_range(v, i, e);
    crate::text::string_of_range(v, a2, z)
}

fn trim_range(v: &Vec<char>, i: usize, e: usize) -> (r: (usize, usize))
    requires
        i <= e <= v@.len(),
    ensures
        i <= r.0 <= r.1 <= e,
        v@.subrange(r.0 as int, r.1 as int) == trim(v@.subrange(i as int, e as int)),
{
    let ghost w = v@.subrange(i as int, e as int);
    let mut a = i;
    while a < e && is_white_space(v[a])
        invariant
            i <= a <= e <= v@.len(),
            w == v@.subrange(i as int, e as int),
            trim_start(w) == trim_start(v@.subrange(a as int, e as int)),
        decreases e - a,
    {
        proof {
            assert(v@.subrange(a as int, e as int).drop_first() =~= v@.subrange(a + 1, e as int));
        }
        a = a + 1;
    }
    let z = trim_end_to(v, a, e);
    (a, z)
}

/// The `key=value` pairs that a model's `info` output `text` lists, in
/// order, each side without white space at either end.
#[verifier::loop_isolation(false)]
pub fn info_pairs(text: &str) -> (v: Vec<(String, String)>)
    ensures
        v@.len() == info_pairs_from(text@, 0).len(),
        forall|k: int|
            0 <= k < v@.len() ==> (#[trigger] v@[k]).0@ == info_pairs_from(text@, 0)[k].0
                && v@[k].1@ == info_pairs_from(text@, 0)[k].1,
{
    let c = chars_of(text);
    let ghost s = text@;
    let ghost whole = info_pairs_from(s, 0);
    let mut v: Vec<(String, String)> = Vec::new();
    let mut i: usize = 0;
    loop
        invariant
            c@ == s,
            0 <= i <= s.len(),
            whole == info_pairs_from(s, 0),
            whole == Seq::new(v@.len(), |k: int| (v@[k].0@, v@[k].1@)) + info_pairs_from(
                s,
                i as int,
            ),
        decreases s.len() - i,
    {
        let ghost before = Seq::new(v@.len(), |k: int| (v@[k].0@, v@[k].1@));
        let mut e = i;
        while e < c.len() && c[e] != '\n'
            invariant
                c@ == s,
                i <= e <= s.len(),
                line_end(s, i as int) == line_end(s, e as int),
            decreases s.len() - e,
        {
            e = e + 1;
        }
        proof {
            lemma_line_end(s, i as int);
        }
        let ghost line = s.subrange(i as int, e as int);
        let mut k = i;
        while k < e && c[k] != '='
            invariant
                c@ == s,
                i <= k <= e <= s.len(),
                line == s.subrange(i as int, e as int),
                first_equal_from(line, 0) == first_equal_from(line, k - i),
            decreases e - k,
        {
            k = k + 1;
        }
        let ghost rest = if e >= s.len() {
            Seq::<(Seq<char>, Seq<char>)>::empty()
        } else {
            info_pairs_from(s, e + 1)
        };
        assert(info_pairs_from(s, i as int) == match first_equal_from(line, 0) {
            Some(x) => seq![(trim(line.take(x)), trim(line.skip(x + 1)))] + rest,
            None => rest,
        });
        if k < e {
            let key = trimmed_range(&c, i, k);
            let value = trimmed_range(&c, k + 1, e);
            proof {
                assert(line.take(k - i) =~= s.subrange(i as int, k as int));
                assert(line.skip(k - i + 1) =~= s.subrange(k + 1, e as int));
            }
            let ghost pair = (key@, value@);
            v.push((key, value));
            proof {
                assert(Seq::new(v@.len(), |j: int| (v@[j].0@, v@[j].1@)) =~= before.push(pair));
                assert(before.push(pair) + rest =~= before + (seq![pair] + rest));
            }
        }
        if e >= c.len() {
            proof {
                assert(Seq::new(v@.len(), |j: int| (v@[j].0@, v@[j].1@)) + Seq::<
                    (Seq<char>, Seq<char>),
                >::empty() =~= Seq::new(v@.len(), |j: int| (v@[j].0@, v@[j].1@)));
            }
            return v;
        }
        i = e + 1;
    }
}

/// `s` without white space at either end.
pub fn trim_str(s: &str) -> (t: String)
    ensures
        t@ == trim(s@),
{
    let v = chars_of(s);
    let (a, z) = trim_range(&v, 0, v.len());
    proof {
        assert(v@.subrange(0, v@.len() as int) =~= v@);
    }
    crate::text::string_of_range(&v, a, z)
}

/// Whether a `make` argument asks for `clean-all`, which removes the
/// CmdStan utilities.
pub fn is_clean_all(arg: &str) -> (b: bool)
    ensures
        b == (trim(arg@) == "clean-all"@),
{
    let t = trim_str(arg);
    crate::translate::str_eq(t.as_str(), "clean-all")
}

/// The words (runs of characters other than white space) of `s[i..e]`.
pub open spec fn words_to(s: Seq<char>, i: int, e: int) -> Seq<Seq<char>>
    decreases e - i,
{
    if e <= i {
        Seq::empty()
    } else {
        let w = words_to(s, i, e - 1);
        let c = s[e - 1];
        if white_space(c) {
            w
        } else if e - 1 > i && !white_space(s[e - 2]) {
            w.drop_last().push(w.last().push(c))
        } else {
            w.push(seq![c])
        }
    }
}

/// The start of the first line at or after position `i` of `s` that
/// starts with `p`.
pub open spec fn first_line_at(s: Seq<char>, i: int, p: Seq<char>) -> Option<int>
    decreases s.len() - i,
{
    if i < 0 || i > s.len() {
        None
    } else {
        let e = line_end(s, i);
        if starts_with(s.subrange(i, e), p) {
            Some(i)
        } else if e >= s.len() || e < i {
            None
        } else {
            first_line_at(s, e + 1, p)
        }
    }
}

/// In the first line of a `stansummary` output `s` that starts with
/// `theta`, the second and the fourth word (the mean and the standard
/// deviation of `theta`), where the line has them; `None` without such a
/// line.
pub open spec fn theta_columns(s: Seq<char>) -> Option<(Option<Seq<char>>, Option<Seq<char>>)> {
    match first_line_at(s, 0, "theta"@) {
        None => None,
        Some(i) => {
            let w = words_to(s, i, line_end(s, i));
            Some(
                (
                    if w.len() > 1 {
                        Some(w[1])
                    } else {
                        None
                    },
                    if w.len() > 3 {
                        Some(w[3])
                    } else {
                        None
                    },
                ),
            )
        },
    }
}

/// The bounds of the words of `v[i..e]`.
fn word_bounds(v: &Vec<char>, i: usize, e: usize) -> (b: Vec<(usize, usize)>)
    requires
        i <= e <= v@.len(),
    ensures
        forall|k: int| 0 <= k < b@.len() ==> i <= (#[trigger] b@[k]).0 <= b@[k].1 <= e,
        Seq::new(b@.len(), |k: int| v@.subrange(b@[k].0 as int, b@[k].1 as int)) == words_to(
            v@,
            i as int,
            e as int,
        ),
{
    let mut b: Vec<(usize, usize)> = Vec::new();
    let mut m = i;
    while m < e
        invariant
            i <= m <= e <= v@.len(),
            forall|k: int| 0 <= k < b@.len() ==> i <= (#[trigger] b@[k]).0 <= b@[k].1 <= m,
            Seq::new(b@.len(), |k: int| v@.subrange(b@[k].0 as int, b@[k].1 as int)) == words_to(
                v@,
                i as int,
                m as int,
            ),
            m > i && !white_space(v@[m - 1]) ==> b@.len() > 0 && b@[b@.len() - 1].1 == m,
        decreases e - m,
    {
        let ghost before = Seq::new(b@.len(), |k: int| v@.subrange(b@[k].0 as int, b@[k].1 as int));
        let c = v[m];
        if is_white_space(c) {
        } else if m > i && !is_white_space(v[m - 1]) {
            let last = b.len() - 1;
            let (a, _) = b[last];
            b.set(last, (a, m + 1));
            proof {
                assert(v@.subrange(a as int, m + 1) =~= v@.subrange(a as int, m as int).push(c));
                assert(Seq::new(b@.len(), |k: int| v@.subrange(b@[k].0 as int, b@[k].1 as int))
                    =~= before.drop_last().push(before.last().push(c)));
            }
        } else {
            b.push((m, m + 1));
            proof {
                assert(v@.subrange(m as int, m + 1) =~= seq![c]);
                assert(Seq::new(b@.len(), |k: int| v@.subrange(b@[k].0 as int, b@[k].1 as int))
                    =~= before.push(seq![c]));
            }
        }
        m = m + 1;
    }
    b
}

/// The texts in the mean and standard deviation columns of the `theta`
/// row of a `stansummary` output.
pub fn theta_columns_of(stdout: &str) -> (r: Option<(Option<String>, Option<String>)>)
    ensures
        theta_columns(stdout@) == match r {
            None => None,
            Some(p) => Some((opt_text(p.0), opt_text(p.1))),
        },
{
    let c = chars_of(stdout);
    let ghost s = stdout@;
    proof {
        reveal_strlit("theta");
    }
    let mut i: usize = 0;
    loop
        invariant
            c@ == s,
            s == stdout@,
            0 <= i <= s.len(),
            first_line_at(s, 0, "theta"@) == first_line_at(s, i as int, "theta"@),
        decreases s.len() - i,
    {
        let mut e = i;
        while e < c.len() && c[e] != '\n'
            invariant
                c@ == s,
                i <= e <= s.len(),
                line_end(s, i as int) == line_end(s, e as int),
            decreases s.len() - e,
        {
            e = e + 1;
        }
        proof {
            lemma_line_end(s, i as int);
        }
        let ghost p = "theta"@;
        assert(first_line_at(s, i as int, p) == if starts_with(s.subrange(i as int, e as int), p) {
            Some(i as int)
        } else if e >= s.len() {
            None
        } else {
            first_line_at(s, e + 1, p)
        });
        if starts_with_at(&c, i, e, "theta") {
            let b = word_bounds(&c, i, e);
            let ghost w = words_to(s, i as int, e as int);
            let mean = if b.len() > 1 {
                proof {
                    assert(w[1] == s.subrange(b@[1].0 as int, b@[1].1 as int));
                }
                Some(crate::text::string_of_range(&c, b[1].0, b[1].1))
            } else {
                None
            };
            let sd = if b.len() > 3 {
                proof {
                    assert(w[3] == s.subrange(b@[3].0 as int, b@[3].1 as int));
                }
                Some(crate::text::string_of_range(&c, b[3].0, b[3].1))
            } else {
                None
            };
            proof {
                assert(w.len() == b@.len());
            }
            return Some((mean, sd));
        }
        if e >= c.len() {
            return None;
        }
        i = e + 1;
    }
}

} // verus!
