//! The grammar of the command line language, and parsers into the option
//! types that hold no floating-point number.
//!
//! A statement is a sequence of terms separated by whitespace. A term is
//! a keyword, possibly followed by `=` and a value; a value is either a
//! run of non-whitespace characters or a quoted string (`'...'` or
//! `"..."`, quotes kept) that may hold whitespace. The first term
//! declares what the statement describes; every later term sets one
//! option, and the last value given for an option wins. A keyword
//! without a value changes nothing, but two such terms in a row with the
//! same keyword do not conform to the grammar.
use vstd::prelude::*;
use crate::text::{IntErrorKind, nat_text, nat_text_exec, string_of};
use crate::unify::{Fault, Refusal};

verus! {

/// Whitespace of the command line language.
pub open spec fn is_ws(c: char) -> bool {
    c == ' ' || c == '\t' || c == '\n' || c == '\r'
}

/// Quotation marks of the command line language.
pub open spec fn is_quote(c: char) -> bool {
    c == '\'' || c == '"'
}

/// End of the keyword that starts at `i`: the first whitespace or `'='`
/// at or after `i`, or the end of `s`.
pub open spec fn key_end(s: Seq<char>, i: int) -> int
    decreases s.len() - i,
{
    if i < 0 || i >= s.len() || is_ws(s[i]) || s[i] == '=' {
        i
    } else {
        key_end(s, i + 1)
    }
}

/// The first whitespace at or after `i`, or the end of `s`.
pub open spec fn word_end(s: Seq<char>, i: int) -> int
    decreases s.len() - i,
{
    if i < 0 || i >= s.len() || is_ws(s[i]) {
        i
    } else {
        word_end(s, i + 1)
    }
}

/// The first `q` at or after `i`, or the end of `s`.
pub open spec fn quote_close(s: Seq<char>, i: int, q: char) -> int
    decreases s.len() - i,
{
    if i < 0 || i >= s.len() || s[i] == q {
        i
    } else {
        quote_close(s, i + 1, q)
    }
}

/// End of the term that starts at `i`, or the position at which it
/// fails to conform to the grammar.
pub open spec fn term_end(s: Seq<char>, i: int) -> Result<int, int> {
    let k = key_end(s, i);
    if k < s.len() && s[k] == '=' {
        let v = k + 1;
        if v < s.len() && is_quote(s[v]) {
            let c = quote_close(s, v + 1, s[v]);
            if c >= s.len() {
                Err(v)
            } else if c + 1 < s.len() && !is_ws(s[c + 1]) {
                Err(c + 1)
            } else {
                Ok(c + 1)
            }
        } else {
            Ok(word_end(s, v))
        }
    } else {
        Ok(k)
    }
}

/// A term: where it starts, its keyword, and its value if it has one.
pub struct Term {
    /// Position of the term's first character.
    pub start: nat,
    /// The keyword.
    pub key: Seq<char>,
    /// The value after `=`, if there is an `=`.
    pub value: Option<Seq<char>>,
}

/// The term of `s` between `i` and `e`.
pub open spec fn term_at(s: Seq<char>, i: int, e: int) -> Term {
    let k = key_end(s, i);
    Term {
        start: i as nat,
        key: s.subrange(i, k),
        value: if k < e {
            Some(s.subrange(k + 1, e))
        } else {
            None
        },
    }
}

/// `prefix` before the terms of `r`.
pub open spec fn prepend_terms(prefix: Seq<Term>, r: Result<Seq<Term>, int>) -> Result<
    Seq<Term>,
    int,
> {
    match r {
        Ok(ts) => Ok(prefix + ts),
        Err(p) => Err(p),
    }
}

/// The terms of `s` from position `i` on, or the position at which `s`
/// fails to conform to the grammar.
pub open spec fn terms_from(s: Seq<char>, i: int) -> Result<Seq<Term>, int>
    decreases s.len() - i,
{
    if i < 0 || i >= s.len() {
        Ok(Seq::empty())
    } else if is_ws(s[i]) {
        terms_from(s, i + 1)
    } else {
        match term_end(s, i) {
            Err(p) => Err(p),
            Ok(e) => if e <= i || e > s.len() {
                Err(i)
            } else {
                prepend_terms(seq![term_at(s, i, e)], terms_from(s, e))
            },
        }
    }
}

/// The terms of `s`.
pub open spec fn terms(s: Seq<char>) -> Result<Seq<Term>, int> {
    terms_from(s, 0)
}

/// No character of `s[i..j]` is whitespace or `'='`.
pub open spec fn plain_between(s: Seq<char>, i: int, j: int) -> bool {
    forall|m: int| i <= m < j ==> !is_ws(#[trigger] s[m]) && s[m] != '='
}

/// No character of `s[i..j]` is whitespace.
pub open spec fn word_between(s: Seq<char>, i: int, j: int) -> bool {
    forall|m: int| i <= m < j ==> !is_ws(#[trigger] s[m])
}

proof fn lemma_key_end_at(s: Seq<char>, i: int, k: int)
    requires
        0 <= i <= k <= s.len(),
        plain_between(s, i, k),
        k == s.len() || is_ws(s[k]) || s[k] == '=',
    ensures
        key_end(s, i) == k,
    decreases k - i,
{
    if i < k {
        lemma_key_end_at(s, i + 1, k);
    }
}

proof fn lemma_word_end_at(s: Seq<char>, i: int, e: int)
    requires
        0 <= i <= e <= s.len(),
        word_between(s, i, e),
        e == s.len() || is_ws(s[e]),
    ensures
        word_end(s, i) == e,
    decreases e - i,
{
    if i < e {
        lemma_word_end_at(s, i + 1, e);
    }
}

/// A keyword without a value, `s[i..k]`, followed by whitespace or the
/// end, is one term.
pub proof fn lemma_term_bare(s: Seq<char>, i: int, k: int)
    requires
        0 <= i < k <= s.len(),
        plain_between(s, i, k),
        k == s.len() || is_ws(s[k]),
    ensures
        terms_from(s, i) == prepend_terms(
            seq![Term { start: i as nat, key: s.subrange(i, k), value: None }],
            terms_from(s, k),
        ),
{
    lemma_key_end_at(s, i, k);
    assert(term_end(s, i) == Ok::<int, int>(k));
    assert(term_at(s, i, k) == Term { start: i as nat, key: s.subrange(i, k), value: None });
}

/// A keyword `s[i..k]`, `'='` and a value `s[k + 1..e]` that holds no
/// whitespace and does not open with a quote, followed by whitespace or
/// the end, is one term.
pub proof fn lemma_term_valued(s: Seq<char>, i: int, k: int, e: int)
    requires
        0 <= i < k,
        k + 1 <= e <= s.len(),
        plain_between(s, i, k),
        s[k] == '=',
        word_between(s, k + 1, e),
        k + 1 == e || !is_quote(s[k + 1]),
        e == s.len() || is_ws(s[e]),
    ensures
        terms_from(s, i) == prepend_terms(
            seq![Term { start: i as nat, key: s.subrange(i, k), value: Some(s.subrange(k + 1, e)) }],
            terms_from(s, e),
        ),
{
    lemma_key_end_at(s, i, k);
    lemma_word_end_at(s, k + 1, e);
    assert(term_end(s, i) == Ok::<int, int>(e));
}

/// Whitespace before a term is skipped.
pub proof fn lemma_terms_skip(s: Seq<char>, i: int)
    requires
        0 <= i < s.len(),
        is_ws(s[i]),
    ensures
        terms_from(s, i) == terms_from(s, i + 1),
{
}

/// A keyword of the command line language: not empty, without whitespace
/// or `'='`.
pub open spec fn plain_name(k: Seq<char>) -> bool {
    k.len() > 0 && plain_between(k, 0, k.len() as int)
}

/// A value that reads back as written: without whitespace, and not
/// opening with a quote.
pub open spec fn plain_value(v: Seq<char>) -> bool {
    word_between(v, 0, v.len() as int) && (v.len() == 0 || !is_quote(v[0]))
}

/// ` key=value` for each pair of `ps`, in order.
pub open spec fn assignments(ps: Seq<(Seq<char>, Seq<char>)>) -> Seq<char>
    decreases ps.len(),
{
    if ps.len() == 0 {
        Seq::empty()
    } else {
        seq![' '] + ps[0].0 + seq!['='] + ps[0].1 + assignments(ps.drop_first())
    }
}

/// The terms of `assignments(ps)` when it stands at offset `off`.
pub open spec fn assignment_terms(ps: Seq<(Seq<char>, Seq<char>)>, off: int) -> Seq<Term>
    decreases ps.len(),
{
    if ps.len() == 0 {
        Seq::empty()
    } else {
        seq![Term { start: (off + 1) as nat, key: ps[0].0, value: Some(ps[0].1) }]
            + assignment_terms(ps.drop_first(), off + 2 + ps[0].0.len() + ps[0].1.len())
    }
}

/// Every pair of `ps` has a plain keyword and a plain value.
pub open spec fn plain_pairs(ps: Seq<(Seq<char>, Seq<char>)>) -> bool {
    forall|j: int| 0 <= j < ps.len() ==> plain_name(#[trigger] ps[j].0) && plain_value(ps[j].1)
}

proof fn lemma_assignments_terms(s: Seq<char>, ps: Seq<(Seq<char>, Seq<char>)>, off: int)
    requires
        0 <= off <= s.len(),
        s.subrange(off, s.len() as int) == assignments(ps),
        plain_pairs(ps),
    ensures
        terms_from(s, off) == Ok::<Seq<Term>, int>(assignment_terms(ps, off)),
    decreases ps.len(),
{
    if ps.len() == 0 {
        assert(s.subrange(off, s.len() as int).len() == 0);
    } else {
        let k = ps[0].0;
        let v = ps[0].1;
        let rest = ps.drop_first();
        let t = s.subrange(off, s.len() as int);
        assert(plain_name(k) && plain_value(v));
        assert(t == seq![' '] + k + seq!['='] + v + assignments(rest));
        let ks = off + 1;
        let ke = ks + k.len();
        let e = ke + 1 + v.len();
        assert(s[off] == t[0]);
        lemma_terms_skip(s, off);
        assert forall|m: int| ks <= m < ke implies !is_ws(#[trigger] s[m]) && s[m] != '=' by {
            assert(s[m] == t[m - off]);
            assert(t[m - off] == k[m - ks]);
        }
        assert(s[ke] == t[ke - off]);
        assert forall|m: int| ke + 1 <= m < e implies !is_ws(#[trigger] s[m]) by {
            assert(s[m] == t[m - off]);
            assert(t[m - off] == v[m - ke - 1]);
        }
        if v.len() > 0 {
            assert(s[ke + 1] == t[ke + 1 - off]);
            assert(t[ke + 1 - off] == v[0]);
        }
        assert(s.subrange(e, s.len() as int) =~= assignments(rest)) by {
            assert(t.subrange(e - off, t.len() as int) =~= assignments(rest));
        }
        if e < s.len() {
            assert(assignments(rest).len() > 0);
            assert(s[e] == assignments(rest)[0]);
        }
        assert(s.subrange(ks, ke) =~= k) by {
            assert forall|m: int| 0 <= m < k.len() implies s.subrange(ks, ke)[m] == k[m] by {
                assert(s[ks + m] == t[ks + m - off]);
            }
        }
        assert(s.subrange(ke + 1, e) =~= v) by {
            assert forall|m: int| 0 <= m < v.len() implies s.subrange(ke + 1, e)[m] == v[m] by {
                assert(s[ke + 1 + m] == t[ke + 1 + m - off]);
            }
        }
        lemma_term_valued(s, ks, ke, e);
        assert forall|j: int| 0 <= j < rest.len() implies plain_name(#[trigger] rest[j].0)
            && plain_value(rest[j].1) by {
            assert(rest[j] == ps[j + 1]);
        }
        lemma_assignments_terms(s, rest, e);
    }
}

/// A statement that declares `decl` and gives each option of `ps` its
/// value reads as the terms it was written from.
pub proof fn law_statement_terms(decl: Seq<char>, ps: Seq<(Seq<char>, Seq<char>)>)
    requires
        plain_name(decl),
        plain_pairs(ps),
    ensures
        terms(decl + assignments(ps)) == Ok::<Seq<Term>, int>(
            seq![Term { start: 0, key: decl, value: None }] + assignment_terms(
                ps,
                decl.len() as int,
            ),
        ),
{
    let s = decl + assignments(ps);
    assert(s.subrange(decl.len() as int, s.len() as int) =~= assignments(ps));
    assert forall|m: int| 0 <= m < decl.len() implies !is_ws(#[trigger] s[m]) && s[m] != '=' by {
        assert(s[m] == decl[m]);
    }
    if ps.len() > 0 {
        assert(s[decl.len() as int] == assignments(ps)[0]);
    }
    assert(s.subrange(0, decl.len() as int) =~= decl);
    lemma_term_bare(s, 0, decl.len() as int);
    lemma_assignments_terms(s, ps, decl.len() as int);
}

/// A statement that is one option `key=value` reads as that one term.
pub proof fn law_single_term(key: Seq<char>, v: Seq<char>)
    requires
        plain_name(key),
        plain_value(v),
    ensures
        terms(key + seq!['='] + v) == Ok::<Seq<Term>, int>(
            seq![Term { start: 0, key: key, value: Some(v) }],
        ),
{
    let s = key + seq!['='] + v;
    let k = key.len() as int;
    assert forall|m: int| 0 <= m < k implies !is_ws(#[trigger] s[m]) && s[m] != '=' by {
        assert(s[m] == key[m]);
    }
    assert forall|m: int| k + 1 <= m < s.len() implies !is_ws(#[trigger] s[m]) by {
        assert(s[m] == v[m - k - 1]);
    }
    if v.len() > 0 {
        assert(s[k + 1] == v[0]);
    }
    assert(s.subrange(0, k) =~= key);
    assert(s.subrange(k + 1, s.len() as int) =~= v);
    lemma_term_valued(s, 0, k, s.len() as int);
    assert(seq![Term { start: 0, key: key, value: Some(v) }] + Seq::<Term>::empty() =~= seq![
        Term { start: 0, key: key, value: Some(v) },
    ]);
}

/// A term of a statement.
#[derive(Debug, Clone)]
pub struct Token {
    /// Position of the term's first character.
    pub start: usize,
    /// The keyword.
    pub key: Vec<char>,
    /// The value after `=`, if there is an `=`.
    pub value: Option<Vec<char>>,
}

impl View for Token {
    type V = Term;

    open spec fn view(&self) -> Term {
        Term {
            start: self.start as nat,
            key: self.key@,
            value: match self.value {
                Some(v) => Some(v@),
                None => None,
            },
        }
    }
}

/// The keyword of `t` ends within a text of length `n`, before its end
/// when a value follows.
pub open spec fn token_fits(t: Token, n: nat) -> bool {
    &&& t.start + t.key@.len() <= n
    &&& t.value is Some ==> t.start + t.key@.len() < n
}

/// The models of `ts`.
pub open spec fn token_views(ts: Seq<Token>) -> Seq<Term> {
    Seq::new(ts.len(), |k: int| ts[k]@)
}

proof fn lemma_key_end_from(s: Seq<char>, i: int)
    requires
        0 <= i,
    ensures
        key_end(s, i) >= i,
    decreases s.len() - i,
{
    if i < s.len() && !is_ws(s[i]) && s[i] != '=' {
        lemma_key_end_from(s, i + 1);
    }
}

fn key_end_exec(s: &[char], i: usize) -> (r: usize)
    requires
        i <= s@.len(),
    ensures
        r == key_end(s@, i as int),
        i <= r <= s@.len(),
        forall|m: int| i <= m < r ==> !is_ws(#[trigger] s@[m]) && s@[m] != '=',
{
    let mut j = i;
    while j < s.len() && s[j] != ' ' && s[j] != '\t' && s[j] != '\n' && s[j] != '\r' && s[j]
        != '='
        invariant
            i <= j <= s@.len(),
            key_end(s@, i as int) == key_end(s@, j as int),
            forall|m: int| i <= m < j ==> !is_ws(#[trigger] s@[m]) && s@[m] != '=',
        decreases s@.len() - j,
    {
        j = j + 1;
    }
    j
}

fn word_end_exec(s: &[char], i: usize) -> (r: usize)
    requires
        i <= s@.len(),
    ensures
        r == word_end(s@, i as int),
        i <= r <= s@.len(),
{
    let mut j = i;
    while j < s.len() && s[j] != ' ' && s[j] != '\t' && s[j] != '\n' && s[j] != '\r'
        invariant
            i <= j <= s@.len(),
            word_end(s@, i as int) == word_end(s@, j as int),
        decreases s@.len() - j,
    {
        j = j + 1;
    }
    j
}

fn quote_close_exec(s: &[char], i: usize, q: char) -> (r: usize)
    requires
        i <= s@.len(),
    ensures
        r == quote_close(s@, i as int, q),
        i <= r <= s@.len(),
{
    let mut j = i;
    while j < s.len() && s[j] != q
        invariant
            i <= j <= s@.len(),
            quote_close(s@, i as int, q) == quote_close(s@, j as int, q),
        decreases s@.len() - j,
    {
        j = j + 1;
    }
    j
}

fn term_end_exec(s: &[char], i: usize) -> (r: Result<usize, usize>)
    requires
        i < s@.len(),
        !is_ws(s@[i as int]),
    ensures
        r matches Ok(e) ==> term_end(s@, i as int) == Ok::<int, int>(e as int) && i < e <= s@.len(),
        r matches Err(p) ==> term_end(s@, i as int) == Err::<int, int>(p as int),
{
    let k = key_end_exec(s, i);
    if k < s.len() && s[k] == '=' {
        let v = k + 1;
        if v < s.len() && (s[v] == '\'' || s[v] == '"') {
            let c = quote_close_exec(s, v + 1, s[v]);
            if c >= s.len() {
                Err(v)
            } else if c + 1 < s.len() && !(s[c + 1] == ' ' || s[c + 1] == '\t' || s[c + 1] == '\n'
                || s[c + 1] == '\r') {
                Err(c + 1)
            } else {
                Ok(c + 1)
            }
        } else {
            let w = word_end_exec(s, v);
            Ok(w)
        }
    } else {
        proof {
            if k == i {
                lemma_key_end_from(s@, i + 1);
            }
        }
        Ok(k)
    }
}

fn copy_range(s: &[char], i: usize, j: usize) -> (v: Vec<char>)
    requires
        i <= j <= s@.len(),
    ensures
        v@ == s@.subrange(i as int, j as int),
{
    let mut v = Vec::new();
    let mut k = i;
    while k < j
        invariant
            i <= k <= j,
            j <= s@.len(),
            v@ == s@.subrange(i as int, k as int),
        decreases j - k,
    {
        v.push(s[k]);
        proof {
            assert(s@.subrange(i as int, k + 1) =~= s@.subrange(i as int, k as int).push(s@[k as int]));
        }
        k = k + 1;
    }
    v
}

/// The unit that holds the grammar of the command line language.
pub struct GrammarParser;

impl GrammarParser {
    /// The terms of `s`, or the position at which `s` fails to conform to
    /// the grammar.
    pub fn terms(s: &[char]) -> (r: Result<Vec<Token>, usize>)
        ensures
            r matches Ok(ts) ==> terms(s@) == Ok::<Seq<Term>, int>(token_views(ts@)),
            r matches Err(p) ==> terms(s@) == Err::<Seq<Term>, int>(p as int),
            r matches Ok(ts) ==> forall|m: int|
                0 <= m < ts@.len() ==> #[trigger] token_fits(ts@[m], s@.len()),
    {
        let mut ts: Vec<Token> = Vec::new();
        let mut i: usize = 0;
        proof {
            assert(token_views(ts@) =~= Seq::<Term>::empty());
        }
        while i < s.len()
            invariant
                0 <= i <= s@.len(),
                terms(s@) == prepend_terms(token_views(ts@), terms_from(s@, i as int)),
                forall|m: int| 0 <= m < ts@.len() ==> #[trigger] token_fits(ts@[m], s@.len()),
            decreases s@.len() - i,
        {
            let c = s[i];
            if c == ' ' || c == '\t' || c == '\n' || c == '\r' {
                i = i + 1;
            } else {
                match term_end_exec(s, i) {
                    Err(p) => {
                        return Err(p);
                    },
                    Ok(e) => {
                        let k = key_end_exec(s, i);
                        let key = copy_range(s, i, k);
                        let value = if k < e {
                            Some(copy_range(s, k + 1, e))
                        } else {
                            None
                        };
                        let t = Token { start: i, key, value };
                        proof {
                            assert(t@ == term_at(s@, i as int, e as int));
                            assert(token_fits(t, s@.len()));
                        }
                        let ghost before = token_views(ts@);
                        ts.push(t);
                        proof {
                            let t1 = term_at(s@, i as int, e as int);
                            assert(token_views(ts@) =~= before + seq![t1]);
                            assert(terms_from(s@, i as int) == prepend_terms(
                                seq![t1],
                                terms_from(s@, e as int),
                            ));
                            match terms_from(s@, e as int) {
                                Ok(rest) => {
                                    assert((before + seq![t1]) + rest =~= before + (seq![t1] + rest));
                                },
                                Err(_) => {},
                            }
                        }
                        i = e;
                    },
                }
            }
        }
        proof {
            assert(token_views(ts@) + Seq::<Term>::empty() =~= token_views(ts@));
        }
        Ok(ts)
    }
}

} // verus!

verus! {

/// Why a string does not hold a floating-point number (the kinds of
/// `core::num::ParseFloatError`).
#[derive(Debug, Clone, Copy, PartialEq, Eq, Structural)]
pub enum FloatErrorKind {
    /// The string is empty.
    Empty,
    /// The string is not a floating-point literal.
    Invalid,
}

/// The blocks of the command line language whose statements can fail to
/// conform to the grammar.
#[derive(Debug, Clone, Copy, PartialEq, Eq, Structural)]
pub enum Block {
    /// `metric`
    Metric,
    /// `engine`
    Engine,
    /// `adapt` of sampling
    SampleAdapt,
    /// `algorithm` of sampling
    SampleAlgorithm,
    /// `algorithm` of optimization
    OptimizeAlgorithm,
    /// `adapt` of variational inference
    VariationalAdapt,
    /// `algorithm` of variational inference
    VariationalAlgorithm,
    /// `test` of diagnosis
    DiagnoseTest,
    /// `method`
    Method,
    /// `output`
    Output,
    /// `random`
    Random,
    /// `data`
    Data,
    /// a whole command line
    ArgumentTree,
}

/// Errors that arise from parsing the command line language.
#[derive(Debug, Clone, PartialEq, Eq)]
pub enum ParseGrammarError {
    /// An integer value does not fit its option.
    IntError(IntErrorKind),
    /// A floating-point value cannot be read.
    FloatError(FloatErrorKind),
    /// A metric statement fails to conform at this position.
    MetricError(usize),
    /// An engine statement fails to conform at this position.
    EngineError(usize),
    /// A sampling adaptation statement fails to conform at this position.
    SampleAdaptError(usize),
    /// A sampling algorithm statement fails to conform at this position.
    SampleAlgorithmError(usize),
    /// An optimization algorithm statement fails to conform at this position.
    OptimizeAlgorithmError(usize),
    /// A variational adaptation statement fails to conform at this position.
    VariationalAdaptError(usize),
    /// A variational algorithm statement fails to conform at this position.
    VariationalAlgorithmError(usize),
    /// A diagnostic test statement fails to conform at this position.
    DiagnoseTestError(usize),
    /// A method statement fails to conform at this position.
    MethodError(usize),
    /// An output statement fails to conform at this position.
    OutputError(usize),
    /// A random statement fails to conform at this position.
    RandomError(usize),
    /// A data statement fails to conform at this position.
    DataError(usize),
    /// A command line fails to conform at this position.
    ArgumentTreeError(usize),
    /// A top-level option was declared more than once.
    TopLevelDuplicate(&'static str),
    /// A command line names no method.
    MethodNotSpecified,
}

/// The error for a statement of block `b` that fails to conform to the
/// grammar at position `p`.
pub open spec fn block_error(b: Block, p: usize) -> ParseGrammarError {
    match b {
        Block::Metric => ParseGrammarError::MetricError(p),
        Block::Engine => ParseGrammarError::EngineError(p),
        Block::SampleAdapt => ParseGrammarError::SampleAdaptError(p),
        Block::SampleAlgorithm => ParseGrammarError::SampleAlgorithmError(p),
        Block::OptimizeAlgorithm => ParseGrammarError::OptimizeAlgorithmError(p),
        Block::VariationalAdapt => ParseGrammarError::VariationalAdaptError(p),
        Block::VariationalAlgorithm => ParseGrammarError::VariationalAlgorithmError(p),
        Block::DiagnoseTest => ParseGrammarError::DiagnoseTestError(p),
        Block::Method => ParseGrammarError::MethodError(p),
        Block::Output => ParseGrammarError::OutputError(p),
        Block::Random => ParseGrammarError::RandomError(p),
        Block::Data => ParseGrammarError::DataError(p),
        Block::ArgumentTree => ParseGrammarError::ArgumentTreeError(p),
    }
}

/// The error that a refused statement of block `b` is answered with.
pub open spec fn fault_error(f: Fault, b: Block) -> ParseGrammarError {
    match f {
        Fault::Grammar(p) => block_error(b, p as usize),
        Fault::Int(k) => ParseGrammarError::IntError(k),
    }
}

/// The word that names block `b` in messages.
pub open spec fn block_word(b: Block) -> Seq<char> {
    match b {
        Block::Metric => "method"@,
        Block::Engine => "engine"@,
        Block::SampleAdapt => "(sample) adapt"@,
        Block::SampleAlgorithm => "(sample) algorithm"@,
        Block::OptimizeAlgorithm => "(optimize) algorithm"@,
        Block::VariationalAdapt => "(variational) adapt"@,
        Block::VariationalAlgorithm => "(variational) algorithm"@,
        Block::DiagnoseTest => "test"@,
        Block::Method => "method"@,
        Block::Output => "output"@,
        Block::Random => "random"@,
        Block::Data => "data"@,
        Block::ArgumentTree => "top-level"@,
    }
}

/// The block and position of a grammar error, if `e` is one.
pub open spec fn error_place(e: ParseGrammarError) -> Option<(Block, usize)> {
    match e {
        ParseGrammarError::MetricError(p) => Some((Block::Metric, p)),
        ParseGrammarError::EngineError(p) => Some((Block::Engine, p)),
        ParseGrammarError::SampleAdaptError(p) => Some((Block::SampleAdapt, p)),
        ParseGrammarError::SampleAlgorithmError(p) => Some((Block::SampleAlgorithm, p)),
        ParseGrammarError::OptimizeAlgorithmError(p) => Some((Block::OptimizeAlgorithm, p)),
        ParseGrammarError::VariationalAdaptError(p) => Some((Block::VariationalAdapt, p)),
        ParseGrammarError::VariationalAlgorithmError(p) => Some((Block::VariationalAlgorithm, p)),
        ParseGrammarError::DiagnoseTestError(p) => Some((Block::DiagnoseTest, p)),
        ParseGrammarError::MethodError(p) => Some((Block::Method, p)),
        ParseGrammarError::OutputError(p) => Some((Block::Output, p)),
        ParseGrammarError::RandomError(p) => Some((Block::Random, p)),
        ParseGrammarError::DataError(p) => Some((Block::Data, p)),
        ParseGrammarError::ArgumentTreeError(p) => Some((Block::ArgumentTree, p)),
        _ => None,
    }
}

/// The message of an integer that cannot be read.
pub open spec fn int_error_message(k: IntErrorKind) -> Seq<char> {
    match k {
        IntErrorKind::Empty => "cannot parse integer from empty string"@,
        IntErrorKind::InvalidDigit => "invalid digit found in string"@,
        IntErrorKind::PosOverflow => "number too large to fit in target type"@,
        IntErrorKind::NegOverflow => "number too small to fit in target type"@,
    }
}

/// The message of a floating-point number that cannot be read.
pub open spec fn float_error_message(k: FloatErrorKind) -> Seq<char> {
    match k {
        FloatErrorKind::Empty => "cannot parse float from empty string"@,
        FloatErrorKind::Invalid => "invalid float literal"@,
    }
}

/// The message that describes `e`.
pub open spec fn error_message(e: ParseGrammarError) -> Seq<char> {
    match error_place(e) {
        Some((b, p)) => block_word(b) + " does not conform to grammar at position "@ + nat_text(
            p as nat,
        ),
        None => match e {
            ParseGrammarError::IntError(k) => int_error_message(k),
            ParseGrammarError::FloatError(k) => float_error_message(k),
            ParseGrammarError::TopLevelDuplicate(s) => s@ + " was declared more than once"@,
            _ => "A method must be specified!"@,
        },
    }
}

impl Block {
    /// The word that names `self` in messages.
    pub fn word(&self) -> (s: &'static str)
        ensures
            s@ == block_word(*self),
    {
        match self {
            Block::Metric => "method",
            Block::Engine => "engine",
            Block::SampleAdapt => "(sample) adapt",
            Block::SampleAlgorithm => "(sample) algorithm",
            Block::OptimizeAlgorithm => "(optimize) algorithm",
            Block::VariationalAdapt => "(variational) adapt",
            Block::VariationalAlgorithm => "(variational) algorithm",
            Block::DiagnoseTest => "test",
            Block::Method => "method",
            Block::Output => "output",
            Block::Random => "random",
            Block::Data => "data",
            Block::ArgumentTree => "top-level",
        }
    }
}

impl ParseGrammarError {
    /// The error for a statement of block `b` that fails to conform to
    /// the grammar at position `p`.
    pub fn at(b: Block, p: usize) -> (e: ParseGrammarError)
        ensures
            e == block_error(b, p),
    {
        match b {
            Block::Metric => ParseGrammarError::MetricError(p),
            Block::Engine => ParseGrammarError::EngineError(p),
            Block::SampleAdapt => ParseGrammarError::SampleAdaptError(p),
            Block::SampleAlgorithm => ParseGrammarError::SampleAlgorithmError(p),
            Block::OptimizeAlgorithm => ParseGrammarError::OptimizeAlgorithmError(p),
            Block::VariationalAdapt => ParseGrammarError::VariationalAdaptError(p),
            Block::VariationalAlgorithm => ParseGrammarError::VariationalAlgorithmError(p),
            Block::DiagnoseTest => ParseGrammarError::DiagnoseTestError(p),
            Block::Method => ParseGrammarError::MethodError(p),
            Block::Output => ParseGrammarError::OutputError(p),
            Block::Random => ParseGrammarError::RandomError(p),
            Block::Data => ParseGrammarError::DataError(p),
            Block::ArgumentTree => ParseGrammarError::ArgumentTreeError(p),
        }
    }

    /// The error that a refusal of a statement of block `b` is answered
    /// with.
    pub fn from_refusal(f: Refusal, b: Block) -> (e: ParseGrammarError)
        ensures
            e == fault_error(f@, b),
    {
        match f {
            Refusal::Grammar(p) => ParseGrammarError::at(b, p),
            Refusal::Int(k) => ParseGrammarError::IntError(k),
        }
    }

    /// The block and position of `self`, if it is a grammar error.
    pub fn place(&self) -> (r: Option<(Block, usize)>)
        ensures
            r == error_place(*self),
    {
        match self {
            ParseGrammarError::MetricError(p) => Some((Block::Metric, *p)),
            ParseGrammarError::EngineError(p) => Some((Block::Engine, *p)),
            ParseGrammarError::SampleAdaptError(p) => Some((Block::SampleAdapt, *p)),
            ParseGrammarError::SampleAlgorithmError(p) => Some((Block::SampleAlgorithm, *p)),
            ParseGrammarError::OptimizeAlgorithmError(p) => Some((Block::OptimizeAlgorithm, *p)),
            ParseGrammarError::VariationalAdaptError(p) => Some((Block::VariationalAdapt, *p)),
            ParseGrammarError::VariationalAlgorithmError(p) => Some(
                (Block::VariationalAlgorithm, *p),
            ),
            ParseGrammarError::DiagnoseTestError(p) => Some((Block::DiagnoseTest, *p)),
            ParseGrammarError::MethodError(p) => Some((Block::Method, *p)),
            ParseGrammarError::OutputError(p) => Some((Block::Output, *p)),
            ParseGrammarError::RandomError(p) => Some((Block::Random, *p)),
            ParseGrammarError::DataError(p) => Some((Block::Data, *p)),
            ParseGrammarError::ArgumentTreeError(p) => Some((Block::ArgumentTree, *p)),
            _ => None,
        }
    }

    /// The message that describes `self` (what `Display` writes).
    pub fn message(&self) -> (s: String)
        ensures
            s@ == error_message(*self),
    {
        match self.place() {
            Some((b, p)) => {
                let mut s = b.word().to_owned();
                s.append(" does not conform to grammar at position ");
                let digits = nat_text_exec(p as u64);
                let d = string_of(digits.as_slice());
                s.append(d.as_str());
                s
            },
            None => match self {
                ParseGrammarError::IntError(k) => match k {
                    IntErrorKind::Empty => "cannot parse integer from empty string".to_owned(),
                    IntErrorKind::InvalidDigit => "invalid digit found in string".to_owned(),
                    IntErrorKind::PosOverflow => "number too large to fit in target type".to_owned(),
                    IntErrorKind::NegOverflow => "number too small to fit in target type".to_owned(),
                },
                ParseGrammarError::FloatError(k) => match k {
                    FloatErrorKind::Empty => "cannot parse float from empty string".to_owned(),
                    FloatErrorKind::Invalid => "invalid float literal".to_owned(),
                },
                ParseGrammarError::TopLevelDuplicate(name) => {
                    let mut s = (*name).to_owned();
                    s.append(" was declared more than once");
                    s
                },
                _ => "A method must be specified!".to_owned(),
            },
        }
    }
}

} // verus!
