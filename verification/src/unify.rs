//! Unification of the terms of a statement into the options of one block.
//!
//! A block statement opens with its declaration (such as `random`) and
//! goes on with terms that each name one option of the block. Each
//! option has a kind that says which values conform to the grammar. A
//! statement is read in two passes: first every term is checked against
//! the grammar, then the values are read from left to right, the last
//! value given for an option winning.
use vstd::prelude::*;
use crate::parser::{GrammarParser, Term, Token, terms, token_fits, token_views};
use crate::text::{IntErrorKind, IntRead, int_literal, is_digit, spec_read_int, read_int, chars_of};

verus! {

/// How the value of an option is written.
#[derive(Debug, Clone, Copy, PartialEq, Eq, Structural)]
pub enum Kind {
    /// Any value, kept as written (quotes included).
    Path,
    /// `0` or `1`, possibly signed.
    Flag,
    /// A 32-bit signed integer.
    Int32,
    /// A 64-bit signed integer.
    Int64,
    /// A 32-bit unsigned integer.
    UInt32,
    /// A decimal floating-point literal, kept as written.
    Real,
}

/// An option of a block: its keyword and the kind of its values.
#[derive(Debug, Clone, Copy)]
pub struct Field {
    /// The option's keyword.
    pub name: &'static str,
    /// The kind of the option's values.
    pub kind: Kind,
}

/// Model of a [`Field`].
pub struct FieldSpec {
    /// The option's keyword.
    pub name: Seq<char>,
    /// The kind of the option's values.
    pub kind: Kind,
}

impl View for Field {
    type V = FieldSpec;

    open spec fn view(&self) -> FieldSpec {
        FieldSpec { name: self.name@, kind: self.kind }
    }
}

/// The models of `fs`.
pub open spec fn field_views(fs: Seq<Field>) -> Seq<FieldSpec> {
    Seq::new(fs.len(), |k: int| fs[k]@)
}

/// A value given to an option (model).
pub enum Setting {
    /// A value kept as written.
    Text(Seq<char>),
    /// A flag.
    Flag(bool),
    /// An integer.
    Int(int),
}

/// A value given to an option.
#[derive(Debug, Clone)]
pub enum Value {
    /// A value kept as written.
    Text(Vec<char>),
    /// A flag.
    Flag(bool),
    /// An integer.
    Int(i64),
}

impl View for Value {
    type V = Setting;

    open spec fn view(&self) -> Setting {
        match self {
            Value::Text(v) => Setting::Text(v@),
            Value::Flag(b) => Setting::Flag(*b),
            Value::Int(x) => Setting::Int(*x as int),
        }
    }
}

/// The model of an optional value.
pub open spec fn opt_setting(o: Option<Value>) -> Option<Setting> {
    match o {
        Some(v) => Some(v@),
        None => None,
    }
}

/// The models of the optional values `vs`.
pub open spec fn settings_view(vs: Seq<Option<Value>>) -> Seq<Option<Setting>> {
    Seq::new(vs.len(), |k: int| opt_setting(vs[k]))
}

/// Why a statement is refused (model).
pub enum Fault {
    /// The statement does not conform to the grammar at this position.
    Grammar(int),
    /// An integer value does not fit its option.
    Int(IntErrorKind),
}

/// Why a statement is refused.
#[derive(Debug, Clone, Copy, PartialEq, Eq, Structural)]
pub enum Refusal {
    /// The statement does not conform to the grammar at this position.
    Grammar(usize),
    /// An integer value does not fit its option.
    Int(IntErrorKind),
}

impl View for Refusal {
    type V = Fault;

    open spec fn view(&self) -> Fault {
        match self {
            Refusal::Grammar(p) => Fault::Grammar(*p as int),
            Refusal::Int(k) => Fault::Int(*k),
        }
    }
}

/// A flag literal: `0` or `1`, possibly preceded by a sign.
pub open spec fn flag_literal(v: Seq<char>) -> Option<bool> {
    let d = if v.len() > 0 && (v[0] == '+' || v[0] == '-') {
        v.drop_first()
    } else {
        v
    };
    if d == seq!['1'] {
        Some(true)
    } else if d == seq!['0'] {
        Some(false)
    } else {
        None
    }
}

/// The first position at or after `i` that does not hold a decimal digit.
pub open spec fn digits_end(v: Seq<char>, i: int) -> int
    decreases v.len() - i,
{
    if i < 0 || i >= v.len() || !is_digit(v[i]) {
        i
    } else {
        digits_end(v, i + 1)
    }
}

/// End of the mantissa of a decimal literal whose digits start at `a`:
/// digits, then optionally `'.'` and more digits.
pub open spec fn mantissa_end(v: Seq<char>, a: int) -> int {
    let b = digits_end(v, a);
    if b < v.len() && v[b] == '.' {
        digits_end(v, b + 1)
    } else {
        b
    }
}

/// A decimal floating-point literal: an optional sign, digits with an
/// optional fractional part (at least one digit in all), and an optional
/// exponent (`e` or `E`, an optional sign, one or more digits).
pub open spec fn real_literal(v: Seq<char>) -> bool {
    let a: int = if v.len() > 0 && (v[0] == '+' || v[0] == '-') {
        1
    } else {
        0
    };
    let c = mantissa_end(v, a);
    let point: int = if digits_end(v, a) < v.len() && v[digits_end(v, a)] == '.' {
        1
    } else {
        0
    };
    let has_digits = c - a - point > 0;
    if c < v.len() && (v[c] == 'e' || v[c] == 'E') {
        let e0: int = if c + 1 < v.len() && (v[c + 1] == '+' || v[c + 1] == '-') {
            c + 2
        } else {
            c + 1
        };
        has_digits && digits_end(v, e0) > e0 && digits_end(v, e0) == v.len()
    } else {
        has_digits && c == v.len()
    }
}

/// Whether `v` is written as a value of kind `k`.
pub open spec fn conforms(k: Kind, v: Seq<char>) -> bool {
    match k {
        Kind::Path => true,
        Kind::Flag => flag_literal(v) is Some,
        Kind::Int32 | Kind::Int64 | Kind::UInt32 => int_literal(v) is Some,
        Kind::Real => real_literal(v),
    }
}

/// Smallest and largest value of an integer kind.
pub open spec fn kind_bounds(k: Kind) -> (int, int) {
    match k {
        Kind::Int32 => (-0x8000_0000, 0x7fff_ffff),
        Kind::UInt32 => (0, 0xffff_ffff),
        _ => (-0x8000_0000_0000_0000, 0x7fff_ffff_ffff_ffff),
    }
}

/// Whether `k` is an integer kind.
pub open spec fn is_int_kind(k: Kind) -> bool {
    k == Kind::Int32 || k == Kind::Int64 || k == Kind::UInt32
}

/// The value of `v` as an option of kind `k`; for an integer out of
/// bounds, why it does not fit.
pub open spec fn setting_of(k: Kind, v: Seq<char>) -> Result<Setting, IntErrorKind> {
    match k {
        Kind::Path | Kind::Real => Ok(Setting::Text(v)),
        Kind::Flag => Ok(Setting::Flag(flag_literal(v) == Some(true))),
        Kind::UInt32 if v.len() > 0 && v[0] == '-' => Err(IntErrorKind::InvalidDigit),
        Kind::Int32 | Kind::Int64 | Kind::UInt32 => match spec_read_int(
            v,
            kind_bounds(k).0,
            kind_bounds(k).1,
        ) {
            IntRead::Value(x) => Ok(Setting::Int(x as int)),
            IntRead::OutOfRange(e) => Err(e),
            IntRead::NotLiteral => Err(IntErrorKind::InvalidDigit),
        },
    }
}

/// Index of the first option of `fs` from `j` on whose keyword is `key`.
pub open spec fn find_field_from(fs: Seq<FieldSpec>, key: Seq<char>, j: int) -> Option<int>
    decreases fs.len() - j,
{
    if j < 0 || j >= fs.len() {
        None
    } else if fs[j].name == key {
        Some(j)
    } else {
        find_field_from(fs, key, j + 1)
    }
}

/// Index of the option of `fs` whose keyword is `key`.
pub open spec fn find_field(fs: Seq<FieldSpec>, key: Seq<char>) -> Option<int> {
    find_field_from(fs, key, 0)
}

/// Where the option term `ts[j]` fails to conform to the grammar: at its
/// start when it names no option or repeats the keyword of the bare term
/// just before it, at its value when the value is not of the option's
/// kind.
pub open spec fn term_fault(fs: Seq<FieldSpec>, ts: Seq<Term>, j: int) -> Option<int> {
    let t = ts[j];
    match find_field(fs, t.key) {
        None => Some(t.start as int),
        Some(f) => match t.value {
            None => if j >= 2 && ts[j - 1].value is None && ts[j - 1].key == t.key {
                Some(t.start as int)
            } else {
                None
            },
            Some(v) => if conforms(fs[f].kind, v) {
                None
            } else {
                Some((t.start + t.key.len() + 1) as int)
            },
        },
    }
}

/// The first fault of the option terms `ts[j..]`.
pub open spec fn first_fault(fs: Seq<FieldSpec>, ts: Seq<Term>, j: int) -> Option<int>
    decreases ts.len() - j,
{
    if j < 1 || j >= ts.len() {
        None
    } else {
        match term_fault(fs, ts, j) {
            Some(p) => Some(p),
            None => first_fault(fs, ts, j + 1),
        }
    }
}

/// The options of a block before any term: none given.
pub open spec fn unset(n: nat) -> Seq<Option<Setting>> {
    Seq::new(n, |_k: int| None)
}

/// `cur` after the option term `t`.
pub open spec fn settle_term(fs: Seq<FieldSpec>, cur: Seq<Option<Setting>>, t: Term) -> Result<
    Seq<Option<Setting>>,
    IntErrorKind,
> {
    match find_field(fs, t.key) {
        None => Ok(cur),
        Some(f) => match t.value {
            None => Ok(cur),
            Some(v) => match setting_of(fs[f].kind, v) {
                Ok(x) => Ok(cur.update(f, Some(x))),
                Err(e) => Err(e),
            },
        },
    }
}

/// The options given by the option terms `ts[1..n]`, the last value for
/// an option winning; the first integer that does not fit stops it.
pub open spec fn settle(fs: Seq<FieldSpec>, ts: Seq<Term>, n: int) -> Result<
    Seq<Option<Setting>>,
    IntErrorKind,
>
    decreases n,
{
    if n <= 1 {
        Ok(unset(fs.len()))
    } else {
        match settle(fs, ts, n - 1) {
            Err(e) => Err(e),
            Ok(cur) => settle_term(fs, cur, ts[n - 1]),
        }
    }
}

/// The options of the block declared by `decl`, with options `fs`, that
/// statement `s` gives.
pub open spec fn unify(decl: Seq<char>, fs: Seq<FieldSpec>, s: Seq<char>) -> Result<
    Seq<Option<Setting>>,
    Fault,
> {
    match terms(s) {
        Err(p) => Err(Fault::Grammar(p)),
        Ok(ts) => if ts.len() == 0 {
            Err(Fault::Grammar(s.len() as int))
        } else if ts[0].key != decl || ts[0].value is Some {
            Err(Fault::Grammar(ts[0].start as int))
        } else {
            match first_fault(fs, ts, 1) {
                Some(p) => Err(Fault::Grammar(p)),
                None => match settle(fs, ts, ts.len() as int) {
                    Err(e) => Err(Fault::Int(e)),
                    Ok(st) => Ok(st),
                },
            }
        },
    }
}

/// The variant chosen by the statement `s` of the choice `decl`, among
/// the variants named `names`: `None` when no variant is named.
pub open spec fn choose_variant(decl: Seq<char>, names: Seq<Seq<char>>, s: Seq<char>) -> Result<
    Option<int>,
    int,
> {
    match terms(s) {
        Err(p) => Err(p),
        Ok(ts) => if ts.len() == 0 {
            Err(s.len() as int)
        } else if ts[0].key != decl {
            Err(ts[0].start as int)
        } else if ts.len() > 1 {
            Err(ts[1].start as int)
        } else {
            match ts[0].value {
                None => Ok(None),
                Some(v) => match names.index_of_first(v) {
                    Some(k) => Ok(Some(k)),
                    None => Err((ts[0].start + decl.len() + 1) as int),
                },
            }
        },
    }
}

/// Every value in `st` is of the kind of its option, and every integer
/// lies within the bounds of its kind.
pub open spec fn settings_fit(fs: Seq<FieldSpec>, st: Seq<Option<Setting>>) -> bool {
    &&& st.len() == fs.len()
    &&& forall|f: int|
        0 <= f < st.len() ==> match #[trigger] st[f] {
            None => true,
            Some(Setting::Text(_)) => fs[f].kind == Kind::Path || fs[f].kind == Kind::Real,
            Some(Setting::Flag(_)) => fs[f].kind == Kind::Flag,
            Some(Setting::Int(x)) => is_int_kind(fs[f].kind) && kind_bounds(fs[f].kind).0 <= x
                <= kind_bounds(fs[f].kind).1,
        }
}

proof fn lemma_settle_fits(fs: Seq<FieldSpec>, ts: Seq<Term>, n: int)
    ensures
        settle(fs, ts, n) matches Ok(st) ==> settings_fit(fs, st),
    decreases n,
{
    if n > 1 {
        lemma_settle_fits(fs, ts, n - 1);
        match settle(fs, ts, n - 1) {
            Ok(cur) => {
                let t = ts[n - 1];
                match find_field(fs, t.key) {
                    Some(f) => {
                        lemma_find_field_range(fs, t.key, 0);
                        match t.value {
                            Some(v) => match setting_of(fs[f].kind, v) {
                                Ok(x) => {
                                    let st = cur.update(f, Some(x));
                                    assert forall|g: int| 0 <= g < st.len() implies match #[trigger] st[g] {
                                        None => true,
                                        Some(Setting::Text(_)) => fs[g].kind == Kind::Path
                                            || fs[g].kind == Kind::Real,
                                        Some(Setting::Flag(_)) => fs[g].kind == Kind::Flag,
                                        Some(Setting::Int(x)) => is_int_kind(fs[g].kind)
                                            && kind_bounds(fs[g].kind).0 <= x <= kind_bounds(
                                            fs[g].kind,
                                        ).1,
                                    } by {
                                        if g != f {
                                            assert(st[g] == cur[g]);
                                        }
                                    }
                                },
                                Err(_) => {},
                            },
                            None => {},
                        }
                    },
                    None => {},
                }
            },
            Err(_) => {},
        }
    }
}

proof fn lemma_find_field_range(fs: Seq<FieldSpec>, key: Seq<char>, j: int)
    requires
        0 <= j,
    ensures
        find_field_from(fs, key, j) matches Some(f) ==> j <= f < fs.len() && fs[f].name == key,
    decreases fs.len() - j,
{
    if j < fs.len() && fs[j].name != key {
        lemma_find_field_range(fs, key, j + 1);
    }
}

proof fn lemma_settle_unset(fs: Seq<FieldSpec>, ts: Seq<Term>, n: int, f: int)
    requires
        0 <= f < fs.len(),
        n <= ts.len(),
        settle(fs, ts, n) is Ok,
        forall|j: int| 1 <= j < n && #[trigger] ts[j].key == fs[f].name ==> ts[j].value is None,
    ensures
        settle(fs, ts, n)->Ok_0.len() == fs.len(),
        settle(fs, ts, n)->Ok_0[f] is None,
    decreases n,
{
    if n > 1 {
        lemma_settle_unset(fs, ts, n - 1, f);
        lemma_find_field_range(fs, ts[n - 1].key, 0);
    }
}

/// An option that no term of an accepted statement gives a value keeps
/// no value: the block's default stands for it.
pub proof fn law_unify_unset(decl: Seq<char>, fs: Seq<FieldSpec>, s: Seq<char>, ts: Seq<Term>, f: int)
    requires
        terms(s) == Ok::<Seq<Term>, int>(ts),
        unify(decl, fs, s) is Ok,
        0 <= f < fs.len(),
        forall|j: int| 1 <= j < ts.len() && #[trigger] ts[j].key == fs[f].name ==> ts[j].value is None,
    ensures
        unify(decl, fs, s)->Ok_0.len() == fs.len(),
        unify(decl, fs, s)->Ok_0[f] is None,
{
    lemma_settle_unset(fs, ts, ts.len() as int, f);
}

/// What a statement unifies into fits its block's options.
pub proof fn lemma_unify_fits(decl: Seq<char>, fs: Seq<FieldSpec>, s: Seq<char>)
    ensures
        unify(decl, fs, s) matches Ok(st) ==> settings_fit(fs, st),
{
    match terms(s) {
        Ok(ts) => {
            lemma_settle_fits(fs, ts, ts.len() as int);
        },
        Err(_) => {},
    }
}

/// Whether `a` and `b` hold the same characters.
pub fn chars_eq(a: &[char], b: &[char]) -> (r: bool)
    ensures
        r == (a@ == b@),
{
    if a.len() != b.len() {
        return false;
    }
    let mut i: usize = 0;
    while i < a.len()
        invariant
            a@.len() == b@.len(),
            0 <= i <= a@.len(),
            forall|k: int| 0 <= k < i ==> a@[k] == b@[k],
        decreases a@.len() - i,
    {
        if a[i] != b[i] {
            return false;
        }
        i = i + 1;
    }
    proof {
        assert(a@ =~= b@);
    }
    true
}

/// Index of the option of `fs` whose keyword is `key`.
pub fn find_field_exec(fs: &[Field], key: &[char]) -> (r: Option<usize>)
    ensures
        match r {
            Some(f) => find_field(field_views(fs@), key@) == Some(f as int) && f < fs@.len(),
            None => find_field(field_views(fs@), key@) is None,
        },
{
    let ghost fv = field_views(fs@);
    let mut j: usize = 0;
    while j < fs.len()
        invariant
            fv == field_views(fs@),
            0 <= j <= fs@.len(),
            find_field(fv, key@) == find_field_from(fv, key@, j as int),
        decreases fs@.len() - j,
    {
        let name = chars_of(fs[j].name);
        if chars_eq(name.as_slice(), key) {
            return Some(j);
        }
        j = j + 1;
    }
    None
}

/// Reads a flag literal.
pub fn flag_literal_exec(v: &[char]) -> (r: Option<bool>)
    ensures
        r == flag_literal(v@),
{
    let start: usize = if v.len() > 0 && (v[0] == '+' || v[0] == '-') {
        1
    } else {
        0
    };
    let ghost d = if v@.len() > 0 && (v@[0] == '+' || v@[0] == '-') {
        v@.drop_first()
    } else {
        v@
    };
    proof {
        assert(d =~= v@.subrange(start as int, v@.len() as int));
    }
    if v.len() == start + 1 && v[start] == '1' {
        proof {
            assert(d =~= seq!['1']);
        }
        Some(true)
    } else if v.len() == start + 1 && v[start] == '0' {
        proof {
            assert(d =~= seq!['0']);
        }
        Some(false)
    } else {
        proof {
            assert(d != seq!['1']) by {
                if d == seq!['1'] {
                    assert(d[0] == v@[start as int]);
                }
            }
            assert(d != seq!['0']) by {
                if d == seq!['0'] {
                    assert(d[0] == v@[start as int]);
                }
            }
        }
        None
    }
}

fn digits_end_exec(v: &[char], i: usize) -> (r: usize)
    requires
        i <= v@.len(),
    ensures
        r == digits_end(v@, i as int),
        i <= r <= v@.len(),
{
    let mut j = i;
    while j < v.len() && '0' <= v[j] && v[j] <= '9'
        invariant
            i <= j <= v@.len(),
            digits_end(v@, i as int) == digits_end(v@, j as int),
        decreases v@.len() - j,
    {
        j = j + 1;
    }
    j
}

/// Whether `v` is a decimal floating-point literal.
pub fn real_literal_exec(v: &[char]) -> (b: bool)
    ensures
        b == real_literal(v@),
{
    let a: usize = if v.len() > 0 && (v[0] == '+' || v[0] == '-') {
        1
    } else {
        0
    };
    let b0 = digits_end_exec(v, a);
    let (c, point): (usize, usize) = if b0 < v.len() && v[b0] == '.' {
        (digits_end_exec(v, b0 + 1), 1)
    } else {
        (b0, 0)
    };
    let has_digits = c - a > point;
    if c < v.len() && (v[c] == 'e' || v[c] == 'E') {
        let e0: usize = if c + 1 < v.len() && (v[c + 1] == '+' || v[c + 1] == '-') {
            c + 2
        } else {
            c + 1
        };
        let e1 = digits_end_exec(v, e0);
        has_digits && e1 > e0 && e1 == v.len()
    } else {
        has_digits && c == v.len()
    }
}

/// Whether `v` is written as a value of kind `k`.
pub fn conforms_exec(k: Kind, v: &[char]) -> (b: bool)
    ensures
        b == conforms(k, v@),
{
    match k {
        Kind::Path => true,
        Kind::Flag => flag_literal_exec(v).is_some(),
        Kind::Real => real_literal_exec(v),
        Kind::Int32 | Kind::Int64 | Kind::UInt32 => {
            let lit = read_int(v, 0, 0);
            match lit {
                IntRead::NotLiteral => false,
                _ => true,
            }
        },
    }
}

/// Reads `v` as an option of kind `k`.
pub fn setting_of_exec(k: Kind, v: &Vec<char>) -> (r: Result<Value, IntErrorKind>)
    ensures
        match r {
            Ok(x) => setting_of(k, v@) == Ok::<Setting, IntErrorKind>(x@),
            Err(e) => setting_of(k, v@) == Err::<Setting, IntErrorKind>(e),
        },
{
    match k {
        Kind::Path | Kind::Real => Ok(Value::Text(v.clone())),
        Kind::Flag => {
            let b = flag_literal_exec(v.as_slice());
            Ok(Value::Flag(b == Some(true)))
        },
        Kind::Int32 | Kind::Int64 | Kind::UInt32 => {
            if k == Kind::UInt32 && v.len() > 0 && v[0] == '-' {
                return Err(IntErrorKind::InvalidDigit);
            }
            let (lo, hi): (i128, i128) = match k {
                Kind::Int32 => (-0x8000_0000, 0x7fff_ffff),
                Kind::UInt32 => (0, 0xffff_ffff),
                _ => (-0x8000_0000_0000_0000, 0x7fff_ffff_ffff_ffff),
            };
            match read_int(v.as_slice(), lo, hi) {
                IntRead::Value(x) => Ok(Value::Int(x as i64)),
                IntRead::OutOfRange(e) => Err(e),
                IntRead::NotLiteral => Err(IntErrorKind::InvalidDigit),
            }
        },
    }
}

/// Where the option term `ts[j]` fails to conform to the grammar.
fn term_fault_exec(fs: &[Field], ts: &Vec<Token>, j: usize) -> (r: Option<usize>)
    requires
        1 <= j < ts@.len(),
        forall|m: int| 0 <= m < ts@.len() ==> #[trigger] token_fits(ts@[m], usize::MAX as nat),
    ensures
        match r {
            Some(p) => term_fault(field_views(fs@), token_views(ts@), j as int) == Some(p as int),
            None => term_fault(field_views(fs@), token_views(ts@), j as int) is None,
        },
{
    let ghost fv = field_views(fs@);
    let ghost tv = token_views(ts@);
    let t = &ts[j];
    proof {
        assert(tv[j as int] == t@);
        assert(token_fits(ts@[j as int], usize::MAX as nat));
    }
    match find_field_exec(fs, t.key.as_slice()) {
        None => {
            assert(term_fault(fv, tv, j as int) == Some(t.start as int));
            Some(t.start)
        },
        Some(f) => {
            proof {
                assert(fv[f as int] == fs@[f as int]@);
            }
            match &t.value {
                None => {
                    let prev = &ts[j - 1];
                    proof {
                        assert(tv[j - 1] == prev@);
                    }
                    if j >= 2 && prev.value.is_none() && chars_eq(
                        prev.key.as_slice(),
                        t.key.as_slice(),
                    ) {
                        assert(term_fault(fv, tv, j as int) == Some(t.start as int));
                        Some(t.start)
                    } else {
                        assert(term_fault(fv, tv, j as int) is None);
                        None
                    }
                },
                Some(v) => {
                    let ok = match fs[f].kind {
                        Kind::Path => true,
                        Kind::Flag => flag_literal_exec(v.as_slice()).is_some(),
                        Kind::Real => real_literal_exec(v.as_slice()),
                        Kind::Int32 | Kind::Int64 | Kind::UInt32 => {
                            let lit = read_int(v.as_slice(), 0, 0);
                            match lit {
                                IntRead::NotLiteral => false,
                                _ => true,
                            }
                        },
                    };
                    assert(ok == conforms(fv[f as int].kind, v@));
                    if ok {
                        assert(term_fault(fv, tv, j as int) is None);
                        None
                    } else {
                        let p = t.start + t.key.len() + 1;
                        assert(term_fault(fv, tv, j as int) == Some(p as int));
                        Some(p)
                    }
                },
            }
        },
    }
}

/// The options of the block declared by `decl`, with options `fs`, that
/// statement `s` gives, or why `s` is refused.
#[verifier::loop_isolation(false)]
pub fn unify_exec(decl: &str, fs: &[Field], s: &[char]) -> (r: Result<Vec<Option<Value>>, Refusal>)
    ensures
        match r {
            Ok(v) => unify(decl@, field_views(fs@), s@) == Ok::<Seq<Option<Setting>>, Fault>(
                settings_view(v@),
            ),
            Err(e) => unify(decl@, field_views(fs@), s@) == Err::<Seq<Option<Setting>>, Fault>(e@),
        },
        r matches Ok(v) ==> v@.len() == fs@.len(),
{
    let ghost fv = field_views(fs@);
    let ts = match GrammarParser::terms(s) {
        Err(p) => {
            return Err(Refusal::Grammar(p));
        },
        Ok(ts) => ts,
    };
    let ghost tv = token_views(ts@);
    assert(terms(s@) == Ok::<Seq<Term>, int>(tv));
    if ts.len() == 0 {
        return Err(Refusal::Grammar(s.len()));
    }
    proof {
        assert(tv[0] == ts@[0]@);
    }
    let d = chars_of(decl);
    if !chars_eq(ts[0].key.as_slice(), d.as_slice()) || ts[0].value.is_some() {
        return Err(Refusal::Grammar(ts[0].start));
    }
    let sl = s.len();
    assert forall|m: int| 0 <= m < ts@.len() implies #[trigger] token_fits(ts@[m], usize::MAX as nat) by {
        assert(token_fits(ts@[m], s@.len()));
    }
    let mut j: usize = 1;
    while j < ts.len()
        invariant
            fv == field_views(fs@),
            tv == token_views(ts@),
            1 <= j <= ts@.len(),
            first_fault(fv, tv, 1) == first_fault(fv, tv, j as int),
            forall|m: int| 0 <= m < ts@.len() ==> #[trigger] token_fits(ts@[m], usize::MAX as nat),
        decreases ts@.len() - j,
    {
        match term_fault_exec(fs, &ts, j) {
            Some(p) => {
                return Err(Refusal::Grammar(p));
            },
            None => {},
        }
        j = j + 1;
    }
    let mut cur: Vec<Option<Value>> = Vec::new();
    let mut k: usize = 0;
    while k < fs.len()
        invariant
            0 <= k <= fs@.len(),
            cur@.len() == k,
            forall|i: int| 0 <= i < k ==> cur@[i] is None,
        decreases fs@.len() - k,
    {
        cur.push(None);
        k = k + 1;
    }
    proof {
        assert(settings_view(cur@) =~= unset(fv.len()));
    }
    let mut n: usize = 1;
    while n < ts.len()
        invariant
            fv == field_views(fs@),
            tv == token_views(ts@),
            1 <= n <= ts@.len(),
            cur@.len() == fs@.len(),
            settle(fv, tv, n as int) == Ok::<Seq<Option<Setting>>, IntErrorKind>(settings_view(cur@)),
        decreases ts@.len() - n,
    {
        let t = &ts[n];
        proof {
            assert(tv[n as int] == t@);
        }
        match find_field_exec(fs, t.key.as_slice()) {
            None => {},
            Some(f) => match &t.value {
                None => {},
                Some(v) => {
                    proof {
                        assert(fv[f as int] == fs@[f as int]@);
                    }
                    match setting_of_exec(fs[f].kind, v) {
                        Err(e) => {
                            proof {
                                lemma_settle_fault_stays(fv, tv, n as int + 1, ts@.len() as int);
                            }
                            return Err(Refusal::Int(e));
                        },
                        Ok(x) => {
                            let ghost before = settings_view(cur@);
                            cur.set(f, Some(x));
                            proof {
                                assert(settings_view(cur@) =~= before.update(f as int, Some(x@)));
                            }
                        },
                    }
                },
            },
        }
        n = n + 1;
    }
    Ok(cur)
}

/// The variant chosen by the statement `s` of the choice `decl` among
/// the variants `names`, or where `s` fails to conform to the grammar.
#[verifier::loop_isolation(false)]
pub fn choose_variant_exec(decl: &str, names: &[&'static str], s: &[char]) -> (r: Result<
    Option<usize>,
    usize,
>)
    ensures
        match r {
            Ok(Some(k)) => choose_variant(decl@, names_view(names@), s@) == Ok::<Option<int>, int>(
                Some(k as int),
            ),
            Ok(None) => choose_variant(decl@, names_view(names@), s@) == Ok::<Option<int>, int>(
                None,
            ),
            Err(p) => choose_variant(decl@, names_view(names@), s@) == Err::<Option<int>, int>(
                p as int,
            ),
        },
{
    let ts = match GrammarParser::terms(s) {
        Err(p) => {
            return Err(p);
        },
        Ok(ts) => ts,
    };
    let ghost tv = token_views(ts@);
    if ts.len() == 0 {
        return Err(s.len());
    }
    proof {
        assert(tv[0] == ts@[0]@);
        assert(token_fits(ts@[0], s@.len()));
    }
    let sl = s.len();
    let d = chars_of(decl);
    if !chars_eq(ts[0].key.as_slice(), d.as_slice()) {
        return Err(ts[0].start);
    }
    if ts.len() > 1 {
        proof {
            assert(tv[1] == ts@[1]@);
        }
        return Err(ts[1].start);
    }
    match &ts[0].value {
        None => Ok(None),
        Some(v) => {
            let ghost nv = names_view(names@);
            let mut k: usize = 0;
            while k < names.len()
                invariant
                    nv == names_view(names@),
                    0 <= k <= names@.len(),
                    forall|m: int| 0 <= m < k ==> nv[m] != v@,
                decreases names@.len() - k,
            {
                let name = chars_of(names[k]);
                proof {
                    assert(nv[k as int] == names@[k as int]@);
                }
                if chars_eq(name.as_slice(), v.as_slice()) {
                    proof {
                        lemma_index_of_first_at(nv, v@, k as int);
                    }
                    return Ok(Some(k));
                }
                k = k + 1;
            }
            proof {
                lemma_index_of_first_none(nv, v@);
            }
            Err(ts[0].start + d.len() + 1)
        },
    }
}

proof fn lemma_settle_fault_stays(fs: Seq<FieldSpec>, ts: Seq<Term>, a: int, b: int)
    requires
        1 <= a <= b,
        settle(fs, ts, a) is Err,
    ensures
        settle(fs, ts, b) == settle(fs, ts, a),
    decreases b - a,
{
    if a < b {
        lemma_settle_fault_stays(fs, ts, a, b - 1);
    }
}

/// The models of the names `ns`.
pub open spec fn names_view(ns: Seq<&'static str>) -> Seq<Seq<char>> {
    Seq::new(ns.len(), |k: int| ns[k]@)
}

pub proof fn lemma_index_of_first_at(ns: Seq<Seq<char>>, v: Seq<char>, k: int)
    requires
        0 <= k < ns.len(),
        ns[k] == v,
        forall|m: int| 0 <= m < k ==> ns[m] != v,
    ensures
        ns.index_of_first(v) == Some(k),
{
    ns.index_of_first_ensures(v);
    match ns.index_of_first(v) {
        Some(j) => {
            if j < k {
                assert(ns[j] != v);
            }
            if j > k {
                assert(ns[k] != v);
            }
        },
        None => {
            assert(ns.contains(v)) by {
                assert(ns[k] == v);
            }
        },
    }
}

proof fn lemma_index_of_first_none(ns: Seq<Seq<char>>, v: Seq<char>)
    requires
        forall|m: int| 0 <= m < ns.len() ==> ns[m] != v,
    ensures
        ns.index_of_first(v) is None,
{
    ns.index_of_first_ensures(v);
}

} // verus!
