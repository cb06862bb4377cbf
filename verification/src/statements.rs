//! Reading statements of the command line language into the option types
//! that hold no floating-point number.
use vstd::prelude::*;
use crate::argument_tree::{
    Data, Output, Random, data_fragment, optional_part, output_fragment, random_fragment,
};
use crate::parser::{
    Block, ParseGrammarError, Term, assignment_terms, assignments, fault_error, is_ws,
    law_single_term, law_statement_terms, plain_name, plain_pairs, plain_value, terms,
};
use crate::sample::{Metric, metric_name};
use crate::text::{
    IntErrorKind, chars_of, int_text, is_digit, lemma_int_text_reads_back,
    lemma_nat_text_reads_back, nat_text, string_of,
};
use crate::unify::{
    Fault, Field, FieldSpec, Kind, Setting, Value, choose_variant, choose_variant_exec,
    conforms, field_views, find_field, find_field_from, first_fault, lemma_index_of_first_at, flag_literal, law_unify_unset, lemma_unify_fits, names_view, opt_setting, settle,
    setting_of, settings_fit, settings_view, unify, unify_exec, unset,
};
use crate::translate::{Node, Translate, fields_stmts, flag_text, join, lemma_join_push, node_stmt};
use crate::variational::{
    VariationalAdapt, VariationalAlgorithm, algorithm_name, variational_adapt_node,
};

verus! {

/// The integer given to an option, or `d`.
pub open spec fn int_or(o: Option<Setting>, d: int) -> int {
    match o {
        Some(Setting::Int(x)) => x,
        _ => d,
    }
}

/// The flag given to an option, or `d`.
pub open spec fn flag_or(o: Option<Setting>, d: bool) -> bool {
    match o {
        Some(Setting::Flag(b)) => b,
        _ => d,
    }
}

/// The text given to an option, or `d`.
pub open spec fn text_or_else(o: Option<Setting>, d: Seq<char>) -> Seq<char> {
    match o {
        Some(Setting::Text(t)) => t,
        _ => d,
    }
}

/// The error that the refusal `r` of a statement of block `b` gives.
pub open spec fn refused<T>(r: Result<T, Fault>, b: Block, e: ParseGrammarError) -> bool {
    r matches Err(f) && e == fault_error(f, b)
}

fn int_value_or(o: &Option<Value>, d: i64) -> (x: i64)
    ensures
        x as int == int_or(opt_setting(*o), d as int),
{
    match o {
        Some(Value::Int(x)) => *x,
        _ => d,
    }
}

fn flag_value_or(o: &Option<Value>, d: bool) -> (b: bool)
    ensures
        b == flag_or(opt_setting(*o), d),
{
    match o {
        Some(Value::Flag(b)) => *b,
        _ => d,
    }
}

fn text_value_or(o: &Option<Value>, d: &str) -> (s: String)
    ensures
        s@ == text_or_else(opt_setting(*o), d@),
{
    match o {
        Some(Value::Text(t)) => string_of(t.as_slice()),
        _ => d.to_owned(),
    }
}

/// The options of a `random` statement.
pub open spec fn random_fields() -> Seq<FieldSpec> {
    seq![FieldSpec { name: "seed"@, kind: Kind::Int64 }]
}

/// The seed that the `random` statement `s` gives.
pub open spec fn random_from(s: Seq<char>) -> Result<int, Fault> {
    match unify("random"@, random_fields(), s) {
        Ok(st) => Ok(int_or(st[0], -1)),
        Err(f) => Err(f),
    }
}

impl Random {
    /// Reads a `random` statement: `random`, then any number of
    /// `seed=<integer>` or `seed`; the last seed given wins, and the seed
    /// defaults to `-1`.
    pub fn from_statement(s: &str) -> (r: Result<Random, ParseGrammarError>)
        ensures
            match r {
                Ok(x) => random_from(s@) == Ok::<int, Fault>(x.seed as int),
                Err(e) => refused(random_from(s@), Block::Random, e),
            },
    {
        let fs = vec![Field { name: "seed", kind: Kind::Int64 }];
        assert(field_views(fs@) =~= random_fields());
        let cs = chars_of(s);
        match unify_exec("random", fs.as_slice(), cs.as_slice()) {
            Err(f) => Err(ParseGrammarError::from_refusal(f, Block::Random)),
            Ok(v) => {
                proof {
                    assert(settings_view(v@)[0] == opt_setting(v@[0]));
                }
                let seed = int_value_or(&v[0], -1);
                Ok(Random { seed })
            },
        }
    }
}

/// The options of a `data` statement.
pub open spec fn data_fields() -> Seq<FieldSpec> {
    seq![FieldSpec { name: "file"@, kind: Kind::Path }]
}

/// The input data file that the `data` statement `s` gives.
pub open spec fn data_from(s: Seq<char>) -> Result<Seq<char>, Fault> {
    match unify("data"@, data_fields(), s) {
        Ok(st) => Ok(text_or_else(st[0], Seq::empty())),
        Err(f) => Err(f),
    }
}

impl Data {
    /// Reads a `data` statement: `data`, then any number of
    /// `file=<path>` or `file`; the last file given wins, and the file
    /// defaults to `""`.
    pub fn from_statement(s: &str) -> (r: Result<Data, ParseGrammarError>)
        ensures
            match r {
                Ok(x) => data_from(s@) == Ok::<Seq<char>, Fault>(x.file@),
                Err(e) => refused(data_from(s@), Block::Data, e),
            },
    {
        let fs = vec![Field { name: "file", kind: Kind::Path }];
        assert(field_views(fs@) =~= data_fields());
        let cs = chars_of(s);
        match unify_exec("data", fs.as_slice(), cs.as_slice()) {
            Err(f) => Err(ParseGrammarError::from_refusal(f, Block::Data)),
            Ok(v) => {
                proof {
                    assert(settings_view(v@)[0] == opt_setting(v@[0]));
                    reveal_strlit("");
                }
                let file = text_value_or(&v[0], "");
                assert(file@ =~= text_or_else(settings_view(v@)[0], Seq::empty()));
                Ok(Data { file })
            },
        }
    }
}

/// Model of the file output options.
pub struct OutputSpec {
    /// Output file.
    pub file: Seq<char>,
    /// Auxiliary output file for diagnostic information.
    pub diagnostic_file: Seq<char>,
    /// Number of iterations between screen updates.
    pub refresh: int,
    /// Number of significant figures in the output files.
    pub sig_figs: int,
    /// File to store profiling information.
    pub profile_file: Seq<char>,
}

/// The model of `o`.
pub open spec fn output_spec(o: Output) -> OutputSpec {
    OutputSpec {
        file: o.file@,
        diagnostic_file: o.diagnostic_file@,
        refresh: o.refresh as int,
        sig_figs: o.sig_figs as int,
        profile_file: o.profile_file@,
    }
}

/// The options of an `output` statement.
pub open spec fn output_fields() -> Seq<FieldSpec> {
    seq![
        FieldSpec { name: "file"@, kind: Kind::Path },
        FieldSpec { name: "diagnostic_file"@, kind: Kind::Path },
        FieldSpec { name: "refresh"@, kind: Kind::Int32 },
        FieldSpec { name: "sig_figs"@, kind: Kind::Int32 },
        FieldSpec { name: "profile_file"@, kind: Kind::Path },
    ]
}

/// The file output options that the `output` statement `s` gives.
pub open spec fn output_from(s: Seq<char>) -> Result<OutputSpec, Fault> {
    match unify("output"@, output_fields(), s) {
        Ok(st) => Ok(
            OutputSpec {
                file: text_or_else(st[0], "output.csv"@),
                diagnostic_file: text_or_else(st[1], Seq::empty()),
                refresh: int_or(st[2], 100),
                sig_figs: int_or(st[3], -1),
                profile_file: text_or_else(st[4], Seq::empty()),
            },
        ),
        Err(f) => Err(f),
    }
}

impl Output {
    /// Reads an `output` statement: `output`, then any number of terms
    /// that each give (`key=value`) or name (`key`) one of `file`,
    /// `diagnostic_file`, `refresh`, `sig_figs` and `profile_file`; the
    /// last value given for an option wins, and an option given no value
    /// takes its default.
    pub fn from_statement(s: &str) -> (r: Result<Output, ParseGrammarError>)
        ensures
            match r {
                Ok(x) => output_from(s@) == Ok::<OutputSpec, Fault>(output_spec(x)),
                Err(e) => refused(output_from(s@), Block::Output, e),
            },
    {
        let fs = vec![
            Field { name: "file", kind: Kind::Path },
            Field { name: "diagnostic_file", kind: Kind::Path },
            Field { name: "refresh", kind: Kind::Int32 },
            Field { name: "sig_figs", kind: Kind::Int32 },
            Field { name: "profile_file", kind: Kind::Path },
        ];
        assert(field_views(fs@) =~= output_fields());
        let cs = chars_of(s);
        match unify_exec("output", fs.as_slice(), cs.as_slice()) {
            Err(f) => Err(ParseGrammarError::from_refusal(f, Block::Output)),
            Ok(v) => {
                let ghost st = settings_view(v@);
                proof {
                    lemma_unify_fits("output"@, output_fields(), cs@);
                    assert(settings_fit(output_fields(), st));
                    assert(st[0] == opt_setting(v@[0]));
                    assert(st[1] == opt_setting(v@[1]));
                    assert(st[2] == opt_setting(v@[2]));
                    assert(st[3] == opt_setting(v@[3]));
                    assert(st[4] == opt_setting(v@[4]));
                    reveal_strlit("");
                }
                let file = text_value_or(&v[0], "output.csv");
                let diagnostic_file = text_value_or(&v[1], "");
                let refresh = int_value_or(&v[2], 100);
                let sig_figs = int_value_or(&v[3], -1);
                let profile_file = text_value_or(&v[4], "");
                assert(diagnostic_file@ =~= text_or_else(st[1], Seq::empty()));
                assert(profile_file@ =~= text_or_else(st[4], Seq::empty()));
                Ok(
                    Output {
                        file,
                        diagnostic_file,
                        refresh: refresh as i32,
                        sig_figs: sig_figs as i32,
                        profile_file,
                    },
                )
            },
        }
    }
}

/// The options of an `adapt` statement of variational inference.
pub open spec fn variational_adapt_fields() -> Seq<FieldSpec> {
    seq![
        FieldSpec { name: "engaged"@, kind: Kind::Flag },
        FieldSpec { name: "iter"@, kind: Kind::Int32 },
    ]
}

/// The eta adaptation that the `adapt` statement `s` gives.
pub open spec fn variational_adapt_from(s: Seq<char>) -> Result<VariationalAdapt, Fault> {
    match unify("adapt"@, variational_adapt_fields(), s) {
        Ok(st) => Ok(
            VariationalAdapt { engaged: flag_or(st[0], true), iter: int_or(st[1], 50) as i32 },
        ),
        Err(f) => Err(f),
    }
}

impl VariationalAdapt {
    /// Reads an `adapt` statement: `adapt`, then any number of terms that
    /// each give or name `engaged` (a flag) or `iter` (an integer); the
    /// last value given for an option wins.
    pub fn from_statement(s: &str) -> (r: Result<VariationalAdapt, ParseGrammarError>)
        ensures
            match r {
                Ok(x) => variational_adapt_from(s@) == Ok::<VariationalAdapt, Fault>(x),
                Err(e) => refused(variational_adapt_from(s@), Block::VariationalAdapt, e),
            },
    {
        let fs = vec![
            Field { name: "engaged", kind: Kind::Flag },
            Field { name: "iter", kind: Kind::Int32 },
        ];
        assert(field_views(fs@) =~= variational_adapt_fields());
        let cs = chars_of(s);
        match unify_exec("adapt", fs.as_slice(), cs.as_slice()) {
            Err(f) => Err(ParseGrammarError::from_refusal(f, Block::VariationalAdapt)),
            Ok(v) => {
                let ghost st = settings_view(v@);
                proof {
                    lemma_unify_fits("adapt"@, variational_adapt_fields(), cs@);
                    assert(settings_fit(variational_adapt_fields(), st));
                    assert(st[0] == opt_setting(v@[0]));
                    assert(st[1] == opt_setting(v@[1]));
                }
                let engaged = flag_value_or(&v[0], true);
                let iter = int_value_or(&v[1], 50);
                Ok(VariationalAdapt { engaged, iter: iter as i32 })
            },
        }
    }
}

/// The metrics in the order the grammar lists them.
pub open spec fn metric_names() -> Seq<Seq<char>> {
    seq!["unit_e"@, "diag_e"@, "dense_e"@]
}

/// The metric listed at `k`.
pub open spec fn metric_at(k: int) -> Metric {
    if k == 0 {
        Metric::UnitE
    } else if k == 1 {
        Metric::DiagE
    } else {
        Metric::DenseE
    }
}

/// The metric that the statement `s` chooses: `metric` alone chooses the
/// default, `metric=<name>` the metric of that name.
pub open spec fn metric_from(s: Seq<char>) -> Result<Metric, Fault> {
    match choose_variant("metric"@, metric_names(), s) {
        Ok(None) => Ok(Metric::DiagE),
        Ok(Some(k)) => Ok(metric_at(k)),
        Err(p) => Err(Fault::Grammar(p)),
    }
}

impl Metric {
    /// Reads a metric statement: `metric` or `metric=<name>`.
    pub fn from_statement(s: &str) -> (r: Result<Metric, ParseGrammarError>)
        ensures
            match r {
                Ok(x) => metric_from(s@) == Ok::<Metric, Fault>(x),
                Err(e) => refused(metric_from(s@), Block::Metric, e),
            },
    {
        let names = vec!["unit_e", "diag_e", "dense_e"];
        assert(names_view(names@) =~= metric_names());
        let cs = chars_of(s);
        match choose_variant_exec("metric", names.as_slice(), cs.as_slice()) {
            Err(p) => Err(ParseGrammarError::MetricError(p)),
            Ok(None) => Ok(Metric::DiagE),
            Ok(Some(k)) => if k == 0 {
                Ok(Metric::UnitE)
            } else if k == 1 {
                Ok(Metric::DiagE)
            } else {
                Ok(Metric::DenseE)
            },
        }
    }
}

/// The variational algorithms in the order the grammar lists them.
pub open spec fn variational_algorithm_names() -> Seq<Seq<char>> {
    seq!["meanfield"@, "fullrank"@]
}

/// The variational algorithm that the statement `s` chooses:
/// `algorithm` alone chooses the default, `algorithm=<name>` the
/// algorithm of that name.
pub open spec fn variational_algorithm_from(s: Seq<char>) -> Result<VariationalAlgorithm, Fault> {
    match choose_variant("algorithm"@, variational_algorithm_names(), s) {
        Ok(None) => Ok(VariationalAlgorithm::MeanField),
        Ok(Some(k)) => Ok(
            if k == 0 {
                VariationalAlgorithm::MeanField
            } else {
                VariationalAlgorithm::FullRank
            },
        ),
        Err(p) => Err(Fault::Grammar(p)),
    }
}

impl VariationalAlgorithm {
    /// Reads a variational algorithm statement: `algorithm` or
    /// `algorithm=<name>`.
    pub fn from_statement(s: &str) -> (r: Result<VariationalAlgorithm, ParseGrammarError>)
        ensures
            match r {
                Ok(x) => variational_algorithm_from(s@) == Ok::<VariationalAlgorithm, Fault>(x),
                Err(e) => refused(variational_algorithm_from(s@), Block::VariationalAlgorithm, e),
            },
    {
        let names = vec!["meanfield", "fullrank"];
        assert(names_view(names@) =~= variational_algorithm_names());
        let cs = chars_of(s);
        match choose_variant_exec("algorithm", names.as_slice(), cs.as_slice()) {
            Err(p) => Err(ParseGrammarError::VariationalAlgorithmError(p)),
            Ok(None) => Ok(VariationalAlgorithm::MeanField),
            Ok(Some(k)) => if k == 0 {
                Ok(VariationalAlgorithm::MeanField)
            } else {
                Ok(VariationalAlgorithm::FullRank)
            },
        }
    }
}

impl std::str::FromStr for Random {
    type Err = ParseGrammarError;

    fn from_str(s: &str) -> (r: Result<Random, ParseGrammarError>)
        ensures
            match r {
                Ok(x) => random_from(s@) == Ok::<int, Fault>(x.seed as int),
                Err(e) => refused(random_from(s@), Block::Random, e),
            },
    {
        Random::from_statement(s)
    }
}

impl std::str::FromStr for Data {
    type Err = ParseGrammarError;

    fn from_str(s: &str) -> (r: Result<Data, ParseGrammarError>)
        ensures
            match r {
                Ok(x) => data_from(s@) == Ok::<Seq<char>, Fault>(x.file@),
                Err(e) => refused(data_from(s@), Block::Data, e),
            },
    {
        Data::from_statement(s)
    }
}

impl std::str::FromStr for Output {
    type Err = ParseGrammarError;

    fn from_str(s: &str) -> (r: Result<Output, ParseGrammarError>)
        ensures
            match r {
                Ok(x) => output_from(s@) == Ok::<OutputSpec, Fault>(output_spec(x)),
                Err(e) => refused(output_from(s@), Block::Output, e),
            },
    {
        Output::from_statement(s)
    }
}

impl std::str::FromStr for VariationalAdapt {
    type Err = ParseGrammarError;

    fn from_str(s: &str) -> (r: Result<VariationalAdapt, ParseGrammarError>)
        ensures
            match r {
                Ok(x) => variational_adapt_from(s@) == Ok::<VariationalAdapt, Fault>(x),
                Err(e) => refused(variational_adapt_from(s@), Block::VariationalAdapt, e),
            },
    {
        VariationalAdapt::from_statement(s)
    }
}

impl std::str::FromStr for Metric {
    type Err = ParseGrammarError;

    fn from_str(s: &str) -> (r: Result<Metric, ParseGrammarError>)
        ensures
            match r {
                Ok(x) => metric_from(s@) == Ok::<Metric, Fault>(x),
                Err(e) => refused(metric_from(s@), Block::Metric, e),
            },
    {
        Metric::from_statement(s)
    }
}

impl std::str::FromStr for VariationalAlgorithm {
    type Err = ParseGrammarError;

    fn from_str(s: &str) -> (r: Result<VariationalAlgorithm, ParseGrammarError>)
        ensures
            match r {
                Ok(x) => variational_algorithm_from(s@) == Ok::<VariationalAlgorithm, Fault>(x),
                Err(e) => refused(variational_algorithm_from(s@), Block::VariationalAlgorithm, e),
            },
    {
        VariationalAlgorithm::from_statement(s)
    }
}

} // verus!

verus! {

/// The decimal text of an integer is a plain, non-empty value.
pub proof fn lemma_int_text_plain(i: int)
    ensures
        plain_value(int_text(i)),
        int_text(i).len() > 0,
{
    let t = int_text(i);
    if i < 0 {
        let m = (-i) as nat;
        lemma_nat_text_reads_back(m);
        assert forall|k: int| 0 <= k < t.len() implies !is_ws(#[trigger] t[k]) by {
            if k > 0 {
                assert(t[k] == nat_text(m)[k - 1]);
                assert(is_digit(nat_text(m)[k - 1]));
            }
        }
    } else {
        lemma_nat_text_reads_back(i as nat);
        assert forall|k: int| 0 <= k < t.len() implies !is_ws(#[trigger] t[k]) by {
            assert(is_digit(t[k]));
        }
        assert(is_digit(t[0]));
    }
}

/// Reading the statement that a random configuration writes gives the
/// configuration back.
pub proof fn law_random_round_trip(seed: i64)
    ensures
        random_from(random_fragment(seed as int)) == Ok::<int, Fault>(seed as int),
{
    let t = int_text(seed as int);
    lemma_int_text_plain(seed as int);
    lemma_int_text_reads_back(seed as int);
    let ps = seq![("seed"@, t)];
    reveal_strlit("random seed=");
    reveal_strlit("random");
    reveal_strlit("seed");
    assert(assignments(ps.drop_first()) =~= Seq::<char>::empty());
    assert(random_fragment(seed as int) =~= "random"@ + assignments(ps));
    assert(plain_pairs(ps));
    law_statement_terms("random"@, ps);
    assert(assignment_terms(ps.drop_first(), (12 + t.len()) as int) =~= Seq::<Term>::empty());
    let ts = seq![Term { start: 0, key: "random"@, value: None }] + assignment_terms(ps, 6);
    assert(ts =~= seq![
        Term { start: 0, key: "random"@, value: None },
        Term { start: 7, key: "seed"@, value: Some(t) },
    ]);
    assert(find_field(random_fields(), "seed"@) == Some(0int));
    assert(first_fault(random_fields(), ts, 2) is None);
    assert(first_fault(random_fields(), ts, 1) is None);
    assert(settle(random_fields(), ts, 1) == Ok::<Seq<Option<Setting>>, IntErrorKind>(unset(1)));
}

/// A flag's text reads back as the flag, and is a plain value.
pub proof fn lemma_flag_text_reads_back(b: bool)
    ensures
        flag_literal(flag_text(b)) == Some(b),
        plain_value(flag_text(b)),
{
    let t = flag_text(b);
    assert(!(t[0] == '+' || t[0] == '-'));
}

/// The options of `fs` as keyword and value pairs.
pub open spec fn value_pairs(fs: Seq<Node>) -> Seq<(Seq<char>, Seq<char>)> {
    Seq::new(
        fs.len(),
        |i: int|
            match fs[i] {
                Node::Value(k, v) => (k, v),
                _ => (Seq::empty(), Seq::empty()),
            },
    )
}

/// Every option of `fs` is a valued option.
pub open spec fn all_values(fs: Seq<Node>) -> bool {
    forall|i: int| 0 <= i < fs.len() ==> #[trigger] fs[i] is Value
}

proof fn lemma_assignments_push(ps: Seq<(Seq<char>, Seq<char>)>, p: (Seq<char>, Seq<char>))
    ensures
        assignments(ps.push(p)) == assignments(ps) + seq![' '] + p.0 + seq!['='] + p.1,
    decreases ps.len(),
{
    if ps.len() == 0 {
        assert(ps.push(p).drop_first() =~= Seq::<(Seq<char>, Seq<char>)>::empty());
        assert(ps.push(p)[0] == p);
        assert(assignments(ps.push(p).drop_first()) =~= Seq::<char>::empty());
        assert(assignments(ps) =~= Seq::<char>::empty());
        assert(assignments(ps.push(p)) =~= seq![' '] + p.0 + seq!['='] + p.1);
    } else {
        lemma_assignments_push(ps.drop_first(), p);
        assert(ps.push(p).drop_first() =~= ps.drop_first().push(p));
        assert(ps.push(p)[0] == ps[0]);
        assert(assignments(ps.push(p)) =~= assignments(ps) + seq![' '] + p.0 + seq!['='] + p.1);
    }
}

/// The statement of a declared group of one or more valued options is
/// the declaration followed by one ` key=value` per option.
pub proof fn lemma_group_stmt(d: Seq<char>, fs: Seq<Node>)
    requires
        all_values(fs),
        fs.len() > 0,
    ensures
        node_stmt(Node::Group(Some(d), fs)) == d + assignments(value_pairs(fs)),
{
    lemma_group_join(d, fs);
}

/// The declaration `d` joined with the statements of the valued options
/// `fs` is `d` followed by one ` key=value` per option.
proof fn lemma_group_join(d: Seq<char>, fs: Seq<Node>)
    requires
        all_values(fs),
    ensures
        join(seq![d] + fields_stmts(fs), seq![' ']) == d + assignments(value_pairs(fs)),
    decreases fs.len(),
{
    if fs.len() == 0 {
        assert(seq![d] + fields_stmts(fs) =~= seq![d]);
        assert(value_pairs(fs) =~= Seq::<(Seq<char>, Seq<char>)>::empty());
        assert(d + assignments(value_pairs(fs)) =~= d);
    } else {
        let p = fs.drop_last();
        let l = fs[fs.len() - 1];
        assert forall|i: int| 0 <= i < p.len() implies #[trigger] p[i] is Value by {
            assert(p[i] == fs[i]);
        }
        lemma_group_join(d, p);
        assert(l is Value);
        let k = l->Value_0;
        let v = l->Value_1;
        assert(seq![d] + fields_stmts(fs) =~= (seq![d] + fields_stmts(p)).push(node_stmt(l)));
        lemma_join_push(seq![d] + fields_stmts(p), node_stmt(l), seq![' ']);
        assert(value_pairs(fs) =~= value_pairs(p).push((k, v)));
        lemma_assignments_push(value_pairs(p), (k, v));
        assert(join(seq![d] + fields_stmts(fs), seq![' ']) =~= d + assignments(value_pairs(fs)));
    }
}

/// The terms of a statement that declares `decl` and gives two options.
proof fn lemma_two_options_terms(
    decl: Seq<char>,
    k0: Seq<char>,
    v0: Seq<char>,
    k1: Seq<char>,
    v1: Seq<char>,
)
    requires
        plain_name(decl),
        plain_name(k0),
        plain_name(k1),
        plain_value(v0),
        plain_value(v1),
    ensures
        terms(decl + assignments(seq![(k0, v0), (k1, v1)])) == Ok::<Seq<Term>, int>(
            seq![
                Term { start: 0, key: decl, value: None },
                Term { start: decl.len() + 1, key: k0, value: Some(v0) },
                Term { start: decl.len() + k0.len() + v0.len() + 3, key: k1, value: Some(v1) },
            ],
        ),
{
    let ps = seq![(k0, v0), (k1, v1)];
    assert(plain_pairs(ps));
    law_statement_terms(decl, ps);
    assert(ps.drop_first() =~= seq![(k1, v1)]);
    assert(ps.drop_first().drop_first() =~= Seq::<(Seq<char>, Seq<char>)>::empty());
    let o1: int = decl.len() + 2 + k0.len() + v0.len() as int;
    assert(assignment_terms(ps.drop_first().drop_first(), o1 + 2 + k1.len() + v1.len() as int)
        =~= Seq::<Term>::empty());
    assert(ps.drop_first()[0] == (k1, v1));
    assert(assignment_terms(ps.drop_first(), o1) =~= seq![
        Term { start: (o1 + 1) as nat, key: k1, value: Some(v1) },
    ]);
    assert(assignment_terms(ps, decl.len() as int) =~= seq![
        Term { start: decl.len() + 1, key: k0, value: Some(v0) },
        Term { start: (o1 + 1) as nat, key: k1, value: Some(v1) },
    ]);
    assert(seq![Term { start: 0, key: decl, value: None }] + assignment_terms(ps, decl.len() as int)
        =~= seq![
        Term { start: 0, key: decl, value: None },
        Term { start: decl.len() + 1, key: k0, value: Some(v0) },
        Term { start: decl.len() + k0.len() + v0.len() + 3, key: k1, value: Some(v1) },
    ]);
}

/// Reading the statement that an eta adaptation writes gives the
/// adaptation back.
pub proof fn law_variational_adapt_round_trip(a: VariationalAdapt)
    ensures
        variational_adapt_from(node_stmt(a.node())) == Ok::<VariationalAdapt, Fault>(a),
{
    let f = flag_text(a.engaged);
    let it = int_text(a.iter as int);
    lemma_flag_text_reads_back(a.engaged);
    lemma_int_text_plain(a.iter as int);
    lemma_int_text_reads_back(a.iter as int);
    reveal_strlit("adapt");
    reveal_strlit("engaged");
    reveal_strlit("iter");
    let fs = seq![Node::Value("engaged"@, f), Node::Value("iter"@, it)];
    lemma_group_stmt("adapt"@, fs);
    assert(value_pairs(fs) =~= seq![("engaged"@, f), ("iter"@, it)]);
    lemma_two_options_terms("adapt"@, "engaged"@, f, "iter"@, it);
    let ts = seq![
        Term { start: 0, key: "adapt"@, value: None },
        Term { start: 6, key: "engaged"@, value: Some(f) },
        Term { start: (15 + f.len()) as nat, key: "iter"@, value: Some(it) },
    ];
    let fl = variational_adapt_fields();
    assert(find_field(fl, "engaged"@) == Some(0int));
    assert(find_field_from(fl, "iter"@, 1) == Some(1int));
    assert(find_field(fl, "iter"@) == Some(1int));
    assert(first_fault(fl, ts, 3) is None);
    assert(first_fault(fl, ts, 2) is None);
    assert(first_fault(fl, ts, 1) is None);
    let st1 = unset(2).update(0, Some(Setting::Flag(a.engaged)));
    assert(settle(fl, ts, 1) == Ok::<Seq<Option<Setting>>, IntErrorKind>(unset(2)));
    assert(settle(fl, ts, 2) == Ok::<Seq<Option<Setting>>, IntErrorKind>(st1));
    let st2 = st1.update(1, Some(Setting::Int(a.iter as int)));
    assert(settle(fl, ts, 3) == Ok::<Seq<Option<Setting>>, IntErrorKind>(st2));
}

/// Reading the statement that a metric writes gives the metric back.
pub proof fn law_metric_round_trip(m: Metric)
    ensures
        metric_from(node_stmt(m.node())) == Ok::<Metric, Fault>(m),
{
    reveal_strlit("metric");
    reveal_strlit("unit_e");
    reveal_strlit("diag_e");
    reveal_strlit("dense_e");
    let name = metric_name(m);
    assert(plain_value(name));
    law_single_term("metric"@, name);
    let k: int = match m {
        Metric::UnitE => 0,
        Metric::DiagE => 1,
        Metric::DenseE => 2,
    };
    assert(metric_names()[k] == name);
    lemma_index_of_first_at(metric_names(), name, k);
}

/// Reading the statement that a variational algorithm writes gives the
/// algorithm back.
pub proof fn law_variational_algorithm_round_trip(a: VariationalAlgorithm)
    ensures
        variational_algorithm_from(node_stmt(a.node())) == Ok::<VariationalAlgorithm, Fault>(a),
{
    reveal_strlit("algorithm");
    reveal_strlit("meanfield");
    reveal_strlit("fullrank");
    let name = algorithm_name(a);
    assert(plain_value(name));
    let head = "algorithm"@ + seq!['='] + name;
    assert(seq![head] + fields_stmts(Seq::<Node>::empty()) =~= seq![head]);
    law_single_term("algorithm"@, name);
    let k: int = match a {
        VariationalAlgorithm::MeanField => 0,
        VariationalAlgorithm::FullRank => 1,
    };
    assert(variational_algorithm_names()[k] == name);
    lemma_index_of_first_at(variational_algorithm_names(), name, k);
}

/// Every pair of `ps` names an option of `fs` and gives it a value of the
/// option's kind that fits it.
pub open spec fn good_pairs(fs: Seq<FieldSpec>, ps: Seq<(Seq<char>, Seq<char>)>) -> bool {
    forall|j: int|
        0 <= j < ps.len() ==> {
            &&& #[trigger] find_field(fs, ps[j].0) is Some
            &&& conforms(fs[find_field(fs, ps[j].0)->0].kind, ps[j].1)
            &&& setting_of(fs[find_field(fs, ps[j].0)->0].kind, ps[j].1) is Ok
        }
}

/// The options that the pairs `ps` give, in order, the last value given
/// for an option winning.
pub open spec fn apply_pairs(fs: Seq<FieldSpec>, ps: Seq<(Seq<char>, Seq<char>)>) -> Seq<
    Option<Setting>,
>
    decreases ps.len(),
{
    if ps.len() == 0 {
        unset(fs.len())
    } else {
        let p = ps.last();
        let cur = apply_pairs(fs, ps.drop_last());
        match find_field(fs, p.0) {
            Some(f) => match setting_of(fs[f].kind, p.1) {
                Ok(x) => cur.update(f, Some(x)),
                Err(_) => cur,
            },
            None => cur,
        }
    }
}

proof fn lemma_assignment_terms_at(ps: Seq<(Seq<char>, Seq<char>)>, off: int)
    ensures
        assignment_terms(ps, off).len() == ps.len(),
        forall|j: int|
            0 <= j < ps.len() ==> (#[trigger] assignment_terms(ps, off)[j]).key == ps[j].0
                && assignment_terms(ps, off)[j].value == Some(ps[j].1),
    decreases ps.len(),
{
    if ps.len() > 0 {
        let off2 = off + 2 + ps[0].0.len() + ps[0].1.len();
        lemma_assignment_terms_at(ps.drop_first(), off2);
        let a = assignment_terms(ps, off);
        assert forall|j: int| 0 <= j < ps.len() implies (#[trigger] a[j]).key == ps[j].0
            && a[j].value == Some(ps[j].1) by {
            if j > 0 {
                assert(a[j] == assignment_terms(ps.drop_first(), off2)[j - 1]);
                assert(ps.drop_first()[j - 1] == ps[j]);
            }
        }
    }
}

/// A statement that declares `decl` and gives the options of `fs` the
/// values of `ps` unifies into those values, the last value given for an
/// option winning.
pub proof fn law_unify_statement(
    decl: Seq<char>,
    fs: Seq<FieldSpec>,
    ps: Seq<(Seq<char>, Seq<char>)>,
)
    requires
        plain_name(decl),
        plain_pairs(ps),
        good_pairs(fs, ps),
    ensures
        unify(decl, fs, decl + assignments(ps)) == Ok::<Seq<Option<Setting>>, Fault>(
            apply_pairs(fs, ps),
        ),
{
    law_statement_terms(decl, ps);
    let ts = seq![Term { start: 0, key: decl, value: None }] + assignment_terms(
        ps,
        decl.len() as int,
    );
    lemma_assignment_terms_at(ps, decl.len() as int);
    assert(ts.len() == ps.len() + 1);
    assert forall|j: int| 1 <= j < ts.len() implies (#[trigger] ts[j]).key == ps[j - 1].0
        && ts[j].value == Some(ps[j - 1].1) by {
        assert(ts[j] == assignment_terms(ps, decl.len() as int)[j - 1]);
    }
    assert(ts[0] == Term { start: 0, key: decl, value: None });
    lemma_no_fault(fs, ps, ts, 1);
    lemma_settle_pairs(fs, ps, ts, ts.len() as int);
    assert(ps.take(ps.len() as int) =~= ps);
    assert(terms(decl + assignments(ps)) == Ok::<Seq<Term>, int>(ts));
    assert(settle(fs, ts, ts.len() as int) == Ok::<Seq<Option<Setting>>, IntErrorKind>(
        apply_pairs(fs, ps),
    ));
}

proof fn lemma_no_fault(
    fs: Seq<FieldSpec>,
    ps: Seq<(Seq<char>, Seq<char>)>,
    ts: Seq<Term>,
    j: int,
)
    requires
        good_pairs(fs, ps),
        ts.len() == ps.len() + 1,
        forall|m: int| 1 <= m < ts.len() ==> (#[trigger] ts[m]).key == ps[m - 1].0
            && ts[m].value == Some(ps[m - 1].1),
        1 <= j <= ts.len(),
    ensures
        first_fault(fs, ts, j) is None,
    decreases ts.len() - j,
{
    if j < ts.len() {
        lemma_no_fault(fs, ps, ts, j + 1);
        assert(ts[j].key == ps[j - 1].0);
        assert(find_field(fs, ps[j - 1].0) is Some);
    }
}

proof fn lemma_settle_pairs(
    fs: Seq<FieldSpec>,
    ps: Seq<(Seq<char>, Seq<char>)>,
    ts: Seq<Term>,
    n: int,
)
    requires
        ts.len() == ps.len() + 1,
        forall|m: int| 1 <= m < ts.len() ==> (#[trigger] ts[m]).key == ps[m - 1].0
            && ts[m].value == Some(ps[m - 1].1),
        1 <= n <= ts.len(),
    ensures
        settle(fs, ts, n) == Ok::<Seq<Option<Setting>>, IntErrorKind>(
            apply_pairs(fs, ps.take(n - 1)),
        ) || settle(fs, ts, n) is Err,
        good_pairs(fs, ps) ==> settle(fs, ts, n) == Ok::<Seq<Option<Setting>>, IntErrorKind>(
            apply_pairs(fs, ps.take(n - 1)),
        ),
    decreases n,
{
    if n > 1 {
        lemma_settle_pairs(fs, ps, ts, n - 1);
        let q = ps.take(n - 1);
        assert(q.drop_last() =~= ps.take(n - 2));
        assert(q.last() == ps[n - 2]);
        assert(ts[n - 1].key == ps[n - 2].0);
        if good_pairs(fs, ps) {
            assert(find_field(fs, ps[n - 2].0) is Some);
        }
    } else {
        assert(ps.take(0) =~= Seq::<(Seq<char>, Seq<char>)>::empty());
    }
}

proof fn lemma_apply_pairs_push(
    fs: Seq<FieldSpec>,
    ps: Seq<(Seq<char>, Seq<char>)>,
    p: (Seq<char>, Seq<char>),
    f: int,
    x: Setting,
)
    requires
        find_field(fs, p.0) == Some(f),
        setting_of(fs[f].kind, p.1) == Ok::<Setting, IntErrorKind>(x),
    ensures
        apply_pairs(fs, ps.push(p)) == apply_pairs(fs, ps).update(f, Some(x)),
{
    assert(ps.push(p).drop_last() =~= ps);
}

proof fn lemma_assignments_append(ps: Seq<(Seq<char>, Seq<char>)>, qs: Seq<(Seq<char>, Seq<char>)>)
    ensures
        assignments(ps + qs) == assignments(ps) + assignments(qs),
    decreases ps.len(),
{
    if ps.len() == 0 {
        assert(ps + qs =~= qs);
        assert(assignments(ps) + assignments(qs) =~= assignments(qs));
    } else {
        lemma_assignments_append(ps.drop_first(), qs);
        assert((ps + qs).drop_first() =~= ps.drop_first() + qs);
        assert((ps + qs)[0] == ps[0]);
        assert(assignments(ps + qs) =~= assignments(ps) + assignments(qs));
    }
}

/// ` key=value` is the assignments of the one pair `(key, value)`.
proof fn lemma_assignment_one(k: Seq<char>, v: Seq<char>)
    ensures
        assignments(seq![(k, v)]) == seq![' '] + k + seq!['='] + v,
{
    let ps = seq![(k, v)];
    assert(ps.drop_first() =~= Seq::<(Seq<char>, Seq<char>)>::empty());
    assert(assignments(ps.drop_first()) =~= Seq::<char>::empty());
    assert(ps[0] == (k, v));
    assert(assignments(ps) =~= seq![' '] + k + seq!['='] + v);
}

/// The pair `(key, value)`, or nothing when `value` is empty.
pub open spec fn optional_pair(k: Seq<char>, v: Seq<char>) -> Seq<(Seq<char>, Seq<char>)> {
    if v.len() == 0 {
        Seq::empty()
    } else {
        seq![(k, v)]
    }
}

proof fn lemma_optional_part(k: Seq<char>, v: Seq<char>)
    ensures
        optional_part(k, v) == assignments(optional_pair(k, v)),
{
    if v.len() > 0 {
        lemma_assignment_one(k, v);
        assert(optional_part(k, v) =~= seq![' '] + k + seq!['='] + v);
    } else {
        assert(assignments(optional_pair(k, v)) =~= Seq::<char>::empty());
    }
}

proof fn lemma_output_fields_found()
    ensures
        find_field(output_fields(), "file"@) == Some(0int),
        find_field(output_fields(), "diagnostic_file"@) == Some(1int),
        find_field(output_fields(), "refresh"@) == Some(2int),
        find_field(output_fields(), "sig_figs"@) == Some(3int),
        find_field(output_fields(), "profile_file"@) == Some(4int),
{
    reveal_strlit("file");
    reveal_strlit("diagnostic_file");
    reveal_strlit("refresh");
    reveal_strlit("sig_figs");
    reveal_strlit("profile_file");
    let fs = output_fields();
    assert(fs[0].name == "file"@ && fs[1].name == "diagnostic_file"@ && fs[2].name == "refresh"@
        && fs[3].name == "sig_figs"@ && fs[4].name == "profile_file"@);
    assert("file"@.len() == 4 && "diagnostic_file"@.len() == 15 && "refresh"@.len() == 7
        && "sig_figs"@.len() == 8 && "profile_file"@.len() == 12);
    assert(find_field_from(fs, "profile_file"@, 4) == Some(4int));
    assert(find_field_from(fs, "profile_file"@, 3) == Some(4int));
    assert(find_field_from(fs, "profile_file"@, 2) == Some(4int));
    assert(find_field_from(fs, "profile_file"@, 1) == Some(4int));
    assert(find_field_from(fs, "sig_figs"@, 3) == Some(3int));
    assert(find_field_from(fs, "sig_figs"@, 2) == Some(3int));
    assert(find_field_from(fs, "sig_figs"@, 1) == Some(3int));
    assert(find_field_from(fs, "refresh"@, 2) == Some(2int));
    assert(find_field_from(fs, "refresh"@, 1) == Some(2int));
    assert(find_field_from(fs, "diagnostic_file"@, 1) == Some(1int));
}

/// The keyword and value pairs that file output options write.
pub open spec fn output_pairs(o: Output) -> Seq<(Seq<char>, Seq<char>)> {
    seq![("file"@, o.file@)] + optional_pair("diagnostic_file"@, o.diagnostic_file@) + seq![
        ("refresh"@, int_text(o.refresh as int)),
        ("sig_figs"@, int_text(o.sig_figs as int)),
    ] + optional_pair("profile_file"@, o.profile_file@)
}

proof fn lemma_output_fragment_pairs(o: Output)
    ensures
        output_fragment(o) == "output"@ + assignments(output_pairs(o)),
{
    let f = o.file@;
    let d = o.diagnostic_file@;
    let pf = o.profile_file@;
    let r = int_text(o.refresh as int);
    let g = int_text(o.sig_figs as int);
    reveal_strlit("output file=");
    reveal_strlit("output");
    reveal_strlit(" refresh=");
    reveal_strlit(" sig_figs=");
    reveal_strlit("file");
    reveal_strlit("refresh");
    reveal_strlit("sig_figs");
    let pa = seq![("file"@, f)];
    let pb = optional_pair("diagnostic_file"@, d);
    let pc = seq![("refresh"@, r), ("sig_figs"@, g)];
    let pd = optional_pair("profile_file"@, pf);
    lemma_assignment_one("file"@, f);
    lemma_optional_part("diagnostic_file"@, d);
    lemma_optional_part("profile_file"@, pf);
    lemma_assignments_append(pa, pb);
    lemma_assignments_append(pa + pb, pc);
    lemma_assignments_append(pa + pb + pc, pd);
    assert(pc.drop_first() =~= seq![("sig_figs"@, g)]);
    assert(pc[0] == ("refresh"@, r));
    lemma_assignment_one("sig_figs"@, g);
    assert(assignments(pc) =~= " refresh="@ + r + " sig_figs="@ + g);
    assert(output_fragment(o) =~= "output"@ + assignments(output_pairs(o)));
}

proof fn lemma_output_pairs_good(o: Output)
    requires
        plain_value(o.file@),
        plain_value(o.diagnostic_file@),
        plain_value(o.profile_file@),
    ensures
        plain_pairs(output_pairs(o)),
        good_pairs(output_fields(), output_pairs(o)),
{
    let f = o.file@;
    let d = o.diagnostic_file@;
    let pf = o.profile_file@;
    let r = int_text(o.refresh as int);
    let g = int_text(o.sig_figs as int);
    lemma_int_text_plain(o.refresh as int);
    lemma_int_text_plain(o.sig_figs as int);
    lemma_int_text_reads_back(o.refresh as int);
    lemma_int_text_reads_back(o.sig_figs as int);
    reveal_strlit("file");
    reveal_strlit("diagnostic_file");
    reveal_strlit("refresh");
    reveal_strlit("sig_figs");
    reveal_strlit("profile_file");
    let ps = output_pairs(o);
    let fs = output_fields();
    lemma_output_fields_found();
    assert forall|j: int| 0 <= j < ps.len() implies plain_name(#[trigger] ps[j].0) && plain_value(
        ps[j].1,
    ) && {
        &&& find_field(fs, ps[j].0) is Some
        &&& conforms(fs[find_field(fs, ps[j].0)->0].kind, ps[j].1)
        &&& setting_of(fs[find_field(fs, ps[j].0)->0].kind, ps[j].1) is Ok
    } by {
        assert(ps[j] == ("file"@, f) || ps[j] == ("diagnostic_file"@, d) || ps[j] == ("refresh"@, r)
            || ps[j] == ("sig_figs"@, g) || ps[j] == ("profile_file"@, pf));
    }
}

proof fn lemma_output_apply(o: Output)
    ensures
        ({
            let st = apply_pairs(output_fields(), output_pairs(o));
            &&& text_or_else(st[0], "output.csv"@) == o.file@
            &&& text_or_else(st[1], Seq::empty()) == o.diagnostic_file@
            &&& int_or(st[2], 100) == o.refresh as int
            &&& int_or(st[3], -1) == o.sig_figs as int
            &&& text_or_else(st[4], Seq::empty()) == o.profile_file@
        }),
{
    let f = o.file@;
    let d = o.diagnostic_file@;
    let pf = o.profile_file@;
    let r = int_text(o.refresh as int);
    let g = int_text(o.sig_figs as int);
    lemma_int_text_reads_back(o.refresh as int);
    lemma_int_text_reads_back(o.sig_figs as int);
    lemma_output_fields_found();
    let fs = output_fields();
    let pa = seq![("file"@, f)];
    let pb = optional_pair("diagnostic_file"@, d);
    let pc = seq![("refresh"@, r), ("sig_figs"@, g)];
    let ps = output_pairs(o);
    let st0 = unset(5).update(0, Some(Setting::Text(f)));
    assert(apply_pairs(fs, pa) == st0) by {
        lemma_apply_pairs_push(fs, Seq::empty(), ("file"@, f), 0, Setting::Text(f));
        assert(Seq::<(Seq<char>, Seq<char>)>::empty().push(("file"@, f)) =~= pa);
    }
    let st1 = if d.len() == 0 {
        st0
    } else {
        st0.update(1, Some(Setting::Text(d)))
    };
    assert(apply_pairs(fs, pa + pb) == st1) by {
        if d.len() == 0 {
            assert(pa + pb =~= pa);
        } else {
            lemma_apply_pairs_push(fs, pa, ("diagnostic_file"@, d), 1, Setting::Text(d));
            assert(pa.push(("diagnostic_file"@, d)) =~= pa + pb);
        }
    }
    let st2 = st1.update(2, Some(Setting::Int(o.refresh as int)));
    assert(apply_pairs(fs, (pa + pb).push(("refresh"@, r))) == st2) by {
        lemma_apply_pairs_push(fs, pa + pb, ("refresh"@, r), 2, Setting::Int(o.refresh as int));
    }
    let st3 = st2.update(3, Some(Setting::Int(o.sig_figs as int)));
    assert(apply_pairs(fs, pa + pb + pc) == st3) by {
        lemma_apply_pairs_push(
            fs,
            (pa + pb).push(("refresh"@, r)),
            ("sig_figs"@, g),
            3,
            Setting::Int(o.sig_figs as int),
        );
        assert((pa + pb).push(("refresh"@, r)).push(("sig_figs"@, g)) =~= pa + pb + pc);
    }
    let st4 = if pf.len() == 0 {
        st3
    } else {
        st3.update(4, Some(Setting::Text(pf)))
    };
    assert(apply_pairs(fs, ps) == st4) by {
        if pf.len() == 0 {
            assert(ps =~= pa + pb + pc);
        } else {
            lemma_apply_pairs_push(fs, pa + pb + pc, ("profile_file"@, pf), 4, Setting::Text(pf));
            assert((pa + pb + pc).push(("profile_file"@, pf)) =~= ps);
        }
    }
}

/// Reading the statement that file output options write gives the
/// options back, when no file name holds whitespace or opens with a
/// quote.
pub proof fn law_output_round_trip(o: Output)
    requires
        plain_value(o.file@),
        plain_value(o.diagnostic_file@),
        plain_value(o.profile_file@),
    ensures
        output_from(output_fragment(o)) == Ok::<OutputSpec, Fault>(output_spec(o)),
{
    reveal_strlit("output");
    lemma_output_fragment_pairs(o);
    lemma_output_pairs_good(o);
    law_unify_statement("output"@, output_fields(), output_pairs(o));
    lemma_output_apply(o);
}

/// Reading the statement that input data options write gives the file
/// back, when it is not empty (an empty file writes no statement), holds
/// no whitespace and does not open with a quote.
pub proof fn law_data_round_trip(file: Seq<char>)
    requires
        file.len() > 0,
        plain_value(file),
    ensures
        data_from(data_fragment(file)) == Ok::<Seq<char>, Fault>(file),
{
    reveal_strlit("data file=");
    reveal_strlit("data");
    reveal_strlit("file");
    let ps = seq![("file"@, file)];
    lemma_assignment_one("file"@, file);
    assert(data_fragment(file) =~= "data"@ + assignments(ps));
    let fs = data_fields();
    assert(find_field(fs, "file"@) == Some(0int));
    assert(plain_pairs(ps));
    assert(good_pairs(fs, ps));
    law_unify_statement("data"@, fs, ps);
    lemma_apply_pairs_push(fs, Seq::empty(), ("file"@, file), 0, Setting::Text(file));
    assert(Seq::<(Seq<char>, Seq<char>)>::empty().push(("file"@, file)) =~= ps);
}

/// Reading the statement that the random number options of a run tree
/// write gives the seed back.
pub proof fn law_tree_random_round_trip(r: crate::argtree::Random)
    ensures
        random_from(node_stmt(r.node())) == Ok::<int, Fault>(r.seed as int),
{
    let t = int_text(r.seed as int);
    let fs = seq![Node::Value("seed"@, t)];
    let ps = seq![("seed"@, t)];
    assert(r.node() == Node::Group(Some("random"@), fs));
    lemma_group_stmt("random"@, fs);
    assert(value_pairs(fs) =~= ps);
    lemma_assignment_one("seed"@, t);
    reveal_strlit("random seed=");
    reveal_strlit("random");
    reveal_strlit("seed");
    assert(random_fragment(r.seed as int) =~= "random"@ + assignments(ps));
    law_random_round_trip(r.seed);
}

/// Reading the statement that the input data options of a run tree
/// write gives the file back, when it is not empty, holds no white space
/// and does not open with a quote.
pub proof fn law_tree_data_round_trip(d: crate::argtree::Data)
    requires
        d.file@.len() > 0,
        plain_value(d.file@),
    ensures
        data_from(node_stmt(d.node())) == Ok::<Seq<char>, Fault>(d.file@),
{
    let f = d.file@;
    let fs = seq![Node::Value("file"@, f)];
    let ps = seq![("file"@, f)];
    assert(d.node() == Node::Group(Some("data"@), fs));
    lemma_group_stmt("data"@, fs);
    assert(value_pairs(fs) =~= ps);
    lemma_assignment_one("file"@, f);
    reveal_strlit("data file=");
    reveal_strlit("data");
    reveal_strlit("file");
    assert(data_fragment(f) =~= "data"@ + assignments(ps));
    law_data_round_trip(f);
}

/// Reading the statement that the file output options of a run tree
/// write gives the options back, when every file name is given, holds no
/// white space and does not open with a quote.
pub proof fn law_tree_output_round_trip(o: crate::argtree::Output)
    requires
        plain_value(o.file@),
        plain_value(o.diagnostic_file@),
        plain_value(o.profile_file@),
        o.diagnostic_file@.len() > 0,
        o.profile_file@.len() > 0,
    ensures
        output_from(node_stmt(o.node())) == Ok::<OutputSpec, Fault>(
            OutputSpec {
                file: o.file@,
                diagnostic_file: o.diagnostic_file@,
                refresh: o.refresh as int,
                sig_figs: o.sig_figs as int,
                profile_file: o.profile_file@,
            },
        ),
{
    let o2 = Output {
        file: o.file,
        diagnostic_file: o.diagnostic_file,
        refresh: o.refresh,
        sig_figs: o.sig_figs,
        profile_file: o.profile_file,
    };
    let fs = seq![
        Node::Value("file"@, o.file@),
        Node::Value("diagnostic_file"@, o.diagnostic_file@),
        Node::Value("refresh"@, int_text(o.refresh as int)),
        Node::Value("sig_figs"@, int_text(o.sig_figs as int)),
        Node::Value("profile_file"@, o.profile_file@),
    ];
    assert(o.node() == Node::Group(Some("output"@), fs));
    assert(all_values(fs));
    lemma_group_stmt("output"@, fs);
    assert(value_pairs(fs) =~= output_pairs(o2));
    lemma_output_fragment_pairs(o2);
    law_output_round_trip(o2);
}

/// No option term of `ts` (after the declaration) gives `key` a value.
pub open spec fn gives_no_value(ts: Seq<Term>, key: Seq<char>) -> bool {
    forall|j: int| 1 <= j < ts.len() && #[trigger] ts[j].key == key ==> ts[j].value is None
}

/// An accepted `random` statement that gives the seed no value leaves the
/// default seed `-1`.
pub proof fn law_random_default(s: Seq<char>, ts: Seq<Term>)
    requires
        terms(s) == Ok::<Seq<Term>, int>(ts),
        random_from(s) is Ok,
        gives_no_value(ts, "seed"@),
    ensures
        random_from(s) == Ok::<int, Fault>(-1),
{
    law_unify_unset("random"@, random_fields(), s, ts, 0);
}

/// An accepted `data` statement that gives the file no value leaves the
/// default, no file.
pub proof fn law_data_default(s: Seq<char>, ts: Seq<Term>)
    requires
        terms(s) == Ok::<Seq<Term>, int>(ts),
        data_from(s) is Ok,
        gives_no_value(ts, "file"@),
    ensures
        data_from(s) == Ok::<Seq<char>, Fault>(Seq::empty()),
{
    law_unify_unset("data"@, data_fields(), s, ts, 0);
}

/// The options that an accepted `output` statement gives no value keep
/// their defaults: the file `output.csv`, no diagnostic file, a refresh
/// every `100` iterations, `-1` significant figures (the default of the
/// tool), and no profile file.
pub proof fn law_output_defaults(s: Seq<char>, ts: Seq<Term>)
    requires
        terms(s) == Ok::<Seq<Term>, int>(ts),
        output_from(s) is Ok,
    ensures
        gives_no_value(ts, "file"@) ==> output_from(s)->Ok_0.file == "output.csv"@,
        gives_no_value(ts, "diagnostic_file"@) ==> output_from(s)->Ok_0.diagnostic_file
            == Seq::<char>::empty(),
        gives_no_value(ts, "refresh"@) ==> output_from(s)->Ok_0.refresh == 100,
        gives_no_value(ts, "sig_figs"@) ==> output_from(s)->Ok_0.sig_figs == -1,
        gives_no_value(ts, "profile_file"@) ==> output_from(s)->Ok_0.profile_file
            == Seq::<char>::empty(),
{
    let fs = output_fields();
    if gives_no_value(ts, "file"@) {
        law_unify_unset("output"@, fs, s, ts, 0);
    }
    if gives_no_value(ts, "diagnostic_file"@) {
        law_unify_unset("output"@, fs, s, ts, 1);
    }
    if gives_no_value(ts, "refresh"@) {
        law_unify_unset("output"@, fs, s, ts, 2);
    }
    if gives_no_value(ts, "sig_figs"@) {
        law_unify_unset("output"@, fs, s, ts, 3);
    }
    if gives_no_value(ts, "profile_file"@) {
        law_unify_unset("output"@, fs, s, ts, 4);
    }
}

/// The options that an accepted eta adaptation statement gives no value
/// keep their defaults: adaptation engaged, for `50` iterations.
pub proof fn law_variational_adapt_defaults(s: Seq<char>, ts: Seq<Term>)
    requires
        terms(s) == Ok::<Seq<Term>, int>(ts),
        variational_adapt_from(s) is Ok,
    ensures
        gives_no_value(ts, "engaged"@) ==> variational_adapt_from(s)->Ok_0.engaged,
        gives_no_value(ts, "iter"@) ==> variational_adapt_from(s)->Ok_0.iter == 50,
{
    let fs = variational_adapt_fields();
    if gives_no_value(ts, "engaged"@) {
        law_unify_unset("adapt"@, fs, s, ts, 0);
    }
    if gives_no_value(ts, "iter"@) {
        law_unify_unset("adapt"@, fs, s, ts, 1);
    }
}

/// An accepted metric statement that names no metric gives the default,
/// `diag_e`.
pub proof fn law_metric_default(s: Seq<char>, ts: Seq<Term>)
    requires
        terms(s) == Ok::<Seq<Term>, int>(ts),
        metric_from(s) is Ok,
        forall|j: int| 0 <= j < ts.len() ==> (#[trigger] ts[j]).value is None,
    ensures
        metric_from(s) == Ok::<Metric, Fault>(Metric::DiagE),
{
    assert(ts.len() > 0 ==> ts[0].value is None);
}

/// An accepted variational algorithm statement that names no algorithm
/// gives the default, `meanfield`.
pub proof fn law_variational_algorithm_default(s: Seq<char>, ts: Seq<Term>)
    requires
        terms(s) == Ok::<Seq<Term>, int>(ts),
        variational_algorithm_from(s) is Ok,
        forall|j: int| 0 <= j < ts.len() ==> (#[trigger] ts[j]).value is None,
    ensures
        variational_algorithm_from(s) == Ok::<VariationalAlgorithm, Fault>(
            VariationalAlgorithm::MeanField,
        ),
{
    assert(ts.len() > 0 ==> ts[0].value is None);
}

} // verus!
