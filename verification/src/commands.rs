//! Reading the statements of the command line language that nest (a
//! whole command line, a method, and the blocks and choices that can be
//! read on their own) into trees of options.
use vstd::prelude::*;
use crate::grammar::{
    argument_tree_schema, argument_tree_schema_exec, diagnose_test_schema,
    diagnose_test_schema_exec, engine_schema, engine_schema_exec, method_schema, method_schema_exec,
    optimize_algorithm_schema, optimize_algorithm_schema_exec, sample_adapt_schema,
    sample_adapt_schema_exec, sample_algorithm_schema, sample_algorithm_schema_exec,
};
use crate::parser::{Block, ParseGrammarError, block_error};
use crate::text::chars_of;
use crate::tree::{
    Schema, SchemaSpec, TreeFault, TreeModel, TreeRefusal, TreeState, find_in_scope, sized,
    tree_unify, unify_tree,
};

verus! {

/// `e` is the error that the refusal `f` of a statement of block `b`
/// under schema `sc` is answered with: a grammar fault names the block
/// and the position, an integer fault its kind, a repeated declaration
/// the keyword of the entry.
pub open spec fn answers(f: TreeFault, b: Block, sc: SchemaSpec, e: ParseGrammarError) -> bool {
    match f {
        TreeFault::Grammar(p) => e == block_error(b, p as usize),
        TreeFault::Int(k) => e == ParseGrammarError::IntError(k),
        TreeFault::Duplicate(d) => e matches ParseGrammarError::TopLevelDuplicate(n) && n@
            == sc.entries[d].name,
    }
}

/// What reading `s` under `sc` as a statement of block `b` gives.
pub open spec fn read_as(sc: SchemaSpec, b: Block, s: Seq<char>, r: Result<TreeState, ParseGrammarError>) -> bool {
    match r {
        Ok(st) => tree_unify(sc, s) == Ok::<TreeModel, TreeFault>(st@),
        Err(e) => tree_unify(sc, s) matches Err(f) && answers(f, b, sc, e),
    }
}

fn answer(sc: &Schema, f: TreeRefusal, b: Block) -> (e: ParseGrammarError)
    requires
        f matches TreeRefusal::Duplicate(d) ==> d < sc.entries@.len(),
    ensures
        answers(f@, b, sc@, e),
{
    match f {
        TreeRefusal::Grammar(p) => ParseGrammarError::at(b, p),
        TreeRefusal::Int(k) => ParseGrammarError::IntError(k),
        TreeRefusal::Duplicate(d) => {
            proof {
                assert(sc@.entries[d as int] == sc.entries@[d as int]@);
            }
            ParseGrammarError::TopLevelDuplicate(sc.entries[d].name)
        },
    }
}

fn read_with(sc: &Schema, s: &str, b: Block) -> (r: Result<TreeState, ParseGrammarError>)
    ensures
        read_as(sc@, b, s@, r),
        r matches Ok(st) ==> sized(sc@, st),
{
    let cs = chars_of(s);
    match unify_tree(sc, cs.as_slice()) {
        Ok(st) => Ok(st),
        Err(f) => Err(answer(sc, f, b)),
    }
}

/// What reading `s` as a whole command line gives: the options, when the
/// statement is accepted and names a method (entry 0 of the schema).
pub open spec fn command_line_read(s: Seq<char>, r: Result<TreeState, ParseGrammarError>) -> bool {
    match tree_unify(argument_tree_schema(), s) {
        Ok(m) => if m.seen[0] {
            r matches Ok(st) && st@ == m
        } else {
            r == Err::<TreeState, ParseGrammarError>(ParseGrammarError::MethodNotSpecified)
        },
        Err(f) => r matches Err(e) && answers(f, Block::ArgumentTree, argument_tree_schema(), e),
    }
}

/// Reads a whole command line: a method (`method=<name>`, or the name
/// alone) with its options, `id`, `data`, `init`, `random`, `output` and
/// `num_threads`, each declared at most once.
pub fn read_command_line(s: &str) -> (r: Result<TreeState, ParseGrammarError>)
    ensures
        command_line_read(s@, r),
        r matches Ok(st) ==> sized(argument_tree_schema(), st),
{
    let sc = argument_tree_schema_exec();
    match read_with(&sc, s, Block::ArgumentTree) {
        Ok(st) => {
            proof {
                assert(st@.seen == st.seen@);
            }
            if st.seen[0] {
                Ok(st)
            } else {
                Err(ParseGrammarError::MethodNotSpecified)
            }
        },
        Err(e) => Err(e),
    }
}

/// Reads a method statement: `method=<name>` or the name alone, then the
/// method's options.
pub fn read_method(s: &str) -> (r: Result<TreeState, ParseGrammarError>)
    ensures
        read_as(method_schema(), Block::Method, s@, r),
        r matches Ok(st) ==> sized(method_schema(), st),
{
    let sc = method_schema_exec();
    read_with(&sc, s, Block::Method)
}

/// Reads an engine statement: `engine` or `engine=<name>`, then the
/// engine's options.
pub fn read_engine(s: &str) -> (r: Result<TreeState, ParseGrammarError>)
    ensures
        read_as(engine_schema(), Block::Engine, s@, r),
        r matches Ok(st) ==> sized(engine_schema(), st),
{
    let sc = engine_schema_exec();
    read_with(&sc, s, Block::Engine)
}

/// Reads an adaptation statement of sampling: `adapt`, then its options.
pub fn read_sample_adapt(s: &str) -> (r: Result<TreeState, ParseGrammarError>)
    ensures
        read_as(sample_adapt_schema(), Block::SampleAdapt, s@, r),
        r matches Ok(st) ==> sized(sample_adapt_schema(), st),
{
    let sc = sample_adapt_schema_exec();
    read_with(&sc, s, Block::SampleAdapt)
}

/// Reads a sampling algorithm statement: `algorithm` or
/// `algorithm=<name>`, then the algorithm's options.
pub fn read_sample_algorithm(s: &str) -> (r: Result<TreeState, ParseGrammarError>)
    ensures
        read_as(sample_algorithm_schema(), Block::SampleAlgorithm, s@, r),
        r matches Ok(st) ==> sized(sample_algorithm_schema(), st),
{
    let sc = sample_algorithm_schema_exec();
    read_with(&sc, s, Block::SampleAlgorithm)
}

/// Reads an optimization algorithm statement: `algorithm` or
/// `algorithm=<name>`, then the algorithm's options.
pub fn read_optimize_algorithm(s: &str) -> (r: Result<TreeState, ParseGrammarError>)
    ensures
        read_as(optimize_algorithm_schema(), Block::OptimizeAlgorithm, s@, r),
        r matches Ok(st) ==> sized(optimize_algorithm_schema(), st),
{
    let sc = optimize_algorithm_schema_exec();
    read_with(&sc, s, Block::OptimizeAlgorithm)
}

/// Reads a diagnostic test statement: `test` or `test=<name>`, then the
/// test's options.
pub fn read_diagnose_test(s: &str) -> (r: Result<TreeState, ParseGrammarError>)
    ensures
        read_as(diagnose_test_schema(), Block::DiagnoseTest, s@, r),
        r matches Ok(st) ==> sized(diagnose_test_schema(), st),
{
    let sc = diagnose_test_schema_exec();
    read_with(&sc, s, Block::DiagnoseTest)
}

} // verus!
