//! The schemas of the statements of the command line language that nest:
//! a whole command line, a method, and the blocks and choices that can be
//! read on their own.
use vstd::prelude::*;
use crate::tree::{Entry, EntrySpec, Role, Schema, SchemaSpec, Variant, VariantSpec};
use crate::unify::Kind;

verus! {

/// The schema of a whole command line.
pub open spec fn argument_tree_schema() -> SchemaSpec {
    SchemaSpec {
        parents: seq![0nat, 0nat, 0nat, 0nat, 0nat, 0nat, 0nat, 0nat, 0nat, 1nat, 1nat, 1nat, 10nat, 10nat, 10nat, 10nat, 10nat, 2nat, 2nat, 2nat, 3nat, 3nat, 3nat, 4nat, 0nat, 0nat, 0nat],
        entries: seq![
            EntrySpec { name: "method"@, scope: 0, role: Role::Choice(0), once: true },
            EntrySpec { name: "sample"@, scope: 0, role: Role::Shortcut(0, 0), once: false },
            EntrySpec { name: "optimize"@, scope: 0, role: Role::Shortcut(0, 1), once: false },
            EntrySpec { name: "variational"@, scope: 0, role: Role::Shortcut(0, 2), once: false },
            EntrySpec { name: "diagnose"@, scope: 0, role: Role::Shortcut(0, 3), once: false },
            EntrySpec { name: "generate_quantities"@, scope: 0, role: Role::Shortcut(0, 4), once: false },
            EntrySpec { name: "pathfinder"@, scope: 0, role: Role::Shortcut(0, 5), once: false },
            EntrySpec { name: "log_prob"@, scope: 0, role: Role::Shortcut(0, 6), once: false },
            EntrySpec { name: "laplace"@, scope: 0, role: Role::Shortcut(0, 7), once: false },
            EntrySpec { name: "num_samples"@, scope: 1, role: Role::Value(Kind::Int32), once: false },
            EntrySpec { name: "num_warmup"@, scope: 1, role: Role::Value(Kind::Int32), once: false },
            EntrySpec { name: "save_warmup"@, scope: 1, role: Role::Value(Kind::Flag), once: false },
            EntrySpec { name: "thin"@, scope: 1, role: Role::Value(Kind::Int32), once: false },
            EntrySpec { name: "adapt"@, scope: 1, role: Role::Block(9), once: false },
            EntrySpec { name: "engaged"@, scope: 9, role: Role::Value(Kind::Flag), once: false },
            EntrySpec { name: "gamma"@, scope: 9, role: Role::Value(Kind::Real), once: false },
            EntrySpec { name: "delta"@, scope: 9, role: Role::Value(Kind::Real), once: false },
            EntrySpec { name: "kappa"@, scope: 9, role: Role::Value(Kind::Real), once: false },
            EntrySpec { name: "t0"@, scope: 9, role: Role::Value(Kind::Real), once: false },
            EntrySpec { name: "init_buffer"@, scope: 9, role: Role::Value(Kind::UInt32), once: false },
            EntrySpec { name: "term_buffer"@, scope: 9, role: Role::Value(Kind::UInt32), once: false },
            EntrySpec { name: "window"@, scope: 9, role: Role::Value(Kind::UInt32), once: false },
            EntrySpec { name: "algorithm"@, scope: 1, role: Role::Choice(8), once: false },
            EntrySpec { name: "engine"@, scope: 10, role: Role::Choice(10), once: false },
            EntrySpec { name: "max_depth"@, scope: 12, role: Role::Value(Kind::Int32), once: false },
            EntrySpec { name: "int_time"@, scope: 13, role: Role::Value(Kind::Real), once: false },
            EntrySpec { name: "metric"@, scope: 10, role: Role::Choice(13), once: false },
            EntrySpec { name: "metric_file"@, scope: 10, role: Role::Value(Kind::Path), once: false },
            EntrySpec { name: "stepsize"@, scope: 10, role: Role::Value(Kind::Real), once: false },
            EntrySpec { name: "stepsize_jitter"@, scope: 10, role: Role::Value(Kind::Real), once: false },
            EntrySpec { name: "num_chains"@, scope: 1, role: Role::Value(Kind::Int32), once: false },
            EntrySpec { name: "algorithm"@, scope: 2, role: Role::Choice(16), once: false },
            EntrySpec { name: "init_alpha"@, scope: 17, role: Role::Value(Kind::Real), once: false },
            EntrySpec { name: "tol_obj"@, scope: 17, role: Role::Value(Kind::Real), once: false },
            EntrySpec { name: "tol_rel_obj"@, scope: 17, role: Role::Value(Kind::Real), once: false },
            EntrySpec { name: "tol_grad"@, scope: 17, role: Role::Value(Kind::Real), once: false },
            EntrySpec { name: "tol_rel_grad"@, scope: 17, role: Role::Value(Kind::Real), once: false },
            EntrySpec { name: "tol_param"@, scope: 17, role: Role::Value(Kind::Real), once: false },
            EntrySpec { name: "init_alpha"@, scope: 18, role: Role::Value(Kind::Real), once: false },
            EntrySpec { name: "tol_obj"@, scope: 18, role: Role::Value(Kind::Real), once: false },
            EntrySpec { name: "tol_rel_obj"@, scope: 18, role: Role::Value(Kind::Real), once: false },
            EntrySpec { name: "tol_grad"@, scope: 18, role: Role::Value(Kind::Real), once: false },
            EntrySpec { name: "tol_rel_grad"@, scope: 18, role: Role::Value(Kind::Real), once: false },
            EntrySpec { name: "tol_param"@, scope: 18, role: Role::Value(Kind::Real), once: false },
            EntrySpec { name: "history_size"@, scope: 18, role: Role::Value(Kind::Int32), once: false },
            EntrySpec { name: "jacobian"@, scope: 2, role: Role::Value(Kind::Flag), once: false },
            EntrySpec { name: "iter"@, scope: 2, role: Role::Value(Kind::Int32), once: false },
            EntrySpec { name: "save_iterations"@, scope: 2, role: Role::Value(Kind::Flag), once: false },
            EntrySpec { name: "algorithm"@, scope: 3, role: Role::Choice(18), once: false },
            EntrySpec { name: "iter"@, scope: 3, role: Role::Value(Kind::Int32), once: false },
            EntrySpec { name: "grad_samples"@, scope: 3, role: Role::Value(Kind::Int32), once: false },
            EntrySpec { name: "elbo_samples"@, scope: 3, role: Role::Value(Kind::Int32), once: false },
            EntrySpec { name: "eta"@, scope: 3, role: Role::Value(Kind::Real), once: false },
            EntrySpec { name: "adapt"@, scope: 3, role: Role::Block(22), once: false },
            EntrySpec { name: "engaged"@, scope: 22, role: Role::Value(Kind::Flag), once: false },
            EntrySpec { name: "iter"@, scope: 22, role: Role::Value(Kind::Int32), once: false },
            EntrySpec { name: "tol_rel_obj"@, scope: 3, role: Role::Value(Kind::Real), once: false },
            EntrySpec { name: "eval_elbo"@, scope: 3, role: Role::Value(Kind::Int32), once: false },
            EntrySpec { name: "output_samples"@, scope: 3, role: Role::Value(Kind::Int32), once: false },
            EntrySpec { name: "test"@, scope: 4, role: Role::Choice(20), once: false },
            EntrySpec { name: "epsilon"@, scope: 23, role: Role::Value(Kind::Real), once: false },
            EntrySpec { name: "error"@, scope: 23, role: Role::Value(Kind::Real), once: false },
            EntrySpec { name: "fitted_params"@, scope: 5, role: Role::Value(Kind::Path), once: false },
            EntrySpec { name: "init_alpha"@, scope: 6, role: Role::Value(Kind::Real), once: false },
            EntrySpec { name: "tol_obj"@, scope: 6, role: Role::Value(Kind::Real), once: false },
            EntrySpec { name: "tol_rel_obj"@, scope: 6, role: Role::Value(Kind::Real), once: false },
            EntrySpec { name: "tol_grad"@, scope: 6, role: Role::Value(Kind::Real), once: false },
            EntrySpec { name: "tol_rel_grad"@, scope: 6, role: Role::Value(Kind::Real), once: false },
            EntrySpec { name: "tol_param"@, scope: 6, role: Role::Value(Kind::Real), once: false },
            EntrySpec { name: "history_size"@, scope: 6, role: Role::Value(Kind::Int32), once: false },
            EntrySpec { name: "num_psis_draws"@, scope: 6, role: Role::Value(Kind::Int32), once: false },
            EntrySpec { name: "num_paths"@, scope: 6, role: Role::Value(Kind::Int32), once: false },
            EntrySpec { name: "save_single_paths"@, scope: 6, role: Role::Value(Kind::Flag), once: false },
            EntrySpec { name: "max_lbfgs_iters"@, scope: 6, role: Role::Value(Kind::Int32), once: false },
            EntrySpec { name: "num_draws"@, scope: 6, role: Role::Value(Kind::Int32), once: false },
            EntrySpec { name: "num_elbo_draws"@, scope: 6, role: Role::Value(Kind::Int32), once: false },
            EntrySpec { name: "unconstrained_params"@, scope: 7, role: Role::Value(Kind::Path), once: false },
            EntrySpec { name: "constrained_params"@, scope: 7, role: Role::Value(Kind::Path), once: false },
            EntrySpec { name: "jacobian"@, scope: 7, role: Role::Value(Kind::Flag), once: false },
            EntrySpec { name: "mode"@, scope: 8, role: Role::Value(Kind::Path), once: false },
            EntrySpec { name: "jacobian"@, scope: 8, role: Role::Value(Kind::Flag), once: false },
            EntrySpec { name: "draws"@, scope: 8, role: Role::Value(Kind::Int32), once: false },
            EntrySpec { name: "id"@, scope: 0, role: Role::Value(Kind::Int32), once: true },
            EntrySpec { name: "data"@, scope: 0, role: Role::Block(24), once: true },
            EntrySpec { name: "file"@, scope: 24, role: Role::Value(Kind::Path), once: false },
            EntrySpec { name: "init"@, scope: 0, role: Role::Value(Kind::Path), once: true },
            EntrySpec { name: "random"@, scope: 0, role: Role::Block(25), once: true },
            EntrySpec { name: "seed"@, scope: 25, role: Role::Value(Kind::Int64), once: false },
            EntrySpec { name: "output"@, scope: 0, role: Role::Block(26), once: true },
            EntrySpec { name: "file"@, scope: 26, role: Role::Value(Kind::Path), once: false },
            EntrySpec { name: "diagnostic_file"@, scope: 26, role: Role::Value(Kind::Path), once: false },
            EntrySpec { name: "refresh"@, scope: 26, role: Role::Value(Kind::Int32), once: false },
            EntrySpec { name: "sig_figs"@, scope: 26, role: Role::Value(Kind::Int32), once: false },
            EntrySpec { name: "profile_file"@, scope: 26, role: Role::Value(Kind::Path), once: false },
            EntrySpec { name: "num_threads"@, scope: 0, role: Role::Value(Kind::Int32), once: true },
        ],
        variants: seq![
            VariantSpec { choice: 0, name: "sample"@, scope: 1 },
            VariantSpec { choice: 0, name: "optimize"@, scope: 2 },
            VariantSpec { choice: 0, name: "variational"@, scope: 3 },
            VariantSpec { choice: 0, name: "diagnose"@, scope: 4 },
            VariantSpec { choice: 0, name: "generate_quantities"@, scope: 5 },
            VariantSpec { choice: 0, name: "pathfinder"@, scope: 6 },
            VariantSpec { choice: 0, name: "log_prob"@, scope: 7 },
            VariantSpec { choice: 0, name: "laplace"@, scope: 8 },
            VariantSpec { choice: 22, name: "hmc"@, scope: 10 },
            VariantSpec { choice: 22, name: "fixed_param"@, scope: 11 },
            VariantSpec { choice: 23, name: "nuts"@, scope: 12 },
            VariantSpec { choice: 23, name: "static"@, scope: 13 },
            VariantSpec { choice: 26, name: "unit_e"@, scope: 14 },
            VariantSpec { choice: 26, name: "diag_e"@, scope: 15 },
            VariantSpec { choice: 26, name: "dense_e"@, scope: 16 },
            VariantSpec { choice: 31, name: "bfgs"@, scope: 17 },
            VariantSpec { choice: 31, name: "lbfgs"@, scope: 18 },
            VariantSpec { choice: 31, name: "newton"@, scope: 19 },
            VariantSpec { choice: 48, name: "meanfield"@, scope: 20 },
            VariantSpec { choice: 48, name: "fullrank"@, scope: 21 },
            VariantSpec { choice: 59, name: "gradient"@, scope: 23 },
        ],
    }
}

/// Builds the schema of a whole command line.
pub fn argument_tree_schema_exec() -> (sc: Schema)
    ensures
        sc@ == argument_tree_schema(),
{
    let sc = Schema {
        parents: vec![0, 0, 0, 0, 0, 0, 0, 0, 0, 1, 1, 1, 10, 10, 10, 10, 10, 2, 2, 2, 3, 3, 3, 4, 0, 0, 0],
        entries: vec![
            Entry { name: "method", scope: 0, role: Role::Choice(0), once: true },
            Entry { name: "sample", scope: 0, role: Role::Shortcut(0, 0), once: false },
            Entry { name: "optimize", scope: 0, role: Role::Shortcut(0, 1), once: false },
            Entry { name: "variational", scope: 0, role: Role::Shortcut(0, 2), once: false },
            Entry { name: "diagnose", scope: 0, role: Role::Shortcut(0, 3), once: false },
            Entry { name: "generate_quantities", scope: 0, role: Role::Shortcut(0, 4), once: false },
            Entry { name: "pathfinder", scope: 0, role: Role::Shortcut(0, 5), once: false },
            Entry { name: "log_prob", scope: 0, role: Role::Shortcut(0, 6), once: false },
            Entry { name: "laplace", scope: 0, role: Role::Shortcut(0, 7), once: false },
            Entry { name: "num_samples", scope: 1, role: Role::Value(Kind::Int32), once: false },
            Entry { name: "num_warmup", scope: 1, role: Role::Value(Kind::Int32), once: false },
            Entry { name: "save_warmup", scope: 1, role: Role::Value(Kind::Flag), once: false },
            Entry { name: "thin", scope: 1, role: Role::Value(Kind::Int32), once: false },
            Entry { name: "adapt", scope: 1, role: Role::Block(9), once: false },
            Entry { name: "engaged", scope: 9, role: Role::Value(Kind::Flag), once: false },
            Entry { name: "gamma", scope: 9, role: Role::Value(Kind::Real), once: false },
            Entry { name: "delta", scope: 9, role: Role::Value(Kind::Real), once: false },
            Entry { name: "kappa", scope: 9, role: Role::Value(Kind::Real), once: false },
            Entry { name: "t0", scope: 9, role: Role::Value(Kind::Real), once: false },
            Entry { name: "init_buffer", scope: 9, role: Role::Value(Kind::UInt32), once: false },
            Entry { name: "term_buffer", scope: 9, role: Role::Value(Kind::UInt32), once: false },
            Entry { name: "window", scope: 9, role: Role::Value(Kind::UInt32), once: false },
            Entry { name: "algorithm", scope: 1, role: Role::Choice(8), once: false },
            Entry { name: "engine", scope: 10, role: Role::Choice(10), once: false },
            Entry { name: "max_depth", scope: 12, role: Role::Value(Kind::Int32), once: false },
            Entry { name: "int_time", scope: 13, role: Role::Value(Kind::Real), once: false },
            Entry { name: "metric", scope: 10, role: Role::Choice(13), once: false },
            Entry { name: "metric_file", scope: 10, role: Role::Value(Kind::Path), once: false },
            Entry { name: "stepsize", scope: 10, role: Role::Value(Kind::Real), once: false },
            Entry { name: "stepsize_jitter", scope: 10, role: Role::Value(Kind::Real), once: false },
            Entry { name: "num_chains", scope: 1, role: Role::Value(Kind::Int32), once: false },
            Entry { name: "algorithm", scope: 2, role: Role::Choice(16), once: false },
            Entry { name: "init_alpha", scope: 17, role: Role::Value(Kind::Real), once: false },
            Entry { name: "tol_obj", scope: 17, role: Role::Value(Kind::Real), once: false },
            Entry { name: "tol_rel_obj", scope: 17, role: Role::Value(Kind::Real), once: false },
            Entry { name: "tol_grad", scope: 17, role: Role::Value(Kind::Real), once: false },
            Entry { name: "tol_rel_grad", scope: 17, role: Role::Value(Kind::Real), once: false },
            Entry { name: "tol_param", scope: 17, role: Role::Value(Kind::Real), once: false },
            Entry { name: "init_alpha", scope: 18, role: Role::Value(Kind::Real), once: false },
            Entry { name: "tol_obj", scope: 18, role: Role::Value(Kind::Real), once: false },
            Entry { name: "tol_rel_obj", scope: 18, role: Role::Value(Kind::Real), once: false },
            Entry { name: "tol_grad", scope: 18, role: Role::Value(Kind::Real), once: false },
            Entry { name: "tol_rel_grad", scope: 18, role: Role::Value(Kind::Real), once: false },
            Entry { name: "tol_param", scope: 18, role: Role::Value(Kind::Real), once: false },
            Entry { name: "history_size", scope: 18, role: Role::Value(Kind::Int32), once: false },
            Entry { name: "jacobian", scope: 2, role: Role::Value(Kind::Flag), once: false },
            Entry { name: "iter", scope: 2, role: Role::Value(Kind::Int32), once: false },
            Entry { name: "save_iterations", scope: 2, role: Role::Value(Kind::Flag), once: false },
            Entry { name: "algorithm", scope: 3, role: Role::Choice(18), once: false },
            Entry { name: "iter", scope: 3, role: Role::Value(Kind::Int32), once: false },
            Entry { name: "grad_samples", scope: 3, role: Role::Value(Kind::Int32), once: false },
            Entry { name: "elbo_samples", scope: 3, role: Role::Value(Kind::Int32), once: false },
            Entry { name: "eta", scope: 3, role: Role::Value(Kind::Real), once: false },
            Entry { name: "adapt", scope: 3, role: Role::Block(22), once: false },
            Entry { name: "engaged", scope: 22, role: Role::Value(Kind::Flag), once: false },
            Entry { name: "iter", scope: 22, role: Role::Value(Kind::Int32), once: false },
            Entry { name: "tol_rel_obj", scope: 3, role: Role::Value(Kind::Real), once: false },
            Entry { name: "eval_elbo", scope: 3, role: Role::Value(Kind::Int32), once: false },
            Entry { name: "output_samples", scope: 3, role: Role::Value(Kind::Int32), once: false },
            Entry { name: "test", scope: 4, role: Role::Choice(20), once: false },
            Entry { name: "epsilon", scope: 23, role: Role::Value(Kind::Real), once: false },
            Entry { name: "error", scope: 23, role: Role::Value(Kind::Real), once: false },
            Entry { name: "fitted_params", scope: 5, role: Role::Value(Kind::Path), once: false },
            Entry { name: "init_alpha", scope: 6, role: Role::Value(Kind::Real), once: false },
            Entry { name: "tol_obj", scope: 6, role: Role::Value(Kind::Real), once: false },
            Entry { name: "tol_rel_obj", scope: 6, role: Role::Value(Kind::Real), once: false },
            Entry { name: "tol_grad", scope: 6, role: Role::Value(Kind::Real), once: false },
            Entry { name: "tol_rel_grad", scope: 6, role: Role::Value(Kind::Real), once: false },
            Entry { name: "tol_param", scope: 6, role: Role::Value(Kind::Real), once: false },
            Entry { name: "history_size", scope: 6, role: Role::Value(Kind::Int32), once: false },
            Entry { name: "num_psis_draws", scope: 6, role: Role::Value(Kind::Int32), once: false },
            Entry { name: "num_paths", scope: 6, role: Role::Value(Kind::Int32), once: false },
            Entry { name: "save_single_paths", scope: 6, role: Role::Value(Kind::Flag), once: false },
            Entry { name: "max_lbfgs_iters", scope: 6, role: Role::Value(Kind::Int32), once: false },
            Entry { name: "num_draws", scope: 6, role: Role::Value(Kind::Int32), once: false },
            Entry { name: "num_elbo_draws", scope: 6, role: Role::Value(Kind::Int32), once: false },
            Entry { name: "unconstrained_params", scope: 7, role: Role::Value(Kind::Path), once: false },
            Entry { name: "constrained_params", scope: 7, role: Role::Value(Kind::Path), once: false },
            Entry { name: "jacobian", scope: 7, role: Role::Value(Kind::Flag), once: false },
            Entry { name: "mode", scope: 8, role: Role::Value(Kind::Path), once: false },
            Entry { name: "jacobian", scope: 8, role: Role::Value(Kind::Flag), once: false },
            Entry { name: "draws", scope: 8, role: Role::Value(Kind::Int32), once: false },
            Entry { name: "id", scope: 0, role: Role::Value(Kind::Int32), once: true },
            Entry { name: "data", scope: 0, role: Role::Block(24), once: true },
            Entry { name: "file", scope: 24, role: Role::Value(Kind::Path), once: false },
            Entry { name: "init", scope: 0, role: Role::Value(Kind::Path), once: true },
            Entry { name: "random", scope: 0, role: Role::Block(25), once: true },
            Entry { name: "seed", scope: 25, role: Role::Value(Kind::Int64), once: false },
            Entry { name: "output", scope: 0, role: Role::Block(26), once: true },
            Entry { name: "file", scope: 26, role: Role::Value(Kind::Path), once: false },
            Entry { name: "diagnostic_file", scope: 26, role: Role::Value(Kind::Path), once: false },
            Entry { name: "refresh", scope: 26, role: Role::Value(Kind::Int32), once: false },
            Entry { name: "sig_figs", scope: 26, role: Role::Value(Kind::Int32), once: false },
            Entry { name: "profile_file", scope: 26, role: Role::Value(Kind::Path), once: false },
            Entry { name: "num_threads", scope: 0, role: Role::Value(Kind::Int32), once: true },
        ],
        variants: vec![
            Variant { choice: 0, name: "sample", scope: 1 },
            Variant { choice: 0, name: "optimize", scope: 2 },
            Variant { choice: 0, name: "variational", scope: 3 },
            Variant { choice: 0, name: "diagnose", scope: 4 },
            Variant { choice: 0, name: "generate_quantities", scope: 5 },
            Variant { choice: 0, name: "pathfinder", scope: 6 },
            Variant { choice: 0, name: "log_prob", scope: 7 },
            Variant { choice: 0, name: "laplace", scope: 8 },
            Variant { choice: 22, name: "hmc", scope: 10 },
            Variant { choice: 22, name: "fixed_param", scope: 11 },
            Variant { choice: 23, name: "nuts", scope: 12 },
            Variant { choice: 23, name: "static", scope: 13 },
            Variant { choice: 26, name: "unit_e", scope: 14 },
            Variant { choice: 26, name: "diag_e", scope: 15 },
            Variant { choice: 26, name: "dense_e", scope: 16 },
            Variant { choice: 31, name: "bfgs", scope: 17 },
            Variant { choice: 31, name: "lbfgs", scope: 18 },
            Variant { choice: 31, name: "newton", scope: 19 },
            Variant { choice: 48, name: "meanfield", scope: 20 },
            Variant { choice: 48, name: "fullrank", scope: 21 },
            Variant { choice: 59, name: "gradient", scope: 23 },
        ],
    };
    proof {
        let m = argument_tree_schema();
        assert(sc@.parents =~= m.parents);
        assert(sc@.entries =~= m.entries);
        assert(sc@.variants =~= m.variants);
    }
    sc
}

/// The schema of a method statement.
pub open spec fn method_schema() -> SchemaSpec {
    SchemaSpec {
        parents: seq![0nat, 0nat, 0nat, 0nat, 0nat, 0nat, 0nat, 0nat, 0nat, 1nat, 1nat, 1nat, 10nat, 10nat, 10nat, 10nat, 10nat, 2nat, 2nat, 2nat, 3nat, 3nat, 3nat, 4nat],
        entries: seq![
            EntrySpec { name: "method"@, scope: 0, role: Role::Choice(0), once: false },
            EntrySpec { name: "sample"@, scope: 0, role: Role::Shortcut(0, 0), once: false },
            EntrySpec { name: "optimize"@, scope: 0, role: Role::Shortcut(0, 1), once: false },
            EntrySpec { name: "variational"@, scope: 0, role: Role::Shortcut(0, 2), once: false },
            EntrySpec { name: "diagnose"@, scope: 0, role: Role::Shortcut(0, 3), once: false },
            EntrySpec { name: "generate_quantities"@, scope: 0, role: Role::Shortcut(0, 4), once: false },
            EntrySpec { name: "pathfinder"@, scope: 0, role: Role::Shortcut(0, 5), once: false },
            EntrySpec { name: "log_prob"@, scope: 0, role: Role::Shortcut(0, 6), once: false },
            EntrySpec { name: "laplace"@, scope: 0, role: Role::Shortcut(0, 7), once: false },
            EntrySpec { name: "num_samples"@, scope: 1, role: Role::Value(Kind::Int32), once: false },
            EntrySpec { name: "num_warmup"@, scope: 1, role: Role::Value(Kind::Int32), once: false },
            EntrySpec { name: "save_warmup"@, scope: 1, role: Role::Value(Kind::Flag), once: false },
            EntrySpec { name: "thin"@, scope: 1, role: Role::Value(Kind::Int32), once: false },
            EntrySpec { name: "adapt"@, scope: 1, role: Role::Block(9), once: false },
            EntrySpec { name: "engaged"@, scope: 9, role: Role::Value(Kind::Flag), once: false },
            EntrySpec { name: "gamma"@, scope: 9, role: Role::Value(Kind::Real), once: false },
            EntrySpec { name: "delta"@, scope: 9, role: Role::Value(Kind::Real), once: false },
            EntrySpec { name: "kappa"@, scope: 9, role: Role::Value(Kind::Real), once: false },
            EntrySpec { name: "t0"@, scope: 9, role: Role::Value(Kind::Real), once: false },
            EntrySpec { name: "init_buffer"@, scope: 9, role: Role::Value(Kind::UInt32), once: false },
            EntrySpec { name: "term_buffer"@, scope: 9, role: Role::Value(Kind::UInt32), once: false },
            EntrySpec { name: "window"@, scope: 9, role: Role::Value(Kind::UInt32), once: false },
            EntrySpec { name: "algorithm"@, scope: 1, role: Role::Choice(8), once: false },
            EntrySpec { name: "engine"@, scope: 10, role: Role::Choice(10), once: false },
            EntrySpec { name: "max_depth"@, scope: 12, role: Role::Value(Kind::Int32), once: false },
            EntrySpec { name: "int_time"@, scope: 13, role: Role::Value(Kind::Real), once: false },
            EntrySpec { name: "metric"@, scope: 10, role: Role::Choice(13), once: false },
            EntrySpec { name: "metric_file"@, scope: 10, role: Role::Value(Kind::Path), once: false },
            EntrySpec { name: "stepsize"@, scope: 10, role: Role::Value(Kind::Real), once: false },
            EntrySpec { name: "stepsize_jitter"@, scope: 10, role: Role::Value(Kind::Real), once: false },
            EntrySpec { name: "num_chains"@, scope: 1, role: Role::Value(Kind::Int32), once: false },
            EntrySpec { name: "algorithm"@, scope: 2, role: Role::Choice(16), once: false },
            EntrySpec { name: "init_alpha"@, scope: 17, role: Role::Value(Kind::Real), once: false },
            EntrySpec { name: "tol_obj"@, scope: 17, role: Role::Value(Kind::Real), once: false },
            EntrySpec { name: "tol_rel_obj"@, scope: 17, role: Role::Value(Kind::Real), once: false },
            EntrySpec { name: "tol_grad"@, scope: 17, role: Role::Value(Kind::Real), once: false },
            EntrySpec { name: "tol_rel_grad"@, scope: 17, role: Role::Value(Kind::Real), once: false },
            EntrySpec { name: "tol_param"@, scope: 17, role: Role::Value(Kind::Real), once: false },
            EntrySpec { name: "init_alpha"@, scope: 18, role: Role::Value(Kind::Real), once: false },
            EntrySpec { name: "tol_obj"@, scope: 18, role: Role::Value(Kind::Real), once: false },
            EntrySpec { name: "tol_rel_obj"@, scope: 18, role: Role::Value(Kind::Real), once: false },
            EntrySpec { name: "tol_grad"@, scope: 18, role: Role::Value(Kind::Real), once: false },
            EntrySpec { name: "tol_rel_grad"@, scope: 18, role: Role::Value(Kind::Real), once: false },
            EntrySpec { name: "tol_param"@, scope: 18, role: Role::Value(Kind::Real), once: false },
            EntrySpec { name: "history_size"@, scope: 18, role: Role::Value(Kind::Int32), once: false },
            EntrySpec { name: "jacobian"@, scope: 2, role: Role::Value(Kind::Flag), once: false },
            EntrySpec { name: "iter"@, scope: 2, role: Role::Value(Kind::Int32), once: false },
            EntrySpec { name: "save_iterations"@, scope: 2, role: Role::Value(Kind::Flag), once: false },
            EntrySpec { name: "algorithm"@, scope: 3, role: Role::Choice(18), once: false },
            EntrySpec { name: "iter"@, scope: 3, role: Role::Value(Kind::Int32), once: false },
            EntrySpec { name: "grad_samples"@, scope: 3, role: Role::Value(Kind::Int32), once: false },
            EntrySpec { name: "elbo_samples"@, scope: 3, role: Role::Value(Kind::Int32), once: false },
            EntrySpec { name: "eta"@, scope: 3, role: Role::Value(Kind::Real), once: false },
            EntrySpec { name: "adapt"@, scope: 3, role: Role::Block(22), once: false },
            EntrySpec { name: "engaged"@, scope: 22, role: Role::Value(Kind::Flag), once: false },
            EntrySpec { name: "iter"@, scope: 22, role: Role::Value(Kind::Int32), once: false },
            EntrySpec { name: "tol_rel_obj"@, scope: 3, role: Role::Value(Kind::Real), once: false },
            EntrySpec { name: "eval_elbo"@, scope: 3, role: Role::Value(Kind::Int32), once: false },
            EntrySpec { name: "output_samples"@, scope: 3, role: Role::Value(Kind::Int32), once: false },
            EntrySpec { name: "test"@, scope: 4, role: Role::Choice(20), once: false },
            EntrySpec { name: "epsilon"@, scope: 23, role: Role::Value(Kind::Real), once: false },
            EntrySpec { name: "error"@, scope: 23, role: Role::Value(Kind::Real), once: false },
            EntrySpec { name: "fitted_params"@, scope: 5, role: Role::Value(Kind::Path), once: false },
            EntrySpec { name: "init_alpha"@, scope: 6, role: Role::Value(Kind::Real), once: false },
            EntrySpec { name: "tol_obj"@, scope: 6, role: Role::Value(Kind::Real), once: false },
            EntrySpec { name: "tol_rel_obj"@, scope: 6, role: Role::Value(Kind::Real), once: false },
            EntrySpec { name: "tol_grad"@, scope: 6, role: Role::Value(Kind::Real), once: false },
            EntrySpec { name: "tol_rel_grad"@, scope: 6, role: Role::Value(Kind::Real), once: false },
            EntrySpec { name: "tol_param"@, scope: 6, role: Role::Value(Kind::Real), once: false },
            EntrySpec { name: "history_size"@, scope: 6, role: Role::Value(Kind::Int32), once: false },
            EntrySpec { name: "num_psis_draws"@, scope: 6, role: Role::Value(Kind::Int32), once: false },
            EntrySpec { name: "num_paths"@, scope: 6, role: Role::Value(Kind::Int32), once: false },
            EntrySpec { name: "save_single_paths"@, scope: 6, role: Role::Value(Kind::Flag), once: false },
            EntrySpec { name: "max_lbfgs_iters"@, scope: 6, role: Role::Value(Kind::Int32), once: false },
            EntrySpec { name: "num_draws"@, scope: 6, role: Role::Value(Kind::Int32), once: false },
            EntrySpec { name: "num_elbo_draws"@, scope: 6, role: Role::Value(Kind::Int32), once: false },
            EntrySpec { name: "unconstrained_params"@, scope: 7, role: Role::Value(Kind::Path), once: false },
            EntrySpec { name: "constrained_params"@, scope: 7, role: Role::Value(Kind::Path), once: false },
            EntrySpec { name: "jacobian"@, scope: 7, role: Role::Value(Kind::Flag), once: false },
            EntrySpec { name: "mode"@, scope: 8, role: Role::Value(Kind::Path), once: false },
            EntrySpec { name: "jacobian"@, scope: 8, role: Role::Value(Kind::Flag), once: false },
            EntrySpec { name: "draws"@, scope: 8, role: Role::Value(Kind::Int32), once: false },
        ],
        variants: seq![
            VariantSpec { choice: 0, name: "sample"@, scope: 1 },
            VariantSpec { choice: 0, name: "optimize"@, scope: 2 },
            VariantSpec { choice: 0, name: "variational"@, scope: 3 },
            VariantSpec { choice: 0, name: "diagnose"@, scope: 4 },
            VariantSpec { choice: 0, name: "generate_quantities"@, scope: 5 },
            VariantSpec { choice: 0, name: "pathfinder"@, scope: 6 },
            VariantSpec { choice: 0, name: "log_prob"@, scope: 7 },
            VariantSpec { choice: 0, name: "laplace"@, scope: 8 },
            VariantSpec { choice: 22, name: "hmc"@, scope: 10 },
            VariantSpec { choice: 22, name: "fixed_param"@, scope: 11 },
            VariantSpec { choice: 23, name: "nuts"@, scope: 12 },
            VariantSpec { choice: 23, name: "static"@, scope: 13 },
            VariantSpec { choice: 26, name: "unit_e"@, scope: 14 },
            VariantSpec { choice: 26, name: "diag_e"@, scope: 15 },
            VariantSpec { choice: 26, name: "dense_e"@, scope: 16 },
            VariantSpec { choice: 31, name: "bfgs"@, scope: 17 },
            VariantSpec { choice: 31, name: "lbfgs"@, scope: 18 },
            VariantSpec { choice: 31, name: "newton"@, scope: 19 },
            VariantSpec { choice: 48, name: "meanfield"@, scope: 20 },
            VariantSpec { choice: 48, name: "fullrank"@, scope: 21 },
            VariantSpec { choice: 59, name: "gradient"@, scope: 23 },
        ],
    }
}

/// Builds the schema of a method statement.
pub fn method_schema_exec() -> (sc: Schema)
    ensures
        sc@ == method_schema(),
{
    let sc = Schema {
        parents: vec![0, 0, 0, 0, 0, 0, 0, 0, 0, 1, 1, 1, 10, 10, 10, 10, 10, 2, 2, 2, 3, 3, 3, 4],
        entries: vec![
            Entry { name: "method", scope: 0, role: Role::Choice(0), once: false },
            Entry { name: "sample", scope: 0, role: Role::Shortcut(0, 0), once: false },
            Entry { name: "optimize", scope: 0, role: Role::Shortcut(0, 1), once: false },
            Entry { name: "variational", scope: 0, role: Role::Shortcut(0, 2), once: false },
            Entry { name: "diagnose", scope: 0, role: Role::Shortcut(0, 3), once: false },
            Entry { name: "generate_quantities", scope: 0, role: Role::Shortcut(0, 4), once: false },
            Entry { name: "pathfinder", scope: 0, role: Role::Shortcut(0, 5), once: false },
            Entry { name: "log_prob", scope: 0, role: Role::Shortcut(0, 6), once: false },
            Entry { name: "laplace", scope: 0, role: Role::Shortcut(0, 7), once: false },
            Entry { name: "num_samples", scope: 1, role: Role::Value(Kind::Int32), once: false },
            Entry { name: "num_warmup", scope: 1, role: Role::Value(Kind::Int32), once: false },
            Entry { name: "save_warmup", scope: 1, role: Role::Value(Kind::Flag), once: false },
            Entry { name: "thin", scope: 1, role: Role::Value(Kind::Int32), once: false },
            Entry { name: "adapt", scope: 1, role: Role::Block(9), once: false },
            Entry { name: "engaged", scope: 9, role: Role::Value(Kind::Flag), once: false },
            Entry { name: "gamma", scope: 9, role: Role::Value(Kind::Real), once: false },
            Entry { name: "delta", scope: 9, role: Role::Value(Kind::Real), once: false },
            Entry { name: "kappa", scope: 9, role: Role::Value(Kind::Real), once: false },
            Entry { name: "t0", scope: 9, role: Role::Value(Kind::Real), once: false },
            Entry { name: "init_buffer", scope: 9, role: Role::Value(Kind::UInt32), once: false },
            Entry { name: "term_buffer", scope: 9, role: Role::Value(Kind::UInt32), once: false },
            Entry { name: "window", scope: 9, role: Role::Value(Kind::UInt32), once: false },
            Entry { name: "algorithm", scope: 1, role: Role::Choice(8), once: false },
            Entry { name: "engine", scope: 10, role: Role::Choice(10), once: false },
            Entry { name: "max_depth", scope: 12, role: Role::Value(Kind::Int32), once: false },
            Entry { name: "int_time", scope: 13, role: Role::Value(Kind::Real), once: false },
            Entry { name: "metric", scope: 10, role: Role::Choice(13), once: false },
            Entry { name: "metric_file", scope: 10, role: Role::Value(Kind::Path), once: false },
            Entry { name: "stepsize", scope: 10, role: Role::Value(Kind::Real), once: false },
            Entry { name: "stepsize_jitter", scope: 10, role: Role::Value(Kind::Real), once: false },
            Entry { name: "num_chains", scope: 1, role: Role::Value(Kind::Int32), once: false },
            Entry { name: "algorithm", scope: 2, role: Role::Choice(16), once: false },
            Entry { name: "init_alpha", scope: 17, role: Role::Value(Kind::Real), once: false },
            Entry { name: "tol_obj", scope: 17, role: Role::Value(Kind::Real), once: false },
            Entry { name: "tol_rel_obj", scope: 17, role: Role::Value(Kind::Real), once: false },
            Entry { name: "tol_grad", scope: 17, role: Role::Value(Kind::Real), once: false },
            Entry { name: "tol_rel_grad", scope: 17, role: Role::Value(Kind::Real), once: false },
            Entry { name: "tol_param", scope: 17, role: Role::Value(Kind::Real), once: false },
            Entry { name: "init_alpha", scope: 18, role: Role::Value(Kind::Real), once: false },
            Entry { name: "tol_obj", scope: 18, role: Role::Value(Kind::Real), once: false },
            Entry { name: "tol_rel_obj", scope: 18, role: Role::Value(Kind::Real), once: false },
            Entry { name: "tol_grad", scope: 18, role: Role::Value(Kind::Real), once: false },
            Entry { name: "tol_rel_grad", scope: 18, role: Role::Value(Kind::Real), once: false },
            Entry { name: "tol_param", scope: 18, role: Role::Value(Kind::Real), once: false },
            Entry { name: "history_size", scope: 18, role: Role::Value(Kind::Int32), once: false },
            Entry { name: "jacobian", scope: 2, role: Role::Value(Kind::Flag), once: false },
            Entry { name: "iter", scope: 2, role: Role::Value(Kind::Int32), once: false },
            Entry { name: "save_iterations", scope: 2, role: Role::Value(Kind::Flag), once: false },
            Entry { name: "algorithm", scope: 3, role: Role::Choice(18), once: false },
            Entry { name: "iter", scope: 3, role: Role::Value(Kind::Int32), once: false },
            Entry { name: "grad_samples", scope: 3, role: Role::Value(Kind::Int32), once: false },
            Entry { name: "elbo_samples", scope: 3, role: Role::Value(Kind::Int32), once: false },
            Entry { name: "eta", scope: 3, role: Role::Value(Kind::Real), once: false },
            Entry { name: "adapt", scope: 3, role: Role::Block(22), once: false },
            Entry { name: "engaged", scope: 22, role: Role::Value(Kind::Flag), once: false },
            Entry { name: "iter", scope: 22, role: Role::Value(Kind::Int32), once: false },
            Entry { name: "tol_rel_obj", scope: 3, role: Role::Value(Kind::Real), once: false },
            Entry { name: "eval_elbo", scope: 3, role: Role::Value(Kind::Int32), once: false },
            Entry { name: "output_samples", scope: 3, role: Role::Value(Kind::Int32), once: false },
            Entry { name: "test", scope: 4, role: Role::Choice(20), once: false },
            Entry { name: "epsilon", scope: 23, role: Role::Value(Kind::Real), once: false },
            Entry { name: "error", scope: 23, role: Role::Value(Kind::Real), once: false },
            Entry { name: "fitted_params", scope: 5, role: Role::Value(Kind::Path), once: false },
            Entry { name: "init_alpha", scope: 6, role: Role::Value(Kind::Real), once: false },
            Entry { name: "tol_obj", scope: 6, role: Role::Value(Kind::Real), once: false },
            Entry { name: "tol_rel_obj", scope: 6, role: Role::Value(Kind::Real), once: false },
            Entry { name: "tol_grad", scope: 6, role: Role::Value(Kind::Real), once: false },
            Entry { name: "tol_rel_grad", scope: 6, role: Role::Value(Kind::Real), once: false },
            Entry { name: "tol_param", scope: 6, role: Role::Value(Kind::Real), once: false },
            Entry { name: "history_size", scope: 6, role: Role::Value(Kind::Int32), once: false },
            Entry { name: "num_psis_draws", scope: 6, role: Role::Value(Kind::Int32), once: false },
            Entry { name: "num_paths", scope: 6, role: Role::Value(Kind::Int32), once: false },
            Entry { name: "save_single_paths", scope: 6, role: Role::Value(Kind::Flag), once: false },
            Entry { name: "max_lbfgs_iters", scope: 6, role: Role::Value(Kind::Int32), once: false },
            Entry { name: "num_draws", scope: 6, role: Role::Value(Kind::Int32), once: false },
            Entry { name: "num_elbo_draws", scope: 6, role: Role::Value(Kind::Int32), once: false },
            Entry { name: "unconstrained_params", scope: 7, role: Role::Value(Kind::Path), once: false },
            Entry { name: "constrained_params", scope: 7, role: Role::Value(Kind::Path), once: false },
            Entry { name: "jacobian", scope: 7, role: Role::Value(Kind::Flag), once: false },
            Entry { name: "mode", scope: 8, role: Role::Value(Kind::Path), once: false },
            Entry { name: "jacobian", scope: 8, role: Role::Value(Kind::Flag), once: false },
            Entry { name: "draws", scope: 8, role: Role::Value(Kind::Int32), once: false },
        ],
        variants: vec![
            Variant { choice: 0, name: "sample", scope: 1 },
            Variant { choice: 0, name: "optimize", scope: 2 },
            Variant { choice: 0, name: "variational", scope: 3 },
            Variant { choice: 0, name: "diagnose", scope: 4 },
            Variant { choice: 0, name: "generate_quantities", scope: 5 },
            Variant { choice: 0, name: "pathfinder", scope: 6 },
            Variant { choice: 0, name: "log_prob", scope: 7 },
            Variant { choice: 0, name: "laplace", scope: 8 },
            Variant { choice: 22, name: "hmc", scope: 10 },
            Variant { choice: 22, name: "fixed_param", scope: 11 },
            Variant { choice: 23, name: "nuts", scope: 12 },
            Variant { choice: 23, name: "static", scope: 13 },
            Variant { choice: 26, name: "unit_e", scope: 14 },
            Variant { choice: 26, name: "diag_e", scope: 15 },
            Variant { choice: 26, name: "dense_e", scope: 16 },
            Variant { choice: 31, name: "bfgs", scope: 17 },
            Variant { choice: 31, name: "lbfgs", scope: 18 },
            Variant { choice: 31, name: "newton", scope: 19 },
            Variant { choice: 48, name: "meanfield", scope: 20 },
            Variant { choice: 48, name: "fullrank", scope: 21 },
            Variant { choice: 59, name: "gradient", scope: 23 },
        ],
    };
    proof {
        let m = method_schema();
        assert(sc@.parents =~= m.parents);
        assert(sc@.entries =~= m.entries);
        assert(sc@.variants =~= m.variants);
    }
    sc
}

/// The schema of an engine statement.
pub open spec fn engine_schema() -> SchemaSpec {
    SchemaSpec {
        parents: seq![0nat, 0nat, 0nat],
        entries: seq![
            EntrySpec { name: "engine"@, scope: 0, role: Role::Choice(0), once: false },
            EntrySpec { name: "max_depth"@, scope: 1, role: Role::Value(Kind::Int32), once: false },
            EntrySpec { name: "int_time"@, scope: 2, role: Role::Value(Kind::Real), once: false },
        ],
        variants: seq![
            VariantSpec { choice: 0, name: "nuts"@, scope: 1 },
            VariantSpec { choice: 0, name: "static"@, scope: 2 },
        ],
    }
}

/// Builds the schema of an engine statement.
pub fn engine_schema_exec() -> (sc: Schema)
    ensures
        sc@ == engine_schema(),
{
    let sc = Schema {
        parents: vec![0, 0, 0],
        entries: vec![
            Entry { name: "engine", scope: 0, role: Role::Choice(0), once: false },
            Entry { name: "max_depth", scope: 1, role: Role::Value(Kind::Int32), once: false },
            Entry { name: "int_time", scope: 2, role: Role::Value(Kind::Real), once: false },
        ],
        variants: vec![
            Variant { choice: 0, name: "nuts", scope: 1 },
            Variant { choice: 0, name: "static", scope: 2 },
        ],
    };
    proof {
        let m = engine_schema();
        assert(sc@.parents =~= m.parents);
        assert(sc@.entries =~= m.entries);
        assert(sc@.variants =~= m.variants);
    }
    sc
}

/// The schema of an adaptation statement of sampling.
pub open spec fn sample_adapt_schema() -> SchemaSpec {
    SchemaSpec {
        parents: seq![0nat, 0nat],
        entries: seq![
            EntrySpec { name: "adapt"@, scope: 0, role: Role::Block(1), once: false },
            EntrySpec { name: "engaged"@, scope: 1, role: Role::Value(Kind::Flag), once: false },
            EntrySpec { name: "gamma"@, scope: 1, role: Role::Value(Kind::Real), once: false },
            EntrySpec { name: "delta"@, scope: 1, role: Role::Value(Kind::Real), once: false },
            EntrySpec { name: "kappa"@, scope: 1, role: Role::Value(Kind::Real), once: false },
            EntrySpec { name: "t0"@, scope: 1, role: Role::Value(Kind::Real), once: false },
            EntrySpec { name: "init_buffer"@, scope: 1, role: Role::Value(Kind::UInt32), once: false },
            EntrySpec { name: "term_buffer"@, scope: 1, role: Role::Value(Kind::UInt32), once: false },
            EntrySpec { name: "window"@, scope: 1, role: Role::Value(Kind::UInt32), once: false },
        ],
        variants: seq![
        ],
    }
}

/// Builds the schema of an adaptation statement of sampling.
pub fn sample_adapt_schema_exec() -> (sc: Schema)
    ensures
        sc@ == sample_adapt_schema(),
{
    let sc = Schema {
        parents: vec![0, 0],
        entries: vec![
            Entry { name: "adapt", scope: 0, role: Role::Block(1), once: false },
            Entry { name: "engaged", scope: 1, role: Role::Value(Kind::Flag), once: false },
            Entry { name: "gamma", scope: 1, role: Role::Value(Kind::Real), once: false },
            Entry { name: "delta", scope: 1, role: Role::Value(Kind::Real), once: false },
            Entry { name: "kappa", scope: 1, role: Role::Value(Kind::Real), once: false },
            Entry { name: "t0", scope: 1, role: Role::Value(Kind::Real), once: false },
            Entry { name: "init_buffer", scope: 1, role: Role::Value(Kind::UInt32), once: false },
            Entry { name: "term_buffer", scope: 1, role: Role::Value(Kind::UInt32), once: false },
            Entry { name: "window", scope: 1, role: Role::Value(Kind::UInt32), once: false },
        ],
        variants: vec![
        ],
    };
    proof {
        let m = sample_adapt_schema();
        assert(sc@.parents =~= m.parents);
        assert(sc@.entries =~= m.entries);
        assert(sc@.variants =~= m.variants);
    }
    sc
}

/// The schema of a sampling algorithm statement.
pub open spec fn sample_algorithm_schema() -> SchemaSpec {
    SchemaSpec {
        parents: seq![0nat, 0nat, 0nat, 1nat, 1nat, 1nat, 1nat, 1nat],
        entries: seq![
            EntrySpec { name: "algorithm"@, scope: 0, role: Role::Choice(0), once: false },
            EntrySpec { name: "engine"@, scope: 1, role: Role::Choice(2), once: false },
            EntrySpec { name: "max_depth"@, scope: 3, role: Role::Value(Kind::Int32), once: false },
            EntrySpec { name: "int_time"@, scope: 4, role: Role::Value(Kind::Real), once: false },
            EntrySpec { name: "metric"@, scope: 1, role: Role::Choice(5), once: false },
            EntrySpec { name: "metric_file"@, scope: 1, role: Role::Value(Kind::Path), once: false },
            EntrySpec { name: "stepsize"@, scope: 1, role: Role::Value(Kind::Real), once: false },
            EntrySpec { name: "stepsize_jitter"@, scope: 1, role: Role::Value(Kind::Real), once: false },
        ],
        variants: seq![
            VariantSpec { choice: 0, name: "hmc"@, scope: 1 },
            VariantSpec { choice: 0, name: "fixed_param"@, scope: 2 },
            VariantSpec { choice: 1, name: "nuts"@, scope: 3 },
            VariantSpec { choice: 1, name: "static"@, scope: 4 },
            VariantSpec { choice: 4, name: "unit_e"@, scope: 5 },
            VariantSpec { choice: 4, name: "diag_e"@, scope: 6 },
            VariantSpec { choice: 4, name: "dense_e"@, scope: 7 },
        ],
    }
}

/// Builds the schema of a sampling algorithm statement.
pub fn sample_algorithm_schema_exec() -> (sc: Schema)
    ensures
        sc@ == sample_algorithm_schema(),
{
    let sc = Schema {
        parents: vec![0, 0, 0, 1, 1, 1, 1, 1],
        entries: vec![
            Entry { name: "algorithm", scope: 0, role: Role::Choice(0), once: false },
            Entry { name: "engine", scope: 1, role: Role::Choice(2), once: false },
            Entry { name: "max_depth", scope: 3, role: Role::Value(Kind::Int32), once: false },
            Entry { name: "int_time", scope: 4, role: Role::Value(Kind::Real), once: false },
            Entry { name: "metric", scope: 1, role: Role::Choice(5), once: false },
            Entry { name: "metric_file", scope: 1, role: Role::Value(Kind::Path), once: false },
            Entry { name: "stepsize", scope: 1, role: Role::Value(Kind::Real), once: false },
            Entry { name: "stepsize_jitter", scope: 1, role: Role::Value(Kind::Real), once: false },
        ],
        variants: vec![
            Variant { choice: 0, name: "hmc", scope: 1 },
            Variant { choice: 0, name: "fixed_param", scope: 2 },
            Variant { choice: 1, name: "nuts", scope: 3 },
            Variant { choice: 1, name: "static", scope: 4 },
            Variant { choice: 4, name: "unit_e", scope: 5 },
            Variant { choice: 4, name: "diag_e", scope: 6 },
            Variant { choice: 4, name: "dense_e", scope: 7 },
        ],
    };
    proof {
        let m = sample_algorithm_schema();
        assert(sc@.parents =~= m.parents);
        assert(sc@.entries =~= m.entries);
        assert(sc@.variants =~= m.variants);
    }
    sc
}

/// The schema of an optimization algorithm statement.
pub open spec fn optimize_algorithm_schema() -> SchemaSpec {
    SchemaSpec {
        parents: seq![0nat, 0nat, 0nat, 0nat],
        entries: seq![
            EntrySpec { name: "algorithm"@, scope: 0, role: Role::Choice(1), once: false },
            EntrySpec { name: "init_alpha"@, scope: 1, role: Role::Value(Kind::Real), once: false },
            EntrySpec { name: "tol_obj"@, scope: 1, role: Role::Value(Kind::Real), once: false },
            EntrySpec { name: "tol_rel_obj"@, scope: 1, role: Role::Value(Kind::Real), once: false },
            EntrySpec { name: "tol_grad"@, scope: 1, role: Role::Value(Kind::Real), once: false },
            EntrySpec { name: "tol_rel_grad"@, scope: 1, role: Role::Value(Kind::Real), once: false },
            EntrySpec { name: "tol_param"@, scope: 1, role: Role::Value(Kind::Real), once: false },
            EntrySpec { name: "init_alpha"@, scope: 2, role: Role::Value(Kind::Real), once: false },
            EntrySpec { name: "tol_obj"@, scope: 2, role: Role::Value(Kind::Real), once: false },
            EntrySpec { name: "tol_rel_obj"@, scope: 2, role: Role::Value(Kind::Real), once: false },
            EntrySpec { name: "tol_grad"@, scope: 2, role: Role::Value(Kind::Real), once: false },
            EntrySpec { name: "tol_rel_grad"@, scope: 2, role: Role::Value(Kind::Real), once: false },
            EntrySpec { name: "tol_param"@, scope: 2, role: Role::Value(Kind::Real), once: false },
            EntrySpec { name: "history_size"@, scope: 2, role: Role::Value(Kind::Int32), once: false },
        ],
        variants: seq![
            VariantSpec { choice: 0, name: "bfgs"@, scope: 1 },
            VariantSpec { choice: 0, name: "lbfgs"@, scope: 2 },
            VariantSpec { choice: 0, name: "newton"@, scope: 3 },
        ],
    }
}

/// Builds the schema of an optimization algorithm statement.
pub fn optimize_algorithm_schema_exec() -> (sc: Schema)
    ensures
        sc@ == optimize_algorithm_schema(),
{
    let sc = Schema {
        parents: vec![0, 0, 0, 0],
        entries: vec![
            Entry { name: "algorithm", scope: 0, role: Role::Choice(1), once: false },
            Entry { name: "init_alpha", scope: 1, role: Role::Value(Kind::Real), once: false },
            Entry { name: "tol_obj", scope: 1, role: Role::Value(Kind::Real), once: false },
            Entry { name: "tol_rel_obj", scope: 1, role: Role::Value(Kind::Real), once: false },
            Entry { name: "tol_grad", scope: 1, role: Role::Value(Kind::Real), once: false },
            Entry { name: "tol_rel_grad", scope: 1, role: Role::Value(Kind::Real), once: false },
            Entry { name: "tol_param", scope: 1, role: Role::Value(Kind::Real), once: false },
            Entry { name: "init_alpha", scope: 2, role: Role::Value(Kind::Real), once: false },
            Entry { name: "tol_obj", scope: 2, role: Role::Value(Kind::Real), once: false },
            Entry { name: "tol_rel_obj", scope: 2, role: Role::Value(Kind::Real), once: false },
            Entry { name: "tol_grad", scope: 2, role: Role::Value(Kind::Real), once: false },
            Entry { name: "tol_rel_grad", scope: 2, role: Role::Value(Kind::Real), once: false },
            Entry { name: "tol_param", scope: 2, role: Role::Value(Kind::Real), once: false },
            Entry { name: "history_size", scope: 2, role: Role::Value(Kind::Int32), once: false },
        ],
        variants: vec![
            Variant { choice: 0, name: "bfgs", scope: 1 },
            Variant { choice: 0, name: "lbfgs", scope: 2 },
            Variant { choice: 0, name: "newton", scope: 3 },
        ],
    };
    proof {
        let m = optimize_algorithm_schema();
        assert(sc@.parents =~= m.parents);
        assert(sc@.entries =~= m.entries);
        assert(sc@.variants =~= m.variants);
    }
    sc
}

/// The schema of a diagnostic test statement.
pub open spec fn diagnose_test_schema() -> SchemaSpec {
    SchemaSpec {
        parents: seq![0nat, 0nat],
        entries: seq![
            EntrySpec { name: "test"@, scope: 0, role: Role::Choice(0), once: false },
            EntrySpec { name: "epsilon"@, scope: 1, role: Role::Value(Kind::Real), once: false },
            EntrySpec { name: "error"@, scope: 1, role: Role::Value(Kind::Real), once: false },
        ],
        variants: seq![
            VariantSpec { choice: 0, name: "gradient"@, scope: 1 },
        ],
    }
}

/// Builds the schema of a diagnostic test statement.
pub fn diagnose_test_schema_exec() -> (sc: Schema)
    ensures
        sc@ == diagnose_test_schema(),
{
    let sc = Schema {
        parents: vec![0, 0],
        entries: vec![
            Entry { name: "test", scope: 0, role: Role::Choice(0), once: false },
            Entry { name: "epsilon", scope: 1, role: Role::Value(Kind::Real), once: false },
            Entry { name: "error", scope: 1, role: Role::Value(Kind::Real), once: false },
        ],
        variants: vec![
            Variant { choice: 0, name: "gradient", scope: 1 },
        ],
    };
    proof {
        let m = diagnose_test_schema();
        assert(sc@.parents =~= m.parents);
        assert(sc@.entries =~= m.entries);
        assert(sc@.variants =~= m.variants);
    }
    sc
}
/// The name of the first variant from `k` on whose options make up the
/// scope `s`.
pub open spec fn scope_variant(sc: SchemaSpec, s: nat, k: int) -> Option<Seq<char>>
    decreases sc.variants.len() - k,
{
    if k < 0 || k >= sc.variants.len() {
        None
    } else if sc.variants[k].scope == s {
        Some(sc.variants[k].name)
    } else {
        scope_variant(sc, s, k + 1)
    }
}

/// The variant whose options make up the scope `s`, or `top` for a scope
/// that no variant opens.
pub open spec fn scope_owner(sc: SchemaSpec, s: nat, top: Seq<char>) -> Seq<char> {
    match scope_variant(sc, s, 0) {
        Some(n) => n,
        None => top,
    }
}

/// The documented default of the choice `key` among the options of
/// `owner`: the method samples; a sampler uses `hmc`, with the `nuts`
/// engine and the `diag_e` metric; an optimizer uses `lbfgs`; variational
/// inference uses `meanfield`; a diagnosis tests the `gradient`.
pub open spec fn documented_default(owner: Seq<char>, key: Seq<char>) -> Option<Seq<char>> {
    if key == "method"@ {
        Some("sample"@)
    } else if key == "algorithm"@ {
        if owner == "sample"@ {
            Some("hmc"@)
        } else if owner == "optimize"@ {
            Some("lbfgs"@)
        } else if owner == "variational"@ {
            Some("meanfield"@)
        } else {
            None
        }
    } else if key == "engine"@ {
        Some("nuts"@)
    } else if key == "metric"@ {
        Some("diag_e"@)
    } else if key == "test"@ {
        Some("gradient"@)
    } else {
        None
    }
}

/// If the entry `e` of `sc` is a choice, it falls back, when no variant
/// is named, on a variant of its own that is the documented default
/// (`top`: what the outermost scope belongs to).
pub open spec fn default_documented(sc: SchemaSpec, e: int, top: Seq<char>) -> bool {
    match sc.entries[e].role {
        Role::Choice(d) => {
            &&& d < sc.variants.len()
            &&& sc.variants[d as int].choice == e
            &&& documented_default(scope_owner(sc, sc.entries[e].scope, top), sc.entries[e].name)
                == Some(sc.variants[d as int].name)
        },
        _ => true,
    }
}

/// Every choice of `sc` falls back on its documented default.
pub open spec fn defaults_documented(sc: SchemaSpec, top: Seq<char>) -> bool {
    forall|e: int| 0 <= e < sc.entries.len() ==> #[trigger] default_documented(sc, e, top)
}

/// The keywords and variant names that the documented defaults speak of
/// are distinct.
proof fn lemma_default_names_distinct()
    ensures
        "method"@ != "algorithm"@,
        "method"@ != "engine"@,
        "method"@ != "metric"@,
        "method"@ != "test"@,
        "method"@ != "sample"@,
        "method"@ != "optimize"@,
        "method"@ != "variational"@,
        "method"@ != "diagnose"@,
        "method"@ != "hmc"@,
        "method"@ != ""@,
        "algorithm"@ != "engine"@,
        "algorithm"@ != "metric"@,
        "algorithm"@ != "test"@,
        "algorithm"@ != "sample"@,
        "algorithm"@ != "optimize"@,
        "algorithm"@ != "variational"@,
        "algorithm"@ != "diagnose"@,
        "algorithm"@ != "hmc"@,
        "algorithm"@ != ""@,
        "engine"@ != "metric"@,
        "engine"@ != "test"@,
        "engine"@ != "sample"@,
        "engine"@ != "optimize"@,
        "engine"@ != "variational"@,
        "engine"@ != "diagnose"@,
        "engine"@ != "hmc"@,
        "engine"@ != ""@,
        "metric"@ != "test"@,
        "metric"@ != "sample"@,
        "metric"@ != "optimize"@,
        "metric"@ != "variational"@,
        "metric"@ != "diagnose"@,
        "metric"@ != "hmc"@,
        "metric"@ != ""@,
        "test"@ != "sample"@,
        "test"@ != "optimize"@,
        "test"@ != "variational"@,
        "test"@ != "diagnose"@,
        "test"@ != "hmc"@,
        "test"@ != ""@,
        "sample"@ != "optimize"@,
        "sample"@ != "variational"@,
        "sample"@ != "diagnose"@,
        "sample"@ != "hmc"@,
        "sample"@ != ""@,
        "optimize"@ != "variational"@,
        "optimize"@ != "diagnose"@,
        "optimize"@ != "hmc"@,
        "optimize"@ != ""@,
        "variational"@ != "diagnose"@,
        "variational"@ != "hmc"@,
        "variational"@ != ""@,
        "diagnose"@ != "hmc"@,
        "diagnose"@ != ""@,
        "hmc"@ != ""@,
{
    reveal_strlit("method");
    reveal_strlit("algorithm");
    reveal_strlit("engine");
    reveal_strlit("metric");
    reveal_strlit("test");
    reveal_strlit("sample");
    reveal_strlit("optimize");
    reveal_strlit("variational");
    reveal_strlit("diagnose");
    reveal_strlit("hmc");
    reveal_strlit("");
    assert("method"@.len() != "algorithm"@.len());
    assert("method"@[0] != "engine"@[0]);
    assert("method"@[3] != "metric"@[3]);
    assert("method"@.len() != "test"@.len());
    assert("method"@[0] != "sample"@[0]);
    assert("method"@.len() != "optimize"@.len());
    assert("method"@.len() != "variational"@.len());
    assert("method"@.len() != "diagnose"@.len());
    assert("method"@.len() != "hmc"@.len());
    assert("method"@.len() != ""@.len());
    assert("algorithm"@.len() != "engine"@.len());
    assert("algorithm"@.len() != "metric"@.len());
    assert("algorithm"@.len() != "test"@.len());
    assert("algorithm"@.len() != "sample"@.len());
    assert("algorithm"@.len() != "optimize"@.len());
    assert("algorithm"@.len() != "variational"@.len());
    assert("algorithm"@.len() != "diagnose"@.len());
    assert("algorithm"@.len() != "hmc"@.len());
    assert("algorithm"@.len() != ""@.len());
    assert("engine"@[0] != "metric"@[0]);
    assert("engine"@.len() != "test"@.len());
    assert("engine"@[0] != "sample"@[0]);
    assert("engine"@.len() != "optimize"@.len());
    assert("engine"@.len() != "variational"@.len());
    assert("engine"@.len() != "diagnose"@.len());
    assert("engine"@.len() != "hmc"@.len());
    assert("engine"@.len() != ""@.len());
    assert("metric"@.len() != "test"@.len());
    assert("metric"@[0] != "sample"@[0]);
    assert("metric"@.len() != "optimize"@.len());
    assert("metric"@.len() != "variational"@.len());
    assert("metric"@.len() != "diagnose"@.len());
    assert("metric"@.len() != "hmc"@.len());
    assert("metric"@.len() != ""@.len());
    assert("test"@.len() != "sample"@.len());
    assert("test"@.len() != "optimize"@.len());
    assert("test"@.len() != "variational"@.len());
    assert("test"@.len() != "diagnose"@.len());
    assert("test"@.len() != "hmc"@.len());
    assert("test"@.len() != ""@.len());
    assert("sample"@.len() != "optimize"@.len());
    assert("sample"@.len() != "variational"@.len());
    assert("sample"@.len() != "diagnose"@.len());
    assert("sample"@.len() != "hmc"@.len());
    assert("sample"@.len() != ""@.len());
    assert("optimize"@.len() != "variational"@.len());
    assert("optimize"@[0] != "diagnose"@[0]);
    assert("optimize"@.len() != "hmc"@.len());
    assert("optimize"@.len() != ""@.len());
    assert("variational"@.len() != "diagnose"@.len());
    assert("variational"@.len() != "hmc"@.len());
    assert("variational"@.len() != ""@.len());
    assert("diagnose"@.len() != "hmc"@.len());
    assert("diagnose"@.len() != ""@.len());
    assert("hmc"@.len() != ""@.len());
}

/// Where a command line names no variant of a choice, the documented
/// default holds: the method samples, with `hmc`, the `nuts` engine and
/// the `diag_e` metric; an optimizer uses `lbfgs`; variational inference
/// uses `meanfield`; a diagnosis tests the `gradient`.
#[verifier::spinoff_prover]
#[verifier::rlimit(100)]
pub proof fn law_argument_tree_defaults()
    ensures
        defaults_documented(argument_tree_schema(), ""@),
{
    reveal_strlit("method");
    reveal_strlit("algorithm");
    reveal_strlit("engine");
    reveal_strlit("metric");
    reveal_strlit("test");
    reveal_strlit("sample");
    reveal_strlit("optimize");
    reveal_strlit("variational");
    reveal_strlit("hmc");
    reveal_strlit("lbfgs");
    reveal_strlit("meanfield");
    reveal_strlit("nuts");
    reveal_strlit("diag_e");
    reveal_strlit("gradient");
    reveal_with_fuel(scope_variant, 8);
    lemma_default_names_distinct();
    let sc = argument_tree_schema();
    assert forall|e: int| 0 <= e < sc.entries.len() implies #[trigger] default_documented(sc, e, ""@) by {
        if e == 0 {
        } else if e == 1 {
        } else if e == 2 {
        } else if e == 3 {
        } else if e == 4 {
        } else if e == 5 {
        } else if e == 6 {
        } else if e == 7 {
        } else if e == 8 {
        } else if e == 9 {
        } else if e == 10 {
        } else if e == 11 {
        } else if e == 12 {
        } else if e == 13 {
        } else if e == 14 {
        } else if e == 15 {
        } else if e == 16 {
        } else if e == 17 {
        } else if e == 18 {
        } else if e == 19 {
        } else if e == 20 {
        } else if e == 21 {
        } else if e == 22 {
        } else if e == 23 {
        } else if e == 24 {
        } else if e == 25 {
        } else if e == 26 {
        } else if e == 27 {
        } else if e == 28 {
        } else if e == 29 {
        } else if e == 30 {
        } else if e == 31 {
        } else if e == 32 {
        } else if e == 33 {
        } else if e == 34 {
        } else if e == 35 {
        } else if e == 36 {
        } else if e == 37 {
        } else if e == 38 {
        } else if e == 39 {
        } else if e == 40 {
        } else if e == 41 {
        } else if e == 42 {
        } else if e == 43 {
        } else if e == 44 {
        } else if e == 45 {
        } else if e == 46 {
        } else if e == 47 {
        } else if e == 48 {
        } else if e == 49 {
        } else if e == 50 {
        } else if e == 51 {
        } else if e == 52 {
        } else if e == 53 {
        } else if e == 54 {
        } else if e == 55 {
        } else if e == 56 {
        } else if e == 57 {
        } else if e == 58 {
        } else if e == 59 {
        } else if e == 60 {
        } else if e == 61 {
        } else if e == 62 {
        } else if e == 63 {
        } else if e == 64 {
        } else if e == 65 {
        } else if e == 66 {
        } else if e == 67 {
        } else if e == 68 {
        } else if e == 69 {
        } else if e == 70 {
        } else if e == 71 {
        } else if e == 72 {
        } else if e == 73 {
        } else if e == 74 {
        } else if e == 75 {
        } else if e == 76 {
        } else if e == 77 {
        } else if e == 78 {
        } else if e == 79 {
        } else if e == 80 {
        } else if e == 81 {
        } else if e == 82 {
        } else if e == 83 {
        } else if e == 84 {
        } else if e == 85 {
        } else if e == 86 {
        } else if e == 87 {
        } else if e == 88 {
        } else if e == 89 {
        } else if e == 90 {
        } else if e == 91 {
        } else if e == 92 {
        } else if e == 93 {
        } else if e == 94 {
        }
    }
}

/// Where a method statement names no variant of a choice, the documented
/// default holds (as for a whole command line).
#[verifier::spinoff_prover]
#[verifier::rlimit(100)]
pub proof fn law_method_defaults()
    ensures
        defaults_documented(method_schema(), ""@),
{
    reveal_strlit("method");
    reveal_strlit("algorithm");
    reveal_strlit("engine");
    reveal_strlit("metric");
    reveal_strlit("test");
    reveal_strlit("sample");
    reveal_strlit("optimize");
    reveal_strlit("variational");
    reveal_strlit("hmc");
    reveal_strlit("lbfgs");
    reveal_strlit("meanfield");
    reveal_strlit("nuts");
    reveal_strlit("diag_e");
    reveal_strlit("gradient");
    reveal_with_fuel(scope_variant, 8);
    lemma_default_names_distinct();
    let sc = method_schema();
    assert forall|e: int| 0 <= e < sc.entries.len() implies #[trigger] default_documented(sc, e, ""@) by {
        if e == 0 {
        } else if e == 1 {
        } else if e == 2 {
        } else if e == 3 {
        } else if e == 4 {
        } else if e == 5 {
        } else if e == 6 {
        } else if e == 7 {
        } else if e == 8 {
        } else if e == 9 {
        } else if e == 10 {
        } else if e == 11 {
        } else if e == 12 {
        } else if e == 13 {
        } else if e == 14 {
        } else if e == 15 {
        } else if e == 16 {
        } else if e == 17 {
        } else if e == 18 {
        } else if e == 19 {
        } else if e == 20 {
        } else if e == 21 {
        } else if e == 22 {
        } else if e == 23 {
        } else if e == 24 {
        } else if e == 25 {
        } else if e == 26 {
        } else if e == 27 {
        } else if e == 28 {
        } else if e == 29 {
        } else if e == 30 {
        } else if e == 31 {
        } else if e == 32 {
        } else if e == 33 {
        } else if e == 34 {
        } else if e == 35 {
        } else if e == 36 {
        } else if e == 37 {
        } else if e == 38 {
        } else if e == 39 {
        } else if e == 40 {
        } else if e == 41 {
        } else if e == 42 {
        } else if e == 43 {
        } else if e == 44 {
        } else if e == 45 {
        } else if e == 46 {
        } else if e == 47 {
        } else if e == 48 {
        } else if e == 49 {
        } else if e == 50 {
        } else if e == 51 {
        } else if e == 52 {
        } else if e == 53 {
        } else if e == 54 {
        } else if e == 55 {
        } else if e == 56 {
        } else if e == 57 {
        } else if e == 58 {
        } else if e == 59 {
        } else if e == 60 {
        } else if e == 61 {
        } else if e == 62 {
        } else if e == 63 {
        } else if e == 64 {
        } else if e == 65 {
        } else if e == 66 {
        } else if e == 67 {
        } else if e == 68 {
        } else if e == 69 {
        } else if e == 70 {
        } else if e == 71 {
        } else if e == 72 {
        } else if e == 73 {
        } else if e == 74 {
        } else if e == 75 {
        } else if e == 76 {
        } else if e == 77 {
        } else if e == 78 {
        } else if e == 79 {
        } else if e == 80 {
        } else if e == 81 {
        }
    }
}

/// Where an engine statement names no engine, it is `nuts`.
#[verifier::spinoff_prover]
#[verifier::rlimit(100)]
pub proof fn law_engine_defaults()
    ensures
        defaults_documented(engine_schema(), ""@),
{
    reveal_strlit("method");
    reveal_strlit("algorithm");
    reveal_strlit("engine");
    reveal_strlit("metric");
    reveal_strlit("test");
    reveal_strlit("sample");
    reveal_strlit("optimize");
    reveal_strlit("variational");
    reveal_strlit("hmc");
    reveal_strlit("lbfgs");
    reveal_strlit("meanfield");
    reveal_strlit("nuts");
    reveal_strlit("diag_e");
    reveal_strlit("gradient");
    reveal_with_fuel(scope_variant, 8);
    lemma_default_names_distinct();
    let sc = engine_schema();
    assert forall|e: int| 0 <= e < sc.entries.len() implies #[trigger] default_documented(sc, e, ""@) by {
        if e == 0 {
        } else if e == 1 {
        } else if e == 2 {
        }
    }
}

/// Where a sampler's algorithm statement names no variant, it is `hmc`
/// with the `nuts` engine and the `diag_e` metric.
#[verifier::spinoff_prover]
#[verifier::rlimit(100)]
pub proof fn law_sample_algorithm_defaults()
    ensures
        defaults_documented(sample_algorithm_schema(), "sample"@),
{
    reveal_strlit("method");
    reveal_strlit("algorithm");
    reveal_strlit("engine");
    reveal_strlit("metric");
    reveal_strlit("test");
    reveal_strlit("sample");
    reveal_strlit("optimize");
    reveal_strlit("variational");
    reveal_strlit("hmc");
    reveal_strlit("lbfgs");
    reveal_strlit("meanfield");
    reveal_strlit("nuts");
    reveal_strlit("diag_e");
    reveal_strlit("gradient");
    reveal_strlit("sample");
    reveal_with_fuel(scope_variant, 8);
    lemma_default_names_distinct();
    let sc = sample_algorithm_schema();
    assert forall|e: int| 0 <= e < sc.entries.len() implies #[trigger] default_documented(sc, e, "sample"@) by {
        if e == 0 {
        } else if e == 1 {
        } else if e == 2 {
        } else if e == 3 {
        } else if e == 4 {
        } else if e == 5 {
        } else if e == 6 {
        } else if e == 7 {
        }
    }
}

/// Where an optimizer's algorithm statement names no variant, it is
/// `lbfgs`.
#[verifier::spinoff_prover]
#[verifier::rlimit(100)]
pub proof fn law_optimize_algorithm_defaults()
    ensures
        defaults_documented(optimize_algorithm_schema(), "optimize"@),
{
    reveal_strlit("method");
    reveal_strlit("algorithm");
    reveal_strlit("engine");
    reveal_strlit("metric");
    reveal_strlit("test");
    reveal_strlit("sample");
    reveal_strlit("optimize");
    reveal_strlit("variational");
    reveal_strlit("hmc");
    reveal_strlit("lbfgs");
    reveal_strlit("meanfield");
    reveal_strlit("nuts");
    reveal_strlit("diag_e");
    reveal_strlit("gradient");
    reveal_strlit("optimize");
    reveal_with_fuel(scope_variant, 8);
    lemma_default_names_distinct();
    let sc = optimize_algorithm_schema();
    assert forall|e: int| 0 <= e < sc.entries.len() implies #[trigger] default_documented(sc, e, "optimize"@) by {
        if e == 0 {
        } else if e == 1 {
        } else if e == 2 {
        } else if e == 3 {
        } else if e == 4 {
        } else if e == 5 {
        } else if e == 6 {
        } else if e == 7 {
        } else if e == 8 {
        } else if e == 9 {
        } else if e == 10 {
        } else if e == 11 {
        } else if e == 12 {
        } else if e == 13 {
        }
    }
}

/// Where a diagnosis statement names no test, it is `gradient`.
#[verifier::spinoff_prover]
#[verifier::rlimit(100)]
pub proof fn law_diagnose_test_defaults()
    ensures
        defaults_documented(diagnose_test_schema(), "diagnose"@),
{
    reveal_strlit("method");
    reveal_strlit("algorithm");
    reveal_strlit("engine");
    reveal_strlit("metric");
    reveal_strlit("test");
    reveal_strlit("sample");
    reveal_strlit("optimize");
    reveal_strlit("variational");
    reveal_strlit("hmc");
    reveal_strlit("lbfgs");
    reveal_strlit("meanfield");
    reveal_strlit("nuts");
    reveal_strlit("diag_e");
    reveal_strlit("gradient");
    reveal_strlit("diagnose");
    reveal_with_fuel(scope_variant, 8);
    lemma_default_names_distinct();
    let sc = diagnose_test_schema();
    assert forall|e: int| 0 <= e < sc.entries.len() implies #[trigger] default_documented(sc, e, "diagnose"@) by {
        if e == 0 {
        } else if e == 1 {
        } else if e == 2 {
        }
    }
}

} // verus!
