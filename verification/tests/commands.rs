use cmdstan::commands::{
    read_command_line, read_diagnose_test, read_engine, read_method, read_optimize_algorithm,
    read_sample_adapt, read_sample_algorithm,
};
use cmdstan::grammar::{
    argument_tree_schema_exec, diagnose_test_schema_exec, engine_schema_exec, method_schema_exec,
    optimize_algorithm_schema_exec, sample_adapt_schema_exec, sample_algorithm_schema_exec,
};
use cmdstan::parser::ParseGrammarError;
use cmdstan::text::IntErrorKind;
use cmdstan::tree::{Role, Schema, TreeState};
use cmdstan::unify::Value;

/// The scope that the entry `e` leads to under `st`.
fn inner(sc: &Schema, st: &TreeState, e: usize) -> usize {
    match sc.entries[e].role {
        Role::Block(s) => s,
        Role::Choice(d) => sc.variants[st.chosen[e].unwrap_or(d)].scope,
        _ => panic!("not a scope"),
    }
}

/// Follows `path` from the outermost scope; returns the last entry.
fn locate(sc: &Schema, st: &TreeState, path: &[&str]) -> usize {
    let mut scope = 0;
    let mut e = 0;
    for (i, name) in path.iter().enumerate() {
        e = sc.find_entry(scope, name).unwrap_or_else(|| panic!("no entry {name}"));
        if i + 1 < path.len() {
            scope = inner(sc, st, e);
        }
    }
    e
}

fn variant(sc: &Schema, st: &TreeState, path: &[&str]) -> &'static str {
    let e = locate(sc, st, path);
    match sc.entries[e].role {
        Role::Choice(d) => sc.variants[st.chosen[e].unwrap_or(d)].name,
        _ => panic!("not a choice"),
    }
}

fn int_at(sc: &Schema, st: &TreeState, path: &[&str]) -> Option<i64> {
    match &st.slots[locate(sc, st, path)] {
        Some(Value::Int(x)) => Some(*x),
        None => None,
        _ => panic!("not an integer"),
    }
}

fn flag(sc: &Schema, st: &TreeState, path: &[&str]) -> Option<bool> {
    match &st.slots[locate(sc, st, path)] {
        Some(Value::Flag(b)) => Some(*b),
        None => None,
        _ => panic!("not a flag"),
    }
}

fn text(sc: &Schema, st: &TreeState, path: &[&str]) -> Option<String> {
    match &st.slots[locate(sc, st, path)] {
        Some(Value::Text(t)) => Some(t.iter().collect()),
        None => None,
        _ => panic!("not a text"),
    }
}

fn real_at(sc: &Schema, st: &TreeState, path: &[&str]) -> Option<f64> {
    text(sc, st, path).map(|t| t.parse::<f64>().unwrap())
}

#[test]
fn method_sample_statement() {
    let sc = method_schema_exec();
    let suffix = "sample algorithm=hmc stepsize=0.5 engine=nuts max_depth=5 engine=static int_time=3 engine=nuts adapt engaged=0 algorithm=fixed_param algorithm=hmc num_samples=5 num_warmup=20 thin num_chains=5 algorithm=hmc metric=unit_e adapt gamma=0.1 delta=0.2 kappa=0.3 algorithm=hmc engine=static thin=2 num_samples=10 algorithm=hmc engine=nuts engine engine=nuts max_depth=10 max_depth=1 max_depth=2 max_depth=3 engine=static engine=nuts metric=dense_e metric stepsize stepsize_jitter=0.1 stepsize_jitter thin adapt algorithm adapt";
    for s in [format!("method={}", suffix), suffix.to_string()] {
        let st = read_method(&s).unwrap();
        assert_eq!(variant(&sc, &st, &["method"]), "sample");
        let m = ["method", "num_samples"];
        assert_eq!(int_at(&sc, &st, &m), Some(10));
        assert_eq!(int_at(&sc, &st, &["method", "num_warmup"]), Some(20));
        assert_eq!(int_at(&sc, &st, &["method", "thin"]), Some(2));
        assert_eq!(int_at(&sc, &st, &["method", "num_chains"]), Some(5));
        assert_eq!(flag(&sc, &st, &["method", "adapt", "engaged"]), Some(false));
        assert_eq!(real_at(&sc, &st, &["method", "adapt", "gamma"]), Some(0.1));
        assert_eq!(real_at(&sc, &st, &["method", "adapt", "delta"]), Some(0.2));
        assert_eq!(real_at(&sc, &st, &["method", "adapt", "kappa"]), Some(0.3));
        assert_eq!(variant(&sc, &st, &["method", "algorithm"]), "hmc");
        assert_eq!(variant(&sc, &st, &["method", "algorithm", "engine"]), "nuts");
        assert_eq!(
            int_at(&sc, &st, &["method", "algorithm", "engine", "max_depth"]),
            Some(3)
        );
        assert_eq!(variant(&sc, &st, &["method", "algorithm", "metric"]), "dense_e");
        assert_eq!(real_at(&sc, &st, &["method", "algorithm", "stepsize"]), Some(0.5));
        assert_eq!(
            real_at(&sc, &st, &["method", "algorithm", "stepsize_jitter"]),
            Some(0.1)
        );
    }
    for s in ["method", "sample", "method=sample"] {
        let st = read_method(s).unwrap();
        assert_eq!(variant(&sc, &st, &["method"]), "sample");
        assert!(st.slots.iter().all(|x| x.is_none()));
    }
    let s = "method=sample adapt engaged=-0 algorithm=hmc stepsize=0.5 engine=nuts max_depth=5 engine=static int_time=2 adapt gamma=0.1 delta algorithm=fixed_param adapt delta=0.2 gamma=0.5 num_samples adapt engaged=+1";
    let st = read_method(s).unwrap();
    assert_eq!(flag(&sc, &st, &["method", "adapt", "engaged"]), Some(true));
    assert_eq!(real_at(&sc, &st, &["method", "adapt", "gamma"]), Some(0.5));
    assert_eq!(real_at(&sc, &st, &["method", "adapt", "delta"]), Some(0.2));
    assert_eq!(variant(&sc, &st, &["method", "algorithm"]), "fixed_param");
}

#[test]
fn method_variational_statement() {
    let sc = method_schema_exec();
    for s in ["variational", "method=variational"] {
        let st = read_method(s).unwrap();
        assert_eq!(variant(&sc, &st, &["method"]), "variational");
    }
    assert!(read_method("method=variational variational").is_err());
    assert!(read_method("method= variational").is_err());
    let s = "method=variational algorithm=fullrank adapt engaged=0 eta=0.5 adapt engaged=1 iter=25 eval_elbo=10000 iter=42 adapt engaged=0 iter=17 grad_samples=123 output_samples=456";
    let st = read_method(s).unwrap();
    assert_eq!(variant(&sc, &st, &["method", "algorithm"]), "fullrank");
    assert_eq!(flag(&sc, &st, &["method", "adapt", "engaged"]), Some(false));
    assert_eq!(int_at(&sc, &st, &["method", "adapt", "iter"]), Some(17));
    assert_eq!(real_at(&sc, &st, &["method", "eta"]), Some(0.5));
    assert_eq!(int_at(&sc, &st, &["method", "iter"]), Some(42));
    assert_eq!(int_at(&sc, &st, &["method", "eval_elbo"]), Some(10000));
    assert_eq!(int_at(&sc, &st, &["method", "grad_samples"]), Some(123));
    assert_eq!(int_at(&sc, &st, &["method", "output_samples"]), Some(456));
    let s = "method=variational adapt engaged=0 iter=17 iter adapt iter=42";
    assert!(read_method(s).is_err());
    let s = "method=variational adapt engaged=0 iter=17 eta adapt iter=42";
    assert!(read_method(s).is_ok());
}

#[test]
fn sub_statements() {
    let sc = engine_schema_exec();
    let st = read_engine("engine=static int_time int_time=3 int_time=2 int_time").unwrap();
    assert_eq!(variant(&sc, &st, &["engine"]), "static");
    assert_eq!(real_at(&sc, &st, &["engine", "int_time"]), Some(2.0));
    assert!(read_engine("engine=static int_time int_time=3 int_time int_time").is_err());
    assert_eq!(
        read_engine("engine=nuts max_depth=9999999999").unwrap_err(),
        ParseGrammarError::IntError(IntErrorKind::PosOverflow)
    );
    assert!(read_engine("").is_err());
    let st = read_engine("engine").unwrap();
    assert_eq!(variant(&sc, &st, &["engine"]), "nuts");

    let sc = sample_adapt_schema_exec();
    assert!(read_sample_adapt("adapt engaged engaged").is_err());
    assert!(read_sample_adapt("adapt engaged engaged=0").is_ok());
    assert!(read_sample_adapt("adapt engaged=0 engaged").is_ok());
    let s = "adapt engaged engaged=0 engaged engaged=1 engaged gamma engaged gamma delta=0.2 kappa=0.3 t0=4 init_buffer=5 term_buffer=6 window=7 t0=99 t0";
    let st = read_sample_adapt(s).unwrap();
    assert_eq!(flag(&sc, &st, &["adapt", "engaged"]), Some(true));
    assert_eq!(real_at(&sc, &st, &["adapt", "t0"]), Some(99.0));
    assert_eq!(int_at(&sc, &st, &["adapt", "window"]), Some(7));
    assert_eq!(
        read_sample_adapt("adapt window=-1").unwrap_err(),
        ParseGrammarError::IntError(IntErrorKind::InvalidDigit)
    );

    let sc = sample_algorithm_schema_exec();
    let s = "algorithm=hmc stepsize=0.5 metric=unit_e engine=nuts max_depth=5 engine=static int_time=3 engine=nuts max_depth=7 engine=static engine=nuts engine=static metric metric=dense_e stepsize_jitter stepsize stepsize_jitter=0.2 stepsize=0.51 engine=nuts";
    let st = read_sample_algorithm(s).unwrap();
    assert_eq!(variant(&sc, &st, &["algorithm", "engine"]), "nuts");
    assert_eq!(int_at(&sc, &st, &["algorithm", "engine", "max_depth"]), Some(7));
    assert_eq!(variant(&sc, &st, &["algorithm", "metric"]), "dense_e");
    assert_eq!(real_at(&sc, &st, &["algorithm", "stepsize"]), Some(0.51));
    let sc = optimize_algorithm_schema_exec();
    let s = "algorithm=lbfgs history_size=10 init_alpha init_alpha=0.01 init_alpha=0.02 tol_obj=5 tol_obj tol_rel_obj=10 tol_obj=10 tol_param=20 history_size=100 tol_rel_grad=30 tol_grad=40";
    let st = read_optimize_algorithm(s).unwrap();
    assert_eq!(real_at(&sc, &st, &["algorithm", "init_alpha"]), Some(0.02));
    assert_eq!(int_at(&sc, &st, &["algorithm", "history_size"]), Some(100));

    let sc = diagnose_test_schema_exec();
    let st = read_diagnose_test("test=gradient epsilon=0.1 error=0.2 epsilon=0.2").unwrap();
    assert_eq!(real_at(&sc, &st, &["test", "epsilon"]), Some(0.2));
    assert_eq!(real_at(&sc, &st, &["test", "error"]), Some(0.2));
    assert!(read_diagnose_test("test").is_ok());
}

#[test]
fn command_lines() {
    let sc = argument_tree_schema_exec();
    for s in ["sample", "method=sample", "method method=sample", "method"] {
        let st = read_command_line(s).unwrap();
        assert_eq!(variant(&sc, &st, &["method"]), "sample");
    }
    for s in ["id", "init", "random", "output", "num_threads", "data"] {
        assert_eq!(
            read_command_line(s).unwrap_err(),
            ParseGrammarError::MethodNotSpecified
        );
    }
    for m in [
        "optimize",
        "variational",
        "generate_quantities",
        "diagnose",
        "pathfinder",
        "log_prob",
        "laplace",
    ] {
        let st = read_command_line(m).unwrap();
        assert_eq!(variant(&sc, &st, &["method"]), m);
    }
    let s = "method=sample num_samples=1000 num_warmup=1000 save_warmup=0 thin=1 adapt engaged=1 gamma=0.05 delta=0.8 kappa=0.75 t0=10 init_buffer=75 term_buffer=50 window=25 algorithm=hmc engine=nuts max_depth=10 metric=diag_e stepsize=1 stepsize_jitter=0 num_chains=4 data file=bernoulli.data.json id=2 init=1 random seed=12345 output file=output.csv refresh=100 sig_figs=-1 num_threads=1";
    let st = read_command_line(s).unwrap();
    assert_eq!(int_at(&sc, &st, &["id"]), Some(2));
    assert_eq!(text(&sc, &st, &["init"]).as_deref(), Some("1"));
    assert_eq!(int_at(&sc, &st, &["random", "seed"]), Some(12345));
    assert_eq!(
        text(&sc, &st, &["data", "file"]).as_deref(),
        Some("bernoulli.data.json")
    );
    assert_eq!(int_at(&sc, &st, &["output", "sig_figs"]), Some(-1));
    assert_eq!(int_at(&sc, &st, &["num_threads"]), Some(1));
    assert_eq!(int_at(&sc, &st, &["method", "num_chains"]), Some(4));
    assert_eq!(
        read_command_line("sample random seed=1 id=2 random seed=3").unwrap_err(),
        ParseGrammarError::TopLevelDuplicate("random")
    );
    assert_eq!(
        read_command_line("method=sample id=1 method=optimize").unwrap_err(),
        ParseGrammarError::TopLevelDuplicate("method")
    );
}

#[test]
fn metric_file_oddities() {
    let sc = sample_algorithm_schema_exec();
    let quots = ["'", "\""];
    for quot in quots {
        let files = [
            format!("{quot}foo.csv{quot}"),
            format!("{quot}foo    .csv{quot}"),
            format!("{quot}foo    bar.csv{quot}"),
            format!("{quot}f o o\t bar.csv{quot}"),
            format!("{quot}{quot}"),
        ];
        for file in files {
            let s = format!("algorithm=hmc metric metric_file metric_file={} metric", file);
            let st = read_sample_algorithm(&s).unwrap();
            assert_eq!(variant(&sc, &st, &["algorithm"]), "hmc");
            assert_eq!(text(&sc, &st, &["algorithm", "metric_file"]), Some(file));
            assert_eq!(variant(&sc, &st, &["algorithm", "metric"]), "diag_e");
        }
    }
}

/// Whether nothing under the method was set.
fn untouched(st: &TreeState) -> bool {
    st.slots.iter().all(|v| v.is_none())
}

#[test]
fn diagnose_from_str() {
    let sc = diagnose_test_schema_exec();
    for s in ["test", "test=gradient", "test=gradient epsilon error"] {
        let st = read_diagnose_test(s).unwrap();
        assert_eq!(variant(&sc, &st, &["test"]), "gradient");
        assert!(untouched(&st));
    }
    let st = read_diagnose_test("test=gradient epsilon=0.1 error=0.2 epsilon=0.2").unwrap();
    assert_eq!(real_at(&sc, &st, &["test", "epsilon"]), Some(0.2));
    assert_eq!(real_at(&sc, &st, &["test", "error"]), Some(0.2));

    let sc = method_schema_exec();
    for s in [
        "diagnose",
        "method=diagnose",
        "method=diagnose test",
        "method=diagnose test=gradient",
    ] {
        let st = read_method(s).unwrap();
        assert_eq!(variant(&sc, &st, &["method"]), "diagnose");
        assert_eq!(variant(&sc, &st, &["method", "test"]), "gradient");
        assert!(untouched(&st));
    }
    let s = "method=diagnose test=gradient epsilon=0.2 epsilon=0.3 test=gradient epsilon=0.5 error=0.4 test=gradient epsilon=0.1 test test=gradient error=0.6 test=gradient error=0.5";
    let st = read_method(s).unwrap();
    assert_eq!(real_at(&sc, &st, &["method", "test", "epsilon"]), Some(0.1));
    assert_eq!(real_at(&sc, &st, &["method", "test", "error"]), Some(0.5));
    assert!(read_method("method=diagnose test test").is_err());
}

#[test]
fn generate_quantities_from_str() {
    let sc = method_schema_exec();
    for s in [
        "generate_quantities",
        "method=generate_quantities",
        "method=generate_quantities fitted_params",
    ] {
        let st = read_method(s).unwrap();
        assert_eq!(variant(&sc, &st, &["method"]), "generate_quantities");
        assert!(untouched(&st));
    }
    let s = "method=generate_quantities fitted_params fitted_params=foo.bar fitted_params=foo.bar.baz";
    let st = read_method(s).unwrap();
    assert_eq!(
        text(&sc, &st, &["method", "fitted_params"]).as_deref(),
        Some("foo.bar.baz")
    );
}

#[test]
fn laplace_from_str() {
    let sc = method_schema_exec();
    for s in ["laplace", "method=laplace"] {
        let st = read_method(s).unwrap();
        assert_eq!(variant(&sc, &st, &["method"]), "laplace");
        assert!(untouched(&st));
    }
    let s = "method=laplace jacobian jacobian=0 jacobian=1 mode=foo.bar mode mode=bar.baz draws=42 draws jacobian=0";
    let st = read_method(s).unwrap();
    assert_eq!(flag(&sc, &st, &["method", "jacobian"]), Some(false));
    assert_eq!(text(&sc, &st, &["method", "mode"]).as_deref(), Some("bar.baz"));
    assert_eq!(int_at(&sc, &st, &["method", "draws"]), Some(42));
}

#[test]
fn log_prob_statement() {
    let sc = method_schema_exec();
    for s in ["log_prob", "method=log_prob"] {
        let st = read_method(s).unwrap();
        assert_eq!(variant(&sc, &st, &["method"]), "log_prob");
        assert!(untouched(&st));
    }
    let s = "method=log_prob jacobian jacobian=0 jacobian=1 unconstrained_params=foo.bar unconstrained_params unconstrained_params=bar.baz constrained_params=foo.bar constrained_params jacobian=0";
    let st = read_method(s).unwrap();
    assert_eq!(flag(&sc, &st, &["method", "jacobian"]), Some(false));
    assert_eq!(
        text(&sc, &st, &["method", "unconstrained_params"]).as_deref(),
        Some("bar.baz")
    );
    assert_eq!(
        text(&sc, &st, &["method", "constrained_params"]).as_deref(),
        Some("foo.bar")
    );
    assert!(read_method("logprob").is_err());
}

#[test]
fn optimize_from_str() {
    let sc = optimize_algorithm_schema_exec();
    let s = "algorithm=lbfgs history_size=10 init_alpha init_alpha=0.01 init_alpha=0.02 tol_obj=5 tol_obj tol_rel_obj=10 tol_obj=10 tol_param=20 history_size=100 tol_rel_grad=30 tol_grad=40";
    let st = read_optimize_algorithm(s).unwrap();
    assert_eq!(variant(&sc, &st, &["algorithm"]), "lbfgs");
    assert_eq!(real_at(&sc, &st, &["algorithm", "init_alpha"]), Some(0.02));
    assert_eq!(real_at(&sc, &st, &["algorithm", "tol_obj"]), Some(10.0));
    assert_eq!(real_at(&sc, &st, &["algorithm", "tol_rel_obj"]), Some(10.0));
    assert_eq!(real_at(&sc, &st, &["algorithm", "tol_param"]), Some(20.0));
    assert_eq!(real_at(&sc, &st, &["algorithm", "tol_rel_grad"]), Some(30.0));
    assert_eq!(real_at(&sc, &st, &["algorithm", "tol_grad"]), Some(40.0));
    assert_eq!(int_at(&sc, &st, &["algorithm", "history_size"]), Some(100));

    let sc = method_schema_exec();
    for s in ["optimize", "method=optimize"] {
        let st = read_method(s).unwrap();
        assert_eq!(variant(&sc, &st, &["method"]), "optimize");
        assert_eq!(variant(&sc, &st, &["method", "algorithm"]), "lbfgs");
        assert!(untouched(&st));
    }
}

#[test]
fn pathfinder_from_str() {
    let sc = method_schema_exec();
    for s in ["pathfinder", "method=pathfinder"] {
        let st = read_method(s).unwrap();
        assert_eq!(variant(&sc, &st, &["method"]), "pathfinder");
        assert!(untouched(&st));
    }
    let s = "method=pathfinder init_alpha=1 tol_obj=2 tol_grad=3 tol_rel_grad tol_rel_grad=4 history_size=5 history_size=6 history_size num_draws num_draws=10 num_draws=11 num_elbo_draws=50 num_elbo_draws=42 num_paths=999 save_single_paths=0 save_single_paths=1 num_psis_draws=5";
    let st = read_method(s).unwrap();
    assert_eq!(real_at(&sc, &st, &["method", "init_alpha"]), Some(1.0));
    assert_eq!(real_at(&sc, &st, &["method", "tol_obj"]), Some(2.0));
    assert_eq!(real_at(&sc, &st, &["method", "tol_grad"]), Some(3.0));
    assert_eq!(real_at(&sc, &st, &["method", "tol_rel_grad"]), Some(4.0));
    assert_eq!(int_at(&sc, &st, &["method", "history_size"]), Some(6));
    assert_eq!(int_at(&sc, &st, &["method", "num_draws"]), Some(11));
    assert_eq!(int_at(&sc, &st, &["method", "num_elbo_draws"]), Some(42));
    assert_eq!(int_at(&sc, &st, &["method", "num_paths"]), Some(999));
    assert_eq!(flag(&sc, &st, &["method", "save_single_paths"]), Some(true));
    assert_eq!(int_at(&sc, &st, &["method", "num_psis_draws"]), Some(5));
    assert!(read_method("method=pathfinder init_alpha init_alpha").is_err());
}

#[test]
fn top_level_declared_twice() {
    for (s, name) in [
        ("method=sample id=1 id=2", "id"),
        ("method=sample method=optimize", "method"),
        ("method=sample num_samples=10 method=optimize", "method"),
        ("method=sample init=1 init=2", "init"),
        ("method=sample num_threads=1 num_threads=2", "num_threads"),
        ("method=sample data file=a data file=b", "data"),
        ("method=sample random seed=1 random seed=2", "random"),
        ("method=sample output output", "output"),
        ("method method=sample method=optimize", "method"),
        ("method=sample method", "method"),
        ("method sample", "method"),
        ("sample method=sample", "method"),
        ("method num_samples=10 method=sample", "method"),
    ] {
        assert_eq!(
            read_command_line(s).unwrap_err(),
            ParseGrammarError::TopLevelDuplicate(name),
            "{s}"
        );
    }
    let sc = argument_tree_schema_exec();
    for s in ["method method=optimize", "method=optimize id=3", "optimize id=3 init=x"] {
        let st = read_command_line(s).unwrap();
        assert_eq!(variant(&sc, &st, &["method"]), "optimize");
    }
}
