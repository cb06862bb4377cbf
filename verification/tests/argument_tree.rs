use cmdstan::argument_tree::{command_string_of, Data, Output, Random};

#[test]
fn argument_tree_default() {
    {
        let x = Random::default();
        assert_eq!(x.seed, -1_i64);
    }
    {
        let x = Data::default();
        assert_eq!(x.file, "");
    }
    {
        let x = Output::default();
        assert_eq!(
            x,
            Output {
                file: "output.csv".to_string(),
                diagnostic_file: "".to_string(),
                refresh: 100,
                sig_figs: -1,
                profile_file: "".to_string(),
            }
        );
    }
}

#[test]
fn argument_tree_command_fragment() {
    {
        let x = Random::default();
        assert_eq!(x.command_fragment(), "random seed=-1");
    }
    {
        let mut x = Data::default();
        assert_eq!(x.command_fragment(), "");

        x.file.push_str("bernoulli.data.json");
        assert_eq!(x.command_fragment(), "data file=bernoulli.data.json");
    }
    {
        let mut x = Output::default();
        assert_eq!(
            x.command_fragment(),
            "output file=output.csv refresh=100 sig_figs=-1"
        );

        x.diagnostic_file.push_str("my_file.txt");
        assert_eq!(
            x.command_fragment(),
            "output file=output.csv diagnostic_file=my_file.txt refresh=100 sig_figs=-1"
        );

        x.profile_file.push_str("my_other_file.txt");
        assert_eq!(
            x.command_fragment(),
            "output file=output.csv diagnostic_file=my_file.txt refresh=100 sig_figs=-1 profile_file=my_other_file.txt"
        );

        x.diagnostic_file.clear();
        assert_eq!(
            x.command_fragment(),
            "output file=output.csv refresh=100 sig_figs=-1 profile_file=my_other_file.txt"
        );
    }
}

#[test]
fn argument_tree_builder() {
    {
        let x = Output::builder()
            .file("hello.csv".to_string())
            .diagnostic_file("world.txt".to_string())
            .refresh(1)
            .sig_figs(18)
            .profile_file("foo.txt".to_string())
            .build();
        assert_eq!(
            x,
            Output {
                file: "hello.csv".to_string(),
                diagnostic_file: "world.txt".to_string(),
                refresh: 1,
                sig_figs: 18,
                profile_file: "foo.txt".to_string(),
            }
        );
    }
}

#[test]
fn command_string() {
    let method = "method=sample num_samples=1000 num_warmup=1000 save_warmup=0 thin=1 adapt engaged=1 gamma=0.05 delta=0.8 kappa=0.75 t0=10 init_buffer=75 term_buffer=50 window=25 algorithm=hmc engine=nuts max_depth=10 metric=diag_e stepsize=1 stepsize_jitter=0 num_chains=1";
    let s = command_string_of(
        method,
        1,
        &Data::default(),
        "2",
        &Random::default(),
        &Output::default(),
        1,
    );
    assert_eq!(s, "method=sample num_samples=1000 num_warmup=1000 save_warmup=0 thin=1 adapt engaged=1 gamma=0.05 delta=0.8 kappa=0.75 t0=10 init_buffer=75 term_buffer=50 window=25 algorithm=hmc engine=nuts max_depth=10 metric=diag_e stepsize=1 stepsize_jitter=0 num_chains=1 id=1 init=2 random seed=-1 output file=output.csv refresh=100 sig_figs=-1 num_threads=1");

    let data = Data {
        file: "bernoulli.json".to_string(),
    };
    let random = Random { seed: 12345 };
    let output = Output {
        file: "hello.csv".to_string(),
        diagnostic_file: "world.txt".to_string(),
        refresh: 1,
        sig_figs: 18,
        profile_file: "foo.txt".to_string(),
    };
    let method = "method=sample num_samples=10000 num_warmup=1000 save_warmup=0 thin=1 adapt engaged=1 gamma=0.05 delta=0.8 kappa=0.75 t0=10 init_buffer=75 term_buffer=50 window=25 algorithm=hmc engine=nuts max_depth=100 metric=diag_e stepsize=1 stepsize_jitter=0 num_chains=10";
    let s = command_string_of(method, 2, &data, "5", &random, &output, 48);
    assert_eq!(s, "method=sample num_samples=10000 num_warmup=1000 save_warmup=0 thin=1 adapt engaged=1 gamma=0.05 delta=0.8 kappa=0.75 t0=10 init_buffer=75 term_buffer=50 window=25 algorithm=hmc engine=nuts max_depth=100 metric=diag_e stepsize=1 stepsize_jitter=0 num_chains=10 id=2 data file=bernoulli.json init=5 random seed=12345 output file=hello.csv diagnostic_file=world.txt refresh=1 sig_figs=18 profile_file=foo.txt num_threads=48");

    let method = "method=sample num_samples=10000 num_warmup=1000 save_warmup=0 thin=1 adapt engaged=1 gamma=0.05 delta=0.8 kappa=0.75 t0=10 init_buffer=75 term_buffer=50 window=25 algorithm=hmc engine=static int_time=2.5 metric=diag_e stepsize=1 stepsize_jitter=0 num_chains=10";
    let s = command_string_of(method, 2, &data, "5", &random, &output, 48);
    assert_eq!(s, "method=sample num_samples=10000 num_warmup=1000 save_warmup=0 thin=1 adapt engaged=1 gamma=0.05 delta=0.8 kappa=0.75 t0=10 init_buffer=75 term_buffer=50 window=25 algorithm=hmc engine=static int_time=2.5 metric=diag_e stepsize=1 stepsize_jitter=0 num_chains=10 id=2 data file=bernoulli.json init=5 random seed=12345 output file=hello.csv diagnostic_file=world.txt refresh=1 sig_figs=18 profile_file=foo.txt num_threads=48");
}
