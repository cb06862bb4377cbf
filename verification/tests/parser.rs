use cmdstan::argument_tree::{Data, Output, Random};
use cmdstan::parser::ParseGrammarError;
use cmdstan::sample::Metric;
use cmdstan::text::IntErrorKind;
use cmdstan::variational::{VariationalAdapt, VariationalAlgorithm};




#[test]
fn sample_from_str() {
    assert_eq!("metric".parse::<Metric>().unwrap(), Metric::DiagE);
    assert_eq!("metric=unit_e".parse::<Metric>().unwrap(), Metric::UnitE);
    assert_eq!("metric=diag_e".parse::<Metric>().unwrap(), Metric::DiagE);
    assert_eq!("metric=dense_e".parse::<Metric>().unwrap(), Metric::DenseE);
    assert!("".parse::<Metric>().is_err());
}



#[test]
fn repeated_bare_option_is_refused() {
    assert!("adapt engaged engaged".parse::<VariationalAdapt>().is_err());
    assert!("adapt engaged engaged=0".parse::<VariationalAdapt>().is_ok());
    assert!("adapt engaged=0 engaged".parse::<VariationalAdapt>().is_ok());
    assert!("adapt engaged=1 engaged=0".parse::<VariationalAdapt>().is_ok());
    assert_eq!(
        "random seed seed".parse::<Random>(),
        Err(ParseGrammarError::RandomError(12))
    );
}

#[test]
fn signed_flags_are_read() {
    let a = "adapt engaged=-0".parse::<VariationalAdapt>().unwrap();
    assert!(!a.engaged);
    let a = "adapt engaged=0 engaged=+1".parse::<VariationalAdapt>().unwrap();
    assert!(a.engaged);
    assert_eq!(
        "adapt engaged=2".parse::<VariationalAdapt>(),
        Err(ParseGrammarError::VariationalAdaptError(14))
    );
}

#[test]
fn grammar_error_positions() {
    assert_eq!("".parse::<Metric>(), Err(ParseGrammarError::MetricError(0)));
    assert_eq!(
        "metric=foo".parse::<Metric>(),
        Err(ParseGrammarError::MetricError(7))
    );
    assert_eq!(
        "metric metric".parse::<Metric>(),
        Err(ParseGrammarError::MetricError(7))
    );
    assert_eq!(
        "random foo=1".parse::<Random>(),
        Err(ParseGrammarError::RandomError(7))
    );
    assert_eq!(
        "random seed=x1".parse::<Random>(),
        Err(ParseGrammarError::RandomError(12))
    );
    assert_eq!(
        "output file=\"a b".parse::<Output>(),
        Err(ParseGrammarError::OutputError(12))
    );
    assert_eq!("data=x".parse::<Data>(), Err(ParseGrammarError::DataError(0)));
    assert_eq!(
        "algorithm=fullrank x".parse::<VariationalAlgorithm>(),
        Err(ParseGrammarError::VariationalAlgorithmError(19))
    );
}

#[test]
fn integers_out_of_range() {
    assert_eq!(
        "output refresh=2147483648".parse::<Output>(),
        Err(ParseGrammarError::IntError(IntErrorKind::PosOverflow))
    );
    assert_eq!(
        "output sig_figs=-2147483649".parse::<Output>(),
        Err(ParseGrammarError::IntError(IntErrorKind::NegOverflow))
    );
    assert_eq!(
        "random seed=9223372036854775808".parse::<Random>(),
        Err(ParseGrammarError::IntError(IntErrorKind::PosOverflow))
    );
    assert_eq!(
        "random seed=-9223372036854775808".parse::<Random>().unwrap(),
        Random { seed: i64::MIN }
    );
    assert_eq!(
        "output refresh=-2147483648".parse::<Output>().unwrap().refresh,
        i32::MIN
    );
}

#[test]
fn quoted_values_keep_quotes() {
    let o = "output file='a  b.csv' diagnostic_file=\"c\td\""
        .parse::<Output>()
        .unwrap();
    assert_eq!(o.file, "'a  b.csv'");
    assert_eq!(o.diagnostic_file, "\"c\td\"");
    assert!("output file='a'b".parse::<Output>().is_err());
}

#[test]
fn error_messages() {
    assert_eq!(
        ParseGrammarError::MetricError(3).message(),
        "method does not conform to grammar at position 3"
    );
    assert_eq!(
        ParseGrammarError::ArgumentTreeError(12).message(),
        "top-level does not conform to grammar at position 12"
    );
    assert_eq!(
        ParseGrammarError::TopLevelDuplicate("id").message(),
        "id was declared more than once"
    );
    assert_eq!(
        ParseGrammarError::MethodNotSpecified.message(),
        "A method must be specified!"
    );
    assert_eq!(
        ParseGrammarError::IntError(IntErrorKind::PosOverflow).message(),
        "number too large to fit in target type"
    );
}

#[test]
fn argument_tree_from_str() {
    {
        let rhs = Random::default();
        assert_eq!("random".parse::<Random>().unwrap(), rhs);
        assert_eq!("random seed".parse::<Random>().unwrap(), rhs);
        assert_eq!("random seed=-1 seed".parse::<Random>().unwrap(), rhs);

        let s = "random seed=123 seed=456 seed=789 seed";
        assert_eq!(s.parse::<Random>().unwrap(), Random { seed: 789 });
    }
    {
        let rhs = Output::default();
        assert_eq!("output".parse::<Output>().unwrap(), rhs);
        assert_eq!(
            "output file diagnostic_file refresh sig_figs profile_file"
                .parse::<Output>()
                .unwrap(),
            rhs
        );
        assert_eq!(
            "output file file=output.csv".parse::<Output>().unwrap(),
            rhs
        );

        let rhs = Output::builder()
            .file("foo".to_string())
            .diagnostic_file("bar".to_string())
            .profile_file("baz".to_string())
            .sig_figs(18)
            .refresh(123)
            .build();

        let s = "output file=bar file=baz file file=foo diagnostic_file=hello diagnostic_file= sig_figs=18 refresh=123 diagnostic_file=bar profile_file=bar profile_file=baz";
        assert_eq!(s.parse::<Output>().unwrap(), rhs);
    }
    {
        let rhs = Data::default();
        assert_eq!("data".parse::<Data>().unwrap(), rhs);
        assert_eq!("data file".parse::<Data>().unwrap(), rhs);
        assert_eq!("data file= file".parse::<Data>().unwrap(), rhs);

        let s = "data file file=foo file=foo.bar file file=foo.bar.baz file=bar.baz file=baz";
        assert_eq!(s.parse::<Data>().unwrap(), Data { file: "baz".into() });
    }
}

#[test]
fn variational_from_str() {
    {
        let s = "algorithm";
        let lhs = s.parse::<VariationalAlgorithm>().unwrap();
        assert_eq!(lhs, VariationalAlgorithm::default());

        let s = "algorithm=meanfield";
        let lhs = s.parse::<VariationalAlgorithm>().unwrap();
        assert_eq!(lhs, VariationalAlgorithm::MeanField);

        let s = "algorithm=fullrank";
        let lhs = s.parse::<VariationalAlgorithm>().unwrap();
        assert_eq!(lhs, VariationalAlgorithm::FullRank);
    }
    {
        let s = "adapt";
        let lhs = s.parse::<VariationalAdapt>().unwrap();
        assert_eq!(lhs, VariationalAdapt::default());

        let s = "adapt engaged=0 iter=25 engaged iter=17";

        let lhs = s.parse::<VariationalAdapt>().unwrap();
        let rhs = VariationalAdapt::builder().engaged(false).iter(17).build();
        assert_eq!(lhs, rhs);
    }
}
