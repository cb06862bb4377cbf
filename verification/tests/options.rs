use cmdstan::sample::Metric;
use cmdstan::translate::Translate;
use cmdstan::variational::{VariationalAdapt, VariationalAdaptBuilder, VariationalAlgorithm};

#[test]
fn sample_default() {
    let x = Metric::default();
    assert_eq!(x, Metric::DiagE);
}

#[test]
fn variational_builder() {
    let x = VariationalAdaptBuilder::new().engaged(false).iter(200).build();
    assert!(!x.engaged);
    assert_eq!(x.iter, 200);
}

#[test]
fn variational_default() {
    {
        let x = VariationalAlgorithm::default();
        assert_eq!(x, VariationalAlgorithm::MeanField);
    }
    {
        let x = VariationalAdapt::default();
        assert_eq!(
            x,
            VariationalAdapt {
                engaged: true,
                iter: 50
            }
        );
    }
}

#[test]
fn variational_to_args() {
    {
        let x = VariationalAlgorithm::default();
        assert_eq!(x.to_args(), vec!["algorithm=meanfield"]);
        let x = VariationalAlgorithm::FullRank;
        assert_eq!(x.to_args(), vec!["algorithm=fullrank"]);
    }
    {
        let x = VariationalAdapt::default();
        assert_eq!(x.to_args(), vec!["adapt", "engaged=1", "iter=50"]);
        let x = VariationalAdaptBuilder::new().engaged(false).iter(200).build();
        assert_eq!(x.to_args(), vec!["adapt", "engaged=0", "iter=200"]);
    }
}

#[test]
fn sample_to_args() {
    {
        let x = Metric::UnitE;
        assert_eq!(x.to_args(), vec!["metric=unit_e"]);
        let x = Metric::DiagE;
        assert_eq!(x.to_args(), vec!["metric=diag_e"]);
        let x = Metric::DenseE;
        assert_eq!(x.to_args(), vec!["metric=dense_e"]);
    }
}

#[test]
fn metric() {
    for (m, s) in [(Metric::UnitE, "unit_e"), (Metric::DiagE, "diag_e"), (Metric::DenseE, "dense_e")] {
        assert_eq!(m.to_stmt(), format!("metric={}", s).as_str());
        assert_eq!(m.to_tree(), format!("metric = {}", s).as_str());
        assert_eq!(m.to_args().join(" "), m.to_stmt());
    }
}
