//! The float-free options of sampling.
use vstd::prelude::*;
use crate::translate::{Arg, Node, Translate};

verus! {

/// Geometry of base manifold. Defaults to [`Metric::DiagE`].
#[derive(Debug, PartialEq, Eq, Clone, Copy, Structural)]
pub enum Metric {
    /// Euclidean manifold with unit metric
    UnitE,
    /// Euclidean manifold with diagonal metric
    DiagE,
    /// Euclidean manifold with dense metric
    DenseE,
}

/// The name of a metric in the command line language.
pub open spec fn metric_name(m: Metric) -> Seq<char> {
    match m {
        Metric::UnitE => "unit_e"@,
        Metric::DiagE => "diag_e"@,
        Metric::DenseE => "dense_e"@,
    }
}

impl Default for Metric {
    fn default() -> (m: Metric)
        ensures
            m == Metric::DiagE,
    {
        Metric::DiagE
    }
}

impl Metric {
    /// The name of `self` in the command line language.
    pub fn name(&self) -> (s: &'static str)
        ensures
            s@ == metric_name(*self),
    {
        match self {
            Metric::UnitE => "unit_e",
            Metric::DiagE => "diag_e",
            Metric::DenseE => "dense_e",
        }
    }
}

impl crate::sealed::Sealed for Metric {}

impl Translate for Metric {
    /// A metric is written as the single option `metric=<name>`.
    open spec fn node(&self) -> Node {
        Node::Value("metric"@, metric_name(*self))
    }

    fn to_arg(&self) -> (a: Arg) {
        Arg::text("metric", self.name())
    }
}

} // verus!
