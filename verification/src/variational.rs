//! The float-free options of variational inference.
use vstd::prelude::*;
use crate::text::int_text;
use crate::translate::{Arg, Node, Translate, arg_nodes, flag_text};

verus! {

/// Variational inference algorithm. Defaults to
/// [`VariationalAlgorithm::MeanField`].
#[derive(Debug, PartialEq, Eq, Clone, Copy, Structural)]
pub enum VariationalAlgorithm {
    /// mean-field approximation
    MeanField,
    /// full-rank covariance
    FullRank,
}

/// The name of a variational algorithm in the command line language.
pub open spec fn algorithm_name(a: VariationalAlgorithm) -> Seq<char> {
    match a {
        VariationalAlgorithm::MeanField => "meanfield"@,
        VariationalAlgorithm::FullRank => "fullrank"@,
    }
}

impl Default for VariationalAlgorithm {
    fn default() -> (a: VariationalAlgorithm)
        ensures
            a == VariationalAlgorithm::MeanField,
    {
        VariationalAlgorithm::MeanField
    }
}

impl VariationalAlgorithm {
    /// The name of `self` in the command line language.
    pub fn name(&self) -> (s: &'static str)
        ensures
            s@ == algorithm_name(*self),
    {
        match self {
            VariationalAlgorithm::MeanField => "meanfield",
            VariationalAlgorithm::FullRank => "fullrank",
        }
    }
}

impl crate::sealed::Sealed for VariationalAlgorithm {}

impl Translate for VariationalAlgorithm {
    /// The choice `algorithm=<name>`, with no options of its own.
    open spec fn node(&self) -> Node {
        Node::Choice("algorithm"@, algorithm_name(*self), Seq::empty())
    }

    fn to_arg(&self) -> (a: Arg) {
        let a = Arg::choice("algorithm", self.name(), Vec::new());
        proof {
            assert(arg_nodes(Seq::<Arg>::empty()) =~= Seq::<Node>::empty());
        }
        a
    }
}

/// Eta Adaptation for Variational Inference.
#[derive(Debug, PartialEq, Eq, Clone, Copy, Structural)]
pub struct VariationalAdapt {
    /// Boolean flag for eta adaptation.
    /// Defaults to `true`.
    pub engaged: bool,
    /// Number of iterations for eta adaptation.
    /// Valid values: `0 < iter`.
    /// Defaults to `50`.
    pub iter: i32,
}

impl Default for VariationalAdapt {
    fn default() -> (a: VariationalAdapt)
        ensures
            a == (VariationalAdapt { engaged: true, iter: 50 }),
    {
        VariationalAdapt { engaged: true, iter: 50 }
    }
}

/// The option tree of the eta adaptation.
pub open spec fn variational_adapt_node(a: VariationalAdapt) -> Node {
    Node::Group(
        Some("adapt"@),
        seq![Node::Value("engaged"@, flag_text(a.engaged)), Node::Value("iter"@, int_text(a.iter as int))],
    )
}

impl crate::sealed::Sealed for VariationalAdapt {}

impl Translate for VariationalAdapt {
    open spec fn node(&self) -> Node {
        variational_adapt_node(*self)
    }

    fn to_arg(&self) -> (a: Arg) {
        let mut fields = Vec::new();
        fields.push(Arg::flag("engaged", self.engaged));
        fields.push(Arg::integer("iter", self.iter as i64));
        let a = Arg::declared("adapt", fields);
        proof {
            crate::translate::lemma_arg_nodes_len(fields@);
            assert(arg_nodes(fields@) =~= seq![
                Node::Value("engaged"@, flag_text(self.engaged)),
                Node::Value("iter"@, int_text(self.iter as int)),
            ]);
        }
        a
    }
}

/// Options builder for [`VariationalAdapt`]; an option left unspecified
/// takes the default indicated on `VariationalAdapt`.
#[derive(Debug, PartialEq, Eq, Clone, Copy, Structural)]
pub struct VariationalAdaptBuilder {
    engaged: Option<bool>,
    iter: Option<i32>,
}

impl View for VariationalAdaptBuilder {
    /// The flag and the iteration count chosen so far.
    type V = (Option<bool>, Option<i32>);

    closed spec fn view(&self) -> (Option<bool>, Option<i32>) {
        (self.engaged, self.iter)
    }
}

impl VariationalAdaptBuilder {
    /// A builder with every option unspecified.
    pub fn new() -> (b: VariationalAdaptBuilder)
        ensures
            b@ == (None::<bool>, None::<i32>),
    {
        VariationalAdaptBuilder { engaged: None, iter: None }
    }

    /// Sets the adaptation flag.
    pub fn engaged(self, engaged: bool) -> (b: VariationalAdaptBuilder)
        ensures
            b@ == (Some(engaged), self@.1),
    {
        VariationalAdaptBuilder { engaged: Some(engaged), ..self }
    }

    /// Sets the number of adaptation iterations.
    pub fn iter(self, iter: i32) -> (b: VariationalAdaptBuilder)
        ensures
            b@ == (self@.0, Some(iter)),
    {
        VariationalAdaptBuilder { iter: Some(iter), ..self }
    }

    /// Builds the options, supplying defaults.
    pub fn build(self) -> (a: VariationalAdapt)
        ensures
            a.engaged == match self@.0 {
                Some(e) => e,
                None => true,
            },
            a.iter == match self@.1 {
                Some(i) => i,
                None => 50i32,
            },
    {
        let engaged = match self.engaged {
            Some(e) => e,
            None => true,
        };
        let iter = match self.iter {
            Some(i) => i,
            None => 50,
        };
        VariationalAdapt { engaged, iter }
    }
}

impl VariationalAdapt {
    /// A builder with every option unspecified.
    pub fn builder() -> (b: VariationalAdaptBuilder)
        ensures
            b@ == (None::<bool>, None::<i32>),
    {
        VariationalAdaptBuilder::new()
    }
}

} // verus!
