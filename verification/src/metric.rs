//! The closed set of metrics and the post-pass that each one calls for.
use crate::text::same_text;
use vstd::prelude::*;

verus! {

/// A way of scoring one position against a reference position.
#[derive(Debug, Clone, Copy, PartialEq, Eq, Structural)]
pub enum Metric {
    /// The dot product over the product of the two norms.
    Cosine,
    /// The cosine after both vectors are centered by the mean of the two
    /// global means.
    CosineCentered,
    /// The dot product.
    DotProduct,
    /// The sum of the absolute differences.
    Manhattan,
    /// The root of the sum of the squared differences.
    Euclidean,
    /// The largest absolute difference.
    Chebyshev,
    /// The norm of the position less the norm of the reference.
    RelL2Norm,
}

/// What is done to the raw scores of a query once all are known.
#[derive(Debug, Clone, Copy, PartialEq, Eq, Structural)]
pub enum PostPass {
    /// The raw scores are the result.
    Unscaled,
    /// Every score is divided by the largest absolute score plus the guard.
    ByPeak,
    /// Every distance `d` becomes `1 - d / d_max`, with `d_max` the largest
    /// distance.
    ByMaxDistance,
}

impl Metric {
    /// The name by which callers ask for the metric.
    pub open spec fn spec_name(self) -> Seq<char> {
        match self {
            Metric::Cosine => "cosine"@,
            Metric::CosineCentered => "cosine_centered"@,
            Metric::DotProduct => "dot-product"@,
            Metric::Manhattan => "manhattan"@,
            Metric::Euclidean => "euclidean"@,
            Metric::Chebyshev => "chebyshev"@,
            Metric::RelL2Norm => "rel-l2-norm"@,
        }
    }

    /// The metric that `name` names, if any.
    pub open spec fn named(name: Seq<char>) -> Option<Metric> {
        if name == "cosine"@ {
            Some(Metric::Cosine)
        } else if name == "cosine_centered"@ {
            Some(Metric::CosineCentered)
        } else if name == "dot-product"@ {
            Some(Metric::DotProduct)
        } else if name == "manhattan"@ {
            Some(Metric::Manhattan)
        } else if name == "euclidean"@ {
            Some(Metric::Euclidean)
        } else if name == "chebyshev"@ {
            Some(Metric::Chebyshev)
        } else if name == "rel-l2-norm"@ {
            Some(Metric::RelL2Norm)
        } else {
            None
        }
    }

    /// The post-pass of the metric: none for the two cosines, division by the
    /// peak for the dot product and the relative norm, the complement of the
    /// relative distance for the three distances.
    pub open spec fn spec_post_pass(self) -> PostPass {
        match self {
            Metric::Cosine | Metric::CosineCentered => PostPass::Unscaled,
            Metric::DotProduct | Metric::RelL2Norm => PostPass::ByPeak,
            Metric::Manhattan | Metric::Euclidean | Metric::Chebyshev => PostPass::ByMaxDistance,
        }
    }

    /// Computes [`Metric::spec_name`].
    pub fn name(self) -> (name: &'static str)
        ensures
            name@ == self.spec_name(),
    {
        match self {
            Metric::Cosine => "cosine",
            Metric::CosineCentered => "cosine_centered",
            Metric::DotProduct => "dot-product",
            Metric::Manhattan => "manhattan",
            Metric::Euclidean => "euclidean",
            Metric::Chebyshev => "chebyshev",
            Metric::RelL2Norm => "rel-l2-norm",
        }
    }

    /// Computes [`Metric::named`].
    pub fn from_name(name: &str) -> (metric: Option<Metric>)
        ensures
            metric == Metric::named(name@),
    {
        if same_text(name, "cosine") {
            Some(Metric::Cosine)
        } else if same_text(name, "cosine_centered") {
            Some(Metric::CosineCentered)
        } else if same_text(name, "dot-product") {
            Some(Metric::DotProduct)
        } else if same_text(name, "manhattan") {
            Some(Metric::Manhattan)
        } else if same_text(name, "euclidean") {
            Some(Metric::Euclidean)
        } else if same_text(name, "chebyshev") {
            Some(Metric::Chebyshev)
        } else if same_text(name, "rel-l2-norm") {
            Some(Metric::RelL2Norm)
        } else {
            None
        }
    }

    /// Computes [`Metric::spec_post_pass`].
    pub fn post_pass(self) -> (pass: PostPass)
        ensures
            pass == self.spec_post_pass(),
    {
        match self {
            Metric::Cosine | Metric::CosineCentered => PostPass::Unscaled,
            Metric::DotProduct | Metric::RelL2Norm => PostPass::ByPeak,
            Metric::Manhattan | Metric::Euclidean | Metric::Chebyshev => PostPass::ByMaxDistance,
        }
    }

    /// Every metric is found again by its own name, and a name that names a
    /// metric is the name of that metric.
    pub proof fn lemma_names_distinct(self, name: Seq<char>)
        ensures
            Metric::named(self.spec_name()) == Some(self),
            Metric::named(name) == Some(self) <==> name == self.spec_name(),
    {
        reveal_strlit("cosine");
        reveal_strlit("cosine_centered");
        reveal_strlit("dot-product");
        reveal_strlit("manhattan");
        reveal_strlit("euclidean");
        reveal_strlit("chebyshev");
        reveal_strlit("rel-l2-norm");
        assert("cosine"@.len() == 6);
        assert("cosine_centered"@.len() == 15);
        assert("dot-product"@.len() == 11 && "dot-product"@[0] == 'd');
        assert("rel-l2-norm"@.len() == 11 && "rel-l2-norm"@[0] == 'r');
        assert("manhattan"@.len() == 9 && "manhattan"@[0] == 'm');
        assert("euclidean"@.len() == 9 && "euclidean"@[0] == 'e');
        assert("chebyshev"@.len() == 9 && "chebyshev"@[0] == 'c');
    }
}

} // verus!
