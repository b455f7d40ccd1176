//! Resolving a query: two keys, a cell of the first grid and the name of a
//! metric become the two bundles, the flat index of the reference position
//! and the metric.
use crate::bundle::{Bundle, BundleView};
use crate::grid::{flat_index, grid_side, lemma_cell_in_grid, lemma_side_of_square, side_of};
use crate::metric::Metric;
use crate::store::Store;
use vstd::prelude::*;

verus! {

/// Why a query could not be resolved.
#[derive(Debug, Clone, PartialEq, Eq)]
pub enum QueryError {
    /// No bundle is cached under the key yet; the query may be repeated later.
    NotReady(String),
    /// The name is the name of no metric.
    UnknownMetric(String),
}

impl QueryError {
    /// Whether the error passes with time: a bundle that is not ready may
    /// be ready later, an unknown name stays unknown.
    pub open spec fn spec_retryable(self) -> bool {
        self is NotReady
    }

    /// Computes [`QueryError::spec_retryable`].
    pub fn retryable(&self) -> (retry: bool)
        ensures
            retry == self.spec_retryable(),
    {
        match self {
            QueryError::NotReady(_) => true,
            QueryError::UnknownMetric(_) => false,
        }
    }
}

/// What a [`Query`] is.
pub struct QueryView {
    pub metric: Metric,
    pub reference: nat,
    pub first: BundleView,
    pub second: BundleView,
}

impl QueryView {
    /// Both bundles are well formed and the reference is a position of the
    /// first.
    pub open spec fn wf(self) -> bool {
        &&& self.first.wf()
        &&& self.second.wf()
        &&& self.reference < self.first.table.rows
    }

    /// The values of the reference position.
    pub open spec fn reference_row(self) -> Seq<u16> {
        self.first.table.row(self.reference as int)
    }

    /// The number of scores that answer the query: one per position of the
    /// second bundle.
    pub open spec fn score_count(self) -> nat {
        self.second.table.rows
    }
}

/// A resolved query: the metric, the reference position in the first bundle,
/// and the two bundles, lent by the store.
#[derive(Debug)]
pub struct Query<'a> {
    metric: Metric,
    reference: usize,
    first: &'a Bundle,
    second: &'a Bundle,
}

impl<'a> View for Query<'a> {
    type V = QueryView;

    closed spec fn view(&self) -> QueryView {
        QueryView {
            metric: self.metric,
            reference: self.reference as nat,
            first: self.first@,
            second: self.second@,
        }
    }
}

/// Whether the cell in row `row` and column `col` is a position of the bundle
/// cached under `key`, by its flat index. Every cell inside the grid is.
pub open spec fn names_position(
    cache: Map<Seq<char>, BundleView>,
    key: Seq<char>,
    row: nat,
    col: nat,
) -> bool {
    flat_index(side_of(cache[key].table.rows), row, col) < cache[key].table.rows
}

/// Whether a query reaches the point where its cell is looked up: both keys
/// have a bundle and the name names a metric.
pub open spec fn reaches_position(
    cache: Map<Seq<char>, BundleView>,
    metric: Seq<char>,
    key1: Seq<char>,
    key2: Seq<char>,
) -> bool {
    cache.contains_key(key1) && cache.contains_key(key2) && Metric::named(metric) is Some
}

/// Whether a query can be resolved: where it reaches the point at which its
/// cell is looked up, the cell is a position of the first bundle. A query
/// that fails before that point can be resolved whatever its cell.
pub open spec fn resolvable(
    cache: Map<Seq<char>, BundleView>,
    metric: Seq<char>,
    key1: Seq<char>,
    key2: Seq<char>,
    row: nat,
    col: nat,
) -> bool {
    reaches_position(cache, metric, key1, key2) ==> names_position(cache, key1, row, col)
}

/// Every cell inside the grid of a cached bundle is one of its positions.
pub proof fn lemma_grid_cells_are_positions(
    cache: Map<Seq<char>, BundleView>,
    key: Seq<char>,
    row: nat,
    col: nat,
)
    requires
        cache.contains_key(key),
        cache[key].wf(),
        row < side_of(cache[key].table.rows),
        col < side_of(cache[key].table.rows),
    ensures
        names_position(cache, key, row, col),
{
    let rows = cache[key].table.rows;
    let side = choose|side: nat| #[trigger] (side * side) == rows;
    lemma_side_of_square(side);
    lemma_cell_in_grid(side, row, col);
}

/// What resolving a query against `cache` gives. A key without a bundle is
/// reported as not ready, the first key before the second; with both bundles
/// at hand, a name that names no metric is reported; else the query stands
/// with the metric named, the flat index of the cell as reference, and the
/// bundles cached under the keys.
pub open spec fn resolves_to(
    cache: Map<Seq<char>, BundleView>,
    metric: Seq<char>,
    key1: Seq<char>,
    key2: Seq<char>,
    row: nat,
    col: nat,
    outcome: Result<Query, QueryError>,
) -> bool {
    if !cache.contains_key(key1) {
        outcome matches Err(QueryError::NotReady(key)) && key@ == key1
    } else if !cache.contains_key(key2) {
        outcome matches Err(QueryError::NotReady(key)) && key@ == key2
    } else if Metric::named(metric) is None {
        outcome matches Err(QueryError::UnknownMetric(name)) && name@ == metric
    } else {
        outcome matches Ok(query) && query@ == (QueryView {
            metric: Metric::named(metric)->Some_0,
            reference: flat_index(side_of(cache[key1].table.rows), row, col),
            first: cache[key1],
            second: cache[key2],
        }) && query@.wf()
    }
}

impl<'a> Query<'a> {
    /// The reference is a position of the first bundle.
    #[verifier::type_invariant]
    pub open spec fn inv(self) -> bool {
        self@.wf()
    }

    /// The metric asked for.
    pub fn metric(&self) -> (metric: Metric)
        ensures
            metric == self@.metric,
    {
        self.metric
    }

    /// The flat index of the reference position in the first bundle.
    pub fn reference(&self) -> (index: usize)
        ensures
            index == self@.reference,
            index < self@.first.table.rows,
    {
        proof {
            use_type_invariant(self);
        }
        self.reference
    }

    /// The bundle that holds the reference position.
    pub fn first(&self) -> (bundle: &'a Bundle)
        ensures
            bundle@ == self@.first,
    {
        self.first
    }

    /// The bundle whose positions are scored.
    pub fn second(&self) -> (bundle: &'a Bundle)
        ensures
            bundle@ == self@.second,
    {
        self.second
    }

    /// The values of the reference position.
    pub fn reference_row(&self) -> (row: &'a [u16])
        ensures
            row@ == self@.reference_row(),
            row@.len() == self@.first.table.width,
    {
        proof {
            use_type_invariant(self);
        }
        self.first.table().row(self.reference)
    }

    /// The norm of the reference position.
    pub fn reference_norm(&self) -> (norm: u32)
        ensures
            norm == self@.first.row_norms[self@.reference as int],
    {
        proof {
            use_type_invariant(self);
        }
        self.first.row_norm(self.reference)
    }

    /// The number of scores that answer the query.
    pub fn score_count(&self) -> (count: usize)
        ensures
            count == self@.score_count(),
    {
        self.second.rows()
    }
}

/// Resolves a query against the store. The cell has to be a position of the
/// first bundle only where the query gets that far: an absent key and an
/// unknown metric are reported whatever the cell.
pub fn resolve<'a>(
    store: &'a Store,
    metric: &str,
    key1: &str,
    key2: &str,
    row: usize,
    col: usize,
) -> (outcome: Result<Query<'a>, QueryError>)
    requires
        resolvable(store@, metric@, key1@, key2@, row as nat, col as nat),
    ensures
        resolves_to(store@, metric@, key1@, key2@, row as nat, col as nat, outcome),
{
    let first = match store.get(key1) {
        Some(bundle) => bundle,
        None => {
            return Err(QueryError::NotReady(key1.to_owned()));
        },
    };
    let second = match store.get(key2) {
        Some(bundle) => bundle,
        None => {
            return Err(QueryError::NotReady(key2.to_owned()));
        },
    };
    let metric = match Metric::from_name(metric) {
        Some(metric) => metric,
        None => {
            return Err(QueryError::UnknownMetric(metric.to_owned()));
        },
    };
    let rows = first.rows();
    let side = grid_side(rows);
    assert(0 <= row * side) by (nonlinear_arith)
        requires
            0 <= row,
            0 <= side,
    ;
    let reference = row * side + col;
    Ok(Query { metric, reference, first, second })
}

/// Decides whether the cell in row `row` and column `col` is a position of
/// `bundle`, by its flat index.
pub fn position_in(bundle: &Bundle, row: usize, col: usize) -> (inside: bool)
    ensures
        inside == (flat_index(side_of(bundle@.table.rows), row as nat, col as nat)
            < bundle@.table.rows),
{
    let rows = bundle.rows();
    let side = grid_side(rows);
    match row.checked_mul(side) {
        Some(start) => match start.checked_add(col) {
            Some(index) => index < rows,
            None => false,
        },
        None => false,
    }
}

/// Resolves a query against the store wherever it can be resolved. There
/// is no outcome exactly for a query with both bundles at hand and a known
/// metric whose cell is no position of the first bundle; an absent key and
/// an unknown metric are reported whatever the cell.
pub fn try_resolve<'a>(
    store: &'a Store,
    metric: &str,
    key1: &str,
    key2: &str,
    row: usize,
    col: usize,
) -> (outcome: Option<Result<Query<'a>, QueryError>>)
    ensures
        outcome is Some <==> resolvable(
            store@,
            metric@,
            key1@,
            key2@,
            row as nat,
            col as nat,
        ),
        outcome matches Some(resolved) ==> resolves_to(
            store@,
            metric@,
            key1@,
            key2@,
            row as nat,
            col as nat,
            resolved,
        ),
{
    let resolvable = match store.get(key1) {
        Some(first) => !store.has(key2) || Metric::from_name(metric).is_none() || position_in(
            first,
            row,
            col,
        ),
        None => true,
    };
    if resolvable {
        Some(resolve(store, metric, key1, key2, row, col))
    } else {
        None
    }
}

} // verus!
