use repr_similarity::bundle::{Bundle, Table};
use repr_similarity::metric::Metric;
use repr_similarity::query::{position_in, resolve, try_resolve, QueryError};
use repr_similarity::store::Store;

fn bundle_of(side: usize, width: usize, first: u16) -> Bundle {
    let count = side * side * width;
    let cells: Vec<u16> = (0..count).map(|i| first + i as u16).collect();
    let table = Table::new(side, width, cells).unwrap();
    let norms: Vec<u32> = (0..side * side).map(|i| 100 + i as u32).collect();
    Bundle::new(table, vec![0; width], norms).unwrap()
}

fn store_of_two() -> Store {
    let mut store = Store::new();
    store.ingest("a".to_string(), bundle_of(3, 2, 1000));
    store.ingest("b".to_string(), bundle_of(2, 2, 2000));
    store
}

#[test]
fn absent_first_key_is_not_ready() {
    let store = store_of_two();
    let outcome = resolve(&store, "cosine", "x", "b", 0, 0);
    assert_eq!(outcome.unwrap_err(), QueryError::NotReady("x".to_string()));
}

#[test]
fn absent_second_key_is_not_ready() {
    let store = store_of_two();
    let outcome = resolve(&store, "cosine", "a", "y", 0, 0);
    assert_eq!(outcome.unwrap_err(), QueryError::NotReady("y".to_string()));
}

#[test]
fn first_absent_key_is_reported_before_the_second() {
    let store = Store::new();
    let outcome = resolve(&store, "cosine", "x", "y", 0, 0);
    assert_eq!(outcome.unwrap_err(), QueryError::NotReady("x".to_string()));
}

#[test]
fn absent_key_is_reported_before_an_unknown_metric() {
    let store = store_of_two();
    let outcome = resolve(&store, "hamming", "a", "y", 0, 0);
    assert_eq!(outcome.unwrap_err(), QueryError::NotReady("y".to_string()));
}

#[test]
fn unknown_metric_on_two_cached_keys() {
    let store = store_of_two();
    let outcome = resolve(&store, "hamming", "a", "b", 0, 0);
    assert_eq!(outcome.unwrap_err(), QueryError::UnknownMetric("hamming".to_string()));
    let outcome = resolve(&store, "", "a", "a", 0, 0);
    assert_eq!(outcome.unwrap_err(), QueryError::UnknownMetric("".to_string()));
}

#[test]
fn query_names_the_reference_by_its_flat_index() {
    let store = store_of_two();
    let query = resolve(&store, "euclidean", "a", "b", 2, 1).unwrap();
    assert_eq!(query.metric(), Metric::Euclidean);
    assert_eq!(query.reference(), 7);
    assert_eq!(query.reference_row(), &[1014, 1015]);
    assert_eq!(query.reference_norm(), 107);
    assert_eq!(query.score_count(), 4);
    assert_eq!(query.first(), store.get("a").unwrap());
    assert_eq!(query.second(), store.get("b").unwrap());
}

#[test]
fn query_of_a_bundle_against_itself() {
    let store = store_of_two();
    let query = resolve(&store, "rel-l2-norm", "b", "b", 1, 1).unwrap();
    assert_eq!(query.metric(), Metric::RelL2Norm);
    assert_eq!(query.reference(), 3);
    assert_eq!(query.reference_row(), &[2006, 2007]);
    assert_eq!(query.score_count(), 4);
    assert_eq!(query.first(), query.second());
}

#[test]
fn every_metric_name_resolves() {
    let store = store_of_two();
    for name in ["cosine", "cosine_centered", "dot-product", "manhattan", "euclidean", "chebyshev", "rel-l2-norm"] {
        let query = resolve(&store, name, "a", "b", 0, 0).unwrap();
        assert_eq!(query.metric().name(), name);
        assert_eq!(query.reference(), 0);
    }
}

#[test]
fn cells_of_the_grid_are_positions() {
    let bundle = bundle_of(3, 1, 0);
    for row in 0..3 {
        for col in 0..3 {
            assert!(position_in(&bundle, row, col));
        }
    }
    assert!(position_in(&bundle, 0, 8));
    assert!(!position_in(&bundle, 0, 9));
    assert!(!position_in(&bundle, 3, 0));
    assert!(!position_in(&bundle, 2, 3));
    assert!(!position_in(&bundle, usize::MAX, 0));
    assert!(!position_in(&bundle, 1, usize::MAX));
    assert!(!position_in(&bundle_of(0, 4, 0), 0, 0));
}

#[test]
fn cell_outside_the_grid_has_no_outcome() {
    let store = store_of_two();
    assert!(try_resolve(&store, "cosine", "a", "b", 3, 0).is_none());
    assert!(try_resolve(&store, "cosine", "b", "a", 1, 2).is_none());
    assert!(try_resolve(&store, "rel-l2-norm", "a", "a", 0, 9).is_none());
    assert!(try_resolve(&store, "manhattan", "b", "b", usize::MAX, usize::MAX).is_none());
}

#[test]
fn absent_key_is_reported_whatever_the_cell() {
    let store = store_of_two();
    let outcome = try_resolve(&store, "cosine", "a", "nowhere", 9, 9).unwrap();
    assert_eq!(outcome.unwrap_err(), QueryError::NotReady("nowhere".to_string()));
    let outcome = try_resolve(&store, "cosine", "nowhere", "a", 9, 9).unwrap();
    assert_eq!(outcome.unwrap_err(), QueryError::NotReady("nowhere".to_string()));
    let outcome = try_resolve(&store, "hamming", "a", "nowhere", usize::MAX, usize::MAX).unwrap();
    assert_eq!(outcome.unwrap_err(), QueryError::NotReady("nowhere".to_string()));
    let outcome = resolve(&store, "cosine", "a", "nowhere", 9, 9);
    assert_eq!(outcome.unwrap_err(), QueryError::NotReady("nowhere".to_string()));
    let outcome = resolve(&store, "euclidean", "here", "there", usize::MAX, 0);
    assert_eq!(outcome.unwrap_err(), QueryError::NotReady("here".to_string()));
}

#[test]
fn unknown_metric_is_reported_whatever_the_cell() {
    let store = store_of_two();
    let outcome = try_resolve(&store, "hamming", "a", "b", usize::MAX, usize::MAX).unwrap();
    assert_eq!(outcome.unwrap_err(), QueryError::UnknownMetric("hamming".to_string()));
    let outcome = resolve(&store, "hamming", "a", "b", 3, 3);
    assert_eq!(outcome.unwrap_err(), QueryError::UnknownMetric("hamming".to_string()));
}

#[test]
fn cell_inside_the_grid_resolves_as_before() {
    let store = store_of_two();
    let query = try_resolve(&store, "chebyshev", "a", "b", 1, 2).unwrap().unwrap();
    assert_eq!(query.metric(), Metric::Chebyshev);
    assert_eq!(query.reference(), 5);
    let outcome = try_resolve(&store, "cosine", "nowhere", "b", 9, 9).unwrap();
    assert_eq!(outcome.unwrap_err(), QueryError::NotReady("nowhere".to_string()));
    let outcome = try_resolve(&store, "hamming", "a", "b", 0, 0).unwrap();
    assert_eq!(outcome.unwrap_err(), QueryError::UnknownMetric("hamming".to_string()));
}

#[test]
fn only_a_missing_bundle_is_worth_a_retry() {
    assert!(QueryError::NotReady("k".to_string()).retryable());
    assert!(!QueryError::UnknownMetric("hamming".to_string()).retryable());
}
