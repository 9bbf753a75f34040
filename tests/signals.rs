use stock_signals::calc::sma_window_count;
use stock_signals::quotes::{closes_by_time, time_order, RetrievalError};
use stock_signals::service::{WindowedSMA, YahooStockService, SMA_WINDOW};
use stock_signals::summary::usable_series;

#[test]
fn window_count_three_of_five() {
    assert_eq!(sma_window_count(3, 5), Some(3));
}

#[test]
fn window_count_whole_series() {
    assert_eq!(sma_window_count(5, 5), Some(1));
}

#[test]
fn window_count_window_longer_than_series() {
    assert_eq!(sma_window_count(10, 5), Some(0));
}

#[test]
fn window_count_absent_for_small_window() {
    assert_eq!(sma_window_count(0, 5), None);
    assert_eq!(sma_window_count(1, 5), None);
}

#[test]
fn window_count_absent_for_empty_series() {
    assert_eq!(sma_window_count(0, 0), None);
    assert_eq!(sma_window_count(3, 0), None);
    assert_eq!(sma_window_count(30, 0), None);
}

#[test]
fn window_count_largest_series() {
    assert_eq!(sma_window_count(2, usize::MAX), Some(usize::MAX - 1));
    assert_eq!(sma_window_count(usize::MAX, usize::MAX), Some(1));
}

#[test]
fn window_count_service_window_on_short_series() {
    let service = YahooStockService::new();
    assert_eq!(sma_window_count(service.sma.window_size, 7), Some(0));
    assert_eq!(sma_window_count(service.sma.window_size, 31), Some(2));
}

#[test]
fn service_window_is_thirty() {
    let service = YahooStockService::new();
    assert_eq!(service.sma.window_size, 30);
    assert_eq!(SMA_WINDOW, 30);
    let custom = WindowedSMA { window_size: 3 };
    assert_eq!(custom.window_size, 3);
}

#[test]
fn time_order_sorts_by_timestamp() {
    assert_eq!(time_order(&vec![30, 10, 20]), vec![1, 2, 0]);
}

#[test]
fn time_order_keeps_equal_timestamps_in_place() {
    assert_eq!(time_order(&vec![5, 1, 5, 1]), vec![1, 3, 0, 2]);
}

#[test]
fn time_order_empty_and_sorted() {
    assert_eq!(time_order(&vec![]), Vec::<usize>::new());
    assert_eq!(time_order(&vec![1, 2, 3]), vec![0, 1, 2]);
}

#[test]
fn closes_by_time_reorders_quotes() {
    let quotes = vec![(300u64, 10.0f64), (100, 2.0), (200, 3.0)];
    assert_eq!(closes_by_time(&quotes), vec![2.0, 3.0, 10.0]);
}

#[test]
fn closes_by_time_scrambled_provider_answer() {
    let quotes = vec![
        (7u64, 10.0f64),
        (3, 5.0),
        (1, 2.0),
        (5, 1.0),
        (2, 3.0),
        (6, 2.0),
        (4, 6.0),
    ];
    assert_eq!(
        closes_by_time(&quotes),
        vec![2.0, 3.0, 5.0, 6.0, 1.0, 2.0, 10.0]
    );
}

#[test]
fn closes_by_time_empty() {
    let quotes: Vec<(u64, f64)> = vec![];
    assert_eq!(closes_by_time(&quotes), Vec::<f64>::new());
}

#[test]
fn closes_by_time_twice_is_identical() {
    let quotes = vec![(2u64, 4.5f64), (1, 2.0), (2, 5.3), (0, 6.5)];
    let first = closes_by_time(&quotes);
    let second = closes_by_time(&quotes);
    assert_eq!(first, vec![6.5, 2.0, 4.5, 5.3]);
    assert_eq!(first, second);
}

#[test]
fn usable_series_failed_retrieval() {
    let fetched: Result<Vec<f64>, RetrievalError> = Err(RetrievalError::InvalidData);
    assert_eq!(usable_series(fetched), None);
}

#[test]
fn usable_series_empty_answer() {
    let fetched: Result<Vec<f64>, RetrievalError> = Ok(vec![]);
    assert_eq!(usable_series(fetched), None);
}

#[test]
fn usable_series_non_empty_answer() {
    let fetched: Result<Vec<f64>, RetrievalError> = Ok(vec![2.0, 3.0, 10.0]);
    assert_eq!(usable_series(fetched), Some(vec![2.0, 3.0, 10.0]));
}

#[test]
fn one_failed_symbol_of_two_in_either_completion_order() {
    let a: Result<Vec<f64>, RetrievalError> = Err(RetrievalError::InvalidData);
    let b: Result<Vec<f64>, RetrievalError> = Ok(vec![2.0, 3.0, 5.0]);
    let orders = vec![vec![("A", a.clone()), ("B", b.clone())], vec![("B", b), ("A", a)]];
    for completed in orders {
        let kept: Vec<&str> = completed
            .into_iter()
            .filter_map(|(symbol, fetched)| usable_series(fetched).map(|_| symbol))
            .collect();
        assert_eq!(kept, vec!["B"]);
    }
}
