use vstd::prelude::*;

verus! {

/// A source of quotes that keeps its own copy of them and refreshes it.
pub trait StockQuote {
    /// Loads the quotes for the first time.
    fn fetch_stock_quotes(&mut self);

    /// Refreshes the quotes already loaded.
    fn update_stock_quotes(&mut self);
}

/// Largest closing price of a series.
pub struct MaxPrice;

/// Smallest closing price of a series.
pub struct MinPrice;

/// Absolute and relative change between the first and the last price.
pub struct PriceDifference;

/// Simple moving average over windows of a fixed size.
pub struct WindowedSMA {
    pub window_size: usize,
}

/// Window of the moving average that the service reports.
pub const SMA_WINDOW: usize = 30;

/// The set of signals computed for every symbol.
pub struct YahooStockService {
    pub max: MaxPrice,
    pub min: MinPrice,
    pub price_diff: PriceDifference,
    pub sma: WindowedSMA,
}

impl YahooStockService {
    pub fn new() -> (r: Self)
        ensures
            r.sma.window_size == SMA_WINDOW,
    {
        YahooStockService {
            max: MaxPrice,
            min: MinPrice,
            price_diff: PriceDifference,
            sma: WindowedSMA { window_size: SMA_WINDOW },
        }
    }
}

} // verus!
