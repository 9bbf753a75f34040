pub mod calc;
pub mod quotes;
pub mod service;
pub mod summary;
