//! Incremental statistics over streaming price series: a sliding-window mean,
//! a rolling minimum/maximum tracker, and the technical indicators built on
//! the two.
//!
//! Every quantity is a fixed-point number held in an `i64` that counts
//! millionths (see [`fixed`]). All arithmetic is exact integer arithmetic with
//! a stated rounding, so each reading is pinned down by its contract.
//!
//! Each tracker has a model, a plain mathematical value that its view `@`
//! yields, and each operation is specified as a function on models. What
//! holds of the trackers in general is stated and proved as laws about those
//! functions, beside the tracker they speak of.
//!
//! - [`sma_keeper`]: the sliding-window mean.
//! - [`min_max_keeper`]: the rolling extremes over an adaptively trimmed
//!   window.
//! - [`atr_keeper`], [`bollinger_band_keeper`], [`kdj_keeper`],
//!   [`macd_keeper`], [`rsi_keeper`], [`stochastic_oscillator_keeper`]: the
//!   indicators.
//! - [`tick_price_keeper`], [`trade_price_keeper`]: bounded histories of
//!   quotes and trades, read by signed positions ([`history`]).
//! - [`std_keeper`], [`std_percentage_keeper`]: cached spread and volatility
//!   of the mid price.
//! - [`fixed`], [`series`], [`candidates`], [`deviation`], [`common_utils`]:
//!   the arithmetic and the functions on series that the rest is built from.
//! - [`error`]: the failures.

pub mod atr_keeper;
pub mod bollinger_band_keeper;
pub mod candidates;
pub mod common_utils;
pub mod deviation;
pub mod error;
pub mod fixed;
pub mod history;
pub mod kdj_keeper;
pub mod macd_keeper;
pub mod min_max_keeper;
pub mod rsi_keeper;
pub mod series;
pub mod sma_keeper;
pub mod std_keeper;
pub mod std_percentage_keeper;
pub mod stochastic_oscillator_keeper;
pub mod tick_price_keeper;
pub mod trade_price_keeper;
