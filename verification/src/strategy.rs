//! Strategy-facing decision vocabulary: the trade signal, the strategy error
//! taxonomy, and the volatility regime.
//!
//! The numeric signal, sizing and risk computations work on floating-point
//! prices and live in the unverified layer around the library; they speak in
//! these types.

use vstd::prelude::*;

verus! {

/// Readiness probe for the strategy vocabulary.
pub fn module_ready() -> (r: bool)
    ensures
        r,
{
    true
}

/// The classified trade decision for one divergence observation.
#[derive(Debug, Clone, Copy, PartialEq, Eq, Structural)]
pub enum Signal {
    Buy,
    Sell,
    Hold,
}

/// Why a strategy-side computation rejected its input.
#[derive(Debug, Clone, Copy, PartialEq, Eq, Structural)]
pub enum StrategyError {
    NonFiniteInput,
    NonFiniteMarketExposure,
    NonPositiveMarketPrice,
    NegativeThreshold,
    InvalidBaseOrderSize,
    InvalidMarketId,
    InvalidMarketExposure,
    InvalidPositionSize,
    InvalidStartingEquity,
    InvalidDailyLossCapPct,
    MarketExposureCapExceeded,
    NonFinitePnl,
    InvalidPerTradeRiskPct,
    InvalidTradeRiskAmount,
    PerTradeRiskCapExceeded,
}

/// Market volatility regime used to scale order sizes.
#[derive(Debug, Clone, Copy, PartialEq, Eq, Structural)]
pub enum Regime {
    Calm,
    Normal,
    Volatile,
}

/// Why lag detection rejected its input.
#[derive(Debug, Clone, Copy, PartialEq, Eq, Structural)]
pub enum LagError {
    InvalidMarketId,
    InvalidPolyMid,
    InvalidFairValue,
    InvalidThresholdPct,
}

/// Why the paper execution simulator rejected an order or a fill.
#[derive(Debug, Clone, Copy, PartialEq, Eq, Structural)]
pub enum PaperExecError {
    InvalidPrice,
    InvalidQuantity,
    InvalidSlippageBps,
    InvalidFeeBps,
    SellFillPriceNonPositive,
    FillPriceOutOfBounds,
}

} // verus!
