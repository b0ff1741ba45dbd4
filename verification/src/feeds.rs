//! Vocabulary of the feed adapters: which predictor spoke, and why a venue
//! payload or predictor reading was rejected. The adapters themselves
//! deserialize third-party JSON and compute on floating-point prices, so
//! they stand outside the library and report through these types.

use vstd::prelude::*;

verus! {

/// Why a venue trade payload failed to normalize.
#[derive(Debug, Clone, Copy, PartialEq, Eq, Structural)]
pub enum ParseBtcTradeError {
    InvalidJson,
    UnsupportedMessageType,
    InvalidPrice,
    InvalidSize,
    InvalidTimestamp,
    TimestampOutOfRange,
}

/// Why a prediction-market quote failed to normalize.
#[derive(Debug, Clone, Copy, PartialEq, Eq, Structural)]
pub enum NormalizePolymarketQuoteError {
    NonFinite,
    OutOfRange,
    CrossedBook,
}

/// Which external predictor produced a reading.
#[derive(Debug, Clone, Copy, PartialEq, Eq, Structural)]
pub enum PredictorSource {
    TradingView,
    CryptoQuant,
}

/// Why predictor fusion failed to produce a fair value.
#[derive(Debug, Clone, Copy, PartialEq, Eq, Structural)]
pub enum PredictorFusionError {
    InvalidPrice,
    InvalidConfidence,
    NoFreshSources,
}

/// Why a predictor payload failed to parse.
#[derive(Debug, Clone, Copy, PartialEq, Eq, Structural)]
pub enum ParsePredictorError {
    InvalidJson,
    InvalidPrediction,
    InvalidConfidence,
}

} // verus!
