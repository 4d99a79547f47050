//! Trade evaluation and routing engine for a cargo hauling companion.
//!
//! The library turns a set of commodity price observations into
//! per-item expected-value estimates with confidence scores, ranked
//! best-sell-location suggestions, an all-pairs profitable trade-route
//! search, and single- or multi-stop sell plans.
//!
//! All money amounts are carried as integer thousandths of an aUEC
//! (milli-aUEC) and all scores as parts per million, so that every
//! computation is exact integer arithmetic with stated rounding.

pub mod app_state;
pub mod caches;
pub mod clock;
pub mod entities;
pub mod evaluation;
pub mod planner;
pub mod ranking;
pub mod seqs;
pub mod sorting;
pub mod text;
pub mod theme;
pub mod timestamps;
pub mod trade_route;
