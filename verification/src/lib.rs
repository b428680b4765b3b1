//! Technical-analysis indicators over price and volume series, in a bulk
//! form over whole arrays and a streaming form that is fed bar by bar.
//!
//! Every value is an IEEE 754 double held by its bit pattern ([`fp::Fp`]);
//! the undefined value of a warm-up is the quiet NaN [`fp::NAN`]. The bulk
//! functions take slices of equal length and give vectors of that length.
//! A streaming unit is made with its periods, fed with `update`, and put
//! back with `reset`; what it keeps between calls is bounded by its
//! periods.
//!
//! The contracts speak of sequences of doubles and of a model state for
//! each unit. Rounded sums, products, quotients and roots are named, not
//! computed, in them: a contract says which operations make up a result and
//! in which order.

pub mod fp;
pub mod series;
pub mod formulas;
pub mod window;
pub mod helpers;
pub mod trend;
pub mod momentum;
pub mod volatility;
pub mod volume;
pub mod others;
pub mod streaming;
pub mod parity;
