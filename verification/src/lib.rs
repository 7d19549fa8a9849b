//! Validation of a caller-supplied trend value against a live price sample,
//! and an append-only ledger of datapoints with range lookup.
//!
//! A caller offers a candidate for the trend value. The oracle takes a sample
//! from the price feed (`feed`), judges the candidate against it under the
//! policy in force (`validator`, `bounds`), and writes an accepted candidate
//! into its state (`store`). Beside that it keeps datapoints and finds them
//! again by identity and by time (`ledger`). `oracle` holds the operations
//! that callers see.

pub mod bounds;
pub mod error;
pub mod feed;
pub mod ledger;
pub mod oracle;
pub mod scale;
pub mod store;
pub mod validator;

pub use crate::bounds::{BoundsConfig, Ratio};
pub use crate::error::{ErrorCode, OracleError, ValidationError};
pub use crate::feed::{get_current_price, FeedPrice, PriceSample};
pub use crate::ledger::{Datapoint, DatapointId, DatapointLedger};
pub use crate::oracle::{
    get_datapoint, get_datapoint_batch, get_last_datapoint, get_trend, store_datapoint,
    update_trend,
};
pub use crate::store::{initialize, OracleState};
pub use crate::validator::validate;
