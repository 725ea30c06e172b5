//! Cross-feed average of streamed BTC/USD prices, with signed per-feed results.
//!
//! Prices are fixed-point integers: one unit is a hundred-millionth of a dollar.
pub mod aggregate;
pub mod counter;
pub mod feed;
pub mod json;
pub mod price;
pub mod session;
pub mod sign;

pub use aggregate::{aggregate, combine, verdict_of, Overall, Verdict};
pub use counter::RunningCounter;
pub use feed::{extract_price, read_frame, record_frame, Extracted, Feed};
pub use json::{parse_json, Json};
pub use price::{parse_price, UNITS_PER_DOLLAR};
pub use session::{finish_session, Phase, Session, SessionResult};
pub use sign::{price_text, verify_signature, KeyPair, KeyRegistry};
