//! Time-ordered 64-bit identifiers in the Snowflake style: a timestamp field,
//! node and machine fields and a per-millisecond sequence, packed into one `u64`.
//!
//! `SnowflakeBuilder` checks a configuration and makes a `Snowflake` generator.
//! Its allocation core, `Snowgen`, decides from each clock reading which
//! (timestamp, sequence) pair the next identifier takes; `Layout` packs and
//! unpacks identifiers.
pub mod builder;
pub mod epoch;
pub mod error;
pub mod layout;
pub mod snowflake;
pub mod snowgen;

pub use crate::builder::{BuilderView, SnowflakeBuilder};
pub use crate::epoch::{signed_millis, ClockOrigin, Epoch};
pub use crate::error::{ConfigError, GenerationError};
pub use crate::layout::{Layout, LayoutView};
pub use crate::snowflake::Snowflake;
pub use crate::snowgen::{Snowgen, SnowgenView};
