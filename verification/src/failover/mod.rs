//! Model failover: error classification, retry delays, and rotation of auth profiles.
//!
//! An error of a model request is classified to decide whether to retry the same model, to fall
//! back to the next one, or to surface the error. Auth profiles of one provider rotate: a failed
//! profile cools down, and a session keeps to the profile that last worked for it.

pub mod classify;
pub mod cooldown;
pub mod llm_error;
pub mod policy;
pub mod profile;
pub mod selection;
pub mod sticky;

pub use crate::failover::classify::{
    classify_error, classify_error_full, ClassifiedError, FailoverReason,
};
pub use crate::failover::cooldown::ProfileCooldownTracker;
pub use crate::failover::llm_error::LlmError;
pub use crate::failover::policy::retry_delay_ms;
pub use crate::failover::profile::{AuthProfile, ProviderConfig};
pub use crate::failover::selection::{next_profile, select_profile};
pub use crate::failover::sticky::ProfileStickyMap;
