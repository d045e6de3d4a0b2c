//! Verified core of the Anypost email API client.
//!
//! The library holds the logic of the client: webhook signature
//! verification, the classification of failed responses, the retry policy,
//! request headers (with automatic idempotency keys), paths, URLs and query
//! strings, and the typed builders for messages and list parameters. The
//! HTTP transport and the async client drive it.

pub mod config;
pub mod crypto;
pub mod error;
pub mod json;
pub mod request;
pub mod response;
pub mod retry;
pub mod text;
pub mod transport;
pub mod types;
pub mod version;
pub mod webhook;

pub use response::{Page, Response};
pub use types::email::{
    Attachment, BatchEmail, ReplyTo, SendEmail, Tracking, Unsubscribe, UnsubscribeMode,
};
pub use types::params::{EventListParams, ListParams, SuppressionListParams};
pub use version::VERSION;
pub use webhook::{
    unwrap, unwrap_with_options, verify, verify_with_options, VerifyOptions, WebhookErrorReason,
    WebhookVerificationError,
};
