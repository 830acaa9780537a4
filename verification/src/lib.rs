//! Verified core of a newsletter-subscription intake service.
//!
//! The library holds the logic of the service: decoding and validating
//! URL-encoded subscription forms, deciding the HTTP status of every
//! request, modelling the persisted subscriber table, and constructing
//! the outbound-notification client. The surrounding process (listener,
//! connection pool, asynchronous runtime) lives outside the library and
//! only carries plain values in and out of it.
pub mod form;
pub mod http;
pub mod ids;
pub mod intake;
pub mod outbound;
pub mod store;

pub use form::FormData;
pub use http::HttpOutcome;
