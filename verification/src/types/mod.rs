//! Typed request builders: messages for the send endpoints and parameters
//! for the list endpoints.

pub mod email;
pub mod params;
