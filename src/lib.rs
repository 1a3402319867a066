//! Enrollment gateway of a node: decodes local enrollment requests, picks the
//! remote authenticator and the outbound body, and drives the one-shot secure
//! channel around each remote call.
pub mod cbor;
pub mod codec;
pub mod gateway;
pub mod model;
