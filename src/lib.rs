//! Client bindings for the Twitter API: response data models and OAuth1A
//! request signing.

/// Response data models of the collections endpoints.
pub mod api;
/// User authentication through the OAuth1A protocol.
pub mod auth;
