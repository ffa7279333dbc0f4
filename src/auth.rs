/// The user's OAuth1A credentials.
pub mod token;
/// RFC 3986 percent-encoding.
pub mod percent;
/// The outside computations that signing relies on.
pub mod primitives;
/// Parameter normalization: ordering and joining of encoded pairs.
pub mod normalize;
/// The signature engine: base string, signing key and HMAC-SHA1 signature.
pub mod signature;
/// The OAuth1A header and its builder.
pub mod oauth;
