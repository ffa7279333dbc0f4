use vstd::prelude::*;

verus! {

/// What can go wrong while signing a request.
#[derive(Clone, Copy, Debug, PartialEq, Eq, Structural)]
pub enum OAuthError {
    /// The consumer key or the consumer secret is empty.
    InvalidCredentials,
    /// The URL does not parse, or has no host.
    InvalidUrl,
    /// The header builder was already finalized.
    BuilderAlreadyFinalized,
}

/// The four OAuth1A secrets of a user of an application.
///
/// These are security-sensitive: keep them out of logs.
#[derive(Clone, Debug)]
pub struct Token {
    pub consumer_key: String,
    pub consumer_secret: String,
    pub access_token: String,
    pub access_token_secret: String,
}

impl Token {
    /// Both consumer secrets are present: every signature needs them.
    pub open spec fn has_consumer_credentials(&self) -> bool {
        self.consumer_key@.len() > 0 && self.consumer_secret@.len() > 0
    }

    /// Bundles the four secrets; the consumer key and secret must not be empty.
    pub fn new(
        consumer_key: String,
        consumer_secret: String,
        access_token: String,
        access_token_secret: String,
    ) -> (r: Result<Token, OAuthError>)
        ensures
            consumer_key@.len() == 0 || consumer_secret@.len() == 0 ==> r == Err::<
                Token,
                OAuthError,
            >(OAuthError::InvalidCredentials),
            consumer_key@.len() > 0 && consumer_secret@.len() > 0 ==> (r matches Ok(t) && t
                == (Token { consumer_key, consumer_secret, access_token, access_token_secret })),
    {
        if consumer_key.as_str().is_empty() || consumer_secret.as_str().is_empty() {
            return Err(OAuthError::InvalidCredentials);
        }
        Ok(Token { consumer_key, consumer_secret, access_token, access_token_secret })
    }

    pub fn consumer_key(&self) -> (r: &str)
        ensures
            r@ == self.consumer_key@,
    {
        self.consumer_key.as_str()
    }

    pub fn consumer_secret(&self) -> (r: &str)
        ensures
            r@ == self.consumer_secret@,
    {
        self.consumer_secret.as_str()
    }

    pub fn access_token(&self) -> (r: &str)
        ensures
            r@ == self.access_token@,
    {
        self.access_token.as_str()
    }

    pub fn access_token_secret(&self) -> (r: &str)
        ensures
            r@ == self.access_token_secret@,
    {
        self.access_token_secret.as_str()
    }
}

} // verus!
