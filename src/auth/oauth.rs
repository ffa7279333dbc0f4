use vstd::prelude::*;
use vstd::string::StringExecFns;
use crate::auth::percent::{
    ascii_text, encode_byte, hex_digit, is_ascii_bytes, is_unreserved, percent_encode_into,
    percent_encoded, utf8,
};
use crate::auth::primitives::{ascii_string, is_alphanumeric, random_alphanumeric, unix_time_now};
use crate::auth::signature::{decimal, push_decimal, sign, sign_outcome};
use crate::auth::token::{OAuthError, Token};

verus! {

/// An OAuth1A `Authorization` header value.
pub struct OAuthHeader {
    /// The string contents of the header.
    pub contents: String,
}

impl OAuthHeader {
    /// Returns a reference to the contents of the header.
    pub fn get_header(&self) -> (r: &str)
        ensures
            r@ == self.contents@,
    {
        self.contents.as_str()
    }

    /// Returns the contents of the header as owned.
    pub fn get_owned_header(self) -> (r: String)
        ensures
            r@ == self.contents@,
    {
        self.contents
    }
}

/// `name="value"`, the value percent-encoded.
pub open spec fn header_entry(name: Seq<char>, value: Seq<u8>) -> Seq<char> {
    name + "=\""@ + ascii_text(percent_encoded(value)) + "\""@
}

/// The header value: `OAuth ` and the seven protocol parameters, signature
/// included, in order of name, joined with `, `.
pub open spec fn header_text(
    token: Token,
    timestamp: u64,
    nonce: Seq<char>,
    signature: Seq<char>,
) -> Seq<char> {
    "OAuth "@ + header_entry("oauth_consumer_key"@, utf8(token.consumer_key@)) + ", "@
        + header_entry("oauth_nonce"@, utf8(nonce)) + ", "@ + header_entry(
        "oauth_signature"@,
        utf8(signature),
    ) + ", "@ + header_entry("oauth_signature_method"@, utf8("HMAC-SHA1"@)) + ", "@
        + header_entry("oauth_timestamp"@, decimal(timestamp as nat)) + ", "@ + header_entry(
        "oauth_token"@,
        utf8(token.access_token@),
    ) + ", "@ + header_entry("oauth_version"@, utf8("1.0"@))
}

/// The header of a request, or why there is none.
pub open spec fn header_outcome(
    method: Seq<char>,
    url: Seq<char>,
    params: Seq<(String, String)>,
    token: Token,
    timestamp: u64,
    nonce: Seq<char>,
) -> Result<Seq<char>, OAuthError> {
    match sign_outcome(method, url, params, token, timestamp, nonce) {
        Ok(sig) => Ok(header_text(token, timestamp, nonce, sig)),
        Err(e) => Err(e),
    }
}

proof fn lemma_percent_encoded_ascii(s: Seq<u8>)
    ensures
        is_ascii_bytes(percent_encoded(s)),
    decreases s.len(),
{
    if s.len() > 0 {
        lemma_percent_encoded_ascii(s.drop_last());
        let b = s.last();
        assert(is_ascii_bytes(encode_byte(b))) by {
            if !is_unreserved(b) {
                assert(hex_digit(b / 16) < 128);
                assert(hex_digit(b % 16) < 128);
            }
        }
    }
}

fn push_entry(out: &mut String, name: &str, value: &[u8])
    ensures
        final(out)@ == old(out)@ + header_entry(name@, value@),
{
    out.append(name);
    out.append("=\"");
    let mut encoded: Vec<u8> = Vec::new();
    percent_encode_into(value, &mut encoded);
    proof {
        assert(encoded@ =~= percent_encoded(value@));
        lemma_percent_encoded_ascii(value@);
    }
    let text = ascii_string(encoded);
    out.append(text.as_str());
    out.append("\"");
    assert(out@ =~= old(out)@ + header_entry(name@, value@));
}

/// Renders the header of a signed request from its signature.
pub fn render_header(token: &Token, timestamp: u64, nonce: &str, signature: &str) -> (r:
    OAuthHeader)
    ensures
        r.contents@ == header_text(*token, timestamp, nonce@, signature@),
{
    let mut ts: Vec<u8> = Vec::new();
    push_decimal(timestamp, &mut ts);
    assert(ts@ =~= decimal(timestamp as nat));
    let mut out = String::from_str("OAuth ");
    push_entry(&mut out, "oauth_consumer_key", token.consumer_key.as_str().as_bytes());
    out.append(", ");
    push_entry(&mut out, "oauth_nonce", nonce.as_bytes());
    out.append(", ");
    push_entry(&mut out, "oauth_signature", signature.as_bytes());
    out.append(", ");
    push_entry(&mut out, "oauth_signature_method", "HMAC-SHA1".as_bytes());
    out.append(", ");
    push_entry(&mut out, "oauth_timestamp", ts.as_slice());
    out.append(", ");
    push_entry(&mut out, "oauth_token", token.access_token.as_str().as_bytes());
    out.append(", ");
    push_entry(&mut out, "oauth_version", "1.0".as_bytes());
    OAuthHeader { contents: out }
}

/// Signs a request and renders its header.
pub fn header_for(
    method: &str,
    url: &str,
    params: &Vec<(String, String)>,
    token: &Token,
    timestamp: u64,
    nonce: &str,
) -> (r: Result<OAuthHeader, OAuthError>)
    ensures
        match header_outcome(method@, url@, params@, *token, timestamp, nonce@) {
            Ok(h) => r matches Ok(hd) && hd.contents@ == h,
            Err(e) => r matches Err(f) && f == e,
        },
{
    match sign(method, url, params, token, timestamp, nonce) {
        Ok(signature) => Ok(render_header(token, timestamp, nonce, signature.as_str())),
        Err(e) => Err(e),
    }
}

/// An alphanumeric ASCII character.
pub open spec fn is_alphanumeric_char(c: char) -> bool {
    (65 <= c as u32 && c as u32 <= 90) || (97 <= c as u32 && c as u32 <= 122) || (48 <= c as u32
        && c as u32 <= 57)
}

/// The length of a generated nonce: 32 characters out of 62, about 190 bits.
pub const NONCE_LEN: usize = 32;

/// A fresh nonce of random letters and digits, from a cryptographically strong
/// generator.
pub fn generate_nonce() -> (r: String)
    ensures
        r@.len() == NONCE_LEN,
        forall|i: int| 0 <= i < r@.len() ==> is_alphanumeric_char(#[trigger] r@[i]),
{
    let mut bytes: Vec<u8> = Vec::new();
    while bytes.len() < NONCE_LEN
        invariant
            bytes@.len() <= NONCE_LEN,
            forall|i: int| 0 <= i < bytes@.len() ==> is_alphanumeric(#[trigger] bytes@[i]),
        decreases NONCE_LEN - bytes@.len(),
    {
        bytes.push(random_alphanumeric());
    }
    let ghost b = bytes@;
    let r = ascii_string(bytes);
    assert forall|i: int| 0 <= i < r@.len() implies is_alphanumeric_char(#[trigger] r@[i]) by {
        assert(r@[i] == b[i] as char);
        assert(is_alphanumeric(b[i]));
    }
    r
}

/// What a header builder holds, as values.
pub struct BuilderView {
    pub method: Seq<char>,
    pub url: Option<Seq<char>>,
    pub params: Seq<(String, String)>,
    pub token: Token,
    pub timestamp: Option<u64>,
    pub nonce: Option<Seq<char>>,
    pub finalized: bool,
}

/// What `finalize` returns once the timestamp and nonce are fixed.
pub open spec fn finalize_outcome(v: BuilderView) -> Result<Seq<char>, OAuthError> {
    if !v.token.has_consumer_credentials() {
        Err(OAuthError::InvalidCredentials)
    } else {
        match v.url {
            None => Err(OAuthError::InvalidUrl),
            Some(u) => header_outcome(
                v.method,
                u,
                v.params,
                v.token,
                v.timestamp.unwrap_or(0),
                v.nonce.unwrap_or(seq![]),
            ),
        }
    }
}

/// Builds the OAuth1A header of one request.
///
/// The builder is open while parameters are added; `finalize` signs the request
/// once and closes it, after which every call fails with
/// `BuilderAlreadyFinalized`, so that a signature is never reused for a changed
/// request.
pub struct OAuthHeaderBuilder<'a> {
    /// The HTTP method to use
    method: String,
    /// The URL of the request
    url: Option<String>,
    /// The parameters of the HTTP request
    params: Vec<(String, String)>,
    /// The user authentication token
    token: &'a Token,
    /// The timestamp to sign with, where the caller gives one
    timestamp: Option<u64>,
    /// The nonce to sign with, where the caller gives one
    nonce: Option<String>,
    /// Whether `finalize` was called
    finalized: bool,
}

impl<'a> OAuthHeaderBuilder<'a> {
    pub closed spec fn view(&self) -> BuilderView {
        BuilderView {
            method: self.method@,
            url: match self.url {
                Some(u) => Some(u@),
                None => None,
            },
            params: self.params@,
            token: *self.token,
            timestamp: self.timestamp,
            nonce: match self.nonce {
                Some(n) => Some(n@),
                None => None,
            },
            finalized: self.finalized,
        }
    }

    /// Create a new OAuthHeaderBuilder instance.
    pub fn new(method: String, token: &'a Token) -> (r: Self)
        ensures
            r.view() == (BuilderView {
                method: method@,
                url: None,
                params: seq![],
                token: *token,
                timestamp: None,
                nonce: None,
                finalized: false,
            }),
    {
        OAuthHeaderBuilder {
            method,
            url: None,
            params: Vec::new(),
            token,
            timestamp: None,
            nonce: None,
            finalized: false,
        }
    }

    /// Set the URL of the request; its query and fragment are not signed.
    pub fn set_url(&mut self, url: String) -> (r: Result<(), OAuthError>)
        ensures
            old(self).view().finalized ==> r == Err::<(), OAuthError>(
                OAuthError::BuilderAlreadyFinalized,
            ) && final(self).view() == old(self).view(),
            !old(self).view().finalized ==> r == Ok::<(), OAuthError>(()) && final(self).view()
                == (BuilderView { url: Some(url@), ..old(self).view() }),
    {
        if self.finalized {
            return Err(OAuthError::BuilderAlreadyFinalized);
        }
        self.url = Some(url);
        Ok(())
    }

    /// Sign with this timestamp, in seconds since the Unix epoch, rather than the clock's.
    pub fn set_timestamp(&mut self, timestamp: u64) -> (r: Result<(), OAuthError>)
        ensures
            old(self).view().finalized ==> r == Err::<(), OAuthError>(
                OAuthError::BuilderAlreadyFinalized,
            ) && final(self).view() == old(self).view(),
            !old(self).view().finalized ==> r == Ok::<(), OAuthError>(()) && final(self).view()
                == (BuilderView { timestamp: Some(timestamp), ..old(self).view() }),
    {
        if self.finalized {
            return Err(OAuthError::BuilderAlreadyFinalized);
        }
        self.timestamp = Some(timestamp);
        Ok(())
    }

    /// Sign with this nonce rather than a generated one.
    pub fn set_nonce(&mut self, nonce: String) -> (r: Result<(), OAuthError>)
        ensures
            old(self).view().finalized ==> r == Err::<(), OAuthError>(
                OAuthError::BuilderAlreadyFinalized,
            ) && final(self).view() == old(self).view(),
            !old(self).view().finalized ==> r == Ok::<(), OAuthError>(()) && final(self).view()
                == (BuilderView { nonce: Some(nonce@), ..old(self).view() }),
    {
        if self.finalized {
            return Err(OAuthError::BuilderAlreadyFinalized);
        }
        self.nonce = Some(nonce);
        Ok(())
    }

    /// Add a set of request parameters to the header, in order.
    pub fn parameters(&mut self, parameters: Vec<(String, String)>) -> (r: Result<(), OAuthError>)
        ensures
            old(self).view().finalized ==> r == Err::<(), OAuthError>(
                OAuthError::BuilderAlreadyFinalized,
            ) && final(self).view() == old(self).view(),
            !old(self).view().finalized ==> r == Ok::<(), OAuthError>(()) && final(self).view()
                == (BuilderView { params: old(self).view().params + parameters@, ..old(self).view() }),
    {
        if self.finalized {
            return Err(OAuthError::BuilderAlreadyFinalized);
        }
        let mut parameters = parameters;
        self.params.append(&mut parameters);
        Ok(())
    }

    /// Add a new parameter to the header; names may repeat.
    pub fn add_param(&mut self, key: String, value: String) -> (r: Result<(), OAuthError>)
        ensures
            old(self).view().finalized ==> r == Err::<(), OAuthError>(
                OAuthError::BuilderAlreadyFinalized,
            ) && final(self).view() == old(self).view(),
            !old(self).view().finalized ==> r == Ok::<(), OAuthError>(()) && final(self).view()
                == (BuilderView { params: old(self).view().params.push((key, value)), ..old(self).view() }),
    {
        if self.finalized {
            return Err(OAuthError::BuilderAlreadyFinalized);
        }
        self.params.push((key, value));
        Ok(())
    }

    /// Finalize the creation of the OAuthHeader: sign the request and close the
    /// builder.
    ///
    /// Where no timestamp or nonce was set, the clock's time and a generated
    /// nonce are used, and kept in the builder.
    pub fn finalize(&mut self) -> (r: Result<OAuthHeader, OAuthError>)
        ensures
            old(self).view().finalized ==> r == Err::<OAuthHeader, OAuthError>(
                OAuthError::BuilderAlreadyFinalized,
            ) && final(self).view() == old(self).view(),
            !old(self).view().finalized ==> {
                let v = final(self).view();
                &&& v.finalized
                &&& v.method == old(self).view().method
                &&& v.url == old(self).view().url
                &&& v.params == old(self).view().params
                &&& v.token == old(self).view().token
                &&& v.timestamp is Some
                &&& old(self).view().timestamp is Some ==> v.timestamp == old(self).view().timestamp
                &&& v.nonce is Some
                &&& old(self).view().nonce is Some ==> v.nonce == old(self).view().nonce
                &&& !v.token.has_consumer_credentials() ==> r == Err::<OAuthHeader, OAuthError>(
                    OAuthError::InvalidCredentials,
                )
                &&& match finalize_outcome(v) {
                    Ok(h) => r matches Ok(hd) && hd.contents@ == h,
                    Err(e) => r matches Err(f) && f == e,
                }
            },
    {
        if self.finalized {
            return Err(OAuthError::BuilderAlreadyFinalized);
        }
        self.finalized = true;
        let timestamp = match self.timestamp {
            Some(t) => t,
            None => {
                let now = unix_time_now();
                if now < 0 {
                    0
                } else {
                    now as u64
                }
            },
        };
        self.timestamp = Some(timestamp);
        let nonce = match &self.nonce {
            Some(n) => n.clone(),
            None => generate_nonce(),
        };
        self.nonce = Some(nonce.clone());
        let token = self.token;
        if token.consumer_key.as_str().is_empty() || token.consumer_secret.as_str().is_empty() {
            return Err(OAuthError::InvalidCredentials);
        }
        match &self.url {
            None => Err(OAuthError::InvalidUrl),
            Some(url) => header_for(
                self.method.as_str(),
                url.as_str(),
                &self.params,
                token,
                timestamp,
                nonce.as_str(),
            ),
        }
    }
}

} // verus!
