use vstd::prelude::*;
use vstd::multiset::group_multiset_axioms;
use vstd::relations::sorted_by;
use vstd::seq_lib::{group_to_multiset_ensures, lemma_multiset_commutative};
use crate::auth::normalize::{
    joined_pairs, join_pairs_into, lemma_sort_pairs, lemma_sort_pairs_order_free, pair_order,
    pairs_view, push_all, sort_encoded, sort_pairs,
};
use crate::auth::percent::{percent_encode_into, percent_encoded, utf8};
use crate::auth::primitives::{
    base64_encode, base64_of, hmac_sha1, hmac_sha1_of, parse_url, url_parts_of, UrlParts,
};
use crate::auth::token::{OAuthError, Token};

verus! {

/// The decimal digits of `n`, as ASCII.
pub open spec fn decimal(n: nat) -> Seq<u8>
    decreases n,
{
    if n < 10 {
        seq![(48 + n) as u8]
    } else {
        decimal(n / 10) + seq![(48 + n % 10) as u8]
    }
}

/// Appends the decimal digits of `n` to `out`.
pub fn push_decimal(n: u64, out: &mut Vec<u8>)
    ensures
        final(out)@ == old(out)@ + decimal(n as nat),
    decreases n,
{
    if n >= 10 {
        push_decimal(n / 10, out);
    }
    out.push(48 + (n % 10) as u8);
    assert(out@ =~= old(out)@ + decimal(n as nat));
}

pub open spec fn upper_byte(b: u8) -> u8 {
    if 97 <= b && b <= 122 {
        (b - 32) as u8
    } else {
        b
    }
}

pub open spec fn lower_byte(b: u8) -> u8 {
    if 65 <= b && b <= 90 {
        (b + 32) as u8
    } else {
        b
    }
}

/// ASCII letters made uppercase; other bytes kept.
pub open spec fn uppercase(s: Seq<u8>) -> Seq<u8> {
    Seq::new(s.len(), |i: int| upper_byte(s[i]))
}

/// ASCII letters made lowercase; other bytes kept.
pub open spec fn lowercase(s: Seq<u8>) -> Seq<u8> {
    Seq::new(s.len(), |i: int| lower_byte(s[i]))
}

fn push_case(out: &mut Vec<u8>, s: &[u8], upper: bool)
    ensures
        final(out)@ == old(out)@ + if upper {
            uppercase(s@)
        } else {
            lowercase(s@)
        },
{
    let ghost mapped = if upper {
        uppercase(s@)
    } else {
        lowercase(s@)
    };
    let mut i: usize = 0;
    while i < s.len()
        invariant
            i <= s@.len(),
            mapped == if upper {
                uppercase(s@)
            } else {
                lowercase(s@)
            },
            out@ == old(out)@ + mapped.take(i as int),
        decreases s@.len() - i,
    {
        let b = s[i];
        if upper && 97 <= b && b <= 122 {
            out.push(b - 32);
        } else if !upper && 65 <= b && b <= 90 {
            out.push(b + 32);
        } else {
            out.push(b);
        }
        assert(mapped.take(i + 1) =~= mapped.take(i as int).push(mapped[i as int]));
        i = i + 1;
    }
    assert(mapped.take(s@.len() as int) =~= mapped);
}

/// `http`, in ASCII.
pub open spec fn http_scheme() -> Seq<u8> {
    seq![104u8, 116, 116, 112]
}

/// `https`, in ASCII.
pub open spec fn https_scheme() -> Seq<u8> {
    seq![104u8, 116, 116, 112, 115]
}

/// Port 80 under `http` and port 443 under `https` go without saying.
pub open spec fn is_default_port(scheme: Seq<u8>, port: u16) -> bool {
    (scheme == http_scheme() && port == 80) || (scheme == https_scheme() && port == 443)
}

fn is_default_port_exec(scheme: &[u8], port: u16) -> (r: bool)
    ensures
        r == is_default_port(scheme@, port),
{
    let http = scheme.len() == 4 && scheme[0] == 104 && scheme[1] == 116 && scheme[2] == 116
        && scheme[3] == 112;
    let https = scheme.len() == 5 && scheme[0] == 104 && scheme[1] == 116 && scheme[2] == 116
        && scheme[3] == 112 && scheme[4] == 115;
    assert(http == (scheme@ == http_scheme())) by {
        if http {
            assert(scheme@ =~= http_scheme());
        }
    }
    assert(https == (scheme@ == https_scheme())) by {
        if https {
            assert(scheme@ =~= https_scheme());
        }
    }
    (http && port == 80) || (https && port == 443)
}

/// `scheme://host[:port]path`, scheme and host in lowercase, the port only
/// where it is not the scheme's default.
pub open spec fn normalized_url(
    scheme: Seq<char>,
    host: Seq<char>,
    port: Option<u16>,
    path: Seq<char>,
) -> Seq<u8> {
    let sc = lowercase(utf8(scheme));
    let port_text = match port {
        Some(p) => if is_default_port(sc, p) {
            seq![]
        } else {
            seq![58u8] + decimal(p as nat)
        },
        None => seq![],
    };
    sc + seq![58u8, 47, 47] + lowercase(utf8(host)) + port_text + utf8(path)
}

/// The normalized URL of parsed URL parts; a URL without a host is refused.
pub open spec fn url_outcome(parts: (Seq<char>, Option<Seq<char>>, Option<u16>, Seq<char>)) -> Result<
    Seq<u8>,
    OAuthError,
> {
    match parts.1 {
        None => Err(OAuthError::InvalidUrl),
        Some(h) => Ok(normalized_url(parts.0, h, parts.2, parts.3)),
    }
}

/// The URL of the signature base string, built from the parts of a parsed URL:
/// query and fragment are left out.
pub fn normalize_url(parts: &UrlParts) -> (r: Result<Vec<u8>, OAuthError>)
    ensures
        match url_outcome(parts.view()) {
            Ok(u) => r matches Ok(v) && v@ == u,
            Err(e) => r matches Err(f) && f == e,
        },
{
    match &parts.host {
        None => Err(OAuthError::InvalidUrl),
        Some(host) => {
            let mut out: Vec<u8> = Vec::new();
            push_case(&mut out, parts.scheme.as_str().as_bytes(), false);
            let scheme = out.clone();
            out.push(58);
            out.push(47);
            out.push(47);
            push_case(&mut out, host.as_str().as_bytes(), false);
            match parts.port {
                Some(p) => {
                    if !is_default_port_exec(scheme.as_slice(), p) {
                        out.push(58);
                        push_decimal(p as u64, &mut out);
                    }
                },
                None => {},
            }
            push_all(&mut out, parts.path.as_str().as_bytes());
            assert(out@ =~= url_outcome(parts.view())->Ok_0);
            Ok(out)
        },
    }
}

/// The request parameters, as UTF-8 bytes.
pub open spec fn request_params(ps: Seq<(String, String)>) -> Seq<(Seq<u8>, Seq<u8>)> {
    Seq::new(ps.len(), |i: int| (utf8(ps[i].0@), utf8(ps[i].1@)))
}

/// The six protocol parameters that every signature covers.
pub open spec fn oauth_params(token: Token, timestamp: u64, nonce: Seq<char>) -> Seq<
    (Seq<u8>, Seq<u8>),
> {
    seq![
        (utf8("oauth_consumer_key"@), utf8(token.consumer_key@)),
        (utf8("oauth_nonce"@), utf8(nonce)),
        (utf8("oauth_signature_method"@), utf8("HMAC-SHA1"@)),
        (utf8("oauth_timestamp"@), decimal(timestamp as nat)),
        (utf8("oauth_token"@), utf8(token.access_token@)),
        (utf8("oauth_version"@), utf8("1.0"@)),
    ]
}

/// Every parameter that the signature covers: the request's, then the protocol's.
pub open spec fn signable_params(
    ps: Seq<(String, String)>,
    token: Token,
    timestamp: u64,
    nonce: Seq<char>,
) -> Seq<(Seq<u8>, Seq<u8>)> {
    request_params(ps) + oauth_params(token, timestamp, nonce)
}

/// Each name and each value percent-encoded.
pub open spec fn encoded_pairs(s: Seq<(Seq<u8>, Seq<u8>)>) -> Seq<(Seq<u8>, Seq<u8>)> {
    Seq::new(s.len(), |i: int| (percent_encoded(s[i].0), percent_encoded(s[i].1)))
}

/// The normalized parameter string: encoded pairs, sorted, as `name=value`
/// joined with `&`.
pub open spec fn normalized_params(s: Seq<(Seq<u8>, Seq<u8>)>) -> Seq<u8> {
    joined_pairs(sort_pairs(encoded_pairs(s)))
}

/// `METHOD&url&params`, the method in uppercase, the URL and the normalized
/// parameters percent-encoded.
pub open spec fn base_string(method: Seq<char>, url: Seq<u8>, params: Seq<(Seq<u8>, Seq<u8>)>) -> Seq<
    u8,
> {
    uppercase(utf8(method)) + seq![38u8] + percent_encoded(url) + seq![38u8] + percent_encoded(
        normalized_params(params),
    )
}

/// The HMAC key: the encoded consumer secret, `&`, the encoded token secret.
pub open spec fn signing_key(token: Token) -> Seq<u8> {
    percent_encoded(utf8(token.consumer_secret@)) + seq![38u8] + percent_encoded(
        utf8(token.access_token_secret@),
    )
}

/// The signature of a request, or why there is none.
pub open spec fn sign_outcome(
    method: Seq<char>,
    url: Seq<char>,
    params: Seq<(String, String)>,
    token: Token,
    timestamp: u64,
    nonce: Seq<char>,
) -> Result<Seq<char>, OAuthError> {
    if !token.has_consumer_credentials() {
        Err(OAuthError::InvalidCredentials)
    } else {
        match url_parts_of(url) {
            None => Err(OAuthError::InvalidUrl),
            Some(parts) => match url_outcome(parts) {
                Err(e) => Err(e),
                Ok(u) => Ok(
                    base64_of(
                        hmac_sha1_of(
                            signing_key(token),
                            base_string(method, u, signable_params(params, token, timestamp, nonce)),
                        ),
                    ),
                ),
            },
        }
    }
}

fn push_encoded_pair(v: &mut Vec<(Vec<u8>, Vec<u8>)>, name: &[u8], value: &[u8])
    ensures
        pairs_view(final(v)@) == pairs_view(old(v)@).push(
            (percent_encoded(name@), percent_encoded(value@)),
        ),
{
    let mut n: Vec<u8> = Vec::new();
    percent_encode_into(name, &mut n);
    let mut x: Vec<u8> = Vec::new();
    percent_encode_into(value, &mut x);
    assert(n@ =~= percent_encoded(name@));
    assert(x@ =~= percent_encoded(value@));
    v.push((n, x));
    assert(pairs_view(v@) =~= pairs_view(old(v)@).push(
        (percent_encoded(name@), percent_encoded(value@)),
    ));
}

fn encoded_signable_params(
    params: &Vec<(String, String)>,
    token: &Token,
    timestamp: u64,
    nonce: &str,
) -> (r: Vec<(Vec<u8>, Vec<u8>)>)
    ensures
        pairs_view(r@) == encoded_pairs(signable_params(params@, *token, timestamp, nonce@)),
{
    let mut r: Vec<(Vec<u8>, Vec<u8>)> = Vec::new();
    let mut i: usize = 0;
    assert(pairs_view(r@) =~= encoded_pairs(request_params(params@.take(0))));
    while i < params.len()
        invariant
            i <= params@.len(),
            pairs_view(r@) == encoded_pairs(request_params(params@.take(i as int))),
        decreases params@.len() - i,
    {
        push_encoded_pair(&mut r, params[i].0.as_str().as_bytes(), params[i].1.as_str().as_bytes());
        assert(request_params(params@.take(i + 1)) =~= request_params(params@.take(i as int)).push(
            (utf8(params@[i as int].0@), utf8(params@[i as int].1@)),
        ));
        assert(pairs_view(r@) =~= encoded_pairs(request_params(params@.take(i + 1))));
        i = i + 1;
    }
    assert(params@.take(params@.len() as int) =~= params@);
    let ghost before = pairs_view(r@);
    let mut ts: Vec<u8> = Vec::new();
    push_decimal(timestamp, &mut ts);
    assert(ts@ =~= decimal(timestamp as nat));
    push_encoded_pair(&mut r, "oauth_consumer_key".as_bytes(), token.consumer_key.as_str().as_bytes());
    push_encoded_pair(&mut r, "oauth_nonce".as_bytes(), nonce.as_bytes());
    push_encoded_pair(&mut r, "oauth_signature_method".as_bytes(), "HMAC-SHA1".as_bytes());
    push_encoded_pair(&mut r, "oauth_timestamp".as_bytes(), ts.as_slice());
    push_encoded_pair(&mut r, "oauth_token".as_bytes(), token.access_token.as_str().as_bytes());
    push_encoded_pair(&mut r, "oauth_version".as_bytes(), "1.0".as_bytes());
    assert(pairs_view(r@) =~= before + encoded_pairs(oauth_params(*token, timestamp, nonce@)));
    assert(pairs_view(r@) =~= encoded_pairs(signable_params(params@, *token, timestamp, nonce@)));
    r
}

/// The signature base string of a request whose URL is already normalized.
pub fn signature_base_string(
    method: &str,
    url: &[u8],
    params: &Vec<(String, String)>,
    token: &Token,
    timestamp: u64,
    nonce: &str,
) -> (r: Vec<u8>)
    ensures
        r@ == base_string(method@, url@, signable_params(params@, *token, timestamp, nonce@)),
{
    let pairs = encoded_signable_params(params, token, timestamp, nonce);
    let sorted = sort_encoded(pairs);
    let mut norm: Vec<u8> = Vec::new();
    join_pairs_into(&sorted, &mut norm);
    let mut out: Vec<u8> = Vec::new();
    push_case(&mut out, method.as_bytes(), true);
    out.push(38);
    percent_encode_into(url, &mut out);
    out.push(38);
    percent_encode_into(norm.as_slice(), &mut out);
    assert(norm@ =~= normalized_params(signable_params(params@, *token, timestamp, nonce@)));
    assert(out@ =~= base_string(method@, url@, signable_params(params@, *token, timestamp, nonce@)));
    out
}

/// The HMAC-SHA1 key of a token.
pub fn signing_key_of(token: &Token) -> (r: Vec<u8>)
    ensures
        r@ == signing_key(*token),
{
    let mut out: Vec<u8> = Vec::new();
    percent_encode_into(token.consumer_secret.as_str().as_bytes(), &mut out);
    out.push(38);
    percent_encode_into(token.access_token_secret.as_str().as_bytes(), &mut out);
    assert(out@ =~= signing_key(*token));
    out
}

/// The OAuth1A HMAC-SHA1 signature of a request, base64-encoded.
///
/// Fails with `InvalidCredentials` where the consumer key or secret is empty,
/// and with `InvalidUrl` where the URL does not parse or has no host.
pub fn sign(
    method: &str,
    url: &str,
    params: &Vec<(String, String)>,
    token: &Token,
    timestamp: u64,
    nonce: &str,
) -> (r: Result<String, OAuthError>)
    ensures
        match sign_outcome(method@, url@, params@, *token, timestamp, nonce@) {
            Ok(sig) => r matches Ok(s) && s@ == sig,
            Err(e) => r matches Err(f) && f == e,
        },
{
    if token.consumer_key.as_str().is_empty() || token.consumer_secret.as_str().is_empty() {
        return Err(OAuthError::InvalidCredentials);
    }
    let parts = match parse_url(url) {
        None => {
            return Err(OAuthError::InvalidUrl);
        },
        Some(p) => p,
    };
    let normalized = match normalize_url(&parts) {
        Err(e) => {
            return Err(e);
        },
        Ok(u) => u,
    };
    let base = signature_base_string(method, normalized.as_slice(), params, token, timestamp, nonce);
    let key = signing_key_of(token);
    let digest = hmac_sha1(key.as_slice(), base.as_slice());
    Ok(base64_encode(digest.as_slice()))
}

proof fn lemma_encoded_pairs_permute(s1: Seq<(Seq<u8>, Seq<u8>)>, s2: Seq<(Seq<u8>, Seq<u8>)>)
    requires
        s1.to_multiset() == s2.to_multiset(),
    ensures
        encoded_pairs(s1).to_multiset() == encoded_pairs(s2).to_multiset(),
    decreases s1.len(),
{
    broadcast use group_to_multiset_ensures, group_multiset_axioms;

    if s1.len() == 0 {
        assert(s1.to_multiset().len() == s1.len());
        assert(s2.to_multiset().len() == s2.len());
        assert(s2.len() == 0);
        assert(encoded_pairs(s1) =~= encoded_pairs(s2));
    } else {
        let x = s1.last();
        let fx = (percent_encoded(x.0), percent_encoded(x.1));
        let d1 = s1.drop_last();
        assert(s1 =~= d1.push(x));
        assert(s2.to_multiset().count(x) > 0);
        assert(s2.contains(x));
        let i = choose|i: int| 0 <= i < s2.len() && s2[i] == x;
        let d2 = s2.remove(i);
        assert(d1.to_multiset() =~= d2.to_multiset());
        lemma_encoded_pairs_permute(d1, d2);
        let e2 = encoded_pairs(s2);
        assert(encoded_pairs(s1) =~= encoded_pairs(d1).push(fx));
        assert(encoded_pairs(d2) =~= e2.remove(i));
        assert(e2[i] == fx);
        assert(e2.to_multiset().count(fx) > 0);
        assert(encoded_pairs(s1).to_multiset() =~= e2.to_multiset());
    }
}

/// The normalized parameters are the encoded pairs, each as often as it
/// occurs, sorted by name and then by value.
pub proof fn lemma_normalized_params_sorted(s: Seq<(Seq<u8>, Seq<u8>)>)
    ensures
        normalized_params(s) == joined_pairs(sort_pairs(encoded_pairs(s))),
        sorted_by(sort_pairs(encoded_pairs(s)), pair_order()),
        sort_pairs(encoded_pairs(s)).to_multiset() == encoded_pairs(s).to_multiset(),
{
    lemma_sort_pairs(encoded_pairs(s));
}

/// The order in which request parameters are given changes neither the
/// signature nor its failure: parameter lists that hold the same (name, value)
/// pairs, each as often, sign alike.
pub proof fn lemma_parameter_order_free(
    method: Seq<char>,
    url: Seq<char>,
    params1: Seq<(String, String)>,
    params2: Seq<(String, String)>,
    token: Token,
    timestamp: u64,
    nonce: Seq<char>,
)
    requires
        request_params(params1).to_multiset() == request_params(params2).to_multiset(),
    ensures
        sign_outcome(method, url, params1, token, timestamp, nonce) == sign_outcome(
            method,
            url,
            params2,
            token,
            timestamp,
            nonce,
        ),
        forall|u: Seq<u8>|
            base_string(method, u, signable_params(params1, token, timestamp, nonce))
                == #[trigger] base_string(method, u, signable_params(params2, token, timestamp, nonce)),
{
    let o = oauth_params(token, timestamp, nonce);
    let s1 = signable_params(params1, token, timestamp, nonce);
    let s2 = signable_params(params2, token, timestamp, nonce);
    lemma_multiset_commutative(request_params(params1), o);
    lemma_multiset_commutative(request_params(params2), o);
    lemma_encoded_pairs_permute(s1, s2);
    lemma_sort_pairs_order_free(encoded_pairs(s1), encoded_pairs(s2));
    assert(normalized_params(s1) == normalized_params(s2));
}

/// Signing is deterministic: requests that agree in method, URL, parameter
/// texts, credential texts, timestamp and nonce get the same signature, or the
/// same error.
pub proof fn lemma_signing_deterministic(
    method: Seq<char>,
    url: Seq<char>,
    params1: Seq<(String, String)>,
    params2: Seq<(String, String)>,
    token1: Token,
    token2: Token,
    timestamp: u64,
    nonce: Seq<char>,
)
    requires
        params1.len() == params2.len(),
        forall|i: int|
            0 <= i < params1.len() ==> (#[trigger] params1[i]).0@ == params2[i].0@ && params1[i].1@
                == params2[i].1@,
        token1.consumer_key@ == token2.consumer_key@,
        token1.consumer_secret@ == token2.consumer_secret@,
        token1.access_token@ == token2.access_token@,
        token1.access_token_secret@ == token2.access_token_secret@,
    ensures
        sign_outcome(method, url, params1, token1, timestamp, nonce) == sign_outcome(
            method,
            url,
            params2,
            token2,
            timestamp,
            nonce,
        ),
{
    assert(request_params(params1) =~= request_params(params2));
    assert(oauth_params(token1, timestamp, nonce) =~= oauth_params(token2, timestamp, nonce));
    assert(signing_key(token1) == signing_key(token2));
}

} // verus!
