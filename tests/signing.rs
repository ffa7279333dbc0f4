use twitter_api::auth::oauth::{generate_nonce, header_for, render_header, OAuthHeaderBuilder};
use twitter_api::auth::percent::percent_encode_into;
use twitter_api::auth::primitives::UrlParts;
use twitter_api::auth::signature::{
    normalize_url, push_decimal, sign, signature_base_string, signing_key_of,
};
use twitter_api::auth::token::{OAuthError, Token};

fn photos_token() -> Token {
    Token {
        consumer_key: "dpf43f3p2l4k3l03".to_string(),
        consumer_secret: "kd94hf93k423kf44".to_string(),
        access_token: "nnch734d00sl2jdk".to_string(),
        access_token_secret: "pfkkdhi9sl3r4s00".to_string(),
    }
}

fn photos_params() -> Vec<(String, String)> {
    vec![
        ("file".to_string(), "vacation.jpg".to_string()),
        ("size".to_string(), "original".to_string()),
    ]
}

fn encode(s: &str) -> String {
    let mut out = Vec::new();
    percent_encode_into(s.as_bytes(), &mut out);
    String::from_utf8(out).unwrap()
}

const PHOTOS_URL: &str = "http://photos.example.net/photos";
const PHOTOS_SIGNATURE: &str = "tR3+Ty81lMeYAr/Fid0kMTYa/WM=";

#[test]
fn known_vector_signature() {
    let token = photos_token();
    let sig = sign("GET", PHOTOS_URL, &photos_params(), &token, 1191242096, "kllo9940pd9333jh");
    assert_eq!(sig, Ok(PHOTOS_SIGNATURE.to_string()));
}

#[test]
fn known_vector_base_string() {
    let token = photos_token();
    let base = signature_base_string(
        "get",
        PHOTOS_URL.as_bytes(),
        &photos_params(),
        &token,
        1191242096,
        "kllo9940pd9333jh",
    );
    assert_eq!(
        String::from_utf8(base).unwrap(),
        "GET&http%3A%2F%2Fphotos.example.net%2Fphotos&file%3Dvacation.jpg%26oauth_consumer_key%3Ddpf43f3p2l4k3l03%26oauth_nonce%3Dkllo9940pd9333jh%26oauth_signature_method%3DHMAC-SHA1%26oauth_timestamp%3D1191242096%26oauth_token%3Dnnch734d00sl2jdk%26oauth_version%3D1.0%26size%3Doriginal"
    );
}

#[test]
fn post_signature_differs_from_get() {
    let token = photos_token();
    let get = sign("GET", PHOTOS_URL, &photos_params(), &token, 1191242096, "kllo9940pd9333jh");
    let post = sign("POST", PHOTOS_URL, &photos_params(), &token, 1191242096, "kllo9940pd9333jh");
    assert!(post.is_ok());
    assert_ne!(get, post);
}

#[test]
fn method_is_case_insensitive() {
    let token = photos_token();
    let sig = sign("get", PHOTOS_URL, &photos_params(), &token, 1191242096, "kllo9940pd9333jh");
    assert_eq!(sig, Ok(PHOTOS_SIGNATURE.to_string()));
}

#[test]
fn known_vector_header() {
    let token = photos_token();
    let mut builder = OAuthHeaderBuilder::new("GET".to_string(), &token);
    builder.set_url(PHOTOS_URL.to_string()).unwrap();
    builder.add_param("size".to_string(), "original".to_string()).unwrap();
    builder.add_param("file".to_string(), "vacation.jpg".to_string()).unwrap();
    builder.set_timestamp(1191242096).unwrap();
    builder.set_nonce("kllo9940pd9333jh".to_string()).unwrap();
    let header = builder.finalize().unwrap();
    assert_eq!(
        header.get_header(),
        "OAuth oauth_consumer_key=\"dpf43f3p2l4k3l03\", oauth_nonce=\"kllo9940pd9333jh\", oauth_signature=\"tR3%2BTy81lMeYAr%2FFid0kMTYa%2FWM%3D\", oauth_signature_method=\"HMAC-SHA1\", oauth_timestamp=\"1191242096\", oauth_token=\"nnch734d00sl2jdk\", oauth_version=\"1.0\""
    );
}

#[test]
fn render_header_encodes_values() {
    let token = Token {
        consumer_key: "k y".to_string(),
        consumer_secret: "s".to_string(),
        access_token: "".to_string(),
        access_token_secret: "".to_string(),
    };
    let header = render_header(&token, 7, "n", "a+b=");
    assert_eq!(
        header.get_owned_header(),
        "OAuth oauth_consumer_key=\"k%20y\", oauth_nonce=\"n\", oauth_signature=\"a%2Bb%3D\", oauth_signature_method=\"HMAC-SHA1\", oauth_timestamp=\"7\", oauth_token=\"\", oauth_version=\"1.0\""
    );
}

#[test]
fn signing_is_deterministic() {
    let token = photos_token();
    let a = header_for("POST", PHOTOS_URL, &photos_params(), &token, 1, "abcdefghijklmnop").unwrap();
    let b = header_for("POST", PHOTOS_URL, &photos_params(), &token, 1, "abcdefghijklmnop").unwrap();
    assert_eq!(a.get_header(), b.get_header());
    let finalize_once = || {
        let mut builder = OAuthHeaderBuilder::new("POST".to_string(), &token);
        builder.set_url(PHOTOS_URL.to_string()).unwrap();
        builder.parameters(photos_params()).unwrap();
        builder.set_timestamp(1).unwrap();
        builder.set_nonce("abcdefghijklmnop".to_string()).unwrap();
        builder.finalize().unwrap().get_owned_header()
    };
    assert_eq!(finalize_once(), finalize_once());
    assert_eq!(finalize_once(), a.get_owned_header());
}

#[test]
fn space_encodes_as_percent_twenty() {
    assert_eq!(encode(" "), "%20");
    assert_eq!(encode("a b&c"), "a%20b%26c");
    assert_eq!(encode("1+1=2"), "1%2B1%3D2");
    assert_eq!(encode("\u{e9}"), "%C3%A9");
}

#[test]
fn unreserved_characters_pass_through() {
    let unreserved = "ABCDEFGHIJKLMNOPQRSTUVWXYZabcdefghijklmnopqrstuvwxyz0123456789-._~";
    assert_eq!(encode(unreserved), unreserved);
    assert_eq!(encode(""), "");
}

#[test]
fn repeated_names_sort_by_value() {
    let token = photos_token();
    let params = vec![("a".to_string(), "b".to_string()), ("a".to_string(), "a".to_string())];
    let base = signature_base_string("GET", b"http://h/p", &params, &token, 1, "n");
    let base = String::from_utf8(base).unwrap();
    assert!(base.contains("&a%3Da%26a%3Db%26oauth_consumer_key"));
    let reversed = vec![("a".to_string(), "a".to_string()), ("a".to_string(), "b".to_string())];
    assert_eq!(
        sign("GET", "http://h/p", &params, &token, 1, "n"),
        sign("GET", "http://h/p", &reversed, &token, 1, "n")
    );
}

#[test]
fn sorting_uses_encoded_names() {
    let token = photos_token();
    let params = vec![("b".to_string(), "1".to_string()), ("a b".to_string(), "2".to_string())];
    let base = signature_base_string("GET", b"http://h/p", &params, &token, 1, "n");
    let base = String::from_utf8(base).unwrap();
    assert!(base.ends_with("&a%2520b%3D2%26b%3D1%26oauth_consumer_key%3Ddpf43f3p2l4k3l03%26oauth_nonce%3Dn%26oauth_signature_method%3DHMAC-SHA1%26oauth_timestamp%3D1%26oauth_token%3Dnnch734d00sl2jdk%26oauth_version%3D1.0"));
}

#[test]
fn add_param_after_finalize_fails() {
    let token = photos_token();
    let mut builder = OAuthHeaderBuilder::new("GET".to_string(), &token);
    builder.set_url(PHOTOS_URL.to_string()).unwrap();
    assert!(builder.finalize().is_ok());
    assert_eq!(
        builder.add_param("a".to_string(), "b".to_string()),
        Err(OAuthError::BuilderAlreadyFinalized)
    );
    assert_eq!(builder.parameters(photos_params()), Err(OAuthError::BuilderAlreadyFinalized));
    assert_eq!(builder.set_url(PHOTOS_URL.to_string()), Err(OAuthError::BuilderAlreadyFinalized));
    assert_eq!(builder.set_timestamp(5), Err(OAuthError::BuilderAlreadyFinalized));
    assert_eq!(builder.set_nonce("x".to_string()), Err(OAuthError::BuilderAlreadyFinalized));
}

#[test]
fn finalize_twice_fails() {
    let token = photos_token();
    let mut builder = OAuthHeaderBuilder::new("GET".to_string(), &token);
    builder.set_url(PHOTOS_URL.to_string()).unwrap();
    assert!(builder.finalize().is_ok());
    assert!(matches!(builder.finalize(), Err(OAuthError::BuilderAlreadyFinalized)));
}

#[test]
fn finalize_after_failure_fails() {
    let token = photos_token();
    let mut builder = OAuthHeaderBuilder::new("GET".to_string(), &token);
    assert!(matches!(builder.finalize(), Err(OAuthError::InvalidUrl)));
    assert!(matches!(builder.finalize(), Err(OAuthError::BuilderAlreadyFinalized)));
}

#[test]
fn empty_consumer_key_gives_invalid_credentials() {
    let token = Token {
        consumer_key: "".to_string(),
        consumer_secret: "kd94hf93k423kf44".to_string(),
        access_token: "nnch734d00sl2jdk".to_string(),
        access_token_secret: "pfkkdhi9sl3r4s00".to_string(),
    };
    let mut builder = OAuthHeaderBuilder::new("GET".to_string(), &token);
    builder.set_url(PHOTOS_URL.to_string()).unwrap();
    assert!(matches!(builder.finalize(), Err(OAuthError::InvalidCredentials)));
}

#[test]
fn empty_consumer_secret_gives_invalid_credentials() {
    let token = Token {
        consumer_key: "dpf43f3p2l4k3l03".to_string(),
        consumer_secret: "".to_string(),
        access_token: "".to_string(),
        access_token_secret: "".to_string(),
    };
    assert_eq!(
        sign("GET", PHOTOS_URL, &Vec::new(), &token, 1, "n"),
        Err(OAuthError::InvalidCredentials)
    );
}

#[test]
fn token_new_checks_consumer_credentials() {
    let empty_key = Token::new("".to_string(), "s".to_string(), "t".to_string(), "u".to_string());
    assert!(matches!(empty_key, Err(OAuthError::InvalidCredentials)));
    let empty_secret = Token::new("k".to_string(), "".to_string(), "t".to_string(), "u".to_string());
    assert!(matches!(empty_secret, Err(OAuthError::InvalidCredentials)));
    let token = Token::new("k".to_string(), "s".to_string(), "".to_string(), "".to_string()).unwrap();
    assert_eq!(token.consumer_key(), "k");
    assert_eq!(token.consumer_secret(), "s");
    assert_eq!(token.access_token(), "");
    assert_eq!(token.access_token_secret(), "");
}

#[test]
fn invalid_url_is_rejected() {
    let token = photos_token();
    assert_eq!(
        sign("GET", "not a url", &Vec::new(), &token, 1, "n"),
        Err(OAuthError::InvalidUrl)
    );
    assert_eq!(
        sign("GET", "mailto:someone@example.net", &Vec::new(), &token, 1, "n"),
        Err(OAuthError::InvalidUrl)
    );
}

#[test]
fn url_is_normalized_before_signing() {
    let token = photos_token();
    let sig = sign(
        "GET",
        "HTTP://Photos.Example.NET:80/photos?ignored=1#fragment",
        &photos_params(),
        &token,
        1191242096,
        "kllo9940pd9333jh",
    );
    assert_eq!(sig, Ok(PHOTOS_SIGNATURE.to_string()));
}

#[test]
fn normalize_url_keeps_non_default_ports() {
    let parts = UrlParts {
        scheme: "HTTPS".to_string(),
        host: Some("Api.Example.COM".to_string()),
        port: Some(8443),
        path: "/a/B".to_string(),
    };
    assert_eq!(normalize_url(&parts).unwrap(), b"https://api.example.com:8443/a/B".to_vec());
    let default_port = UrlParts { port: Some(443), ..parts };
    assert_eq!(normalize_url(&default_port).unwrap(), b"https://api.example.com/a/B".to_vec());
    let http_443 = UrlParts {
        scheme: "http".to_string(),
        host: Some("h".to_string()),
        port: Some(443),
        path: "/".to_string(),
    };
    assert_eq!(normalize_url(&http_443).unwrap(), b"http://h:443/".to_vec());
    let no_host = UrlParts { scheme: "http".to_string(), host: None, port: None, path: "/".to_string() };
    assert_eq!(normalize_url(&no_host), Err(OAuthError::InvalidUrl));
}

#[test]
fn signing_key_keeps_trailing_ampersand() {
    let token = Token {
        consumer_key: "k".to_string(),
        consumer_secret: "kd94hf93k423kf44".to_string(),
        access_token: "".to_string(),
        access_token_secret: "".to_string(),
    };
    assert_eq!(signing_key_of(&token), b"kd94hf93k423kf44&".to_vec());
    assert_eq!(signing_key_of(&photos_token()), b"kd94hf93k423kf44&pfkkdhi9sl3r4s00".to_vec());
}

#[test]
fn decimal_rendering() {
    let mut out = Vec::new();
    push_decimal(0, &mut out);
    assert_eq!(out, b"0".to_vec());
    let mut out = Vec::new();
    push_decimal(1191242096, &mut out);
    assert_eq!(out, b"1191242096".to_vec());
    let mut out = Vec::new();
    push_decimal(u64::MAX, &mut out);
    assert_eq!(out, b"18446744073709551615".to_vec());
}

#[test]
fn generated_nonce_is_alphanumeric() {
    let a = generate_nonce();
    let b = generate_nonce();
    assert_eq!(a.len(), 32);
    assert!(a.chars().all(|c| c.is_ascii_alphanumeric()));
    assert_ne!(a, b);
}

#[test]
fn finalize_fills_in_timestamp_and_nonce() {
    let token = photos_token();
    let mut builder = OAuthHeaderBuilder::new("GET".to_string(), &token);
    builder.set_url(PHOTOS_URL.to_string()).unwrap();
    let header = builder.finalize().unwrap().get_owned_header();
    assert!(header.starts_with("OAuth oauth_consumer_key=\"dpf43f3p2l4k3l03\", oauth_nonce=\""));
    assert!(header.contains(", oauth_timestamp=\"1"));
    assert!(header.ends_with(", oauth_token=\"nnch734d00sl2jdk\", oauth_version=\"1.0\""));
}
