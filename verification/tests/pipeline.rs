use twitter_api::{
    assemble, base_string_url, build_base_string, build_key, create_query, encode, normalize, sign,
    split_url, TwitterError, UrlParts,
};

fn b(s: &str) -> Vec<u8> {
    s.as_bytes().to_vec()
}

fn pairs(items: &[(&str, &str)]) -> Vec<(Vec<u8>, Vec<u8>)> {
    items.iter().map(|(k, v)| (b(k), b(v))).collect()
}

#[test]
fn encode_keeps_unreserved_bytes() {
    let safe = "ABCDEFGHIJKLMNOPQRSTUVWXYZabcdefghijklmnopqrstuvwxyz0123456789-._~";
    assert_eq!(encode(safe.as_bytes()), b(safe));
}

#[test]
fn encode_space_is_percent_20() {
    assert_eq!(encode(b"a b"), b("a%20b"));
    assert_ne!(encode(b"a b"), b("a+b"));
}

#[test]
fn encode_empty_is_empty() {
    assert_eq!(encode(b""), Vec::<u8>::new());
}

#[test]
fn encode_reserved_bytes_in_upper_case_hex() {
    assert_eq!(encode(b"si/g+n="), b("si%2Fg%2Bn%3D"));
    assert_eq!(encode(b"%"), b("%25"));
    assert_eq!(encode(b"*!'()"), b("%2A%21%27%28%29"));
    assert_eq!(encode(&[0x00, 0x0a, 0x7f, 0xff]), b("%00%0A%7F%FF"));
}

#[test]
fn encode_non_ascii_by_utf8_bytes() {
    assert_eq!(encode("é".as_bytes()), b("%C3%A9"));
    assert_eq!(encode("日本".as_bytes()), b("%E6%97%A5%E6%9C%AC"));
}

#[test]
fn encode_twice_encodes_the_percent_sign() {
    let once = encode(b"a b");
    assert_eq!(encode(&once), b("a%2520b"));
}

#[test]
fn normalize_sorts_by_name_then_value() {
    let request = pairs(&[("b", "2"), ("a", "2"), ("a", "1")]);
    assert_eq!(normalize(&Vec::new(), &request), b("a=1&a=2&b=2"));
}

#[test]
fn normalize_does_not_depend_on_order() {
    let first = pairs(&[("z", "last"), ("a b", "x&y"), ("a", "1"), ("a", "1"), ("A", "0")]);
    let second = pairs(&[("a", "1"), ("A", "0"), ("a", "1"), ("z", "last"), ("a b", "x&y")]);
    let one = normalize(&Vec::new(), &first);
    assert_eq!(one, normalize(&Vec::new(), &second));
    assert_eq!(one, normalize(&first[..2].to_vec(), &first[2..].to_vec()));
    assert_eq!(one, normalize(&first, &Vec::new()));
    assert_eq!(one, b("A=0&a=1&a=1&a%20b=x%26y&z=last"));
}

#[test]
fn normalize_keeps_duplicates_and_merges_both_lists() {
    let oauth = pairs(&[("oauth_version", "1.0"), ("oauth_nonce", "n")]);
    let request = pairs(&[("status", "hi there"), ("status", "hi there")]);
    assert_eq!(
        normalize(&oauth, &request),
        b("oauth_nonce=n&oauth_version=1.0&status=hi%20there&status=hi%20there")
    );
}

#[test]
fn normalize_sorts_encoded_text() {
    // "a" < "a " in raw bytes and after encoding; "a%" sorts by its encoding "a%25".
    let request = pairs(&[("a%", "1"), ("a ", "2"), ("a", "3"), ("a1", "4")]);
    assert_eq!(normalize(&Vec::new(), &request), b("a=3&a%20=2&a%25=1&a1=4"));
}

#[test]
fn normalize_of_nothing_is_empty() {
    assert_eq!(normalize(&Vec::new(), &Vec::new()), Vec::<u8>::new());
}

#[test]
fn base_string_upper_cases_method_and_encodes_parts() {
    assert_eq!(
        build_base_string(b"get", b"https://example.com/", b""),
        b("GET&https%3A%2F%2Fexample.com%2F&")
    );
    assert_eq!(
        build_base_string(b"Post", b"http://h/p", b"a=1&b=2"),
        b("POST&http%3A%2F%2Fh%2Fp&a%3D1%26b%3D2")
    );
}

#[test]
fn signing_key_joins_encoded_secrets() {
    assert_eq!(build_key(b"cs", Some(b"ts")), b("cs&ts"));
    assert_eq!(build_key(b"c/s", Some(b"t s")), b("c%2Fs&t%20s"));
}

#[test]
fn signing_key_without_token_secret_keeps_separator() {
    assert_eq!(build_key(b"secret", None), b("secret&"));
    assert_eq!(build_key(b"secret", Some(b"")), b("secret&"));
}

#[test]
fn known_vector_signature() {
    let key = build_key(b"secret", Some(b""));
    let signature = sign(b"GET&https%3A%2F%2Fexample.com%2F&", &key);
    assert_eq!(signature, b("toa1OCO4ycZSNH5bH4JH0bM8Hag="));
}

#[test]
fn signature_is_28_base64_characters_and_depends_on_both_inputs() {
    let one = sign(b"base", b"key&");
    assert_eq!(one.len(), 28);
    assert_eq!(one[27], b'=');
    assert_ne!(one, sign(b"base", b"other&"));
    assert_ne!(one, sign(b"other", b"key&"));
    assert_eq!(one, sign(b"base", b"key&"));
}

#[test]
fn header_quotes_and_encodes_values() {
    let params = pairs(&[("oauth_consumer_key", "ck"), ("oauth_signature", "si/g+n=")]);
    assert_eq!(
        assemble(&params),
        b("OAuth oauth_consumer_key=\"ck\", oauth_signature=\"si%2Fg%2Bn%3D\"")
    );
}

#[test]
fn header_of_one_and_of_no_parameter() {
    assert_eq!(assemble(&pairs(&[("k", "v")])), b("OAuth k=\"v\""));
    assert_eq!(assemble(&Vec::new()), b("OAuth "));
}

#[test]
fn query_string_of_parameters() {
    let params = pairs(&[("q", "hello world"), ("lang", "ja"), ("q", "a&b=c")]);
    assert_eq!(
        create_query(Some(&params), Some(b'?')),
        b("?q=hello%20world&lang=ja&q=a%26b%3Dc")
    );
    assert_eq!(create_query(Some(&params), None), b("q=hello%20world&lang=ja&q=a%26b%3Dc"));
}

#[test]
fn query_string_without_parameters_is_empty() {
    assert_eq!(create_query(None, Some(b'?')), Vec::<u8>::new());
    assert_eq!(create_query(None, None), Vec::<u8>::new());
    assert_eq!(create_query(Some(&Vec::new()), Some(b'?')), Vec::<u8>::new());
}

#[test]
fn split_url_takes_the_url_apart() {
    let parts = split_url(b"https://API.example.com:8443/a/b?x=1&y=%7E#frag").unwrap();
    assert_eq!(parts.scheme, b("https"));
    assert_eq!(parts.host, Some(b("api.example.com")));
    assert_eq!(parts.port, Some(8443));
    assert_eq!(parts.path, b("/a/b"));
    assert_eq!(parts.query, pairs(&[("x", "1"), ("y", "~")]));
    assert_eq!(base_string_url(&parts), b("https://api.example.com:8443/a/b"));
}

#[test]
fn split_url_decodes_the_query() {
    let parts = split_url(b"https://api.example.com/x?q=hello%20world").unwrap();
    assert_eq!(parts.query, pairs(&[("q", "hello world")]));
    assert_eq!(base_string_url(&parts), b("https://api.example.com/x"));
}

#[test]
fn split_url_refuses_what_cannot_be_signed() {
    assert_eq!(split_url(b"not a url").unwrap_err(), TwitterError::Encoding);
    assert_eq!(split_url(b"").unwrap_err(), TwitterError::Encoding);
    assert_eq!(split_url(b"/relative/path").unwrap_err(), TwitterError::Encoding);
    assert_eq!(split_url(b"mailto:someone@example.com").unwrap_err(), TwitterError::Encoding);
    assert_eq!(split_url(b"ftp://example.com/file").unwrap_err(), TwitterError::Encoding);
    assert_eq!(split_url(&[0x68, 0x74, 0x74, 0x70, 0x3a, 0x2f, 0x2f, 0xff]).unwrap_err(), TwitterError::Encoding);
}

#[test]
fn base_url_leaves_out_default_ports() {
    let http = split_url(b"http://example.com:80/").unwrap();
    assert_eq!(base_string_url(&http), b("http://example.com/"));
    let https = split_url(b"https://example.com:443/p").unwrap();
    assert_eq!(base_string_url(&https), b("https://example.com/p"));
    let other = split_url(b"http://example.com:443/p").unwrap();
    assert_eq!(base_string_url(&other), b("http://example.com:443/p"));
}

#[test]
fn base_url_from_parts() {
    let parts = UrlParts {
        scheme: b("http"),
        host: Some(b("h")),
        port: Some(65535),
        path: b("/"),
        query: Vec::new(),
    };
    assert_eq!(base_string_url(&parts), b("http://h:65535/"));
    let bare = UrlParts { scheme: b("https"), host: Some(b("h")), port: Some(80), path: b(""), query: Vec::new() };
    assert_eq!(base_string_url(&bare), b("https://h:80"));
}
