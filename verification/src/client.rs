//! The client: credentials, and the signed form of a GET or POST request.

use vstd::prelude::*;
use vstd::slice::slice_to_vec;
use vstd::string::*;
use crate::error::TwitterError;
use crate::header::{assemble, header_text};
use crate::encoding::percent_encoded;
use crate::order::pair_order;
use crate::params::{
    create_query, encoded_pairs, lemma_normalized_holds_each_pair, normalize, normalized, pairs_view,
    query_text,
};
use crate::signature::{base_string, build_base_string, build_key, hmac_sha1_base64, sign, signing_key};
use crate::target::{base_string_url, base_url, parsed_url, signable_text, split_url, UrlParts, UrlPartsView};
use crate::text::{append, ascii, ascii_bytes, copy_range, decimal, find_byte, first_index};

verus! {

/// The endpoint that searches tweets.
pub const SEARCH_TWEETS: &'static str = "https://api.twitter.com/1.1/search/tweets.json";

/// The endpoint that posts a status.
pub const STATUSES_UPDATE: &'static str = "https://api.twitter.com/1.1/statuses/update.json";

/// The four credentials as byte strings.
pub struct Credentials {
    pub consumer_key: Seq<u8>,
    pub consumer_secret: Seq<u8>,
    pub access_key: Seq<u8>,
    pub access_secret: Seq<u8>,
}

/// A client that signs requests with one set of credentials.
pub struct TwitterClient {
    consumer_key: Vec<u8>,
    consumer_secret: Vec<u8>,
    access_key: Vec<u8>,
    access_secret: Vec<u8>,
}

/// A request ready to be sent.
#[derive(Debug)]
pub struct SignedRequest {
    /// The URL to send to, with its query string.
    pub url: Vec<u8>,
    /// The value of the `Authorization` header.
    pub authorization: Vec<u8>,
    /// The form-encoded body; empty for a GET.
    pub body: Vec<u8>,
}

impl View for TwitterClient {
    type V = Credentials;

    closed spec fn view(&self) -> Credentials {
        Credentials {
            consumer_key: self.consumer_key@,
            consumer_secret: self.consumer_secret@,
            access_key: self.access_key@,
            access_secret: self.access_secret@,
        }
    }
}

/// What a fresh nonce looks like: 42 ASCII letters and digits.
pub open spec fn is_nonce(s: Seq<u8>) -> bool {
    s.len() == 42 && forall|i: int|
        0 <= i < s.len() ==> {
            let b = #[trigger] s[i];
            (0x30 <= b && b <= 0x39) || (0x41 <= b && b <= 0x5A) || (0x61 <= b && b <= 0x7A)
        }
}

/// What a timestamp looks like: a positive number of seconds in decimal,
/// without leading zeros.
pub open spec fn is_timestamp(s: Seq<u8>) -> bool {
    exists|n: u64| n > 0 && s == #[trigger] decimal(n as nat)
}

/// The protocol parameters of a request, without the signature, by name.
pub open spec fn protocol_pairs(c: Credentials, nonce: Seq<u8>, timestamp: Seq<u8>) -> Seq<
    (Seq<u8>, Seq<u8>),
> {
    seq![
        (ascii("oauth_consumer_key"@), c.consumer_key),
        (ascii("oauth_nonce"@), nonce),
        (ascii("oauth_signature_method"@), ascii("HMAC-SHA1"@)),
        (ascii("oauth_timestamp"@), timestamp),
        (ascii("oauth_token"@), c.access_key),
        (ascii("oauth_version"@), ascii("1.0"@)),
    ]
}

/// The signature base string of a request: the protocol parameters, the
/// request's own and those of the URL's query string are normalized together.
pub open spec fn request_base(
    c: Credentials,
    method: Seq<u8>,
    url: UrlPartsView,
    request: Seq<(Seq<u8>, Seq<u8>)>,
    nonce: Seq<u8>,
    timestamp: Seq<u8>,
) -> Seq<u8> {
    base_string(method, base_url(url), normalized(protocol_pairs(c, nonce, timestamp) + (request + url.query)))
}

/// The signature of a request.
pub open spec fn request_signature(
    c: Credentials,
    method: Seq<u8>,
    url: UrlPartsView,
    request: Seq<(Seq<u8>, Seq<u8>)>,
    nonce: Seq<u8>,
    timestamp: Seq<u8>,
) -> Seq<u8> {
    hmac_sha1_base64(
        signing_key(c.consumer_secret, Some(c.access_secret)),
        request_base(c, method, url, request, nonce, timestamp),
    )
}

/// The header parameters: the protocol parameters with the signature in its
/// place by name.
pub open spec fn header_pairs(c: Credentials, nonce: Seq<u8>, timestamp: Seq<u8>, signature: Seq<u8>) -> Seq<
    (Seq<u8>, Seq<u8>),
> {
    protocol_pairs(c, nonce, timestamp).insert(2, (ascii("oauth_signature"@), signature))
}

/// The `Authorization` header value of a request.
pub open spec fn authorization_text(
    c: Credentials,
    method: Seq<u8>,
    url: UrlPartsView,
    request: Seq<(Seq<u8>, Seq<u8>)>,
    nonce: Seq<u8>,
    timestamp: Seq<u8>,
) -> Seq<u8> {
    header_text(header_pairs(c, nonce, timestamp, request_signature(c, method, url, request, nonce, timestamp)))
}

/// The given URL up to its fragment: everything before the first `#`.
pub open spec fn before_fragment(url: Seq<u8>) -> Seq<u8> {
    url.subrange(0, first_index(url, 0x23u8))
}

/// What joins further parameters to the URL: `&` where it has a query string
/// already, `?` where it has none.
pub open spec fn query_separator(url: Seq<u8>) -> u8 {
    if first_index(before_fragment(url), 0x3Fu8) < before_fragment(url).len() {
        0x26u8
    } else {
        0x3Fu8
    }
}

/// The URL that a GET is sent to: the given one with the encoded parameters
/// added to its query string, before its fragment. Without parameters it is
/// the given URL.
pub open spec fn get_target(url: Seq<u8>, parameters: Option<Seq<(Seq<u8>, Seq<u8>)>>) -> Seq<u8> {
    match parameters {
        Some(ps) => before_fragment(url) + query_text(ps, Some(query_separator(url))) + url.subrange(
            first_index(url, 0x23u8),
            url.len() as int,
        ),
        None => url,
    }
}

/// The parameters of an optional list.
pub open spec fn optional_pairs(parameters: Option<&Vec<(Vec<u8>, Vec<u8>)>>) -> Option<
    Seq<(Seq<u8>, Seq<u8>)>,
> {
    match parameters {
        Some(ps) => Some(pairs_view(ps@)),
        None => None,
    }
}

/// Copies a list of pairs.
pub fn copy_pairs(a: &Vec<(Vec<u8>, Vec<u8>)>) -> (res: Vec<(Vec<u8>, Vec<u8>)>)
    ensures
        pairs_view(res@) == pairs_view(a@),
{
    let mut res: Vec<(Vec<u8>, Vec<u8>)> = Vec::new();
    let mut i: usize = 0;
    while i < a.len()
        invariant
            i <= a@.len(),
            res@.len() == i,
            forall|k: int| 0 <= k < i ==> res@[k].0@ == (#[trigger] a@[k]).0@ && res@[k].1@ == a@[k].1@,
        decreases a@.len() - i,
    {
        let name = slice_to_vec(a[i].0.as_slice());
        let value = slice_to_vec(a[i].1.as_slice());
        res.push((name, value));
        i += 1;
    }
    assert(pairs_view(res@) =~= pairs_view(a@));
    res
}

/// Copies two lists of pairs into one.
pub fn concat_pairs(a: &Vec<(Vec<u8>, Vec<u8>)>, b: &Vec<(Vec<u8>, Vec<u8>)>) -> (res: Vec<
    (Vec<u8>, Vec<u8>),
>)
    ensures
        pairs_view(res@) == pairs_view(a@) + pairs_view(b@),
{
    let mut res = copy_pairs(a);
    let mut more = copy_pairs(b);
    let ghost first = res@;
    let ghost second = more@;
    res.append(&mut more);
    proof {
        let want = pairs_view(a@) + pairs_view(b@);
        assert(res@ =~= first + second);
        assert(pairs_view(first).len() == first.len());
        assert(pairs_view(second).len() == second.len());
        assert(pairs_view(a@).len() == a@.len());
        assert(pairs_view(b@).len() == b@.len());
        assert forall|k: int| 0 <= k < want.len() implies pairs_view(res@)[k] == want[k] by {
            if k < first.len() {
                assert(pairs_view(first)[k] == pairs_view(a@)[k]);
            } else {
                assert(pairs_view(second)[k - first.len()] == pairs_view(b@)[k - first.len()]);
            }
        }
        assert(pairs_view(res@) =~= want);
    }
    res
}

/// Calls `oauthcli::nonce`, which draws 42 characters from the ASCII letters
/// and digits with the thread's random number generator.
#[verifier::external_body]
fn fresh_nonce() -> (res: Vec<u8>)
    ensures
        is_nonce(res@),
{
    oauthcli::nonce().into_bytes()
}

/// Calls `oauthcli::timestamp`, which reads the seconds since the Unix epoch
/// from the clock, a positive number that fits 64 bits, and writes it in
/// decimal.
#[verifier::external_body]
#[allow(deprecated)]
fn current_timestamp() -> (res: Vec<u8>)
    ensures
        is_timestamp(res@),
{
    oauthcli::timestamp().into_bytes()
}

/// Every parameter of the URL's query string is signed as an entry of its
/// own: its name and value, encoded, are one of the sorted pairs of the
/// normalized parameter string in the signature base string.
pub proof fn lemma_query_is_signed(
    c: Credentials,
    url: UrlPartsView,
    request: Seq<(Seq<u8>, Seq<u8>)>,
    nonce: Seq<u8>,
    timestamp: Seq<u8>,
    i: int,
)
    requires
        0 <= i < url.query.len(),
    ensures
        encoded_pairs(protocol_pairs(c, nonce, timestamp) + (request + url.query)).sort_by(
            pair_order(),
        ).contains((percent_encoded(url.query[i].0), percent_encoded(url.query[i].1))),
{
    let all = protocol_pairs(c, nonce, timestamp) + (request + url.query);
    let j = protocol_pairs(c, nonce, timestamp).len() + request.len() + i;
    assert(all[j] == url.query[i]);
    lemma_normalized_holds_each_pair(all, j);
}

/// Every request parameter is signed as an entry of its own, however often
/// its name occurs.
pub proof fn lemma_request_parameter_is_signed(
    c: Credentials,
    url: UrlPartsView,
    request: Seq<(Seq<u8>, Seq<u8>)>,
    nonce: Seq<u8>,
    timestamp: Seq<u8>,
    i: int,
)
    requires
        0 <= i < request.len(),
    ensures
        encoded_pairs(protocol_pairs(c, nonce, timestamp) + (request + url.query)).sort_by(
            pair_order(),
        ).contains((percent_encoded(request[i].0), percent_encoded(request[i].1))),
{
    let all = protocol_pairs(c, nonce, timestamp) + (request + url.query);
    let j = protocol_pairs(c, nonce, timestamp).len() + i;
    assert(all[j] == request[i]);
    lemma_normalized_holds_each_pair(all, j);
}

/// Adds the parameters to the query string of the URL: after `?` where the
/// URL has no query string, after `&` where it has one, and before the
/// fragment in either case.
pub fn add_to_query(url: &[u8], parameters: Option<&Vec<(Vec<u8>, Vec<u8>)>>) -> (res: Vec<u8>)
    ensures
        res@ == get_target(url@, optional_pairs(parameters)),
{
    let cut = find_byte(url, 0x23u8);
    let mut res = copy_range(url, 0, cut);
    let separator: u8 = if find_byte(res.as_slice(), 0x3Fu8) < res.len() {
        0x26u8
    } else {
        0x3Fu8
    };
    let query = create_query(parameters, Some(separator));
    append(&mut res, query.as_slice());
    let fragment = copy_range(url, cut, url.len());
    append(&mut res, fragment.as_slice());
    proof {
        match parameters {
            Some(ps) => {},
            None => {
                assert(res@ =~= url@);
            },
        }
    }
    res
}

impl TwitterClient {
    /// A client with the given credentials.
    pub fn new(consumer_key: &str, consumer_secret: &str, access_key: &str, access_secret: &str) -> (res:
        TwitterClient)
        ensures
            res@ == (Credentials {
                consumer_key: consumer_key.spec_bytes(),
                consumer_secret: consumer_secret.spec_bytes(),
                access_key: access_key.spec_bytes(),
                access_secret: access_secret.spec_bytes(),
            }),
    {
        TwitterClient {
            consumer_key: slice_to_vec(consumer_key.as_bytes()),
            consumer_secret: slice_to_vec(consumer_secret.as_bytes()),
            access_key: slice_to_vec(access_key.as_bytes()),
            access_secret: slice_to_vec(access_secret.as_bytes()),
        }
    }

    /// The protocol parameters of one request, without the signature.
    pub fn protocol_parameters(&self, nonce: &[u8], timestamp: &[u8]) -> (res: Vec<(Vec<u8>, Vec<u8>)>)
        ensures
            pairs_view(res@) == protocol_pairs(self@, nonce@, timestamp@),
    {
        proof {
            reveal_strlit("oauth_consumer_key");
            reveal_strlit("oauth_nonce");
            reveal_strlit("oauth_signature_method");
            reveal_strlit("HMAC-SHA1");
            reveal_strlit("oauth_timestamp");
            reveal_strlit("oauth_token");
            reveal_strlit("oauth_version");
            reveal_strlit("1.0");
        }
        let mut res: Vec<(Vec<u8>, Vec<u8>)> = Vec::new();
        res.push((ascii_bytes("oauth_consumer_key"), slice_to_vec(self.consumer_key.as_slice())));
        res.push((ascii_bytes("oauth_nonce"), slice_to_vec(nonce)));
        res.push((ascii_bytes("oauth_signature_method"), ascii_bytes("HMAC-SHA1")));
        res.push((ascii_bytes("oauth_timestamp"), slice_to_vec(timestamp)));
        res.push((ascii_bytes("oauth_token"), slice_to_vec(self.access_key.as_slice())));
        res.push((ascii_bytes("oauth_version"), ascii_bytes("1.0")));
        assert(pairs_view(res@) =~= protocol_pairs(self@, nonce@, timestamp@));
        res
    }

    /// The signature base string of a request with the given nonce and
    /// timestamp.
    pub fn request_base_string(
        &self,
        method: &[u8],
        url: &UrlParts,
        request_params: &Vec<(Vec<u8>, Vec<u8>)>,
        nonce: &[u8],
        timestamp: &[u8],
    ) -> (res: Vec<u8>)
        ensures
            res@ == request_base(self@, method@, url@, pairs_view(request_params@), nonce@, timestamp@),
    {
        let protocol = self.protocol_parameters(nonce, timestamp);
        let request = concat_pairs(request_params, &url.query);
        let normalized_params = normalize(&protocol, &request);
        let base = base_string_url(url);
        build_base_string(method, base.as_slice(), normalized_params.as_slice())
    }

    /// The header value for a signature that was computed for this client's
    /// request with the given nonce and timestamp.
    pub fn signed_header(&self, nonce: &[u8], timestamp: &[u8], signature: Vec<u8>) -> (res: Vec<u8>)
        ensures
            res@ == header_text(header_pairs(self@, nonce@, timestamp@, signature@)),
    {
        proof {
            reveal_strlit("oauth_signature");
        }
        let mut params = self.protocol_parameters(nonce, timestamp);
        let ghost before = pairs_view(params@);
        assert(before.len() == 6 && before.len() == params@.len());
        params.insert(2, (ascii_bytes("oauth_signature"), signature));
        assert(pairs_view(params@) =~= before.insert(2, (ascii("oauth_signature"@), signature@)));
        assemble(&params)
    }

    /// The `Authorization` header value of a request with the given nonce and
    /// timestamp.
    pub fn authorization(
        &self,
        method: &[u8],
        url: &UrlParts,
        request_params: &Vec<(Vec<u8>, Vec<u8>)>,
        nonce: &[u8],
        timestamp: &[u8],
    ) -> (res: Vec<u8>)
        ensures
            res@ == authorization_text(
                self@,
                method@,
                url@,
                pairs_view(request_params@),
                nonce@,
                timestamp@,
            ),
    {
        let base = self.request_base_string(method, url, request_params, nonce, timestamp);
        let key = build_key(self.consumer_secret.as_slice(), Some(self.access_secret.as_slice()));
        let signature = sign(base.as_slice(), key.as_slice());
        self.signed_header(nonce, timestamp, signature)
    }

    /// The signed form of a GET with the given nonce and timestamp. The
    /// parameters go into the query string of the URL and are signed from
    /// there. A URL that cannot be parsed or signed is refused.
    pub fn get_request_with(
        &self,
        url: &[u8],
        parameters: Option<&Vec<(Vec<u8>, Vec<u8>)>>,
        nonce: &[u8],
        timestamp: &[u8],
    ) -> (res: Result<SignedRequest, TwitterError>)
        ensures
            res.is_ok() == signable_text(get_target(url@, optional_pairs(parameters))),
            match res {
                Ok(r) => {
                    &&& r.url@ == get_target(url@, optional_pairs(parameters))
                    &&& r.authorization@ == authorization_text(
                        self@,
                        ascii("GET"@),
                        parsed_url(r.url@).unwrap(),
                        Seq::empty(),
                        nonce@,
                        timestamp@,
                    )
                    &&& r.body@ == Seq::<u8>::empty()
                },
                Err(e) => e == TwitterError::Encoding,
            },
    {
        proof {
            reveal_strlit("GET");
        }
        let target = add_to_query(url, parameters);
        let parts = match split_url(target.as_slice()) {
            Ok(parts) => parts,
            Err(e) => {
                return Err(e);
            },
        };
        let none: Vec<(Vec<u8>, Vec<u8>)> = Vec::new();
        assert(pairs_view(none@) =~= Seq::empty());
        let method = ascii_bytes("GET");
        let header = self.authorization(method.as_slice(), &parts, &none, nonce, timestamp);
        Ok(SignedRequest { url: target, authorization: header, body: Vec::new() })
    }

    /// The signed form of a POST with the given nonce and timestamp. The
    /// parameters are signed and form the body. A URL that cannot be parsed
    /// or signed is refused.
    pub fn post_request_with(
        &self,
        url: &[u8],
        parameters: &Vec<(Vec<u8>, Vec<u8>)>,
        nonce: &[u8],
        timestamp: &[u8],
    ) -> (res: Result<SignedRequest, TwitterError>)
        ensures
            res.is_ok() == signable_text(url@),
            match res {
                Ok(r) => {
                    &&& r.url@ == url@
                    &&& r.authorization@ == authorization_text(
                        self@,
                        ascii("POST"@),
                        parsed_url(url@).unwrap(),
                        pairs_view(parameters@),
                        nonce@,
                        timestamp@,
                    )
                    &&& r.body@ == query_text(pairs_view(parameters@), None)
                },
                Err(e) => e == TwitterError::Encoding,
            },
    {
        proof {
            reveal_strlit("POST");
        }
        let parts = match split_url(url) {
            Ok(parts) => parts,
            Err(e) => {
                return Err(e);
            },
        };
        let body = create_query(Some(parameters), None);
        let method = ascii_bytes("POST");
        let header = self.authorization(method.as_slice(), &parts, parameters, nonce, timestamp);
        Ok(SignedRequest { url: slice_to_vec(url), authorization: header, body })
    }

    /// The signed form of a GET, with a fresh nonce and the current time.
    pub fn get_request(&self, url: &[u8], parameters: Option<&Vec<(Vec<u8>, Vec<u8>)>>) -> (res: Result<
        SignedRequest,
        TwitterError,
    >)
        ensures
            res.is_ok() == signable_text(get_target(url@, optional_pairs(parameters))),
            match res {
                Ok(r) => {
                    &&& r.url@ == get_target(url@, optional_pairs(parameters))
                    &&& exists|nonce: Seq<u8>, timestamp: Seq<u8>|
                        is_nonce(nonce) && is_timestamp(timestamp) && r.authorization@
                            == #[trigger] authorization_text(
                            self@,
                            ascii("GET"@),
                            parsed_url(r.url@).unwrap(),
                            Seq::empty(),
                            nonce,
                            timestamp,
                        )
                    &&& r.body@ == Seq::<u8>::empty()
                },
                Err(e) => e == TwitterError::Encoding,
            },
    {
        let nonce = fresh_nonce();
        let timestamp = current_timestamp();
        self.get_request_with(url, parameters, nonce.as_slice(), timestamp.as_slice())
    }

    /// The signed form of a POST, with a fresh nonce and the current time.
    pub fn post_request(&self, url: &[u8], parameters: &Vec<(Vec<u8>, Vec<u8>)>) -> (res: Result<
        SignedRequest,
        TwitterError,
    >)
        ensures
            res.is_ok() == signable_text(url@),
            match res {
                Ok(r) => {
                    &&& r.url@ == url@
                    &&& exists|nonce: Seq<u8>, timestamp: Seq<u8>|
                        is_nonce(nonce) && is_timestamp(timestamp) && r.authorization@
                            == #[trigger] authorization_text(
                            self@,
                            ascii("POST"@),
                            parsed_url(url@).unwrap(),
                            pairs_view(parameters@),
                            nonce,
                            timestamp,
                        )
                    &&& r.body@ == query_text(pairs_view(parameters@), None)
                },
                Err(e) => e == TwitterError::Encoding,
            },
    {
        let nonce = fresh_nonce();
        let timestamp = current_timestamp();
        self.post_request_with(url, parameters, nonce.as_slice(), timestamp.as_slice())
    }
}

} // verus!
