//! The signature base string, the signing key and the HMAC-SHA1 signature.

use vstd::prelude::*;
use crypto::mac::Mac;
use rustc_serialize::base64::ToBase64;
use crate::encoding::{encode, percent_encoded};
use crate::text::{append, to_upper, upper};

verus! {

/// The HMAC-SHA1 code of `message` under `key`.
pub uninterp spec fn hmac_sha1(key: Seq<u8>, message: Seq<u8>) -> Seq<u8>;

/// The base64 text of `bytes`: standard alphabet, padded, in one line.
pub uninterp spec fn base64(bytes: Seq<u8>) -> Seq<u8>;

/// The signature of `message` under `key`: the base64 text of the HMAC-SHA1
/// code.
pub open spec fn hmac_sha1_base64(key: Seq<u8>, message: Seq<u8>) -> Seq<u8> {
    base64(hmac_sha1(key, message))
}

/// The string that is signed: the method in upper case, the encoded base URL
/// and the encoded normalized parameter string, with `&` between them.
pub open spec fn base_string(method: Seq<u8>, base_url: Seq<u8>, normalized_params: Seq<u8>) -> Seq<u8> {
    upper(method) + seq![0x26u8] + percent_encoded(base_url) + seq![0x26u8] + percent_encoded(
        normalized_params,
    )
}

/// The key of the signature: the two encoded secrets with `&` between them.
/// Without a token secret nothing follows the `&`.
pub open spec fn signing_key(consumer_secret: Seq<u8>, token_secret: Option<Seq<u8>>) -> Seq<u8> {
    percent_encoded(consumer_secret) + seq![0x26u8] + match token_secret {
        Some(t) => percent_encoded(t),
        None => Seq::<u8>::empty(),
    }
}

/// Builds the signature base string.
pub fn build_base_string(method: &[u8], base_url: &[u8], normalized_params: &[u8]) -> (res: Vec<u8>)
    ensures
        res@ == base_string(method@, base_url@, normalized_params@),
{
    let mut res = to_upper(method);
    res.push(0x26u8);
    let url = encode(base_url);
    append(&mut res, url.as_slice());
    res.push(0x26u8);
    let params = encode(normalized_params);
    append(&mut res, params.as_slice());
    res
}

/// Builds the signing key.
pub fn build_key(consumer_secret: &[u8], token_secret: Option<&[u8]>) -> (res: Vec<u8>)
    ensures
        res@ == signing_key(
            consumer_secret@,
            match token_secret {
                Some(t) => Some(t@),
                None => None,
            },
        ),
{
    let mut res = encode(consumer_secret);
    res.push(0x26u8);
    match token_secret {
        Some(t) => {
            let secret = encode(t);
            append(&mut res, secret.as_slice());
        },
        None => {
            assert(res@ + Seq::<u8>::empty() =~= res@);
        },
    }
    res
}

/// Computes the code with `crypto::hmac::Hmac` over `crypto::sha1::Sha1`:
/// `new` with the key, `input` with the message, and `raw_result`, which
/// fills the twenty bytes of a SHA-1 output. The contract gives the code its
/// name and its length.
#[verifier::external_body]
fn hmac_sha1_code(key: &[u8], message: &[u8]) -> (res: Vec<u8>)
    ensures
        res@ == hmac_sha1(key@, message@),
        res@.len() == 20,
{
    let mut hmac = crypto::hmac::Hmac::new(crypto::sha1::Sha1::new(), key);
    hmac.input(message);
    let mut mac = vec![0u8; 20];
    hmac.raw_result(&mut mac);
    mac
}

/// Calls `rustc_serialize::base64::ToBase64::to_base64` in the `STANDARD`
/// configuration: standard alphabet, padding, no line breaks. The contract
/// gives the text its name and its length: four characters for every three
/// bytes begun.
#[verifier::external_body]
fn base64_text(bytes: &[u8]) -> (res: Vec<u8>)
    ensures
        res@ == base64(bytes@),
        res@.len() == 4 * ((bytes@.len() + 2) / 3),
{
    bytes.to_base64(rustc_serialize::base64::STANDARD).into_bytes()
}

/// Signs the base string with the key: the value of `oauth_signature`, not
/// yet percent-encoded. It is the base64 text of a code of twenty bytes.
pub fn sign(base_string: &[u8], key: &[u8]) -> (res: Vec<u8>)
    ensures
        res@ == hmac_sha1_base64(key@, base_string@),
        res@.len() == 28,
{
    let code = hmac_sha1_code(key, base_string);
    base64_text(code.as_slice())
}

} // verus!
