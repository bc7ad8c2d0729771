//! Percent-encoding with the unreserved set of OAuth 1.0a.

use vstd::prelude::*;

verus! {

/// Whether a byte is written as itself: an ASCII letter, a digit, or one of `-._~`.
pub open spec fn is_unreserved(b: u8) -> bool {
    (0x30 <= b && b <= 0x39) || (0x41 <= b && b <= 0x5A) || (0x61 <= b && b <= 0x7A) || b == 0x2D
        || b == 0x2E || b == 0x5F || b == 0x7E
}

/// The upper-case hexadecimal digit for a value below sixteen.
pub open spec fn hex_digit(v: int) -> u8 {
    if v < 10 {
        (0x30 + v) as u8
    } else {
        (0x41 + v - 10) as u8
    }
}

/// What one byte becomes: itself, or `%` and its two hexadecimal digits.
pub open spec fn encoded_byte(b: u8) -> Seq<u8> {
    if is_unreserved(b) {
        seq![b]
    } else {
        seq![0x25u8, hex_digit(b as int / 16), hex_digit(b as int % 16)]
    }
}

/// The percent-encoded form of a byte string: its bytes' encodings, in order.
pub open spec fn percent_encoded(s: Seq<u8>) -> Seq<u8>
    decreases s.len(),
{
    if s.len() == 0 {
        Seq::empty()
    } else {
        percent_encoded(s.drop_last()) + encoded_byte(s.last())
    }
}

/// Whether every byte of `s` is unreserved.
pub open spec fn all_unreserved(s: Seq<u8>) -> bool {
    forall|i: int| 0 <= i < s.len() ==> is_unreserved(#[trigger] s[i])
}

/// Calls `url::percent_encoding::percent_encode` with `oauthcli::OAUTH_ENCODE_SET`.
/// That set holds every byte but the ASCII letters, the digits and `-._~`; the
/// outside function writes a byte of the set as `%` and two upper-case
/// hexadecimal digits, and any other byte as itself.
#[verifier::external_body]
fn percent_encode_bytes(text: &[u8]) -> (res: Vec<u8>)
    ensures
        res@ == percent_encoded(text@),
{
    url::percent_encoding::percent_encode(text, oauthcli::OAUTH_ENCODE_SET).to_string().into_bytes()
}

/// Percent-encodes `text`: a byte of the unreserved set stays, any other
/// becomes `%` and two upper-case hexadecimal digits.
pub fn encode(text: &[u8]) -> (res: Vec<u8>)
    ensures
        res@ == percent_encoded(text@),
        all_unreserved(text@) ==> res@ == text@,
        forall|i: int| 0 <= i < res@.len() ==> is_encoded_byte(#[trigger] res@[i]),
{
    proof {
        if all_unreserved(text@) {
            lemma_encode_unreserved_is_identity(text@);
        }
        lemma_encoded_text_is_plain(text@);
    }
    percent_encode_bytes(text)
}

/// Encoding leaves a string of unreserved bytes as it is.
pub proof fn lemma_encode_unreserved_is_identity(s: Seq<u8>)
    requires
        all_unreserved(s),
    ensures
        percent_encoded(s) == s,
    decreases s.len(),
{
    if s.len() > 0 {
        lemma_encode_unreserved_is_identity(s.drop_last());
        assert(is_unreserved(s[s.len() - 1]));
        assert(s.drop_last() + seq![s.last()] =~= s);
    }
}

/// Whether a byte can occur in encoded text: an unreserved byte or `%`.
pub open spec fn is_encoded_byte(b: u8) -> bool {
    is_unreserved(b) || b == 0x25
}

/// Encoded text holds unreserved bytes and `%` only: no space, `+`, `&`, `=`,
/// `,` or double quote.
pub proof fn lemma_encoded_text_is_plain(s: Seq<u8>)
    ensures
        forall|i: int| 0 <= i < percent_encoded(s).len() ==> is_encoded_byte(#[trigger] percent_encoded(s)[i]),
    decreases s.len(),
{
    if s.len() > 0 {
        lemma_encoded_text_is_plain(s.drop_last());
        let head = percent_encoded(s.drop_last());
        let tail = encoded_byte(s.last());
        assert forall|k: int| 0 <= k < tail.len() implies is_encoded_byte(#[trigger] tail[k]) by {
            let v1 = s.last() as int / 16;
            let v2 = s.last() as int % 16;
            assert(is_unreserved(hex_digit(v1)));
            assert(is_unreserved(hex_digit(v2)));
        }
        assert forall|i: int| 0 <= i < percent_encoded(s).len() implies is_encoded_byte(
            #[trigger] percent_encoded(s)[i],
        ) by {
            if i < head.len() {
                assert(percent_encoded(s)[i] == head[i]);
            } else {
                assert(percent_encoded(s)[i] == tail[i - head.len()]);
            }
        }
    }
}

} // verus!
