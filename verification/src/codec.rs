//! Package content travels as Base64 text of a zip archive; the `base64`
//! crate encodes and decodes it.
use vstd::prelude::*;
use vstd::utf8::encode_utf8;
use base64::Engine;

verus! {

/// What `base64::engine::general_purpose::STANDARD_NO_PAD` decodes `text`
/// to; `None` when it refuses the text.
pub uninterp spec fn base64_unpadded_decoding(text: Seq<u8>) -> Option<Seq<u8>>;

/// The character of the 6-bit value `v` (`0 <= v < 64`) in the standard
/// Base64 alphabet: `A`-`Z`, `a`-`z`, `0`-`9`, `+`, `/`.
pub open spec fn base64_char(v: int) -> char {
    if v < 26 {
        (65 + v) as char
    } else if v < 52 {
        (97 + (v - 26)) as char
    } else if v < 62 {
        (48 + (v - 52)) as char
    } else if v == 62 {
        '+'
    } else {
        '/'
    }
}

/// Standard Base64 with padding (RFC 4648, section 4), what
/// `base64::engine::general_purpose::STANDARD` encodes `data` to: each group
/// of three bytes gives four characters of six bits each; a last group of one
/// or two bytes gives two or three characters, filled up with `=` to four.
pub open spec fn base64_padded_encoding(data: Seq<u8>) -> Seq<char>
    decreases data.len(),
{
    if data.len() == 0 {
        Seq::empty()
    } else if data.len() == 1 {
        let b0 = data[0] as int;
        seq![base64_char(b0 / 4), base64_char((b0 % 4) * 16), '=', '=']
    } else if data.len() == 2 {
        let b0 = data[0] as int;
        let b1 = data[1] as int;
        seq![
            base64_char(b0 / 4),
            base64_char((b0 % 4) * 16 + b1 / 16),
            base64_char((b1 % 16) * 4),
            '=',
        ]
    } else {
        let b0 = data[0] as int;
        let b1 = data[1] as int;
        let b2 = data[2] as int;
        seq![
            base64_char(b0 / 4),
            base64_char((b0 % 4) * 16 + b1 / 16),
            base64_char((b1 % 16) * 4 + b2 / 64),
            base64_char(b2 % 64),
        ] + base64_padded_encoding(data.skip(3))
    }
}

/// `bytes` without its trailing `=` bytes.
pub open spec fn without_padding(bytes: Seq<u8>) -> Seq<u8>
    decreases bytes.len(),
{
    if bytes.len() > 0 && bytes.last() == 61 {
        without_padding(bytes.drop_last())
    } else {
        bytes
    }
}

/// Decodes `text` with `STANDARD_NO_PAD.decode`. The contract claims that
/// the result is `base64_unpadded_decoding` of the text.
#[verifier::external_body]
fn decode_unpadded(text: &[u8]) -> (r: Option<Vec<u8>>)
    ensures
        match r {
            Some(v) => base64_unpadded_decoding(text@) == Some(v@),
            None => base64_unpadded_decoding(text@) is None,
        },
{
    base64::engine::general_purpose::STANDARD_NO_PAD.decode(text).ok()
}

/// Encodes `data` with `STANDARD.encode`. The contract claims that the result
/// is the padded standard Base64 text of the data (`base64_padded_encoding`),
/// and that decoding it without its padding with `STANDARD_NO_PAD` gives the
/// data back: both engines use the standard alphabet, the first pads with `=`
/// and the second refuses padding.
#[verifier::external_body]
fn encode_padded(data: &[u8]) -> (r: String)
    ensures
        r@ == base64_padded_encoding(data@),
        base64_unpadded_decoding(without_padding(encode_utf8(r@))) == Some(data@),
{
    base64::engine::general_purpose::STANDARD.encode(data)
}

/// The bytes of the archive that the Base64 text `text` carries: the text
/// without its trailing `=` padding, decoded.
pub open spec fn decoded_content(text: Seq<char>) -> Option<Seq<u8>> {
    base64_unpadded_decoding(without_padding(encode_utf8(text)))
}

/// Decodes package content: drops the trailing `=` padding of `text`, then
/// decodes the rest as unpadded standard Base64.
pub fn decode_content(text: &str) -> (r: Option<Vec<u8>>)
    ensures
        match r {
            Some(v) => decoded_content(text@) == Some(v@),
            None => decoded_content(text@) is None,
        },
{
    let bytes = text.as_bytes();
    let mut n: usize = bytes.len();
    assert(bytes@.subrange(0, bytes@.len() as int) == bytes@);
    while n > 0 && bytes[n - 1] == 61
        invariant
            n <= bytes@.len(),
            without_padding(bytes@) == without_padding(bytes@.subrange(0, n as int)),
        decreases n,
    {
        assert(bytes@.subrange(0, n as int).drop_last() == bytes@.subrange(0, n - 1));
        n = n - 1;
    }
    let trimmed = &bytes[0..n];
    decode_unpadded(trimmed)
}

/// Encodes package content as padded standard Base64; decoding the result
/// gives the content back.
pub fn encode_content(data: &[u8]) -> (r: String)
    ensures
        r@ == base64_padded_encoding(data@),
        decoded_content(r@) == Some(data@),
{
    encode_padded(data)
}

} // verus!
