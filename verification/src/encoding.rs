//! How bodies and credentials are encoded: gzip, UTF-8 and base64. And fresh channel ids.
use base64::prelude::{Engine as _, BASE64_STANDARD};
use flate2::read::MultiGzDecoder;
use std::io::Read;
use uuid::Uuid;
use vstd::prelude::*;
use vstd::utf8::*;

use crate::response::ApiError;

verus! {

/// What gzip data of one or more members unpacks to, where it is such data.
pub uninterp spec fn gunzipped(bytes: Seq<u8>) -> Option<Seq<u8>>;

/// `flate2::read::MultiGzDecoder`, read to its end: what the data unpacks to, or `None` where
/// reading fails. Its result is named.
#[verifier::external_body]
fn gunzip(bytes: &[u8]) -> (data: Option<Vec<u8>>)
    ensures
        gunzipped(bytes@) == match data {
            Some(data) => Some(data@),
            None => None,
        },
{
    let mut data = Vec::new();
    MultiGzDecoder::new(bytes).read_to_end(&mut data).ok().map(|_| data)
}

/// The text that bytes hold, with what is not UTF-8 replaced.
pub uninterp spec fn utf8_lossy(bytes: Seq<u8>) -> Seq<char>;

/// Whether bytes, where they are UTF-8, are read as the text that they hold.
pub open spec fn reads_as_utf8(bytes: Seq<u8>) -> bool {
    valid_utf8(bytes) ==> utf8_lossy(bytes) == decode_utf8(bytes)
}

/// `String::from_utf8_lossy`: the text that the bytes hold in UTF-8, with U+FFFD in place of what
/// is not. Its result is named, but for bytes that are UTF-8, whose text it is.
#[verifier::external_body]
pub(crate) fn from_utf8_lossy(bytes: &[u8]) -> (s: String)
    ensures
        s@ == utf8_lossy(bytes@),
        valid_utf8(bytes@) ==> s@ == decode_utf8(bytes@),
{
    String::from_utf8_lossy(bytes).into_owned()
}

/// `String::from_utf8`: the text that the bytes hold, where they are UTF-8.
#[verifier::external_body]
pub(crate) fn from_utf8(bytes: Vec<u8>) -> (s: Option<String>)
    ensures
        s is Some <==> valid_utf8(bytes@),
        s matches Some(s) ==> s@ == decode_utf8(bytes@),
{
    String::from_utf8(bytes).ok()
}

/// What text in base64 stands for, by the standard alphabet and with padding, where it is such
/// text.
pub uninterp spec fn base64_decoded(text: Seq<char>) -> Option<Seq<u8>>;

/// `base64`'s `BASE64_STANDARD.decode`: what the text stands for, or `None` where it is not base64.
/// Its result is named.
#[verifier::external_body]
pub(crate) fn base64_decode(text: &str) -> (bytes: Option<Vec<u8>>)
    ensures
        base64_decoded(text@) == match bytes {
            Some(bytes) => Some(bytes@),
            None => None,
        },
{
    BASE64_STANDARD.decode(text).ok()
}

/// Whether a character is a hexadecimal digit in lower case.
pub open spec fn is_hex_digit(c: char) -> bool {
    '0' <= c <= '9' || 'a' <= c <= 'f'
}

/// Whether a text is a random UUID in its hyphenated form.
pub open spec fn is_random_uuid(s: Seq<char>) -> bool {
    &&& s.len() == 36
    &&& forall|i: int|
        0 <= i < 36 ==> if i == 8 || i == 13 || i == 18 || i == 23 {
            #[trigger] s[i] == '-'
        } else {
            is_hex_digit(s[i])
        }
    &&& s[14] == '4'
    &&& s[19] == '8' || s[19] == '9' || s[19] == 'a' || s[19] == 'b'
}

/// `uuid::Uuid::new_v4`, written by its `Display`: a random UUID. Which one is left open.
#[verifier::external_body]
pub(crate) fn new_channel_id() -> (id: String)
    ensures
        is_random_uuid(id@),
{
    Uuid::new_v4().to_string()
}

/// What the body of a request holds, where it can be unpacked.
pub open spec fn unpacked(body: Seq<u8>, gzip: bool) -> Option<Seq<u8>> {
    if gzip {
        gunzipped(body)
    } else {
        Some(body)
    }
}

/// Unpacks the body of a request.
fn unpack(body: Vec<u8>, gzip: bool) -> (data: Option<Vec<u8>>)
    ensures
        unpacked(body@, gzip) == match data {
            Some(data) => Some(data@),
            None => None,
        },
{
    if gzip {
        gunzip(body.as_slice())
    } else {
        Some(body)
    }
}

/// The text of the body of a request to the event endpoint, and its size in bytes once unpacked. A
/// body that cannot be unpacked is a bad request.
pub fn event_text(body: Vec<u8>, gzip: bool) -> (read: Result<(String, usize), ApiError>)
    ensures
        match unpacked(body@, gzip) {
            Some(data) => {
                &&& read matches Ok((s, byte_size))
                &&& s@ == utf8_lossy(data)
                &&& byte_size == data.len()
                &&& reads_as_utf8(data)
            },
            None => read matches Err(e) && e == ApiError::BadRequest,
        },
{
    match unpack(body, gzip) {
        Some(data) => Ok((from_utf8_lossy(data.as_slice()), data.len())),
        None => Err(ApiError::BadRequest),
    }
}

/// What is wrong with what the body of a request to the raw endpoint holds, if anything is.
pub open spec fn raw_error(data: Option<Seq<u8>>) -> Option<ApiError> {
    match data {
        Some(data) => if data.len() == 0 {
            Some(ApiError::NoData)
        } else {
            None
        },
        None => Some(ApiError::InvalidDataFormat { event: 0 }),
    }
}

/// What the body of a request to the raw endpoint holds. It must hold something.
pub fn raw_bytes(body: Vec<u8>, gzip: bool) -> (data: Result<Vec<u8>, ApiError>)
    ensures
        match data {
            Ok(data) => {
                &&& raw_error(unpacked(body@, gzip)) is None
                &&& unpacked(body@, gzip) == Some(data@)
            },
            Err(e) => raw_error(unpacked(body@, gzip)) == Some(e),
        },
{
    match unpack(body, gzip) {
        Some(data) => if data.len() == 0 {
            Err(ApiError::NoData)
        } else {
            Ok(data)
        },
        None => Err(ApiError::InvalidDataFormat { event: 0 }),
    }
}

} // verus!
