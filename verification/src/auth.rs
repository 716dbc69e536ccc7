//! Who may send: tokens in headers and in URLs.
use vstd::prelude::*;
use vstd::slice::slice_subrange;
use vstd::utf8::*;

use crate::encoding;
use crate::encoding::{base64_decode, from_utf8};
use crate::response::ApiError;
use crate::text;

verus! {

/// The credential that goes with a token.
pub open spec fn credential(token: Seq<char>) -> Seq<char> {
    "Splunk "@ + token
}

/// The credential of a request: what its header says, else, where URLs may carry tokens, the one
/// that goes with the token of its URL.
pub open spec fn effective(
    allow_query_string_auth: bool,
    header: Option<Seq<char>>,
    url_token: Option<Seq<char>>,
) -> Option<Seq<char>> {
    match (header, url_token) {
        (Some(h), _) => Some(h),
        (None, Some(t)) => if allow_query_string_auth {
            Some(credential(t))
        } else {
            None
        },
        (None, None) => None,
    }
}

/// The password of a user and a password that a colon parts, where these bytes are that.
pub open spec fn password(decoded: Option<Seq<u8>>) -> Option<Seq<char>> {
    match decoded {
        Some(bytes) => if valid_utf8(bytes) {
            match text::split_once(decode_utf8(bytes), ':') {
                Some((_, pass)) => Some(pass),
                None => None,
            }
        } else {
            None
        },
        None => None,
    }
}

/// The credential in the form that tokens have, where `decoded` is what its base64 stands for. A
/// user and a password become the credential that goes with the password.
pub open spec fn basic_as_token(header: Seq<char>, decoded: Option<Seq<u8>>) -> Seq<char> {
    match password(decoded) {
        Some(pass) => credential(pass),
        None => header,
    }
}

/// The credential in the form that tokens have.
pub open spec fn normalized(header: Seq<char>) -> Seq<char> {
    match text::strip_prefix(header, "Basic "@) {
        Some(b64) => basic_as_token(header, encoding::base64_decoded(b64)),
        None => header,
    }
}

/// The token of a credential.
pub open spec fn bare_token(header: Seq<char>) -> Seq<char> {
    match text::strip_prefix(header, "Splunk "@) {
        Some(token) => token,
        None => header,
    }
}

/// Whether a credential is among the valid ones, or why not. Where there are none, every request
/// passes. The result is the token of the request.
pub open spec fn checked(valid: Seq<Seq<char>>, header: Option<Seq<char>>) -> Result<
    Option<Seq<char>>,
    ApiError,
> {
    match header {
        Some(h) => if valid.len() == 0 || valid.contains(h) {
            Ok(Some(bare_token(h)))
        } else {
            Err(ApiError::InvalidAuthorization)
        },
        None => if valid.len() == 0 {
            Ok(None)
        } else {
            Err(ApiError::MissingAuthorization)
        },
    }
}

/// What becomes of a request with this header and this URL token: it passes with a token, or not.
pub open spec fn authorized(
    valid: Seq<Seq<char>>,
    allow_query_string_auth: bool,
    header: Option<Seq<char>>,
    url_token: Option<Seq<char>>,
) -> Result<Option<Seq<char>>, ApiError> {
    checked(
        valid,
        match effective(allow_query_string_auth, header, url_token) {
            Some(h) => Some(normalized(h)),
            None => None,
        },
    )
}

/// The texts of strings.
pub open spec fn texts(strings: Seq<String>) -> Seq<Seq<char>> {
    strings.map_values(|s: String| s@)
}

/// What a verdict says of a request, with the token as a text.
pub open spec fn verdict_view(verdict: Result<Option<String>, ApiError>) -> Result<
    Option<Seq<char>>,
    ApiError,
> {
    match verdict {
        Ok(token) => Ok(text::text_of(token)),
        Err(e) => Err(e),
    }
}

/// Whether a credential is among the valid ones.
pub fn is_valid(valid: &Vec<String>, header: &str) -> (b: bool)
    ensures
        b == texts(valid@).contains(header@),
{
    for i in 0..valid.len()
        invariant
            forall|j: int| 0 <= j < i ==> (#[trigger] valid@[j])@ != header@,
    {
        if text::str_eq(valid[i].as_str(), header) {
            assert(texts(valid@)[i as int] == header@);
            return true;
        }
    }
    assert forall|j: int| 0 <= j < texts(valid@).len() implies #[trigger] texts(valid@)[j]
        != header@ by {
        assert(valid@[j]@ != header@);
    }
    false
}

/// The credential in the form that tokens have, where `decoded` is what its base64 stands for.
pub fn token_of_basic(header: String, decoded: Option<Vec<u8>>) -> (normal: String)
    ensures
        normal@ == basic_as_token(
            header@,
            match decoded {
                Some(bytes) => Some(bytes@),
                None => None,
            },
        ),
{
    match decoded {
        Some(bytes) => match from_utf8(bytes) {
            Some(s) => {
                let chars = text::chars_of(s.as_str());
                let colon = text::find(chars.as_slice(), ':');
                if colon < chars.len() {
                    let pass = text::string_of(
                        slice_subrange(chars.as_slice(), colon + 1, chars.len()),
                    );
                    assert(pass@ =~= s@.skip(colon + 1));
                    text::concat("Splunk ", pass.as_str())
                } else {
                    header
                }
            },
            None => header,
        },
        None => header,
    }
}

/// The credential in the form that tokens have.
pub fn normalize(header: String) -> (normal: String)
    ensures
        normal@ == normalized(header@),
{
    match text::without_prefix(header.as_str(), "Basic ") {
        Some(b64) => {
            let decoded = base64_decode(b64.as_str());
            token_of_basic(header, decoded)
        },
        None => header,
    }
}

/// Whether a request passes with a credential in the form that tokens have, and its token.
pub fn check_credential(valid: &Vec<String>, header: Option<String>) -> (verdict: Result<
    Option<String>,
    ApiError,
>)
    ensures
        verdict_view(verdict) == checked(texts(valid@), text::text_of(header)),
{
    match header {
        Some(h) => if valid.len() == 0 || is_valid(valid, h.as_str()) {
            match text::without_prefix(h.as_str(), "Splunk ") {
                Some(token) => Ok(Some(token)),
                None => Ok(Some(h)),
            }
        } else {
            Err(ApiError::InvalidAuthorization)
        },
        None => if valid.len() == 0 {
            Ok(None)
        } else {
            Err(ApiError::MissingAuthorization)
        },
    }
}

/// Authorize request - supports both Authorization header and URL ?token= query parameter
pub fn authorize(
    valid: &Vec<String>,
    allow_query_string_auth: bool,
    header: Option<String>,
    url_token: Option<String>,
) -> (verdict: Result<Option<String>, ApiError>)
    ensures
        verdict_view(verdict) == authorized(
            texts(valid@),
            allow_query_string_auth,
            text::text_of(header),
            text::text_of(url_token),
        ),
{
    let credential = match (header, url_token) {
        (Some(h), _) => Some(h),
        (None, Some(t)) => if allow_query_string_auth {
            Some(text::concat("Splunk ", t.as_str()))
        } else {
            None
        },
        (None, None) => None,
    };
    match credential {
        Some(h) => check_credential(valid, Some(normalize(h))),
        None => check_credential(valid, None),
    }
}

/// Where a request has a header, its URL token does not matter, whether URLs may carry tokens or
/// not.
pub proof fn law_header_takes_precedence(
    valid: Seq<Seq<char>>,
    allow: bool,
    header: Seq<char>,
    url_token: Option<Seq<char>>,
)
    ensures
        authorized(valid, allow, Some(header), url_token) == authorized(
            valid,
            allow,
            Some(header),
            None,
        ),
{
}

/// Where URLs may not carry tokens, a token in the URL is ignored.
pub proof fn law_url_token_is_ignored_when_disabled(
    valid: Seq<Seq<char>>,
    header: Option<Seq<char>>,
    url_token: Option<Seq<char>>,
)
    ensures
        authorized(valid, false, header, url_token) == authorized(valid, false, header, None),
{
}

/// Where URLs may carry tokens and there is no header, a token in the URL counts as it would in
/// the header.
pub proof fn law_url_token_counts_when_header_is_missing(
    valid: Seq<Seq<char>>,
    url_token: Seq<char>,
)
    ensures
        authorized(valid, true, None, Some(url_token)) == authorized(
            valid,
            true,
            Some(credential(url_token)),
            None,
        ),
{
}

/// Basic authentication with any user name and a token for a password is as good as the token
/// itself: the same requests pass, with the same token.
pub proof fn law_basic_is_as_good_as_token(
    valid: Seq<Seq<char>>,
    allow: bool,
    b64: Seq<char>,
    user: Seq<char>,
    token: Seq<char>,
)
    requires
        encoding::base64_decoded(b64) == Some(encode_utf8(user + seq![':'] + token)),
        !user.contains(':'),
    ensures
        authorized(valid, allow, Some("Basic "@ + b64), None) == authorized(
            valid,
            allow,
            Some(credential(token)),
            None,
        ),
{
    let pair = user + seq![':'] + token;
    encode_utf8_decode_utf8(pair);
    encode_utf8_valid_utf8(pair);
    lemma_position(user, token);
    assert(pair.skip(user.len() as int + 1) =~= token);
    let basic = "Basic "@ + b64;
    assert("Basic "@.is_prefix_of(basic)) by {
        assert(basic.subrange(0, "Basic "@.len() as int) =~= "Basic "@);
    }
    assert(basic.skip("Basic "@.len() as int) =~= b64);
    reveal_strlit("Basic ");
    reveal_strlit("Splunk ");
    assert(credential(token)[0] == 'S');
    assert(!"Basic "@.is_prefix_of(credential(token))) by {
        if "Basic "@.is_prefix_of(credential(token)) {
            assert(credential(token).subrange(0, 6)[0] == 'B');
        }
    }
}

proof fn lemma_position(user: Seq<char>, token: Seq<char>)
    requires
        !user.contains(':'),
    ensures
        text::position(user + seq![':'] + token, ':') == user.len(),
    decreases user.len(),
{
    let pair = user + seq![':'] + token;
    if user.len() > 0 {
        assert(user[0] != ':');
        assert forall|c: char| user.skip(1).contains(c) implies user.contains(c) by {
            let i = choose|i: int| 0 <= i < user.skip(1).len() && user.skip(1)[i] == c;
            assert(user[i + 1] == c);
        }
        lemma_position(user.skip(1), token);
        assert(pair.skip(1) =~= user.skip(1) + seq![':'] + token);
    }
}

/// Where tokens are configured, no request without a credential passes.
pub proof fn law_credential_is_required(valid: Seq<Seq<char>>, url_token: Option<Seq<char>>)
    requires
        valid.len() > 0,
    ensures
        authorized(valid, false, None, url_token) == Err::<Option<Seq<char>>, ApiError>(
            ApiError::MissingAuthorization,
        ),
{
}

/// Where no tokens are configured, every request passes.
pub proof fn law_without_tokens_every_request_passes(
    allow: bool,
    header: Option<Seq<char>>,
    url_token: Option<Seq<char>>,
)
    ensures
        authorized(Seq::empty(), allow, header, url_token) is Ok,
{
}

} // verus!
