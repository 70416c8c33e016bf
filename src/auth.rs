//! Reading the claims of a user JWT without checking its signature.
use vstd::prelude::*;
use vstd::string::*;

verus! {

/// The bytes that `base64::decode_config` with `URL_SAFE_NO_PAD` decodes
/// from this text, or `None` where it reports an error.
pub uninterp spec fn base64_url_decoded(s: Seq<char>) -> Option<Seq<u8>>;

/// The `(privilege, user_id, exp)` fields that `serde_json` reads from this
/// JSON text, or `None` where it is no object with a string `privilege`, a
/// string `user_id` and an `exp` that fits in `i64`.
pub uninterp spec fn json_auth_fields(b: Seq<u8>) -> Option<(Seq<char>, Seq<char>, int)>;

/// Relies on base64::decode_config with the URL-safe alphabet and no padding.
#[verifier::external_body]
fn base64_url_decode(s: &str) -> (r: Option<Vec<u8>>)
    ensures
        match r {
            Some(b) => base64_url_decoded(s@) == Some(b@),
            None => base64_url_decoded(s@) is None,
        },
{
    base64::decode_config(s, base64::URL_SAFE_NO_PAD).ok()
}

/// Relies on serde_json::from_slice into a JSON value, from which the three
/// claim fields are taken.
#[verifier::external_body]
fn parse_auth_fields(b: &[u8]) -> (r: Option<(String, String, i64)>)
    ensures
        match r {
            Some(t) => json_auth_fields(b@) == Some((t.0@, t.1@, t.2 as int)),
            None => json_auth_fields(b@) is None,
        },
{
    let v: serde_json::Value = serde_json::from_slice(b).ok()?;
    Some((v.get("privilege")?.as_str()?.to_string(), v.get("user_id")?.as_str()?.to_string(), v.get("exp")?.as_i64()?))
}

/// The claims that a user JWT carries.
pub struct AuthContent {
    pub privilege: String,
    pub user_id: String,
    pub exp: i64,
}

/// Why a JWT's claims could not be read.
#[derive(Clone, Copy, Debug, PartialEq, Eq, Structural)]
pub enum JwtDecodeError {
    /// The token has no second `.`-separated part.
    Malformed,
    /// The second part is not URL-safe base64.
    Base64,
    /// The decoded part is not the expected JSON object.
    Json,
}

/// The second `.`-separated part of a token: the text between its first and
/// second `.` (or its end), if it has a `.` at all.
pub open spec fn payload_segment_spec(jwt: Seq<char>) -> Option<Seq<char>> {
    if jwt.contains('.') {
        let first = crate::storage_macro::next_index_of(jwt, '.', 0);
        Some(jwt.subrange(first + 1, crate::storage_macro::next_index_of(jwt, '.', first + 1)))
    } else {
        None
    }
}

fn next_dot(s: &str, from: usize) -> (r: usize)
    requires
        from <= s@.len(),
    ensures
        r as int == crate::storage_macro::next_index_of(s@, '.', from as int),
        from <= r <= s@.len(),
        r < s@.len() ==> s@[r as int] == '.',
        forall|j: int| from <= j < r ==> s@[j] != '.',
{
    let n = s.unicode_len();
    let mut i = from;
    while i < n
        invariant
            from <= i <= n == s@.len(),
            crate::storage_macro::next_index_of(s@, '.', from as int) == crate::storage_macro::next_index_of(s@, '.', i as int),
            forall|j: int| from <= j < i ==> s@[j] != '.',
        decreases n - i,
    {
        if s.get_char(i) == '.' {
            return i;
        }
        i = i + 1;
    }
    i
}

/// Takes out the payload part of a token.
pub fn payload_segment(jwt: &str) -> (r: Option<String>)
    ensures
        match r {
            Some(p) => payload_segment_spec(jwt@) == Some(p@),
            None => payload_segment_spec(jwt@) is None,
        },
{
    let n = jwt.unicode_len();
    let first = next_dot(jwt, 0);
    if first == n {
        return None;
    }
    let second = next_dot(jwt, first + 1);
    Some(String::from_str(jwt.substring_char(first + 1, second)))
}

/// What `decode_jwt_without_validation` gives for a token.
pub open spec fn decoded_claims_spec(jwt: Seq<char>) -> Result<(Seq<char>, Seq<char>, int), JwtDecodeError> {
    match payload_segment_spec(jwt) {
        None => Err(JwtDecodeError::Malformed),
        Some(seg) => match base64_url_decoded(seg) {
            None => Err(JwtDecodeError::Base64),
            Some(b) => match json_auth_fields(b) {
                None => Err(JwtDecodeError::Json),
                Some(t) => Ok(t),
            },
        },
    }
}

/// Reads the claims of a JWT: base64 of its payload part, then JSON. The
/// signature is not checked.
pub fn decode_jwt_without_validation(jwt: &str) -> (r: Result<AuthContent, JwtDecodeError>)
    ensures
        match r {
            Ok(a) => decoded_claims_spec(jwt@) == Ok::<(Seq<char>, Seq<char>, int), JwtDecodeError>((a.privilege@, a.user_id@, a.exp as int)),
            Err(e) => decoded_claims_spec(jwt@) == Err::<(Seq<char>, Seq<char>, int), JwtDecodeError>(e),
        },
{
    let seg = match payload_segment(jwt) {
        Some(s) => s,
        None => return Err(JwtDecodeError::Malformed),
    };
    let bytes = match base64_url_decode(seg.as_str()) {
        Some(b) => b,
        None => return Err(JwtDecodeError::Base64),
    };
    match parse_auth_fields(bytes.as_slice()) {
        Some((privilege, user_id, exp)) => Ok(AuthContent { privilege, user_id, exp }),
        None => Err(JwtDecodeError::Json),
    }
}

} // verus!
