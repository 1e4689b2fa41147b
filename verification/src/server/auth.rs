//! The check of the credentials that a request carries.
//!
//! A request is admitted when its `Authorization` header holds the scheme
//! `Basic`, one space, and the base64 form of the user name, a colon and
//! the password that the node expects. The header `Replication: true`
//! marks a request that a peer passes on.

use vstd::prelude::*;
use vstd::utf8::encode_utf8;
use crate::server::env::{AuthInfo, AuthInfoView};
use crate::server::error::WatchtowerError;
use crate::text::bytes_eq;

verus! {

/// The name of the header that marks a request of a peer.
pub const REPLICATION_HEADER: &'static str = "Replication";

/// `base64::DecodeError`, which says why an input is no base64 text.
#[verifier::external_type_specification]
#[verifier::external_body]
pub struct ExDecodeError(base64::DecodeError);

/// What `base64::decode` makes of `input`: the bytes that it stands for in
/// the standard alphabet with padding, or nothing where `input` is no such
/// text.
pub uninterp spec fn base64_decoded(input: Seq<u8>) -> Option<Seq<u8>>;

/// Calls `base64::decode`, which decodes its input by the standard alphabet
/// with padding into a fresh vector, or says why it cannot. The outcome
/// depends on the input alone. The call panics where the length of the
/// input plus three leaves `usize`, which `requires` leaves out.
#[verifier::external_body]
fn base64_decode(input: &[u8]) -> (r: Result<Vec<u8>, base64::DecodeError>)
    requires
        input@.len() + 3 <= usize::MAX,
    ensures
        match r {
            Ok(bytes) => base64_decoded(input@) == Some(bytes@),
            Err(_) => base64_decoded(input@) is None,
        },
{
    base64::decode(input)
}

/// Whether a header value may hold `byte`: a printable ASCII character, a
/// space or a tab.
pub open spec fn is_visible_ascii(byte: u8) -> bool {
    (32 <= byte < 127) || byte == 9
}

/// The bytes of `Basic` and one space.
pub open spec fn basic_prefix() -> Seq<u8> {
    seq![66u8, 97u8, 115u8, 105u8, 99u8, 32u8]
}

/// The byte of a colon.
pub const COLON: u8 = 58;

/// The bytes of the user name, a colon, and the bytes of the password.
pub open spec fn credential_bytes(auth: AuthInfoView) -> Seq<u8> {
    encode_utf8(auth.username) + seq![COLON] + encode_utf8(auth.password)
}

/// Whether `decoded` is what a caller who knows `auth` presents: the user
/// name, which holds no colon, then a colon, then the password.
pub open spec fn presents(decoded: Seq<u8>, auth: AuthInfoView) -> bool {
    &&& decoded == credential_bytes(auth)
    &&& !encode_utf8(auth.username).contains(COLON)
}

/// Whether a request with this `Authorization` header is admitted.
pub open spec fn authorized(header: Option<Seq<u8>>, auth: AuthInfoView) -> bool {
    &&& header matches Some(value)
    &&& forall|i: int| 0 <= i < value.len() ==> is_visible_ascii(#[trigger] value[i])
    &&& value.len() >= 6
    &&& value.subrange(0, 6) == basic_prefix()
    &&& base64_decoded(value.subrange(6, value.len() as int)) matches Some(decoded)
    &&& presents(decoded, auth)
}

/// The bytes of a header, where the request has it.
pub open spec fn header_bytes(header: Option<&[u8]>) -> Option<Seq<u8>> {
    match header {
        Some(value) => Some(value@),
        None => None,
    }
}

/// Whether all of `value` may stand in a header that is read as text.
fn all_visible(value: &[u8]) -> (r: bool)
    ensures
        r == forall|i: int| 0 <= i < value@.len() ==> is_visible_ascii(#[trigger] value@[i]),
{
    let mut i: usize = 0;
    while i < value.len()
        invariant
            i <= value.len(),
            forall|k: int| 0 <= k < i ==> is_visible_ascii(#[trigger] value@[k]),
        decreases value.len() - i,
    {
        let byte = value[i];
        if !((32 <= byte && byte < 127) || byte == 9) {
            return false;
        }
        i = i + 1;
    }
    true
}

/// Whether `value` begins with `Basic` and one space.
fn has_basic_prefix(value: &[u8]) -> (r: bool)
    ensures
        r == (value@.len() >= 6 && value@.subrange(0, 6) == basic_prefix()),
{
    if value.len() < 6 {
        return false;
    }
    let r = value[0] == 66 && value[1] == 97 && value[2] == 115 && value[3] == 105 && value[4] == 99
        && value[5] == 32;
    proof {
        if r {
            assert(value@.subrange(0, 6) =~= basic_prefix());
        } else {
            let head = value@.subrange(0, 6);
            assert(head[0] == value@[0] && head[1] == value@[1] && head[2] == value@[2] && head[3]
                == value@[3] && head[4] == value@[4] && head[5] == value@[5]);
        }
    }
    r
}

/// Whether `bytes` holds a colon.
fn has_colon(bytes: &[u8]) -> (r: bool)
    ensures
        r == bytes@.contains(COLON),
{
    let mut i: usize = 0;
    while i < bytes.len()
        invariant
            i <= bytes.len(),
            forall|k: int| 0 <= k < i ==> bytes@[k] != COLON,
        decreases bytes.len() - i,
    {
        if bytes[i] == COLON {
            return true;
        }
        i = i + 1;
    }
    false
}

/// Whether the decoded credentials of a request are those that the node
/// expects.
pub fn credentials_match(decoded: &[u8], auth: &AuthInfo) -> (r: bool)
    ensures
        r == presents(decoded@, auth@),
{
    let username = auth.username.as_str().as_bytes();
    let password = auth.password.as_str().as_bytes();
    if has_colon(username) {
        return false;
    }
    let n = username.len();
    if decoded.len() <= n {
        proof {
            assert(credential_bytes(auth@).len() == n + 1 + password@.len());
        }
        return false;
    }
    let r = bytes_eq(&decoded[0..n], username) && decoded[n] == COLON && bytes_eq(
        &decoded[n + 1..decoded.len()],
        password,
    );
    proof {
        let expected = credential_bytes(auth@);
        if r {
            assert(decoded@ =~= decoded@.subrange(0, n as int) + seq![COLON] + decoded@.subrange(
                n + 1,
                decoded@.len() as int,
            ));
        }
        if decoded@ == expected {
            assert(expected.subrange(0, n as int) =~= username@);
            assert(expected[n as int] == COLON);
            assert(expected.subrange(n + 1, expected.len() as int) =~= password@);
        }
    }
    r
}

/// Admits a request by its `Authorization` header, or refuses it as
/// unauthorized.
pub fn check_auth(authorization: Option<&[u8]>, auth: &AuthInfo) -> (r: Result<(), WatchtowerError>)
    ensures
        r is Ok <==> authorized(header_bytes(authorization), auth@),
        r matches Err(e) ==> e == WatchtowerError::Unauthorized,
{
    let value = match authorization {
        Some(value) => value,
        None => {
            return Err(WatchtowerError::Unauthorized);
        },
    };
    if !all_visible(value) || !has_basic_prefix(value) {
        return Err(WatchtowerError::Unauthorized);
    }
    match base64_decode(&value[6..value.len()]) {
        Ok(decoded) => {
            if credentials_match(decoded.as_slice(), auth) {
                Ok(())
            } else {
                Err(WatchtowerError::Unauthorized)
            }
        },
        Err(_) => Err(WatchtowerError::Unauthorized),
    }
}

/// The bytes of `true`.
pub open spec fn true_bytes() -> Seq<u8> {
    seq![116u8, 114u8, 117u8, 101u8]
}

/// Whether a request with this `Replication` header comes from a peer.
pub open spec fn marks_replication(header: Option<Seq<u8>>) -> bool {
    header == Some(true_bytes())
}

/// Whether the `Replication` header of a request marks it as passed on by a
/// peer.
pub fn is_replication(replication: Option<&[u8]>) -> (r: bool)
    ensures
        r == marks_replication(header_bytes(replication)),
{
    match replication {
        Some(value) => {
            let r = value.len() == 4 && value[0] == 116 && value[1] == 114 && value[2] == 117
                && value[3] == 101;
            proof {
                if r {
                    assert(value@ =~= true_bytes());
                }
            }
            r
        },
        None => false,
    }
}

/// A request that has passed the check of its credentials.
#[derive(Debug, Clone, Copy, PartialEq, Eq, Structural)]
pub struct AuthorizedReq {
    /// Whether a peer passes the request on. Such a request is not
    /// replicated again.
    pub is_replicated: bool,
}

impl AuthorizedReq {
    /// Admits a request by its `Authorization` header and notes whether its
    /// `Replication` header marks it as passed on by a peer.
    pub fn from_request(
        authorization: Option<&[u8]>,
        replication: Option<&[u8]>,
        auth: &AuthInfo,
    ) -> (r: Result<AuthorizedReq, WatchtowerError>)
        ensures
            match r {
                Ok(req) => {
                    &&& authorized(header_bytes(authorization), auth@)
                    &&& req.is_replicated == marks_replication(header_bytes(replication))
                },
                Err(e) => {
                    &&& e == WatchtowerError::Unauthorized
                    &&& !authorized(header_bytes(authorization), auth@)
                },
            },
    {
        match check_auth(authorization, auth) {
            Ok(()) => Ok(AuthorizedReq { is_replicated: is_replication(replication) }),
            Err(e) => Err(e),
        }
    }
}

} // verus!
