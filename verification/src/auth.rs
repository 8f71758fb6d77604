//! Authentication: which principal a request speaks for.
//!
//! A client opens a session by naming its principal, and gets a token. It
//! presents the token with every request, and the request then speaks for
//! the principal of the session.
use crate::errors::ApiError;
use crate::ids::{format_id, has_id_length, hyphenated, is_random_id, parse_id, parsed_uuid};
use sessions::{authenticated, opened, Session, SessionsStore};
use vstd::prelude::*;
use vstd::utf8::{decode_utf8, valid_utf8};

pub mod sessions;

verus! {

/// Authenticates a request by the token in its authorization header.
///
/// The header has to hold a token in text form, else it is an `InvalidId`;
/// the token has to have a session, else the request is an
/// `UnauthorizedOperation`.
pub fn auth_middleware(store: &SessionsStore, header: &str) -> (session: Result<Session, ApiError>)
    ensures
        session == authenticated(store@, parsed_uuid(header@)),
        !has_id_length(header@) ==> session == Err::<Session, ApiError>(ApiError::InvalidId),
{
    match parse_id(header) {
        Some(token) => store.lookup(token),
        None => Err(ApiError::InvalidId),
    }
}

/// Decodes text with `std::str::from_utf8`.
///
/// The claim is what the documentation of the function says: bytes that
/// are valid UTF-8 are handed back as the text that they encode, and any
/// other bytes are refused.
#[verifier::external_body]
fn text_of(bytes: &[u8]) -> (text: Option<&str>)
    ensures
        text is Some <==> valid_utf8(bytes@),
        text matches Some(decoded) ==> decoded@ == decode_utf8(bytes@),
{
    match std::str::from_utf8(bytes) {
        Ok(decoded) => Some(decoded),
        Err(_) => None,
    }
}

/// The principal that the body of a request names: the identifier that
/// its bytes denote as text, if they are text and denote one.
pub open spec fn named_principal(body: Seq<u8>) -> Option<u128> {
    if valid_utf8(body) {
        parsed_uuid(decode_utf8(body))
    } else {
        None
    }
}

/// Opens a session for the principal whose identifier the bytes `body`
/// spell, and returns the token of the session in text form.
///
/// A body that is not UTF-8 text, or whose text denotes no identifier, is
/// an `InvalidId`, and no session is opened. The text that is returned
/// denotes the token: presented as a header, it authenticates as the
/// session just opened.
pub fn auth_endpoint(store: &mut SessionsStore, body: &[u8]) -> (issued: Result<String, ApiError>)
    ensures
        match issued {
            Ok(text) => {
                &&& named_principal(body@) matches Some(user_id)
                &&& parsed_uuid(text@) matches Some(token)
                &&& text@ == hyphenated(token)
                &&& is_random_id(token)
                &&& opened(old(store)@, final(store)@, token, user_id)
            },
            Err(error) => {
                &&& named_principal(body@) is None
                &&& error == ApiError::InvalidId
                &&& final(store)@ == old(store)@
            },
        },
        !valid_utf8(body@) || !has_id_length(decode_utf8(body@)) ==> issued is Err,
{
    let text = match text_of(body) {
        Some(text) => text,
        None => {
            return Err(ApiError::InvalidId);
        },
    };
    match parse_id(text) {
        Some(user_id) => {
            let token = store.create(user_id);
            Ok(format_id(token))
        },
        None => Err(ApiError::InvalidId),
    }
}

} // verus!
