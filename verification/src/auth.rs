//! AccessGuard: checks the caller-supplied credential against the
//! configured shared secret before any mutating operation.

use crate::error::ApiKeyError;
use vstd::prelude::*;

verus! {

/// The view of an optional credential header value.
pub open spec fn opt_view(s: Option<&str>) -> Option<Seq<char>> {
    match s {
        None => None,
        Some(x) => Some(x@),
    }
}

/// What authorization decides: an absent credential is `Missing`, a
/// present one that differs from the secret is `Invalid`, an equal one is
/// accepted.
pub open spec fn authorize_spec(provided: Option<Seq<char>>, secret: Seq<char>) -> Result<
    (),
    ApiKeyError,
> {
    match provided {
        None => Err(ApiKeyError::Missing),
        Some(k) => if k == secret {
            Ok(())
        } else {
            Err(ApiKeyError::Invalid)
        },
    }
}

/// Whether two strings hold the same characters.
fn str_eq(a: &str, b: &str) -> (r: bool)
    ensures
        r == (a@ == b@),
{
    a.to_owned() == b.to_owned()
}

/// Checks the supplied credential against the configured secret and says
/// why it is refused, when it is.
pub fn authorize(provided: Option<&str>, secret: &str) -> (r: Result<(), ApiKeyError>)
    ensures
        r == authorize_spec(opt_view(provided), secret@),
{
    match provided {
        None => Err(ApiKeyError::Missing),
        Some(k) => if str_eq(k, secret) {
            Ok(())
        } else {
            Err(ApiKeyError::Invalid)
        },
    }
}

/// The guard as the orchestrators use it: a missing or non-matching
/// credential is refused as unauthorized.
pub open spec fn validate_key_spec(provided: Option<Seq<char>>, secret: Seq<char>) -> Result<
    (),
    u16,
> {
    if authorize_spec(provided, secret) is Ok {
        Ok(())
    } else {
        Err(401u16)
    }
}

/// Refuses a mutating request whose credential is missing or wrong,
/// surfacing 401 either way.
pub fn validate_key(provided: Option<&str>, secret: &str) -> (r: Result<(), u16>)
    ensures
        r == validate_key_spec(opt_view(provided), secret@),
{
    match authorize(provided, secret) {
        Ok(()) => Ok(()),
        Err(_) => Err(401),
    }
}

/// Any mutating request without a credential, or with a wrong one, is
/// refused as unauthorized, and the two cases are told apart internally.
pub proof fn lemma_credential_required(provided: Option<Seq<char>>, secret: Seq<char>)
    ensures
        provided is None ==> authorize_spec(provided, secret) == Err::<(), ApiKeyError>(
            ApiKeyError::Missing,
        ) && validate_key_spec(provided, secret) == Err::<(), u16>(401u16),
        provided matches Some(k) && k != secret ==> authorize_spec(provided, secret) == Err::<
            (),
            ApiKeyError,
        >(ApiKeyError::Invalid) && validate_key_spec(provided, secret) == Err::<(), u16>(401u16),
        validate_key_spec(provided, secret) is Ok <==> provided == Some(secret),
{
}

} // verus!
