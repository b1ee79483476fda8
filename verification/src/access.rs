//! Single-cipher checks: whether a cipher that was looked up may be read,
//! changed or deleted by the requesting user.
use vstd::prelude::*;
use crate::error::ApiError;
use crate::model::{Cipher, CipherAccess};

verus! {

/// Leave to go on with a database write, and the refusal the request is
/// answered with if that write fails.
#[derive(PartialEq, Eq, Structural, Clone, Copy, Debug)]
pub struct Proceed {
    pub on_failure: ApiError,
}

/// A stored cipher that was found, with the requesting user's rights on it.
pub struct FoundCipher {
    pub cipher: Cipher,
    pub access: CipherAccess,
}

/// The access of an optional found cipher.
pub open spec fn found_access(found: Option<FoundCipher>) -> Option<CipherAccess> {
    match found {
        Some(f) => Some(f.access),
        None => None,
    }
}

/// The answer to a cipher that was looked up: missing, refused with `denied`
/// when the user lacks the right asked for (write when `need_write`, else
/// read), or allowed.
pub open spec fn access_check(lookup: Option<CipherAccess>, need_write: bool, denied: ApiError) -> Result<(), ApiError> {
    match lookup {
        None => Err(ApiError::CipherNotFound),
        Some(a) => if (if need_write { a.writable } else { a.readable }) {
            Ok(())
        } else {
            Err(denied)
        },
    }
}

/// Checks a looked-up cipher for the right asked for.
pub fn check_cipher_access(lookup: Option<CipherAccess>, need_write: bool, denied: ApiError) -> (r: Result<(), ApiError>)
    ensures
        r == access_check(lookup, need_write, denied),
{
    match lookup {
        None => Err(ApiError::CipherNotFound),
        Some(a) => {
            let allowed = if need_write { a.writable } else { a.readable };
            if allowed {
                Ok(())
            } else {
                Err(denied)
            }
        },
    }
}

/// Reading one cipher: it must exist and be visible to the user.
pub fn get_cipher(lookup: Option<CipherAccess>) -> (r: Result<(), ApiError>)
    ensures
        r == access_check(lookup, false, ApiError::CipherNotOwned),
{
    check_cipher_access(lookup, false, ApiError::CipherNotOwned)
}

/// Adding an attachment to a cipher: it must exist and be writable.
pub fn post_attachment(lookup: Option<CipherAccess>) -> (r: Result<(), ApiError>)
    ensures
        r == access_check(lookup, true, ApiError::CipherNotWritable),
{
    check_cipher_access(lookup, true, ApiError::CipherNotWritable)
}

/// Deleting one cipher: it must exist and be writable; a failed deletion is
/// answered with `DeleteCipherFailed`.
pub fn delete_cipher_by_uuid(lookup: Option<CipherAccess>) -> (r: Result<Proceed, ApiError>)
    ensures
        match access_check(lookup, true, ApiError::CipherNotDeletable) {
            Err(e) => r == Err::<Proceed, ApiError>(e),
            Ok(_) => r == Ok::<Proceed, ApiError>(Proceed { on_failure: ApiError::DeleteCipherFailed }),
        },
{
    match check_cipher_access(lookup, true, ApiError::CipherNotDeletable) {
        Err(e) => Err(e),
        Ok(()) => Ok(Proceed { on_failure: ApiError::DeleteCipherFailed }),
    }
}

/// The answer to deleting attachment of cipher `uuid`, given the cipher the
/// attachment belongs to (`None`: no such attachment) and the lookup of
/// cipher `uuid`.
pub open spec fn attachment_delete_check(
    uuid: Seq<char>,
    attachment_cipher: Option<String>,
    lookup: Option<CipherAccess>,
) -> Result<(), ApiError> {
    match attachment_cipher {
        None => Err(ApiError::AttachmentNotFound),
        Some(c) => if c@ != uuid {
            Err(ApiError::AttachmentOtherCipher)
        } else {
            access_check(lookup, true, ApiError::AttachmentCipherNotDeletable)
        },
    }
}

/// Deleting an attachment of cipher `uuid`: the attachment must exist and
/// belong to that cipher, which must exist and be writable; a failed
/// deletion is answered with `DeleteAttachmentFailed`.
pub fn delete_cipher_attachment_by_id(
    uuid: &String,
    attachment_cipher: &Option<String>,
    lookup: Option<CipherAccess>,
) -> (r: Result<Proceed, ApiError>)
    ensures
        match attachment_delete_check(uuid@, *attachment_cipher, lookup) {
            Err(e) => r == Err::<Proceed, ApiError>(e),
            Ok(_) => r == Ok::<Proceed, ApiError>(Proceed { on_failure: ApiError::DeleteAttachmentFailed }),
        },
{
    match attachment_cipher {
        None => return Err(ApiError::AttachmentNotFound),
        Some(c) => if !(*c == *uuid) {
            return Err(ApiError::AttachmentOtherCipher);
        },
    }
    match check_cipher_access(lookup, true, ApiError::AttachmentCipherNotDeletable) {
        Err(e) => Err(e),
        Ok(()) => Ok(Proceed { on_failure: ApiError::DeleteAttachmentFailed }),
    }
}

/// A looked-up cipher is allowed exactly when the user has the right asked
/// for (write, or else read), whatever the other right is; a missing cipher
/// is answered with `CipherNotFound`, a present one lacking the right with
/// the given refusal.
pub proof fn lemma_access_check_outcome(lookup: Option<CipherAccess>, need_write: bool, denied: ApiError)
    ensures
        lookup is None ==> access_check(lookup, need_write, denied) == Err::<(), ApiError>(ApiError::CipherNotFound),
        lookup matches Some(a) ==> (access_check(lookup, need_write, denied) is Ok
            <==> (if need_write { a.writable } else { a.readable })),
        lookup matches Some(a) ==> (access_check(lookup, need_write, denied) is Err
            ==> access_check(lookup, need_write, denied) == Err::<(), ApiError>(denied)),
        (lookup matches Some(a) && a.readable) ==> access_check(lookup, false, denied) == Ok::<(), ApiError>(()),
        (lookup matches Some(a) && a.writable) ==> access_check(lookup, true, denied) == Ok::<(), ApiError>(()),
{
}

/// Deleting an attachment is allowed exactly when it exists, belongs to the
/// cipher named, and that cipher exists and is writable.
pub proof fn lemma_attachment_delete_outcome(
    uuid: Seq<char>,
    attachment_cipher: Option<String>,
    lookup: Option<CipherAccess>,
)
    ensures
        attachment_delete_check(uuid, attachment_cipher, lookup) is Ok
            <==> (attachment_cipher matches Some(c) && c@ == uuid && (lookup matches Some(a) && a.writable)),
        attachment_cipher is None ==> attachment_delete_check(uuid, attachment_cipher, lookup)
            == Err::<(), ApiError>(ApiError::AttachmentNotFound),
        (attachment_cipher matches Some(c) && c@ != uuid) ==> attachment_delete_check(uuid, attachment_cipher, lookup)
            == Err::<(), ApiError>(ApiError::AttachmentOtherCipher),
{
}

} // verus!
