//! Purging a vault: deleting all of a user's own ciphers, then all of the
//! user's folders.
use vstd::prelude::*;
use crate::error::ApiError;

verus! {

/// Ciphers to delete, then folders to delete, in order; a failed deletion
/// answers the request with the matching refusal and stops the purge.
pub struct PurgePlan {
    pub cipher_deletions: Vec<String>,
    pub on_cipher_failure: ApiError,
    pub folder_deletions: Vec<String>,
    pub on_folder_failure: ApiError,
}

/// Purging the vault of a user whose password check gave `password_valid`,
/// who owns `ciphers` and `folders`: refused on a wrong password, else every
/// owned cipher, then every folder, is deleted.
pub fn delete_all(password_valid: bool, ciphers: Vec<String>, folders: Vec<String>) -> (r: Result<PurgePlan, ApiError>)
    ensures
        !password_valid ==> r == Err::<PurgePlan, ApiError>(ApiError::InvalidPassword),
        password_valid ==> (r matches Ok(p) && p.cipher_deletions@ == ciphers@
            && p.on_cipher_failure == ApiError::DeleteCipherFailed
            && p.folder_deletions@ == folders@
            && p.on_folder_failure == ApiError::DeleteFolderFailed),
{
    if !password_valid {
        return Err(ApiError::InvalidPassword);
    }
    Ok(PurgePlan {
        cipher_deletions: ciphers,
        on_cipher_failure: ApiError::DeleteCipherFailed,
        folder_deletions: folders,
        on_folder_failure: ApiError::DeleteFolderFailed,
    })
}

} // verus!
