use vstd::prelude::*;

verus! {

/// Every way a cipher request can be refused.
#[derive(PartialEq, Eq, Structural, Clone, Copy, Debug)]
pub enum ApiError {
    CipherNotFound,
    CipherNotOwned,
    CipherNotWritable,
    CipherNotAccessible,
    CipherNotDeletable,
    AttachmentCipherNotDeletable,
    OrgPermissionDenied,
    OrgDirectAddDenied,
    OrgIdMissing,
    FolderNotFound,
    FolderNotOwned,
    FolderIdWrongFormat,
    FolderSaveFailed,
    InvalidType,
    DataMissing,
    RevisionUpdateFailed,
    InvalidCollection,
    NoCollectionRights,
    NoCipherSelected,
    NoCollectionSelected,
    MissingIds,
    IdsNotArray,
    CipherHasAttachments,
    DeleteCipherFailed,
    DeleteFolderFailed,
    AttachmentNotFound,
    AttachmentOtherCipher,
    DeleteAttachmentFailed,
    InvalidPassword,
}

impl ApiError {
    /// The text the client is shown for this refusal.
    pub open spec fn spec_message(self) -> Seq<char> {
        match self {
            ApiError::CipherNotFound => "Cipher doesn't exist"@,
            ApiError::CipherNotOwned => "Cipher is not owned by user"@,
            ApiError::CipherNotWritable => "Cipher is not write accessible"@,
            ApiError::CipherNotAccessible => "Cipher is not accessible by user"@,
            ApiError::CipherNotDeletable => "Cipher can't be deleted by user"@,
            ApiError::AttachmentCipherNotDeletable => "Cipher cannot be deleted by user"@,
            ApiError::OrgPermissionDenied => "You don't have permission to add item to organization"@,
            ApiError::OrgDirectAddDenied => "You don't have permission to add cipher directly to organization"@,
            ApiError::OrgIdMissing => "Organization id not provided"@,
            ApiError::FolderNotFound => "Folder doesn't exist"@,
            ApiError::FolderNotOwned => "Folder is not owned by user"@,
            ApiError::FolderIdWrongFormat => "Folder id provided in wrong format"@,
            ApiError::FolderSaveFailed => "Error saving the folder information"@,
            ApiError::InvalidType => "Invalid type"@,
            ApiError::DataMissing => "Data missing"@,
            ApiError::RevisionUpdateFailed => "Failed to update the revision, please log out and log back in to finish import."@,
            ApiError::InvalidCollection => "Invalid collection ID provided"@,
            ApiError::NoCollectionRights => "No rights to modify the collection"@,
            ApiError::NoCipherSelected => "You must select at least one cipher."@,
            ApiError::NoCollectionSelected => "You must select at least one collection."@,
            ApiError::MissingIds => "Request missing ids field"@,
            ApiError::IdsNotArray => "Posted ids field is not an array"@,
            ApiError::CipherHasAttachments => "Ciphers should not have any attachments."@,
            ApiError::DeleteCipherFailed => "Failed deleting cipher"@,
            ApiError::DeleteFolderFailed => "Failed deleting folder"@,
            ApiError::AttachmentNotFound => "Attachment doesn't exist"@,
            ApiError::AttachmentOtherCipher => "Attachment from other cipher"@,
            ApiError::DeleteAttachmentFailed => "Deleting attachement failed"@,
            ApiError::InvalidPassword => "Invalid password"@,
        }
    }

    /// The text the client is shown for this refusal.
    pub fn message(&self) -> (s: &'static str)
        ensures
            s@ == self.spec_message(),
    {
        match self {
            ApiError::CipherNotFound => "Cipher doesn't exist",
            ApiError::CipherNotOwned => "Cipher is not owned by user",
            ApiError::CipherNotWritable => "Cipher is not write accessible",
            ApiError::CipherNotAccessible => "Cipher is not accessible by user",
            ApiError::CipherNotDeletable => "Cipher can't be deleted by user",
            ApiError::AttachmentCipherNotDeletable => "Cipher cannot be deleted by user",
            ApiError::OrgPermissionDenied => "You don't have permission to add item to organization",
            ApiError::OrgDirectAddDenied => "You don't have permission to add cipher directly to organization",
            ApiError::OrgIdMissing => "Organization id not provided",
            ApiError::FolderNotFound => "Folder doesn't exist",
            ApiError::FolderNotOwned => "Folder is not owned by user",
            ApiError::FolderIdWrongFormat => "Folder id provided in wrong format",
            ApiError::FolderSaveFailed => "Error saving the folder information",
            ApiError::InvalidType => "Invalid type",
            ApiError::DataMissing => "Data missing",
            ApiError::RevisionUpdateFailed => "Failed to update the revision, please log out and log back in to finish import.",
            ApiError::InvalidCollection => "Invalid collection ID provided",
            ApiError::NoCollectionRights => "No rights to modify the collection",
            ApiError::NoCipherSelected => "You must select at least one cipher.",
            ApiError::NoCollectionSelected => "You must select at least one collection.",
            ApiError::MissingIds => "Request missing ids field",
            ApiError::IdsNotArray => "Posted ids field is not an array",
            ApiError::CipherHasAttachments => "Ciphers should not have any attachments.",
            ApiError::DeleteCipherFailed => "Failed deleting cipher",
            ApiError::DeleteFolderFailed => "Failed deleting folder",
            ApiError::AttachmentNotFound => "Attachment doesn't exist",
            ApiError::AttachmentOtherCipher => "Attachment from other cipher",
            ApiError::DeleteAttachmentFailed => "Deleting attachement failed",
            ApiError::InvalidPassword => "Invalid password",
        }
    }
}

} // verus!
