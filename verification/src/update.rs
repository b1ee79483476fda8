//! Merging a posted cipher into a stored one: who ends up owning it, which
//! folder it goes to, and what is stored of the posted data.
use vstd::prelude::*;
use serde_json::Value;
use crate::error::ApiError;
use crate::json::{
    is_object_or_null_text, json_clone, json_from_string, json_is_object_or_null, json_null,
    json_null_text, json_quoted, json_set_member, json_text, json_to_text, json_with_member,
    opt_json_text, opt_json_view,
};
use crate::access::{access_check, check_cipher_access, found_access, FoundCipher};
use crate::model::{Cipher, CipherData};

verus! {

/// The refusal, if any, of the ownership part of an update. An organization
/// is only consulted for a new or shared cipher; `org_access` is the
/// requesting user's membership of that organization (`None`: not a
/// member; `Some(full)`: whether the membership has full access).
pub open spec fn owner_check(data: CipherData, is_new_or_shared: bool, org_access: Option<bool>) -> Option<ApiError> {
    if is_new_or_shared && data.organization_id is Some {
        match org_access {
            None => Some(ApiError::OrgPermissionDenied),
            Some(full) => if full { None } else { Some(ApiError::OrgDirectAddDenied) },
        }
    } else {
        None
    }
}

/// The refusal, if any, of the folder named in the request; `folder_owner`
/// is the owner of the folder with that id, `None` if there is none.
pub open spec fn folder_check(folder_id: Option<String>, user_uuid: Seq<char>, folder_owner: Option<String>) -> Option<ApiError> {
    match folder_id {
        None => None,
        Some(_) => match folder_owner {
            None => Some(ApiError::FolderNotFound),
            Some(owner) => if owner@ != user_uuid { Some(ApiError::FolderNotOwned) } else { None },
        },
    }
}

/// The type-specific data the request's type selects: `None` for an
/// unknown type, `Some(None)` when that part is missing.
pub open spec fn selected_type_data(data: CipherData) -> Option<Option<Value>> {
    if data.atype == 1 {
        Some(data.login)
    } else if data.atype == 2 {
        Some(data.secure_note)
    } else if data.atype == 3 {
        Some(data.card)
    } else if data.atype == 4 {
        Some(data.identity)
    } else {
        None
    }
}

/// The checks of an update, in the order they are made: the refusal, or
/// the selected type-specific data.
pub open spec fn update_precheck(
    data: CipherData,
    user_uuid: Seq<char>,
    is_new_or_shared: bool,
    org_access: Option<bool>,
    folder_owner: Option<String>,
) -> Result<Value, ApiError> {
    if owner_check(data, is_new_or_shared, org_access) is Some {
        Err(owner_check(data, is_new_or_shared, org_access)->0)
    } else if folder_check(data.folder_id, user_uuid, folder_owner) is Some {
        Err(folder_check(data.folder_id, user_uuid, folder_owner)->0)
    } else {
        match selected_type_data(data) {
            None => Err(ApiError::InvalidType),
            Some(None) => Err(ApiError::DataMissing),
            Some(Some(v)) => Ok(v),
        }
    }
}

/// The checks pass but the selected type-specific data is neither an object
/// nor `null`, so no member can be set on it: serde_json panics there.
pub open spec fn update_panics(
    data: CipherData,
    user_uuid: Seq<char>,
    is_new_or_shared: bool,
    org_access: Option<bool>,
    folder_owner: Option<String>,
) -> bool {
    update_precheck(data, user_uuid, is_new_or_shared, org_access, folder_owner) matches Ok(v)
        && !is_object_or_null_text(json_text(v))
}

/// The text stored as the cipher's data: the selected type-specific data
/// with its `Name`, `Notes`, `Fields` and `PasswordHistory` members set from
/// the request, in that order (kept for older clients).
pub open spec fn merged_type_data(type_data: Value, data: CipherData) -> Seq<char> {
    let with_name = json_with_member(json_text(type_data), "Name"@, json_quoted(data.name@));
    let with_notes = json_with_member(
        with_name,
        "Notes"@,
        match data.notes {
            Some(n) => json_quoted(n@),
            None => json_null_text(),
        },
    );
    let with_fields = json_with_member(with_notes, "Fields"@, opt_json_text(data.fields));
    json_with_member(with_fields, "PasswordHistory"@, opt_json_text(data.password_history))
}

/// An optional string, by its view.
pub open spec fn opt_str(o: Option<String>) -> Option<Seq<char>> {
    match o {
        Some(s) => Some(s@),
        None => None,
    }
}

/// `new` is `old` after a successful update with `data`, whose selected
/// type-specific data is `type_data`.
pub open spec fn is_updated_cipher(
    old: Cipher,
    new: Cipher,
    data: CipherData,
    type_data: Value,
    user_uuid: String,
    is_new_or_shared: bool,
) -> bool {
    &&& new.uuid == old.uuid
    &&& new.atype == old.atype
    &&& new.name == data.name
    &&& new.notes == data.notes
    &&& new.favorite == (data.favorite == Some(true))
    &&& opt_str(new.fields) == opt_json_view(data.fields)
    &&& opt_str(new.password_history) == opt_json_view(data.password_history)
    &&& new.data@ == merged_type_data(type_data, data)
    &&& if is_new_or_shared && data.organization_id is Some {
        new.organization_uuid == data.organization_id && new.user_uuid is None
    } else if is_new_or_shared {
        new.user_uuid == Some(user_uuid) && new.organization_uuid == old.organization_uuid
    } else {
        new.user_uuid == old.user_uuid && new.organization_uuid == old.organization_uuid
    }
}

/// Whether `update_cipher_from_data` would hit serde_json's panic on these
/// inputs; a caller tests this first and fails as the update would.
pub fn update_would_panic(
    data: &CipherData,
    user_uuid: &String,
    is_new_or_shared: bool,
    org_access: Option<bool>,
    folder_owner: &Option<String>,
) -> (b: bool)
    ensures
        b == update_panics(*data, user_uuid@, is_new_or_shared, org_access, *folder_owner),
{
    if is_new_or_shared && data.organization_id.is_some() {
        match org_access {
            None => return false,
            Some(full) => if !full {
                return false;
            },
        }
    }
    if data.folder_id.is_some() {
        match folder_owner {
            None => return false,
            Some(owner) => if !(*owner == *user_uuid) {
                return false;
            },
        }
    }
    let selected = if data.atype == 1 {
        &data.login
    } else if data.atype == 2 {
        &data.secure_note
    } else if data.atype == 3 {
        &data.card
    } else if data.atype == 4 {
        &data.identity
    } else {
        return false;
    };
    match selected {
        None => false,
        Some(v) => !json_is_object_or_null(v),
    }
}

/// Merges the posted `data` into `cipher` for the user `user_uuid`.
///
/// A new or shared cipher that names an organization moves to it, if the
/// user has full access there; one that names none becomes the user's. A
/// named folder must exist and be the user's. The type picks which
/// type-specific part of the request is stored. On success the folder the
/// cipher is to be put in (the request's folder) is returned; on refusal the
/// cipher is left as it was.
pub fn update_cipher_from_data(
    cipher: &mut Cipher,
    data: CipherData,
    user_uuid: &String,
    is_new_or_shared: bool,
    org_access: Option<bool>,
    folder_owner: Option<String>,
) -> (r: Result<Option<String>, ApiError>)
    requires
        !update_panics(data, user_uuid@, is_new_or_shared, org_access, folder_owner),
    ensures
        match update_precheck(data, user_uuid@, is_new_or_shared, org_access, folder_owner) {
            Err(e) => r == Err::<Option<String>, ApiError>(e) && *final(cipher) == *old(cipher),
            Ok(t) => r == Ok::<Option<String>, ApiError>(data.folder_id)
                && is_updated_cipher(*old(cipher), *final(cipher), data, t, *user_uuid, is_new_or_shared),
        },
{
    let ghost d = data;
    let mut new_user = cipher.user_uuid.clone();
    let mut new_org = cipher.organization_uuid.clone();
    if is_new_or_shared {
        match &data.organization_id {
            Some(org_id) => match org_access {
                None => return Err(ApiError::OrgPermissionDenied),
                Some(full) => if full {
                    new_org = Some(org_id.clone());
                    new_user = None;
                } else {
                    return Err(ApiError::OrgDirectAddDenied);
                },
            },
            None => {
                new_user = Some(user_uuid.clone());
            },
        }
    }
    match &data.folder_id {
        Some(_) => match &folder_owner {
            Some(owner) => if !(*owner == *user_uuid) {
                return Err(ApiError::FolderNotOwned);
            },
            None => return Err(ApiError::FolderNotFound),
        },
        None => {},
    }
    let CipherData {
        id: _,
        folder_id,
        organization_id: _,
        atype,
        name,
        notes,
        fields,
        login,
        secure_note,
        card,
        identity,
        favorite,
        password_history,
    } = data;
    let type_data_opt = if atype == 1 {
        login
    } else if atype == 2 {
        secure_note
    } else if atype == 3 {
        card
    } else if atype == 4 {
        identity
    } else {
        return Err(ApiError::InvalidType);
    };
    let mut type_data = match type_data_opt {
        Some(v) => v,
        None => return Err(ApiError::DataMissing),
    };
    let ghost posted_type_data = type_data;

    json_set_member(&mut type_data, "Name", json_from_string(name.clone()));
    let notes_json = match &notes {
        Some(n) => json_from_string(n.clone()),
        None => json_null(),
    };
    json_set_member(&mut type_data, "Notes", notes_json);
    let fields_json = match &fields {
        Some(f) => json_clone(f),
        None => json_null(),
    };
    json_set_member(&mut type_data, "Fields", fields_json);
    let history_json = match &password_history {
        Some(h) => json_clone(h),
        None => json_null(),
    };
    json_set_member(&mut type_data, "PasswordHistory", history_json);

    cipher.favorite = match favorite {
        Some(b) => b,
        None => false,
    };
    cipher.name = name;
    cipher.notes = notes;
    cipher.fields = match &fields {
        Some(f) => Some(json_to_text(f)),
        None => None,
    };
    cipher.data = json_to_text(&type_data);
    cipher.password_history = match &password_history {
        Some(h) => Some(json_to_text(h)),
        None => None,
    };
    cipher.user_uuid = new_user;
    cipher.organization_uuid = new_org;
    assert(posted_type_data == update_precheck(d, user_uuid@, is_new_or_shared, org_access, folder_owner)->Ok_0);
    Ok(folder_id)
}

/// A cipher to be saved and then put, for the requesting user, in `folder`;
/// if putting it there fails, the request is answered with `on_move_failure`.
pub struct CipherWrite {
    pub cipher: Cipher,
    pub folder: Option<String>,
    pub on_move_failure: ApiError,
}

/// A freshly made cipher with the given id, type and name (its data text
/// is whatever `data` is; no rule reads the data of the cipher updated).
pub open spec fn fresh_cipher(uuid: String, atype: i32, name: String, data: String) -> Cipher {
    Cipher {
        uuid,
        atype,
        name,
        notes: None,
        fields: None,
        data,
        password_history: None,
        favorite: false,
        user_uuid: None,
        organization_uuid: None,
    }
}

/// Creating a cipher with id `uuid` from the posted `data`: a fresh cipher
/// of the posted type and name, updated as a new cipher.
pub fn post_ciphers(
    uuid: String,
    data: CipherData,
    user_uuid: &String,
    org_access: Option<bool>,
    folder_owner: Option<String>,
) -> (r: Result<CipherWrite, ApiError>)
    requires
        !update_panics(data, user_uuid@, true, org_access, folder_owner),
    ensures
        match update_precheck(data, user_uuid@, true, org_access, folder_owner) {
            Err(e) => r == Err::<CipherWrite, ApiError>(e),
            Ok(t) => r matches Ok(w) && {
                &&& w.folder == data.folder_id
                &&& w.on_move_failure == ApiError::FolderSaveFailed
                &&& is_updated_cipher(fresh_cipher(uuid, data.atype, data.name, w.cipher.data), w.cipher, data, t, *user_uuid, true)
            },
        },
{
    let mut cipher = Cipher::new(uuid, data.atype, data.name.clone());
    let ghost fresh = cipher;
    match update_cipher_from_data(&mut cipher, data, user_uuid, true, org_access, folder_owner) {
        Err(e) => Err(e),
        Ok(folder) => {
            assert(fresh.uuid == uuid && fresh.atype == data.atype);
            Ok(CipherWrite { cipher, folder, on_move_failure: ApiError::FolderSaveFailed })
        },
    }
}

/// Editing the stored cipher that was looked up: it must exist and be
/// writable, and is then updated as an existing cipher (its owner stays).
pub fn put_cipher(
    found: Option<FoundCipher>,
    data: CipherData,
    user_uuid: &String,
    org_access: Option<bool>,
    folder_owner: Option<String>,
) -> (r: Result<CipherWrite, ApiError>)
    requires
        (found matches Some(f) && f.access.writable) ==> !update_panics(data, user_uuid@, false, org_access, folder_owner),
    ensures
        match access_check(found_access(found), true, ApiError::CipherNotWritable) {
            Err(e) => r == Err::<CipherWrite, ApiError>(e),
            Ok(_) => match update_precheck(data, user_uuid@, false, org_access, folder_owner) {
                Err(e) => r == Err::<CipherWrite, ApiError>(e),
                Ok(t) => r matches Ok(w) && {
                    &&& w.folder == data.folder_id
                    &&& w.on_move_failure == ApiError::FolderSaveFailed
                    &&& is_updated_cipher(found->0.cipher, w.cipher, data, t, *user_uuid, false)
                },
            },
        },
{
    let access = match &found {
        Some(f) => Some(f.access),
        None => None,
    };
    match check_cipher_access(access, true, ApiError::CipherNotWritable) {
        Err(e) => return Err(e),
        Ok(()) => {},
    }
    let mut cipher = match found {
        Some(f) => f.cipher,
        None => return Err(ApiError::CipherNotFound),
    };
    match update_cipher_from_data(&mut cipher, data, user_uuid, false, org_access, folder_owner) {
        Err(e) => Err(e),
        Ok(folder) => Ok(CipherWrite { cipher, folder, on_move_failure: ApiError::FolderSaveFailed }),
    }
}

/// An update moves a cipher into an organization only when it is new or
/// being shared, the request names that organization, and the user has full
/// access there; the user then no longer owns it directly.
pub proof fn lemma_org_only_with_full_access(
    old: Cipher,
    new: Cipher,
    data: CipherData,
    type_data: Value,
    user_uuid: String,
    is_new_or_shared: bool,
    org_access: Option<bool>,
    folder_owner: Option<String>,
)
    requires
        update_precheck(data, user_uuid@, is_new_or_shared, org_access, folder_owner) == Ok::<Value, ApiError>(type_data),
        is_updated_cipher(old, new, data, type_data, user_uuid, is_new_or_shared),
        new.organization_uuid != old.organization_uuid,
    ensures
        is_new_or_shared,
        new.organization_uuid == data.organization_id,
        data.organization_id is Some,
        org_access == Some(true),
        new.user_uuid is None,
{
}

/// A new cipher that is not refused has exactly one owner: the organization
/// the request names, or else the requesting user.
pub proof fn lemma_new_cipher_single_owner(
    uuid: String,
    new: Cipher,
    data: CipherData,
    type_data: Value,
    user_uuid: String,
)
    requires
        is_updated_cipher(fresh_cipher(uuid, data.atype, data.name, new.data), new, data, type_data, user_uuid, true),
    ensures
        new.user_uuid is Some != new.organization_uuid is Some,
        new.organization_uuid is Some ==> new.organization_uuid == data.organization_id,
        new.user_uuid is Some ==> new.user_uuid == Some(user_uuid),
{
}

/// What the checks of an update answer, stated over the inputs: an
/// organization is only refused for a new or shared cipher, without
/// membership or without full access; a named folder is refused only when it
/// does not exist or is not the user's, whether the cipher is new, shared or
/// edited; after that, types 1 to 4 select the login, secure note, card and
/// identity part, a missing part is refused, and any other type is invalid.
pub proof fn lemma_update_precheck_outcome(
    data: CipherData,
    user_uuid: Seq<char>,
    is_new_or_shared: bool,
    org_access: Option<bool>,
    folder_owner: Option<String>,
)
    ensures
        (is_new_or_shared && data.organization_id is Some && org_access is None)
            ==> update_precheck(data, user_uuid, is_new_or_shared, org_access, folder_owner)
                == Err::<Value, ApiError>(ApiError::OrgPermissionDenied),
        (is_new_or_shared && data.organization_id is Some && org_access == Some(false))
            ==> update_precheck(data, user_uuid, is_new_or_shared, org_access, folder_owner)
                == Err::<Value, ApiError>(ApiError::OrgDirectAddDenied),
        (!(is_new_or_shared && data.organization_id is Some) || org_access == Some(true))
            && data.folder_id is Some && folder_owner is None
            ==> update_precheck(data, user_uuid, is_new_or_shared, org_access, folder_owner)
                == Err::<Value, ApiError>(ApiError::FolderNotFound),
        (!(is_new_or_shared && data.organization_id is Some) || org_access == Some(true))
            && data.folder_id is Some && (folder_owner matches Some(o) && o@ != user_uuid)
            ==> update_precheck(data, user_uuid, is_new_or_shared, org_access, folder_owner)
                == Err::<Value, ApiError>(ApiError::FolderNotOwned),
        (folder_owner matches Some(o) && o@ == user_uuid)
            ==> update_precheck(data, user_uuid, is_new_or_shared, org_access, folder_owner)
                != Err::<Value, ApiError>(ApiError::FolderNotOwned)
            && update_precheck(data, user_uuid, is_new_or_shared, org_access, folder_owner)
                != Err::<Value, ApiError>(ApiError::FolderNotFound),
        data.folder_id is None
            ==> update_precheck(data, user_uuid, is_new_or_shared, org_access, folder_owner)
                != Err::<Value, ApiError>(ApiError::FolderNotOwned)
            && update_precheck(data, user_uuid, is_new_or_shared, org_access, folder_owner)
                != Err::<Value, ApiError>(ApiError::FolderNotFound),
        ({
            let org_ok = !(is_new_or_shared && data.organization_id is Some) || org_access == Some(true);
            let folder_ok = data.folder_id is None || (folder_owner matches Some(o) && o@ == user_uuid);
            let r = update_precheck(data, user_uuid, is_new_or_shared, org_access, folder_owner);
            &&& org_ok && folder_ok && data.atype == 1 ==> r == (match data.login {
                Some(v) => Ok::<Value, ApiError>(v),
                None => Err(ApiError::DataMissing),
            })
            &&& org_ok && folder_ok && data.atype == 2 ==> r == (match data.secure_note {
                Some(v) => Ok::<Value, ApiError>(v),
                None => Err(ApiError::DataMissing),
            })
            &&& org_ok && folder_ok && data.atype == 3 ==> r == (match data.card {
                Some(v) => Ok::<Value, ApiError>(v),
                None => Err(ApiError::DataMissing),
            })
            &&& org_ok && folder_ok && data.atype == 4 ==> r == (match data.identity {
                Some(v) => Ok::<Value, ApiError>(v),
                None => Err(ApiError::DataMissing),
            })
            &&& org_ok && folder_ok && !(1 <= data.atype <= 4) ==> r == Err::<Value, ApiError>(ApiError::InvalidType)
            &&& r is Ok <==> org_ok && folder_ok && 1 <= data.atype <= 4
                && (if data.atype == 1 {
                    data.login is Some
                } else if data.atype == 2 {
                    data.secure_note is Some
                } else if data.atype == 3 {
                    data.card is Some
                } else {
                    data.identity is Some
                })
        }),
        data.organization_id is None ==> update_precheck(data, user_uuid, true, org_access, folder_owner)
            == update_precheck(data, user_uuid, false, org_access, folder_owner),
{
}

/// What an update stores, stated field by field: the cipher keeps its id
/// and type; name and notes are the posted ones; it is a favorite only when
/// the request says so; fields and history are stored as the posted values'
/// text; the data is the selected type data with the four members set from
/// the request; a new or shared cipher naming an organization moves to it
/// and leaves the user, one naming none becomes the user's, and an edited
/// cipher keeps its owners.
pub proof fn lemma_updated_cipher_fields(
    old: Cipher,
    new: Cipher,
    data: CipherData,
    type_data: Value,
    user_uuid: String,
    is_new_or_shared: bool,
)
    requires
        is_updated_cipher(old, new, data, type_data, user_uuid, is_new_or_shared),
    ensures
        new.uuid == old.uuid,
        new.atype == old.atype,
        new.name == data.name,
        new.notes == data.notes,
        new.favorite <==> data.favorite == Some(true),
        data.fields is None <==> new.fields is None,
        data.fields matches Some(f) ==> (new.fields matches Some(t) && t@ == json_text(f)),
        data.password_history is None <==> new.password_history is None,
        data.password_history matches Some(h) ==> (new.password_history matches Some(t) && t@ == json_text(h)),
        new.data@ == json_with_member(
            json_with_member(
                json_with_member(
                    json_with_member(json_text(type_data), "Name"@, json_quoted(data.name@)),
                    "Notes"@,
                    match data.notes {
                        Some(n) => json_quoted(n@),
                        None => json_null_text(),
                    },
                ),
                "Fields"@,
                match data.fields {
                    Some(f) => json_text(f),
                    None => json_null_text(),
                },
            ),
            "PasswordHistory"@,
            match data.password_history {
                Some(h) => json_text(h),
                None => json_null_text(),
            },
        ),
        is_new_or_shared && data.organization_id is Some ==> new.organization_uuid == data.organization_id && new.user_uuid is None,
        is_new_or_shared && data.organization_id is None ==> new.user_uuid == Some(user_uuid)
            && new.organization_uuid == old.organization_uuid,
        !is_new_or_shared ==> new.user_uuid == old.user_uuid && new.organization_uuid == old.organization_uuid,
{
}

} // verus!
