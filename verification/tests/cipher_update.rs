use bitwarden_ciphers::access::{get_cipher, FoundCipher};
use bitwarden_ciphers::error::ApiError;
use bitwarden_ciphers::model::{Cipher, CipherAccess, CipherData};
use bitwarden_ciphers::update::{post_ciphers, put_cipher, update_cipher_from_data, update_would_panic};
use serde_json::Value;

fn login_value() -> Value {
    let mut m = serde_json::Map::new();
    m.insert("Username".to_string(), Value::String("alice".to_string()));
    Value::Object(m)
}

fn data(atype: i32) -> CipherData {
    CipherData {
        id: None,
        folder_id: None,
        organization_id: None,
        atype,
        name: "mail".to_string(),
        notes: None,
        fields: None,
        login: Some(login_value()),
        secure_note: None,
        card: None,
        identity: None,
        favorite: None,
        password_history: None,
    }
}

fn user() -> String {
    "user-1".to_string()
}

#[test]
fn new_cipher_without_organization_belongs_to_user() {
    let w = post_ciphers("c1".to_string(), data(1), &user(), None, None).unwrap();
    assert_eq!(w.cipher.uuid, "c1");
    assert_eq!(w.cipher.atype, 1);
    assert_eq!(w.cipher.user_uuid, Some("user-1".to_string()));
    assert_eq!(w.cipher.organization_uuid, None);
    assert_eq!(w.folder, None);
    assert_eq!(w.on_move_failure, ApiError::FolderSaveFailed);
    assert!(!w.cipher.favorite);
    assert_eq!(
        w.cipher.data,
        "{\"Fields\":null,\"Name\":\"mail\",\"Notes\":null,\"PasswordHistory\":null,\"Username\":\"alice\"}"
    );
}

#[test]
fn stored_data_carries_notes_fields_and_history() {
    let mut d = data(1);
    d.notes = Some("a \"quoted\" note".to_string());
    d.fields = Some(Value::Array(vec![Value::Bool(true)]));
    d.password_history = Some(Value::Array(vec![]));
    d.favorite = Some(true);
    let w = post_ciphers("c1".to_string(), d, &user(), None, None).unwrap();
    assert_eq!(
        w.cipher.data,
        "{\"Fields\":[true],\"Name\":\"mail\",\"Notes\":\"a \\\"quoted\\\" note\",\"PasswordHistory\":[],\"Username\":\"alice\"}"
    );
    assert_eq!(w.cipher.fields, Some("[true]".to_string()));
    assert_eq!(w.cipher.password_history, Some("[]".to_string()));
    assert_eq!(w.cipher.notes, Some("a \"quoted\" note".to_string()));
    assert!(w.cipher.favorite);
}

#[test]
fn existing_name_member_is_overwritten() {
    let mut d = data(1);
    let mut m = serde_json::Map::new();
    m.insert("Name".to_string(), Value::String("old".to_string()));
    d.login = Some(Value::Object(m));
    let w = post_ciphers("c1".to_string(), d, &user(), None, None).unwrap();
    assert_eq!(w.cipher.data, "{\"Fields\":null,\"Name\":\"mail\",\"Notes\":null,\"PasswordHistory\":null}");
}

#[test]
fn null_type_data_becomes_an_object() {
    let mut d = data(1);
    d.login = Some(Value::Null);
    assert!(!update_would_panic(&d, &user(), true, None, &None));
    let w = post_ciphers("c1".to_string(), d, &user(), None, None).unwrap();
    assert_eq!(w.cipher.data, "{\"Fields\":null,\"Name\":\"mail\",\"Notes\":null,\"PasswordHistory\":null}");
}

#[test]
fn new_cipher_goes_to_organization_with_full_access() {
    let mut d = data(1);
    d.organization_id = Some("org-1".to_string());
    let w = post_ciphers("c1".to_string(), d, &user(), Some(true), None).unwrap();
    assert_eq!(w.cipher.organization_uuid, Some("org-1".to_string()));
    assert_eq!(w.cipher.user_uuid, None);
}

#[test]
fn organization_without_membership_is_refused() {
    let mut d = data(1);
    d.organization_id = Some("org-1".to_string());
    let r = post_ciphers("c1".to_string(), d, &user(), None, None);
    assert_eq!(r.err(), Some(ApiError::OrgPermissionDenied));
}

#[test]
fn organization_without_full_access_is_refused() {
    let mut d = data(1);
    d.organization_id = Some("org-1".to_string());
    let r = post_ciphers("c1".to_string(), d, &user(), Some(false), None);
    assert_eq!(r.err(), Some(ApiError::OrgDirectAddDenied));
    assert_eq!(
        ApiError::OrgDirectAddDenied.message(),
        "You don't have permission to add cipher directly to organization"
    );
}

#[test]
fn missing_folder_is_refused() {
    let mut d = data(1);
    d.folder_id = Some("f1".to_string());
    let r = post_ciphers("c1".to_string(), d, &user(), None, None);
    assert_eq!(r.err(), Some(ApiError::FolderNotFound));
}

#[test]
fn folder_of_another_user_is_refused() {
    let mut d = data(1);
    d.folder_id = Some("f1".to_string());
    let r = post_ciphers("c1".to_string(), d, &user(), None, Some("user-2".to_string()));
    assert_eq!(r.err(), Some(ApiError::FolderNotOwned));
    assert_eq!(ApiError::FolderNotOwned.message(), "Folder is not owned by user");
}

#[test]
fn own_folder_is_returned_as_target() {
    let mut d = data(1);
    d.folder_id = Some("f1".to_string());
    let w = post_ciphers("c1".to_string(), d, &user(), None, Some("user-1".to_string())).unwrap();
    assert_eq!(w.folder, Some("f1".to_string()));
}

#[test]
fn unknown_type_is_refused() {
    let r = post_ciphers("c1".to_string(), data(5), &user(), None, None);
    assert_eq!(r.err(), Some(ApiError::InvalidType));
    assert_eq!(ApiError::InvalidType.message(), "Invalid type");
}

#[test]
fn missing_type_data_is_refused() {
    let r = post_ciphers("c1".to_string(), data(3), &user(), None, None);
    assert_eq!(r.err(), Some(ApiError::DataMissing));
}

#[test]
fn card_type_selects_card_data() {
    let mut d = data(3);
    d.card = Some(Value::Object(serde_json::Map::new()));
    let w = post_ciphers("c1".to_string(), d, &user(), None, None).unwrap();
    assert_eq!(w.cipher.data, "{\"Fields\":null,\"Name\":\"mail\",\"Notes\":null,\"PasswordHistory\":null}");
}

#[test]
fn non_object_type_data_would_panic() {
    let mut d = data(1);
    d.login = Some(Value::Array(vec![]));
    assert!(update_would_panic(&d, &user(), true, None, &None));
    d.folder_id = Some("f1".to_string());
    // the folder is refused before the type data is touched
    assert!(!update_would_panic(&d, &user(), true, None, &None));
}

#[test]
fn refused_update_leaves_cipher_unchanged() {
    let mut c = Cipher::new("c1".to_string(), 1, "before".to_string());
    c.user_uuid = Some("user-1".to_string());
    let r = update_cipher_from_data(&mut c, data(7), &user(), false, None, None);
    assert_eq!(r, Err(ApiError::InvalidType));
    assert_eq!(c.name, "before");
    assert_eq!(c.data, "");
}

#[test]
fn editing_keeps_owner_and_type() {
    let mut stored = Cipher::new("c1".to_string(), 2, "before".to_string());
    stored.organization_uuid = Some("org-9".to_string());
    let mut d = data(1);
    d.organization_id = Some("org-1".to_string());
    let found = FoundCipher { cipher: stored, access: CipherAccess { readable: true, writable: true } };
    let w = put_cipher(Some(found), d, &user(), None, None).unwrap();
    assert_eq!(w.cipher.organization_uuid, Some("org-9".to_string()));
    assert_eq!(w.cipher.user_uuid, None);
    assert_eq!(w.cipher.atype, 2);
    assert_eq!(w.cipher.name, "mail");
}

#[test]
fn editing_requires_write_access() {
    let stored = Cipher::new("c1".to_string(), 1, "n".to_string());
    let found = FoundCipher { cipher: stored, access: CipherAccess { readable: true, writable: false } };
    let r = put_cipher(Some(found), data(1), &user(), None, None);
    assert_eq!(r.err(), Some(ApiError::CipherNotWritable));
    let r = put_cipher(None, data(1), &user(), None, None);
    assert_eq!(r.err(), Some(ApiError::CipherNotFound));
}

#[test]
fn reading_a_cipher_checks_visibility() {
    assert_eq!(get_cipher(None), Err(ApiError::CipherNotFound));
    assert_eq!(
        get_cipher(Some(CipherAccess { readable: false, writable: false })),
        Err(ApiError::CipherNotOwned)
    );
    assert_eq!(get_cipher(Some(CipherAccess { readable: true, writable: false })), Ok(()));
    assert_eq!(ApiError::CipherNotFound.message(), "Cipher doesn't exist");
}

#[test]
fn notes_with_control_characters_are_escaped() {
    let mut d = data(1);
    d.notes = Some("a\u{1}b\tc\\d\u{7f}é".to_string());
    let w = post_ciphers("c1".to_string(), d, &user(), None, None).unwrap();
    assert_eq!(
        w.cipher.data,
        "{\"Fields\":null,\"Name\":\"mail\",\"Notes\":\"a\\u0001b\\tc\\\\d\u{7f}é\",\"PasswordHistory\":null,\"Username\":\"alice\"}"
    );
}
