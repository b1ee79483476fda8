use bitwarden_ciphers::access::{delete_cipher_attachment_by_id, delete_cipher_by_uuid, post_attachment, Proceed};
use bitwarden_ciphers::attachment::{attachment_file_name, attachment_for, plan_upload, SaveOutcome, ATTACHMENT_ID_BYTES};
use bitwarden_ciphers::error::ApiError;
use bitwarden_ciphers::import::{import_folder_uuid, post_ciphers_import, FolderRelation, ImportAction, ImportEvent};
use bitwarden_ciphers::model::CipherData;
use bitwarden_ciphers::model::{CipherAccess, CipherInfo};
use bitwarden_ciphers::purge::delete_all;
use bitwarden_ciphers::selection::{
    delete_cipher_selected, folder_id_field, ids_field, move_cipher_selected, FolderIdField, IdsField,
};
use serde_json::Value;

fn s(x: &str) -> String {
    x.to_string()
}

fn info(id: &str, readable: bool, writable: bool) -> CipherInfo {
    CipherInfo { uuid: s(id), access: CipherAccess { readable, writable } }
}

#[test]
fn bulk_delete_deletes_each_named_cipher() {
    let infos = vec![info("a", true, true), info("b", true, true)];
    let ids = IdsField::Array(vec![Some(s("a")), None, Some(s("b"))]);
    let p = delete_cipher_selected(&ids, &infos).unwrap();
    assert_eq!(p.deletions, vec![s("a"), s("b")]);
    assert_eq!(p.refusal, None);
    assert_eq!(p.on_failure, ApiError::DeleteCipherFailed);
}

#[test]
fn bulk_delete_of_a_repeated_id_finds_it_gone() {
    let infos = vec![info("a", true, true)];
    let ids = IdsField::Array(vec![Some(s("a")), Some(s("a"))]);
    let p = delete_cipher_selected(&ids, &infos).unwrap();
    assert_eq!(p.deletions, vec![s("a")]);
    assert_eq!(p.refusal, Some(ApiError::CipherNotFound));
}

#[test]
fn bulk_delete_stops_at_unwritable_cipher() {
    let infos = vec![info("a", true, true), info("b", true, false), info("c", true, true)];
    let ids = IdsField::Array(vec![Some(s("a")), Some(s("b")), Some(s("c"))]);
    let p = delete_cipher_selected(&ids, &infos).unwrap();
    assert_eq!(p.deletions, vec![s("a")]);
    assert_eq!(p.refusal, Some(ApiError::CipherNotDeletable));
    assert_eq!(ApiError::CipherNotDeletable.message(), "Cipher can't be deleted by user");
}

#[test]
fn bulk_delete_needs_an_id_list() {
    assert_eq!(delete_cipher_selected(&IdsField::Missing, &vec![]).err(), Some(ApiError::MissingIds));
    assert_eq!(delete_cipher_selected(&IdsField::NotArray, &vec![]).err(), Some(ApiError::IdsNotArray));
    assert_eq!(ApiError::IdsNotArray.message(), "Posted ids field is not an array");
}

#[test]
fn bulk_move_checks_folder_first() {
    let u = s("user-1");
    let ids = IdsField::Missing;
    assert_eq!(
        move_cipher_selected(&FolderIdField::NotString, &None, &u, &ids, &vec![]).err(),
        Some(ApiError::FolderIdWrongFormat)
    );
    assert_eq!(
        move_cipher_selected(&FolderIdField::Str(s("f")), &None, &u, &ids, &vec![]).err(),
        Some(ApiError::FolderNotFound)
    );
    assert_eq!(
        move_cipher_selected(&FolderIdField::Str(s("f")), &Some(s("user-2")), &u, &ids, &vec![]).err(),
        Some(ApiError::FolderNotOwned)
    );
    assert_eq!(
        move_cipher_selected(&FolderIdField::Str(s("f")), &Some(s("user-1")), &u, &ids, &vec![]).err(),
        Some(ApiError::MissingIds)
    );
}

#[test]
fn bulk_move_moves_visible_ciphers_until_one_is_not() {
    let u = s("user-1");
    let infos = vec![info("a", true, false), info("b", false, false)];
    let ids = IdsField::Array(vec![Some(s("a")), Some(s("a")), Some(s("b")), Some(s("a"))]);
    let p = move_cipher_selected(&FolderIdField::Str(s("f")), &Some(s("user-1")), &u, &ids, &infos).unwrap();
    assert_eq!(p.folder, Some(s("f")));
    assert_eq!(p.moves, vec![s("a"), s("a")]);
    assert_eq!(p.refusal, Some(ApiError::CipherNotAccessible));
    assert_eq!(p.on_failure, ApiError::FolderSaveFailed);
    let p = move_cipher_selected(&FolderIdField::Missing, &None, &u, &IdsField::Array(vec![Some(s("a"))]), &infos).unwrap();
    assert_eq!(p.folder, None);
    assert_eq!(p.refusal, None);
}

#[test]
fn import_uses_last_relation_for_each_cipher() {
    let rels = vec![
        FolderRelation { cipher_index: 0, folder_index: 1 },
        FolderRelation { cipher_index: 2, folder_index: 0 },
        FolderRelation { cipher_index: 0, folder_index: 0 },
        FolderRelation { cipher_index: 9, folder_index: 7 },
    ];
    let p = post_ciphers_import(&rels, 3, 2);
    assert_eq!(p.folder_index_of, vec![Some(0), None, Some(0)]);
    assert_eq!(p.next_action(), ImportAction::CreateFolder(0));
    let folders = vec![s("f0"), s("f1")];
    assert_eq!(import_folder_uuid(Some(1), &folders), Some(s("f1")));
    assert_eq!(import_folder_uuid(None, &folders), None);
}

#[test]
fn attachment_name_is_lowercase_hex() {
    assert_eq!(ATTACHMENT_ID_BYTES, 10);
    assert_eq!(
        attachment_file_name(&vec![0xde, 0xad, 0xbe, 0xef, 0, 1, 0x0a, 0xff, 0x10, 0x9c]),
        "deadbeef00010aff109c"
    );
    let target = plan_upload(&s("c1"), &vec![0xab; 10]);
    assert_eq!(target.dir, "c1");
    assert_eq!(target.file_name, "abababababababababab");
    let name = attachment_file_name(&vec![7u8; 10]);
    assert_eq!(name.len(), 20);
    assert_eq!(name, "07070707070707070707");
}

#[test]
fn only_whole_files_become_attachments() {
    let a = attachment_for(s("id"), s("c1"), s("doc.txt"), SaveOutcome::File(12)).unwrap();
    assert_eq!((a.id, a.cipher_uuid, a.file_name, a.file_size), (s("id"), s("c1"), s("doc.txt"), 12));
    let big = attachment_for(s("id"), s("c1"), s("x"), SaveOutcome::File((1u64 << 32) + 5)).unwrap();
    assert_eq!(big.file_size, 5);
    assert!(attachment_for(s("id"), s("c1"), s("x"), SaveOutcome::Partial).is_none());
    assert!(attachment_for(s("id"), s("c1"), s("x"), SaveOutcome::NotFile).is_none());
    assert!(attachment_for(s("id"), s("c1"), s("x"), SaveOutcome::Error).is_none());
}

#[test]
fn attachment_upload_requires_write_access() {
    assert_eq!(post_attachment(None), Err(ApiError::CipherNotFound));
    assert_eq!(
        post_attachment(Some(CipherAccess { readable: true, writable: false })),
        Err(ApiError::CipherNotWritable)
    );
}

#[test]
fn deleting_attachment_checks_its_cipher() {
    let w = Some(CipherAccess { readable: true, writable: true });
    assert_eq!(delete_cipher_attachment_by_id(&s("c1"), &None, w), Err(ApiError::AttachmentNotFound));
    assert_eq!(delete_cipher_attachment_by_id(&s("c1"), &Some(s("c2")), w), Err(ApiError::AttachmentOtherCipher));
    assert_eq!(
        delete_cipher_attachment_by_id(&s("c1"), &Some(s("c1")), Some(CipherAccess { readable: true, writable: false })),
        Err(ApiError::AttachmentCipherNotDeletable)
    );
    assert_eq!(
        delete_cipher_attachment_by_id(&s("c1"), &Some(s("c1")), w),
        Ok(Proceed { on_failure: ApiError::DeleteAttachmentFailed })
    );
    assert_eq!(ApiError::DeleteAttachmentFailed.message(), "Deleting attachement failed");
}

#[test]
fn deleting_one_cipher_needs_write_access() {
    assert_eq!(delete_cipher_by_uuid(None), Err(ApiError::CipherNotFound));
    assert_eq!(
        delete_cipher_by_uuid(Some(CipherAccess { readable: true, writable: false })),
        Err(ApiError::CipherNotDeletable)
    );
    assert_eq!(
        delete_cipher_by_uuid(Some(CipherAccess { readable: false, writable: true })),
        Ok(Proceed { on_failure: ApiError::DeleteCipherFailed })
    );
}

#[test]
fn purge_needs_the_password() {
    assert_eq!(delete_all(false, vec![s("c")], vec![]).err(), Some(ApiError::InvalidPassword));
    let p = delete_all(true, vec![s("c1"), s("c2")], vec![s("f1")]).unwrap();
    assert_eq!(p.cipher_deletions, vec![s("c1"), s("c2")]);
    assert_eq!(p.folder_deletions, vec![s("f1")]);
    assert_eq!(p.on_cipher_failure, ApiError::DeleteCipherFailed);
    assert_eq!(p.on_folder_failure, ApiError::DeleteFolderFailed);
}

fn import_data(name: &str) -> CipherData {
    CipherData {
        id: None,
        folder_id: None,
        organization_id: None,
        atype: 2,
        name: s(name),
        notes: None,
        fields: None,
        login: None,
        secure_note: Some(Value::Object(serde_json::Map::new())),
        card: None,
        identity: None,
        favorite: None,
        password_history: None,
    }
}

#[test]
fn import_creates_folders_then_ciphers_then_updates_revision() {
    let rels = vec![FolderRelation { cipher_index: 1, folder_index: 1 }];
    let mut run = post_ciphers_import(&rels, 2, 2);
    assert_eq!(run.next_action(), ImportAction::CreateFolder(0));
    assert_eq!(run.step(ImportEvent::FolderCreated(s("f0"))), ImportAction::CreateFolder(1));
    assert_eq!(
        run.step(ImportEvent::FolderCreated(s("f1"))),
        ImportAction::CreateCipher { index: 0, folder_index: None }
    );
    let user = s("user-1");
    let c0 = run.create_cipher(s("c0"), import_data("first"), &user, None, None).unwrap();
    assert_eq!(c0.import_folder, None);
    assert_eq!(c0.write.cipher.user_uuid, Some(s("user-1")));
    assert_eq!(
        run.step(ImportEvent::CipherCreated(Ok(()))),
        ImportAction::CreateCipher { index: 1, folder_index: Some(1) }
    );
    let c1 = run.create_cipher(s("c1"), import_data("second"), &user, None, None).unwrap();
    assert_eq!(c1.import_folder, Some(s("f1")));
    assert_eq!(c1.write.cipher.name, "second");
    assert_eq!(run.step(ImportEvent::CipherCreated(Ok(()))), ImportAction::UpdateRevision);
    assert_eq!(run.step(ImportEvent::RevisionUpdated(true)), ImportAction::Finish(Ok(())));
    assert_eq!(run.folder_uuids, vec![s("f0"), s("f1")]);
}

#[test]
fn import_stops_at_first_refused_cipher() {
    let mut run = post_ciphers_import(&vec![], 3, 0);
    assert_eq!(run.next_action(), ImportAction::CreateCipher { index: 0, folder_index: None });
    let r = run.create_cipher(s("c0"), { let mut d = import_data("x"); d.atype = 9; d }, &s("u"), None, None);
    assert_eq!(r.err(), Some(ApiError::InvalidType));
    assert_eq!(
        run.step(ImportEvent::CipherCreated(Err(ApiError::InvalidType))),
        ImportAction::Finish(Err(ApiError::InvalidType))
    );
    assert_eq!(run.next_cipher, 0);
}

#[test]
fn import_revision_failure_is_refused() {
    let mut run = post_ciphers_import(&vec![], 0, 0);
    assert_eq!(run.next_action(), ImportAction::UpdateRevision);
    assert_eq!(
        run.step(ImportEvent::RevisionUpdated(false)),
        ImportAction::Finish(Err(ApiError::RevisionUpdateFailed))
    );
    assert_eq!(
        ApiError::RevisionUpdateFailed.message(),
        "Failed to update the revision, please log out and log back in to finish import."
    );
}

#[test]
fn ids_are_read_from_the_body() {
    let body: Value = serde_json::from_str(r#"{"Ids":["a",3,"b",null],"FolderId":"f"}"#).unwrap();
    match ids_field(&body) {
        IdsField::Array(items) => assert_eq!(items, vec![Some(s("a")), None, Some(s("b")), None]),
        _ => panic!("expected a list"),
    }
    match folder_id_field(&body) {
        FolderIdField::Str(f) => assert_eq!(f, "f"),
        _ => panic!("expected a string"),
    }
    let body: Value = serde_json::from_str(r#"{"Ids":"a","FolderId":7}"#).unwrap();
    assert!(matches!(ids_field(&body), IdsField::NotArray));
    assert!(matches!(folder_id_field(&body), FolderIdField::NotString));
    let body: Value = serde_json::from_str(r#"{}"#).unwrap();
    assert!(matches!(ids_field(&body), IdsField::Missing));
    assert!(matches!(folder_id_field(&body), FolderIdField::Missing));
    let body: Value = serde_json::from_str(r#"["Ids"]"#).unwrap();
    assert!(matches!(ids_field(&body), IdsField::Missing));
}

#[test]
fn bulk_delete_from_a_json_body() {
    let body: Value = serde_json::from_str(r#"{"Ids":["a","b"]}"#).unwrap();
    let infos = vec![info("a", true, true), info("b", true, true)];
    let p = delete_cipher_selected(&ids_field(&body), &infos).unwrap();
    assert_eq!(p.deletions, vec![s("a"), s("b")]);
}
