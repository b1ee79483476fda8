use bitwarden_ciphers::access::FoundCipher;
use bitwarden_ciphers::collections::{post_collections_admin, symmetric_difference_exec};
use bitwarden_ciphers::error::ApiError;
use bitwarden_ciphers::model::{Cipher, CipherAccess, CipherData, CollectionInfo};
use bitwarden_ciphers::share::{
    put_cipher_share_selected, share_cipher_by_uuid, share_selected_run, ShareSelectedAction, ShareSelectedRun,
};
use serde_json::Value;

fn s(x: &str) -> String {
    x.to_string()
}

fn coll(id: &str, writable: bool) -> CollectionInfo {
    CollectionInfo { uuid: s(id), writable }
}

const WRITABLE: Option<CipherAccess> = Some(CipherAccess { readable: true, writable: true });

fn changes(p: &bitwarden_ciphers::collections::CollectionsPlan) -> Vec<(String, bool)> {
    p.changes.iter().map(|c| (c.collection.clone(), c.add)).collect()
}

#[test]
fn symmetric_difference_keeps_one_sided_ids_once() {
    let a = vec![s("a"), s("b"), s("a"), s("x")];
    let b = vec![s("b"), s("c"), s("c")];
    assert_eq!(symmetric_difference_exec(&a, &b), vec![s("a"), s("x"), s("c")]);
}

#[test]
fn collections_update_adds_posted_and_removes_others() {
    let infos = vec![coll("a", true), coll("b", true), coll("c", true)];
    let p = post_collections_admin(WRITABLE, &vec![s("a"), s("b")], &vec![s("b"), s("c")], &infos).unwrap();
    assert_eq!(changes(&p), vec![(s("a"), true), (s("c"), false)]);
    assert_eq!(p.refusal, None);
}

#[test]
fn collections_update_stops_at_unwritable_collection() {
    let infos = vec![coll("a", true), coll("b", true), coll("c", false)];
    let p = post_collections_admin(WRITABLE, &vec![s("a"), s("b")], &vec![s("b"), s("c")], &infos).unwrap();
    assert_eq!(changes(&p), vec![(s("a"), true)]);
    assert_eq!(p.refusal, Some(ApiError::NoCollectionRights));
    assert_eq!(ApiError::NoCollectionRights.message(), "No rights to modify the collection");
}

#[test]
fn collections_update_stops_at_unknown_collection() {
    let infos = vec![coll("b", true)];
    let p = post_collections_admin(WRITABLE, &vec![s("z"), s("b")], &vec![s("b")], &infos).unwrap();
    assert_eq!(changes(&p), vec![]);
    assert_eq!(p.refusal, Some(ApiError::InvalidCollection));
}

#[test]
fn collections_update_of_same_set_changes_nothing() {
    let infos = vec![];
    let p = post_collections_admin(WRITABLE, &vec![s("a"), s("b")], &vec![s("b"), s("a"), s("b")], &infos).unwrap();
    assert_eq!(changes(&p), vec![]);
    assert_eq!(p.refusal, None);
}

#[test]
fn collections_update_requires_write_access() {
    let r = post_collections_admin(Some(CipherAccess { readable: true, writable: false }), &vec![], &vec![], &vec![]);
    assert_eq!(r.err(), Some(ApiError::CipherNotWritable));
    let r = post_collections_admin(None, &vec![], &vec![], &vec![]);
    assert_eq!(r.err(), Some(ApiError::CipherNotFound));
}

fn share_data(org: Option<&str>, id: Option<&str>) -> CipherData {
    CipherData {
        id: id.map(s),
        folder_id: None,
        organization_id: org.map(s),
        atype: 2,
        name: s("note"),
        notes: Some(s("text")),
        fields: None,
        login: None,
        secure_note: Some(Value::Object(serde_json::Map::new())),
        card: None,
        identity: None,
        favorite: Some(false),
        password_history: None,
    }
}

fn found() -> Option<FoundCipher> {
    let mut c = Cipher::new(s("c1"), 2, s("note"));
    c.user_uuid = Some(s("user-1"));
    Some(FoundCipher { cipher: c, access: CipherAccess { readable: true, writable: true } })
}

#[test]
fn sharing_moves_cipher_into_organization_and_collections() {
    let infos = vec![coll("k1", true), coll("k2", true)];
    let p = share_cipher_by_uuid(found(), share_data(Some("org-1"), None), &s("user-1"), Some(true), None, &vec![s("k2"), s("k1")], &infos).unwrap();
    assert_eq!(p.write.cipher.organization_uuid, Some(s("org-1")));
    assert_eq!(p.write.cipher.user_uuid, None);
    assert_eq!(p.collection_saves, vec![s("k2"), s("k1")]);
    assert_eq!(p.refusal, None);
    assert_eq!(
        p.write.cipher.data,
        "{\"Fields\":null,\"Name\":\"note\",\"Notes\":\"text\",\"PasswordHistory\":null}"
    );
}

#[test]
fn sharing_without_organization_is_refused() {
    let r = share_cipher_by_uuid(found(), share_data(None, None), &s("user-1"), None, None, &vec![], &vec![]);
    assert_eq!(r.err(), Some(ApiError::OrgIdMissing));
    assert_eq!(ApiError::OrgIdMissing.message(), "Organization id not provided");
}

#[test]
fn sharing_stops_at_invalid_collection() {
    let infos = vec![coll("k1", true)];
    let p = share_cipher_by_uuid(found(), share_data(Some("org-1"), None), &s("user-1"), Some(true), None, &vec![s("k1"), s("nope"), s("k1")], &infos).unwrap();
    assert_eq!(p.collection_saves, vec![s("k1")]);
    assert_eq!(p.refusal, Some(ApiError::InvalidCollection));
}

#[test]
fn sharing_requires_write_access() {
    let mut f = found().unwrap();
    f.access.writable = false;
    let r = share_cipher_by_uuid(Some(f), share_data(Some("org-1"), None), &s("user-1"), Some(true), None, &vec![], &vec![]);
    assert_eq!(r.err(), Some(ApiError::CipherNotWritable));
}

#[test]
fn share_selected_checks_in_order() {
    assert_eq!(put_cipher_share_selected(&vec![], &vec![]).err(), Some(ApiError::NoCipherSelected));
    assert_eq!(
        put_cipher_share_selected(&vec![share_data(None, Some("a"))], &vec![]).err(),
        Some(ApiError::NoCollectionSelected)
    );
    assert_eq!(
        put_cipher_share_selected(&vec![share_data(None, Some("a")), share_data(None, None)], &vec![s("k")]).err(),
        Some(ApiError::MissingIds)
    );
    assert_eq!(
        put_cipher_share_selected(&vec![share_data(None, Some("a")), share_data(None, Some("b"))], &vec![s("k")]).unwrap(),
        vec![s("a"), s("b")]
    );
}

#[test]
fn share_selected_goes_last_first_without_attachments() {
    assert_eq!(share_selected_run(1, 3).err(), Some(ApiError::CipherHasAttachments));
    let mut run = share_selected_run(0, 3).unwrap();
    assert_eq!(run.next_action(), ShareSelectedAction::Share(2));
    assert_eq!(run.step(Ok(())), ShareSelectedAction::Share(1));
    assert_eq!(run.step(Ok(())), ShareSelectedAction::Share(0));
    assert_eq!(run.step(Ok(())), ShareSelectedAction::Finish(Ok(())));
    assert_eq!(run.shared, 3);
    let empty = share_selected_run(0, 0).unwrap();
    assert_eq!(empty.next_action(), ShareSelectedAction::Finish(Ok(())));
}

#[test]
fn share_selected_stops_at_first_refusal() {
    let mut run = ShareSelectedRun { n: 3, shared: 0 };
    assert_eq!(run.step(Ok(())), ShareSelectedAction::Share(1));
    assert_eq!(run.step(Err(ApiError::NoCollectionRights)), ShareSelectedAction::Finish(Err(ApiError::NoCollectionRights)));
    assert_eq!(run.shared, 1);
}
