//! Requests that act on several ciphers at once, named by a list of ids:
//! deleting them, or moving them into a folder.
use vstd::prelude::*;
use crate::access::{access_check, check_cipher_access};
use crate::collections::contains_str;
use crate::error::ApiError;
use crate::json::{
    is_array_text, is_string_text, json_array_items, json_as_array, json_as_str, json_get, json_member,
    json_quoted, json_text,
};
use crate::model::{find_cipher, lookup_cipher, CipherAccess, CipherInfo};
use serde_json::Value;

verus! {

/// What a request body holds under `Ids`: nothing, something other than a
/// list, or a list whose entries are kept when they are strings.
pub enum IdsField {
    Missing,
    NotArray,
    Array(Vec<Option<String>>),
}

/// What a request body holds under `FolderId`: nothing, something other
/// than a string, or a string.
pub enum FolderIdField {
    Missing,
    NotString,
    Str(String),
}

/// `entry` is what the list item printed as `t` gives: the string it holds
/// when it is a string, else nothing.
pub open spec fn string_item(entry: Option<String>, t: Seq<char>) -> bool {
    match entry {
        Some(s) => is_string_text(t) && t == json_quoted(s@),
        None => !is_string_text(t),
    }
}

/// `f` is what the body printed as `t` holds under `Ids`.
pub open spec fn is_ids_field_of(t: Seq<char>, f: IdsField) -> bool {
    match json_member(t, "Ids"@) {
        None => f is Missing,
        Some(m) => if is_array_text(m) {
            f matches IdsField::Array(items) && items@.len() == json_array_items(m).len()
                && forall|i: int| 0 <= i < items@.len() ==> string_item(#[trigger] items@[i], json_array_items(m)[i])
        } else {
            f is NotArray
        },
    }
}

/// `f` is what the body printed as `t` holds under `FolderId`.
pub open spec fn is_folder_id_field_of(t: Seq<char>, f: FolderIdField) -> bool {
    match json_member(t, "FolderId"@) {
        None => f is Missing,
        Some(m) => if is_string_text(m) {
            f matches FolderIdField::Str(s) && m == json_quoted(s@)
        } else {
            f is NotString
        },
    }
}

/// Reads what a request body holds under `Ids`.
pub fn ids_field(data: &Value) -> (f: IdsField)
    ensures
        is_ids_field_of(json_text(*data), f),
{
    match json_get(data, "Ids") {
        None => IdsField::Missing,
        Some(ids) => match json_as_array(ids) {
            None => IdsField::NotArray,
            Some(items) => {
                let ghost m = json_text(*ids);
                let mut out: Vec<Option<String>> = Vec::new();
                let mut i: usize = 0;
                while i < items.len()
                    invariant
                        i <= items.len(),
                        out@.len() == i,
                        items@.len() == json_array_items(m).len(),
                        forall|k: int| 0 <= k < items@.len() ==> json_text(#[trigger] items@[k]) == json_array_items(m)[k],
                        forall|k: int| 0 <= k < i ==> string_item(#[trigger] out@[k], json_array_items(m)[k]),
                    decreases items.len() - i,
                {
                    assert(json_text(items@[i as int]) == json_array_items(m)[i as int]);
                    match json_as_str(&items[i]) {
                        Some(s) => out.push(Some(s.to_owned())),
                        None => out.push(None),
                    }
                    i = i + 1;
                }
                IdsField::Array(out)
            },
        },
    }
}

/// Reads what a request body holds under `FolderId`.
pub fn folder_id_field(data: &Value) -> (f: FolderIdField)
    ensures
        is_folder_id_field_of(json_text(*data), f),
{
    match json_get(data, "FolderId") {
        None => FolderIdField::Missing,
        Some(v) => match json_as_str(v) {
            None => FolderIdField::NotString,
            Some(s) => FolderIdField::Str(s.to_owned()),
        },
    }
}

/// The string entries of a list, in order.
pub open spec fn string_entries(items: Seq<Option<String>>) -> Seq<Seq<char>>
    decreases items.len(),
{
    if items.len() == 0 {
        Seq::empty()
    } else {
        let prev = string_entries(items.drop_last());
        match items.last() {
            Some(s) => prev.push(s@),
            None => prev,
        }
    }
}

/// The ids a request names, or why it names none.
pub open spec fn posted_ids(f: IdsField) -> Result<Seq<Seq<char>>, ApiError> {
    match f {
        IdsField::Missing => Err(ApiError::MissingIds),
        IdsField::NotArray => Err(ApiError::IdsNotArray),
        IdsField::Array(items) => Ok(string_entries(items@)),
    }
}

/// The ids a request names, in order, skipping entries that are not strings.
pub fn ids_from_field(f: &IdsField) -> (r: Result<Vec<String>, ApiError>)
    ensures
        match posted_ids(*f) {
            Err(e) => r == Err::<Vec<String>, ApiError>(e),
            Ok(ids) => r matches Ok(v) && v.deep_view() == ids,
        },
{
    match f {
        IdsField::Missing => Err(ApiError::MissingIds),
        IdsField::NotArray => Err(ApiError::IdsNotArray),
        IdsField::Array(items) => {
            let mut ids: Vec<String> = Vec::new();
            let mut i: usize = 0;
            while i < items.len()
                invariant
                    i <= items.len(),
                    ids.deep_view() == string_entries(items@.take(i as int)),
                decreases items.len() - i,
            {
                assert(items@.take(i as int + 1).drop_last() =~= items@.take(i as int));
                match &items[i] {
                    Some(s) => {
                        let ghost before = ids.deep_view();
                        ids.push(s.clone());
                        assert(ids.deep_view() =~= before.push(s@));
                    },
                    None => {},
                }
                i = i + 1;
            }
            assert(items@.take(items.len() as int) =~= items@);
            Ok(ids)
        },
    }
}

/// Going through `ids`, the ciphers acted on and the refusal that stopped
/// the run: each must exist and grant the right asked for (refused with
/// `denied` otherwise). When `removes`, a cipher acted on is gone, so
/// naming it again finds nothing.
pub open spec fn cipher_steps(
    ids: Seq<Seq<char>>,
    infos: Seq<CipherInfo>,
    need_write: bool,
    denied: ApiError,
    removes: bool,
) -> (Seq<Seq<char>>, Option<ApiError>)
    decreases ids.len(),
{
    if ids.len() == 0 {
        (Seq::empty(), None)
    } else {
        let (done, err) = cipher_steps(ids.drop_last(), infos, need_write, denied, removes);
        if err is Some {
            (done, err)
        } else {
            let x = ids.last();
            let lookup = if removes && done.contains(x) { None } else { lookup_cipher(infos, x) };
            match access_check(lookup, need_write, denied) {
                Err(e) => (done, Some(e)),
                Ok(_) => (done.push(x), None),
            }
        }
    }
}

/// Once a run is refused it stays refused.
pub proof fn lemma_cipher_steps_stop(
    ids: Seq<Seq<char>>,
    infos: Seq<CipherInfo>,
    need_write: bool,
    denied: ApiError,
    removes: bool,
    k: int,
)
    requires
        0 <= k <= ids.len(),
        cipher_steps(ids.take(k), infos, need_write, denied, removes).1 is Some,
    ensures
        cipher_steps(ids, infos, need_write, denied, removes) == cipher_steps(ids.take(k), infos, need_write, denied, removes),
    decreases ids.len(),
{
    if k == ids.len() {
        assert(ids.take(k) =~= ids);
    } else {
        assert(ids.drop_last().take(k) =~= ids.take(k));
        lemma_cipher_steps_stop(ids.drop_last(), infos, need_write, denied, removes, k);
    }
}

/// Every cipher acted on exists and grants the right asked for; when
/// ciphers are removed, none is acted on twice.
pub proof fn lemma_cipher_steps_authorized(
    ids: Seq<Seq<char>>,
    infos: Seq<CipherInfo>,
    need_write: bool,
    denied: ApiError,
    removes: bool,
)
    ensures
        forall|i: int| 0 <= i < cipher_steps(ids, infos, need_write, denied, removes).0.len() ==>
            (lookup_cipher(infos, #[trigger] cipher_steps(ids, infos, need_write, denied, removes).0[i]) matches Some(a)
                && (if need_write { a.writable } else { a.readable })),
        removes ==> cipher_steps(ids, infos, need_write, denied, removes).0.no_duplicates(),
    decreases ids.len(),
{
    if ids.len() > 0 {
        lemma_cipher_steps_authorized(ids.drop_last(), infos, need_write, denied, removes);
        let done = cipher_steps(ids.drop_last(), infos, need_write, denied, removes).0;
        let x = ids.last();
        if removes && !done.contains(x) {
            assert forall|i: int, j: int| 0 <= i < done.push(x).len() && 0 <= j < done.push(x).len() && i != j
                implies done.push(x)[i] != done.push(x)[j] by {
                if i == done.len() {
                    assert(done.contains(done[j]));
                } else if j == done.len() {
                    assert(done.contains(done[i]));
                }
            }
        }
    }
}

/// A run that is not refused acts on every id, in order.
pub proof fn lemma_cipher_steps_complete(
    ids: Seq<Seq<char>>,
    infos: Seq<CipherInfo>,
    need_write: bool,
    denied: ApiError,
    removes: bool,
)
    requires
        cipher_steps(ids, infos, need_write, denied, removes).1 is None,
    ensures
        cipher_steps(ids, infos, need_write, denied, removes).0 == ids,
    decreases ids.len(),
{
    if ids.len() > 0 {
        lemma_cipher_steps_complete(ids.drop_last(), infos, need_write, denied, removes);
        assert(ids.drop_last().push(ids.last()) =~= ids);
    }
}

/// Goes through `ids` as `cipher_steps` does: the ciphers acted on, and
/// the refusal that stopped the run.
pub fn plan_cipher_steps(
    ids: &Vec<String>,
    infos: &Vec<CipherInfo>,
    need_write: bool,
    denied: ApiError,
    removes: bool,
) -> (r: (Vec<String>, Option<ApiError>))
    ensures
        (r.0.deep_view(), r.1) == cipher_steps(ids.deep_view(), infos@, need_write, denied, removes),
{
    let mut done: Vec<String> = Vec::new();
    let mut i: usize = 0;
    while i < ids.len()
        invariant
            i <= ids.len(),
            cipher_steps(ids.deep_view().take(i as int), infos@, need_write, denied, removes)
                == (done.deep_view(), Option::<ApiError>::None),
        decreases ids.len() - i,
    {
        let ghost prefix = ids.deep_view().take(i as int + 1);
        assert(prefix.drop_last() =~= ids.deep_view().take(i as int));
        assert(prefix.last() == ids[i as int]@);
        let lookup: Option<CipherAccess> = if removes && contains_str(&done, &ids[i]) {
            None
        } else {
            find_cipher(infos, &ids[i])
        };
        match check_cipher_access(lookup, need_write, denied) {
            Err(e) => {
                proof {
                    lemma_cipher_steps_stop(ids.deep_view(), infos@, need_write, denied, removes, i as int + 1);
                }
                return (done, Some(e));
            },
            Ok(()) => {
                let ghost before = done.deep_view();
                done.push(ids[i].clone());
                assert(done.deep_view() =~= before.push(ids[i as int]@));
            },
        }
        i = i + 1;
    }
    assert(ids.deep_view().take(ids.len() as int) =~= ids.deep_view());
    (done, None)
}

/// Ciphers to delete in order; if a deletion fails the request is answered
/// with `on_failure`; once all are deleted, with `refusal` (`None`: success).
pub struct DeletePlan {
    pub deletions: Vec<String>,
    pub on_failure: ApiError,
    pub refusal: Option<ApiError>,
}

/// Deleting the ciphers a request names, given the ciphers that exist: each
/// in turn must exist and be writable, until one that is not.
pub fn delete_cipher_selected(ids: &IdsField, infos: &Vec<CipherInfo>) -> (r: Result<DeletePlan, ApiError>)
    ensures
        match posted_ids(*ids) {
            Err(e) => r == Err::<DeletePlan, ApiError>(e),
            Ok(named) => r matches Ok(p) && {
                &&& p.on_failure == ApiError::DeleteCipherFailed
                &&& (p.deletions.deep_view(), p.refusal)
                    == cipher_steps(named, infos@, true, ApiError::CipherNotDeletable, true)
            },
        },
{
    let named = ids_from_field(ids)?;
    let (deletions, refusal) = plan_cipher_steps(&named, infos, true, ApiError::CipherNotDeletable, true);
    Ok(DeletePlan { deletions, on_failure: ApiError::DeleteCipherFailed, refusal })
}

/// The folder a move request names: none, or a folder that exists and is
/// the user's (`folder_owner` is the owner of the folder with the posted id).
pub open spec fn move_target(
    folder: FolderIdField,
    folder_owner: Option<String>,
    user_uuid: Seq<char>,
) -> Result<Option<Seq<char>>, ApiError> {
    match folder {
        FolderIdField::Missing => Ok(None),
        FolderIdField::NotString => Err(ApiError::FolderIdWrongFormat),
        FolderIdField::Str(id) => match folder_owner {
            None => Err(ApiError::FolderNotFound),
            Some(owner) => if owner@ != user_uuid {
                Err(ApiError::FolderNotOwned)
            } else {
                Ok(Some(id@))
            },
        },
    }
}

/// Ciphers to move, in order, into `folder` (`None`: out of any folder);
/// if a move fails the request is answered with `on_failure`; once all are
/// moved, with `refusal` (`None`: success).
pub struct MovePlan {
    pub folder: Option<String>,
    pub moves: Vec<String>,
    pub on_failure: ApiError,
    pub refusal: Option<ApiError>,
}

/// Moving the ciphers a request names into the folder it names: the folder
/// is checked first, then the ids, then each cipher in turn must exist and
/// be visible to the user, until one that is not.
pub fn move_cipher_selected(
    folder: &FolderIdField,
    folder_owner: &Option<String>,
    user_uuid: &String,
    ids: &IdsField,
    infos: &Vec<CipherInfo>,
) -> (r: Result<MovePlan, ApiError>)
    ensures
        match move_target(*folder, *folder_owner, user_uuid@) {
            Err(e) => r == Err::<MovePlan, ApiError>(e),
            Ok(target) => match posted_ids(*ids) {
                Err(e) => r == Err::<MovePlan, ApiError>(e),
                Ok(named) => r matches Ok(p) && {
                    &&& (match p.folder {
                        Some(f) => Some(f@),
                        None => None,
                    }) == target
                    &&& p.on_failure == ApiError::FolderSaveFailed
                    &&& (p.moves.deep_view(), p.refusal)
                        == cipher_steps(named, infos@, false, ApiError::CipherNotAccessible, false)
                },
            },
        },
{
    let target = match folder {
        FolderIdField::Missing => None,
        FolderIdField::NotString => return Err(ApiError::FolderIdWrongFormat),
        FolderIdField::Str(id) => match folder_owner {
            None => return Err(ApiError::FolderNotFound),
            Some(owner) => if !(*owner == *user_uuid) {
                return Err(ApiError::FolderNotOwned);
            } else {
                Some(id.clone())
            },
        },
    };
    let named = ids_from_field(ids)?;
    let (moves, refusal) = plan_cipher_steps(&named, infos, false, ApiError::CipherNotAccessible, false);
    Ok(MovePlan { folder: target, moves, on_failure: ApiError::FolderSaveFailed, refusal })
}

/// A bulk deletion that is not refused deletes every cipher the request
/// names, each once, and each of them was writable by the user.
pub proof fn lemma_delete_selected_complete(named: Seq<Seq<char>>, infos: Seq<CipherInfo>)
    requires
        cipher_steps(named, infos, true, ApiError::CipherNotDeletable, true).1 is None,
    ensures
        cipher_steps(named, infos, true, ApiError::CipherNotDeletable, true).0 == named,
        named.no_duplicates(),
        forall|i: int| 0 <= i < named.len() ==> (lookup_cipher(infos, #[trigger] named[i]) matches Some(a) && a.writable),
{
    lemma_cipher_steps_complete(named, infos, true, ApiError::CipherNotDeletable, true);
    lemma_cipher_steps_authorized(named, infos, true, ApiError::CipherNotDeletable, true);
}

/// A run over ids that all name existing ciphers granting the right asked
/// for (and, when ciphers are removed, name each cipher once) is never
/// refused and acts on every id, in order.
pub proof fn lemma_cipher_steps_not_refused(
    ids: Seq<Seq<char>>,
    infos: Seq<CipherInfo>,
    need_write: bool,
    denied: ApiError,
    removes: bool,
)
    requires
        forall|i: int| 0 <= i < ids.len() ==> (lookup_cipher(infos, #[trigger] ids[i]) matches Some(a)
            && (if need_write { a.writable } else { a.readable })),
        removes ==> ids.no_duplicates(),
    ensures
        cipher_steps(ids, infos, need_write, denied, removes).1 is None,
        cipher_steps(ids, infos, need_write, denied, removes).0 == ids,
    decreases ids.len(),
{
    if ids.len() > 0 {
        let prev = ids.drop_last();
        assert forall|i: int| 0 <= i < prev.len() implies (lookup_cipher(infos, #[trigger] prev[i]) matches Some(a)
            && (if need_write { a.writable } else { a.readable })) by {
            assert(prev[i] == ids[i]);
        }
        lemma_cipher_steps_not_refused(prev, infos, need_write, denied, removes);
        let x = ids.last();
        assert(x == ids[ids.len() - 1]);
        if removes {
            assert(!prev.contains(x)) by {
                if prev.contains(x) {
                    let k = choose|k: int| 0 <= k < prev.len() && prev[k] == x;
                    assert(ids[k] == ids[ids.len() - 1]);
                }
            }
        }
        assert(prev.push(x) =~= ids);
    }
}

/// A refused run stopped at the first id that did not pass: every id before
/// it was acted on; that id names no cipher (or, when ciphers are removed,
/// one already removed) and the refusal is `CipherNotFound`, or else it
/// names a cipher lacking the right asked for and the refusal is `denied`.
pub proof fn lemma_cipher_steps_refusal(
    ids: Seq<Seq<char>>,
    infos: Seq<CipherInfo>,
    need_write: bool,
    denied: ApiError,
    removes: bool,
)
    ensures
        cipher_steps(ids, infos, need_write, denied, removes).1 matches Some(e) ==> {
            let done = cipher_steps(ids, infos, need_write, denied, removes).0;
            let j = done.len() as int;
            let x = ids[j];
            &&& j < ids.len()
            &&& done == ids.take(j)
            &&& ((removes && done.contains(x)) || lookup_cipher(infos, x) is None) ==> e == ApiError::CipherNotFound
            &&& !((removes && done.contains(x)) || lookup_cipher(infos, x) is None) ==> {
                &&& e == denied
                &&& lookup_cipher(infos, x) matches Some(a) && !(if need_write { a.writable } else { a.readable })
            }
        },
    decreases ids.len(),
{
    if ids.len() > 0 {
        let prev = ids.drop_last();
        lemma_cipher_steps_refusal(prev, infos, need_write, denied, removes);
        let (done, err) = cipher_steps(prev, infos, need_write, denied, removes);
        if err is Some {
            let j = done.len() as int;
            assert(ids[j] == prev[j]);
            assert(ids.take(j) =~= prev.take(j));
        } else {
            lemma_cipher_steps_complete(prev, infos, need_write, denied, removes);
            assert(ids.take(prev.len() as int) =~= prev);
            assert(ids[prev.len() as int] == ids.last());
        }
    }
}

/// The folder a move names is accepted exactly when none is named, or the
/// named folder exists and is the user's; a folder id that is not a string
/// is refused as such.
pub proof fn lemma_move_target_outcome(folder: FolderIdField, folder_owner: Option<String>, user_uuid: Seq<char>)
    ensures
        move_target(folder, folder_owner, user_uuid) is Ok <==> (folder is Missing
            || (folder is Str && (folder_owner matches Some(o) && o@ == user_uuid))),
        folder is Missing ==> move_target(folder, folder_owner, user_uuid) == Ok::<Option<Seq<char>>, ApiError>(None),
        (folder matches FolderIdField::Str(id) && (folder_owner matches Some(o) && o@ == user_uuid))
            ==> move_target(folder, folder_owner, user_uuid) == Ok::<Option<Seq<char>>, ApiError>(Some(folder->Str_0@)),
        folder is NotString ==> move_target(folder, folder_owner, user_uuid)
            == Err::<Option<Seq<char>>, ApiError>(ApiError::FolderIdWrongFormat),
{
}

/// The ids a list gives are its string entries, in order, and nothing else:
/// the list filtered to its strings.
pub proof fn lemma_string_entries_are_the_strings(items: Seq<Option<String>>)
    ensures
        string_entries(items) == items.filter_map(|o: Option<String>| match o {
            Some(s) => Some(s@),
            None => None,
        }),
    decreases items.len(),
{
    if items.len() > 0 {
        lemma_string_entries_are_the_strings(items.drop_last());
        match items.last() {
            Some(s) => {
                assert(string_entries(items.drop_last()).push(s@) =~= string_entries(items.drop_last()) + seq![s@]);
            },
            None => {},
        }
    }
}

} // verus!
