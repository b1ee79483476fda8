//! Sharing ciphers with an organization: one at a time, or several at once.
use vstd::prelude::*;
use serde_json::Value;
use crate::access::{access_check, check_cipher_access, found_access, FoundCipher};
use crate::collections::{
    change_steps, changes_view, lemma_change_steps_complete, lemma_changes_are_authorized, plan_collection_changes,
};
use crate::model::lookup_collection;
use crate::error::ApiError;
use crate::model::{CipherData, CollectionInfo};
use crate::update::{
    is_updated_cipher, update_cipher_from_data, update_panics, update_precheck, CipherWrite,
};

verus! {

/// The collections a shared cipher is saved into, in order, and the refusal
/// that stops them: each id of `collection_ids` in turn, until one that does
/// not exist or that the user may not change.
pub open spec fn share_collection_steps(
    collection_ids: Seq<Seq<char>>,
    infos: Seq<CollectionInfo>,
) -> (Seq<Seq<char>>, Option<ApiError>) {
    let (acts, err) = change_steps(collection_ids, collection_ids, infos);
    (acts.map_values(|a: (Seq<char>, bool)| a.0), err)
}

/// A cipher shared with an organization: the cipher to save and put in its
/// folder, then the collections to save it into, in order, then the refusal
/// the request is answered with (`None`: success).
pub struct SharePlan {
    pub write: CipherWrite,
    pub collection_saves: Vec<String>,
    pub refusal: Option<ApiError>,
}

/// Sharing the cipher that was looked up with the organization the posted
/// `data` names, and putting it in the collections `collection_ids`. The
/// cipher must exist and be writable, the request must name an
/// organization, the update must pass as for a shared cipher, and each
/// collection must exist and be writable by the user.
pub fn share_cipher_by_uuid(
    found: Option<FoundCipher>,
    data: CipherData,
    user_uuid: &String,
    org_access: Option<bool>,
    folder_owner: Option<String>,
    collection_ids: &Vec<String>,
    infos: &Vec<CollectionInfo>,
) -> (r: Result<SharePlan, ApiError>)
    requires
        (found matches Some(f) && f.access.writable && data.organization_id is Some)
            ==> !update_panics(data, user_uuid@, true, org_access, folder_owner),
    ensures
        match access_check(found_access(found), true, ApiError::CipherNotWritable) {
            Err(e) => r == Err::<SharePlan, ApiError>(e),
            Ok(_) => if data.organization_id is None {
                r == Err::<SharePlan, ApiError>(ApiError::OrgIdMissing)
            } else {
                match update_precheck(data, user_uuid@, true, org_access, folder_owner) {
                    Err(e) => r == Err::<SharePlan, ApiError>(e),
                    Ok(t) => r matches Ok(p) && {
                        &&& p.write.folder == data.folder_id
                        &&& p.write.on_move_failure == ApiError::FolderSaveFailed
                        &&& is_updated_cipher(found->0.cipher, p.write.cipher, data, t, *user_uuid, true)
                        &&& (p.collection_saves.deep_view(), p.refusal)
                            == share_collection_steps(collection_ids.deep_view(), infos@)
                    },
                }
            },
        },
{
    let access = match &found {
        Some(f) => Some(f.access),
        None => None,
    };
    match check_cipher_access(access, true, ApiError::CipherNotWritable) {
        Err(e) => return Err(e),
        Ok(()) => {},
    }
    if data.organization_id.is_none() {
        return Err(ApiError::OrgIdMissing);
    }
    let mut cipher = match found {
        Some(f) => f.cipher,
        None => return Err(ApiError::CipherNotFound),
    };
    let folder = match update_cipher_from_data(&mut cipher, data, user_uuid, true, org_access, folder_owner) {
        Err(e) => return Err(e),
        Ok(folder) => folder,
    };
    let (changes, refusal) = plan_collection_changes(collection_ids, collection_ids, infos);
    let mut saves: Vec<String> = Vec::new();
    let mut i: usize = 0;
    while i < changes.len()
        invariant
            i <= changes.len(),
            saves.deep_view() =~= changes_view(changes@).take(i as int).map_values(|a: (Seq<char>, bool)| a.0),
        decreases changes.len() - i,
    {
        let ghost before = saves.deep_view();
        saves.push(changes[i].collection.clone());
        assert(saves.deep_view() =~= before.push(changes[i as int].collection@));
        assert(changes_view(changes@).take(i as int + 1).map_values(|a: (Seq<char>, bool)| a.0)
            =~= changes_view(changes@).take(i as int).map_values(|a: (Seq<char>, bool)| a.0).push(changes[i as int].collection@));
        i = i + 1;
    }
    assert(changes_view(changes@).take(changes.len() as int) =~= changes_view(changes@));
    Ok(SharePlan {
        write: CipherWrite { cipher, folder, on_move_failure: ApiError::FolderSaveFailed },
        collection_saves: saves,
        refusal,
    })
}

/// Whether some posted cipher lacks its id.
pub open spec fn some_id_missing(ciphers: Seq<CipherData>) -> bool {
    exists|i: int| 0 <= i < ciphers.len() && (#[trigger] ciphers[i]).id is None
}

/// The first checks of sharing several ciphers at once: at least one cipher
/// and one collection must be selected, and every cipher must carry its
/// id; then the ids, in the posted order.
pub open spec fn share_selected_check(ciphers: Seq<CipherData>, n_collections: nat) -> Result<Seq<Seq<char>>, ApiError> {
    if ciphers.len() == 0 {
        Err(ApiError::NoCipherSelected)
    } else if n_collections == 0 {
        Err(ApiError::NoCollectionSelected)
    } else if some_id_missing(ciphers) {
        Err(ApiError::MissingIds)
    } else {
        Ok(Seq::new(ciphers.len(), |i: int| ciphers[i].id->0@))
    }
}

/// The first checks of sharing several ciphers at once; on success, the
/// ids of the posted ciphers, whose attachments are looked up next.
pub fn put_cipher_share_selected(ciphers: &Vec<CipherData>, collection_ids: &Vec<String>) -> (r: Result<Vec<String>, ApiError>)
    ensures
        match share_selected_check(ciphers@, collection_ids@.len()) {
            Err(e) => r == Err::<Vec<String>, ApiError>(e),
            Ok(ids) => r matches Ok(v) && v.deep_view() == ids,
        },
{
    if ciphers.len() == 0 {
        return Err(ApiError::NoCipherSelected);
    }
    if collection_ids.len() == 0 {
        return Err(ApiError::NoCollectionSelected);
    }
    let mut ids: Vec<String> = Vec::new();
    let mut i: usize = 0;
    while i < ciphers.len()
        invariant
            i <= ciphers.len(),
            ciphers.len() > 0,
            collection_ids.len() > 0,
            ids.len() == i,
            forall|k: int| 0 <= k < i ==> (#[trigger] ciphers@[k]).id is Some && ids.deep_view()[k] == ciphers@[k].id->0@,
        decreases ciphers.len() - i,
    {
        match &ciphers[i].id {
            Some(id) => {
                ids.push(id.clone());
            },
            None => {
                assert(some_id_missing(ciphers@)) by {
                    assert(ciphers@[i as int].id is None);
                }
                return Err(ApiError::MissingIds);
            },
        }
        i = i + 1;
    }
    assert(ids.deep_view() =~= Seq::new(ciphers@.len(), |k: int| ciphers@[k].id->0@));
    Ok(ids)
}

/// Sharing several ciphers at once, under way: the `n` selected ciphers are
/// shared one by one, the last selected first; `shared` have been shared.
/// The first refused share ends the run; the ones shared before it stay
/// shared.
pub struct ShareSelectedRun {
    pub n: usize,
    pub shared: usize,
}

/// What sharing several ciphers does next.
#[derive(PartialEq, Eq, Debug)]
pub enum ShareSelectedAction {
    /// Share the selected cipher at this index, as a single share would.
    Share(usize),
    /// The request is over, with this answer.
    Finish(Result<(), ApiError>),
}

impl ShareSelectedRun {
    pub open spec fn wf(&self) -> bool {
        self.shared <= self.n
    }

    /// The next cipher to share, counting from the last selected, or the
    /// end of the run.
    pub open spec fn spec_next_action(&self) -> ShareSelectedAction {
        if self.shared < self.n {
            ShareSelectedAction::Share((self.n - 1 - self.shared) as usize)
        } else {
            ShareSelectedAction::Finish(Ok(()))
        }
    }

    /// The run after the share it asked for came out as `result`, and what
    /// it does next.
    pub open spec fn spec_step(self, result: Result<(), ApiError>) -> (ShareSelectedRun, ShareSelectedAction) {
        match result {
            Err(e) => (self, ShareSelectedAction::Finish(Err(e))),
            Ok(_) => {
                let next = ShareSelectedRun { n: self.n, shared: (self.shared + 1) as usize };
                (next, next.spec_next_action())
            },
        }
    }

    /// What the run does next.
    pub fn next_action(&self) -> (a: ShareSelectedAction)
        requires
            self.wf(),
        ensures
            a == self.spec_next_action(),
    {
        if self.shared < self.n {
            ShareSelectedAction::Share(self.n - 1 - self.shared)
        } else {
            ShareSelectedAction::Finish(Ok(()))
        }
    }

    /// Takes in how the share the run asked for came out: a refusal ends
    /// the run with it; a success counts the cipher and moves on.
    pub fn step(&mut self, result: Result<(), ApiError>) -> (a: ShareSelectedAction)
        requires
            old(self).wf(),
            old(self).shared < old(self).n,
        ensures
            final(self).wf(),
            (*final(self), a) == old(self).spec_step(result),
    {
        match result {
            Err(e) => ShareSelectedAction::Finish(Err(e)),
            Ok(()) => {
                self.shared = self.shared + 1;
                self.next_action()
            },
        }
    }
}

/// After the attachments of the `n` selected ciphers are counted: none may
/// have any; then a run that has shared nothing yet.
pub fn share_selected_run(attachment_count: usize, n: usize) -> (r: Result<ShareSelectedRun, ApiError>)
    ensures
        attachment_count > 0 ==> r == Err::<ShareSelectedRun, ApiError>(ApiError::CipherHasAttachments),
        attachment_count == 0 ==> r == Ok::<ShareSelectedRun, ApiError>(ShareSelectedRun { n, shared: 0 }),
{
    if attachment_count > 0 {
        return Err(ApiError::CipherHasAttachments);
    }
    Ok(ShareSelectedRun { n, shared: 0 })
}

/// The run of `n` shares, and its last action, after the shares it asked
/// for came out as `results`, in order, starting from nothing shared.
pub open spec fn share_selected_drive(n: usize, results: Seq<Result<(), ApiError>>) -> (ShareSelectedRun, ShareSelectedAction)
    decreases results.len(),
{
    if results.len() == 0 {
        let fresh = ShareSelectedRun { n, shared: 0 };
        (fresh, fresh.spec_next_action())
    } else {
        let (run, action) = share_selected_drive(n, results.drop_last());
        match action {
            ShareSelectedAction::Share(_) => run.spec_step(results.last()),
            ShareSelectedAction::Finish(_) => (run, action),
        }
    }
}

/// Driving the run: while it goes on, the k-th share it asks for is of the
/// selected cipher `n - 1 - k` (last selected first), after k successes;
/// it ends in success only once all `n` shares succeeded, and otherwise
/// with the first refusal, after the successes before it.
pub proof fn lemma_share_selected_drive(n: usize, results: Seq<Result<(), ApiError>>)
    ensures
        share_selected_drive(n, results).0.n == n,
        share_selected_drive(n, results).0.wf(),
        share_selected_drive(n, results).1 matches ShareSelectedAction::Share(i) ==> {
            &&& share_selected_drive(n, results).0.shared == results.len()
            &&& results.len() < n
            &&& i == n - 1 - results.len()
            &&& forall|k: int| 0 <= k < results.len() ==> #[trigger] results[k] is Ok
        },
        share_selected_drive(n, results).1 == ShareSelectedAction::Finish(Ok(())) ==> {
            &&& share_selected_drive(n, results).0.shared == n
            &&& results.len() >= n
            &&& forall|k: int| 0 <= k < n ==> #[trigger] results[k] is Ok
        },
        share_selected_drive(n, results).1 matches ShareSelectedAction::Finish(Err(e)) ==> exists|j: int| {
            &&& 0 <= j < results.len()
            &&& j < n
            &&& #[trigger] results[j] == Err::<(), ApiError>(e)
            &&& share_selected_drive(n, results).0.shared == j
            &&& forall|k: int| 0 <= k < j ==> #[trigger] results[k] is Ok
        },
    decreases results.len(),
{
    if results.len() > 0 {
        let prev = results.drop_last();
        lemma_share_selected_drive(n, prev);
        let (run, action) = share_selected_drive(n, prev);
        match action {
            ShareSelectedAction::Share(_) => {
                let j = prev.len() as int;
                assert(results[j] == results.last());
                assert forall|k: int| 0 <= k < j implies #[trigger] results[k] is Ok by {
                    assert(results[k] == prev[k]);
                }
                match results.last() {
                    Err(e) => {
                        assert(results[j] == Err::<(), ApiError>(e));
                    },
                    Ok(_) => {},
                }
            },
            ShareSelectedAction::Finish(r) => {
                assert(share_selected_drive(n, results) == (run, action));
                if let Err(e) = r {
                    let j = choose|j: int| {
                        &&& 0 <= j < prev.len()
                        &&& j < n
                        &&& #[trigger] prev[j] == Err::<(), ApiError>(e)
                        &&& run.shared == j
                        &&& forall|k: int| 0 <= k < j ==> #[trigger] prev[k] is Ok
                    };
                    assert(results[j] == prev[j]);
                    assert forall|k: int| 0 <= k < j implies #[trigger] results[k] is Ok by {
                        assert(results[k] == prev[k]);
                    }
                } else {
                    if let Ok(u) = r {
                        assert(u == ());
                    }
                    assert(r == Ok::<(), ApiError>(()));
                    assert(prev.len() >= n);
                    assert forall|k: int| 0 <= k < n implies #[trigger] results[k] is Ok by {
                        assert(results[k] == prev[k]);
                    }
                }
            },
        }
    }
}

/// Sharing several ciphers succeeds exactly when every one of the `n`
/// selected ciphers was shared without refusal.
pub proof fn lemma_share_selected_succeeds_iff(n: usize, results: Seq<Result<(), ApiError>>)
    ensures
        share_selected_drive(n, results).1 == ShareSelectedAction::Finish(Ok(()))
            <==> (results.len() >= n && forall|k: int| 0 <= k < n ==> #[trigger] results[k] is Ok),
{
    lemma_share_selected_drive(n, results);
    if results.len() >= n && forall|k: int| 0 <= k < n ==> #[trigger] results[k] is Ok {
        match share_selected_drive(n, results).1 {
            ShareSelectedAction::Share(_) => {},
            ShareSelectedAction::Finish(Ok(u)) => {
                assert(u == ());
            },
            ShareSelectedAction::Finish(Err(e)) => {
                let j = choose|j: int| {
                    &&& 0 <= j < results.len()
                    &&& j < n
                    &&& #[trigger] results[j] == Err::<(), ApiError>(e)
                    &&& share_selected_drive(n, results).0.shared == j
                    &&& forall|k: int| 0 <= k < j ==> #[trigger] results[k] is Ok
                };
                assert(results[j] is Ok);
            },
        }
    }
}

/// A single share that is not refused leaves the cipher in the organization
/// the request names, no longer owned by the user, and saved into every
/// collection the request names.
pub proof fn lemma_share_result(
    old: crate::model::Cipher,
    new: crate::model::Cipher,
    data: CipherData,
    type_data: Value,
    user_uuid: String,
    org_access: Option<bool>,
    folder_owner: Option<String>,
    collection_ids: Seq<Seq<char>>,
    infos: Seq<CollectionInfo>,
)
    requires
        data.organization_id is Some,
        update_precheck(data, user_uuid@, true, org_access, folder_owner) == Ok::<Value, ApiError>(type_data),
        is_updated_cipher(old, new, data, type_data, user_uuid, true),
        share_collection_steps(collection_ids, infos).1 is None,
    ensures
        new.organization_uuid == data.organization_id,
        new.user_uuid is None,
        org_access == Some(true),
        share_collection_steps(collection_ids, infos).0 == collection_ids,
{
    lemma_share_saves_named_collections(collection_ids, infos);
}

/// A share that is not refused saves the cipher into every collection the
/// request names, in the order named; whether refused or not, every
/// collection it is saved into exists and is writable by the user.
pub proof fn lemma_share_saves_named_collections(collection_ids: Seq<Seq<char>>, infos: Seq<CollectionInfo>)
    ensures
        share_collection_steps(collection_ids, infos).1 is None ==> share_collection_steps(collection_ids, infos).0 == collection_ids,
        forall|i: int| 0 <= i < share_collection_steps(collection_ids, infos).0.len() ==>
            lookup_collection(infos, #[trigger] share_collection_steps(collection_ids, infos).0[i]) == Some(true),
{
    let acts = change_steps(collection_ids, collection_ids, infos).0;
    lemma_changes_are_authorized(collection_ids, collection_ids, infos);
    assert forall|i: int| 0 <= i < share_collection_steps(collection_ids, infos).0.len() implies
        lookup_collection(infos, #[trigger] share_collection_steps(collection_ids, infos).0[i]) == Some(true) by {
        assert(share_collection_steps(collection_ids, infos).0[i] == acts[i].0);
    }
    if change_steps(collection_ids, collection_ids, infos).1 is None {
        lemma_change_steps_complete(collection_ids, collection_ids, infos);
        assert(share_collection_steps(collection_ids, infos).0 =~= collection_ids);
    }
}

/// The first checks of sharing several ciphers pass exactly when some
/// cipher and some collection are selected and every cipher carries its id;
/// the ids are then those of the ciphers, in order.
pub proof fn lemma_share_selected_check_outcome(ciphers: Seq<CipherData>, n_collections: nat)
    ensures
        share_selected_check(ciphers, n_collections) is Ok <==> (ciphers.len() > 0 && n_collections > 0
            && forall|i: int| 0 <= i < ciphers.len() ==> (#[trigger] ciphers[i]).id is Some),
        share_selected_check(ciphers, n_collections) matches Ok(ids) ==> ids.len() == ciphers.len()
            && forall|i: int| 0 <= i < ciphers.len() ==> ids[i] == (#[trigger] ciphers[i]).id->0@,
        ciphers.len() == 0 ==> share_selected_check(ciphers, n_collections) == Err::<Seq<Seq<char>>, ApiError>(ApiError::NoCipherSelected),
{
}

} // verus!
