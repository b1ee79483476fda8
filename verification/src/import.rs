//! Importing a vault: which of the freshly created folders each imported
//! cipher is put in.
use vstd::prelude::*;
use crate::error::ApiError;
use crate::model::CipherData;
use crate::update::{fresh_cipher, is_updated_cipher, post_ciphers, update_panics, update_precheck, CipherWrite};

verus! {

/// A posted relation: the cipher at `cipher_index` of the import goes in the
/// folder at `folder_index` of the import.
#[derive(PartialEq, Eq, Structural, Clone, Copy, Debug)]
pub struct FolderRelation {
    pub cipher_index: usize,
    pub folder_index: usize,
}

/// The folder index that the last relation naming cipher `key` gives, if any
/// (a later relation for the same cipher replaces an earlier one).
pub open spec fn last_relation(rels: Seq<FolderRelation>, key: usize) -> Option<usize>
    decreases rels.len(),
{
    if rels.len() == 0 {
        None
    } else if rels.last().cipher_index == key {
        Some(rels.last().folder_index)
    } else {
        last_relation(rels.drop_last(), key)
    }
}

/// Reads the posted relations between the `n_ciphers` imported ciphers and
/// the imported folders: each cipher goes in the folder of the last
/// relation that names it, or in none.
pub fn relation_map(relations: &Vec<FolderRelation>, n_ciphers: usize) -> (m: Vec<Option<usize>>)
    ensures
        m@.len() == n_ciphers,
        forall|i: int| 0 <= i < n_ciphers ==> #[trigger] m@[i] == last_relation(relations@, i as usize),
{
    let mut map: Vec<Option<usize>> = Vec::new();
    let mut i: usize = 0;
    while i < n_ciphers
        invariant
            i <= n_ciphers,
            map@.len() == i,
            forall|k: int| 0 <= k < i ==> #[trigger] map@[k] is None,
        decreases n_ciphers - i,
    {
        map.push(None);
        i = i + 1;
    }
    assert(relations@.take(0) =~= Seq::<FolderRelation>::empty());
    let mut j: usize = 0;
    while j < relations.len()
        invariant
            j <= relations.len(),
            map@.len() == n_ciphers,
            forall|k: int| 0 <= k < n_ciphers ==> #[trigger] map@[k] == last_relation(relations@.take(j as int), k as usize),
        decreases relations.len() - j,
    {
        let rel = relations[j];
        assert(relations@.take(j as int + 1).drop_last() =~= relations@.take(j as int));
        assert(relations@.take(j as int + 1).last() == rel);
        if rel.cipher_index < n_ciphers {
            map.set(rel.cipher_index, Some(rel.folder_index));
        }
        j = j + 1;
    }
    assert(relations@.take(relations.len() as int) =~= relations@);
    map
}

/// The id of the imported folder an imported cipher goes in. A folder index
/// past the imported folders is left out by `requires` (indexing the
/// folders panics there).
pub fn import_folder_uuid(entry: Option<usize>, folder_uuids: &Vec<String>) -> (r: Option<String>)
    requires
        entry matches Some(k) ==> k < folder_uuids.len(),
    ensures
        match entry {
            Some(k) => r == Some(folder_uuids@[k as int]),
            None => r is None,
        },
{
    match entry {
        Some(k) => Some(folder_uuids[k].clone()),
        None => None,
    }
}

/// An import under way. The posted folders are created first, in order;
/// then the posted ciphers, in order, each as a new cipher; then the user's
/// revision is updated. The first refused cipher ends the import; folders
/// and ciphers created before it stay.
pub struct ImportRun {
    /// For each posted cipher, the index of the posted folder it goes in.
    pub folder_index_of: Vec<Option<usize>>,
    pub n_folders: usize,
    /// The ids of the folders created so far, in posted order.
    pub folder_uuids: Vec<String>,
    /// How many ciphers have been created so far.
    pub next_cipher: usize,
}

/// What an import does next.
#[derive(PartialEq, Eq, Debug)]
pub enum ImportAction {
    /// Create the posted folder at this index.
    CreateFolder(usize),
    /// Create the posted cipher at `index` as a new cipher, then put it in
    /// the created folder at `folder_index`, if any.
    CreateCipher { index: usize, folder_index: Option<usize> },
    /// Update the user's revision.
    UpdateRevision,
    /// The import is over, with this answer.
    Finish(Result<(), ApiError>),
}

/// What came of an import's last action.
pub enum ImportEvent {
    FolderCreated(String),
    /// The cipher was created and saved, or the refusal that ends the import.
    CipherCreated(Result<(), ApiError>),
    RevisionUpdated(bool),
}

/// A cipher made by an import: the write of a new cipher, then the folder
/// of the import it is put in (failing to put it there is ignored).
pub struct ImportedCipher {
    pub write: CipherWrite,
    pub import_folder: Option<String>,
}

impl ImportRun {
    /// Folders are created before ciphers, and no more of each than posted.
    pub open spec fn wf(&self) -> bool {
        &&& self.folder_uuids@.len() <= self.n_folders
        &&& self.next_cipher <= self.folder_index_of@.len()
        &&& self.next_cipher > 0 ==> self.folder_uuids@.len() == self.n_folders
    }

    /// The action the import takes next, unless it is over.
    pub open spec fn spec_next_action(&self) -> ImportAction {
        if self.folder_uuids@.len() < self.n_folders {
            ImportAction::CreateFolder(self.folder_uuids@.len() as usize)
        } else if self.next_cipher < self.folder_index_of@.len() {
            ImportAction::CreateCipher {
                index: self.next_cipher,
                folder_index: self.folder_index_of@[self.next_cipher as int],
            }
        } else {
            ImportAction::UpdateRevision
        }
    }

    /// The action the import takes next.
    pub fn next_action(&self) -> (a: ImportAction)
        requires
            self.wf(),
        ensures
            a == self.spec_next_action(),
    {
        if self.folder_uuids.len() < self.n_folders {
            ImportAction::CreateFolder(self.folder_uuids.len())
        } else if self.next_cipher < self.folder_index_of.len() {
            ImportAction::CreateCipher { index: self.next_cipher, folder_index: self.folder_index_of[self.next_cipher] }
        } else {
            ImportAction::UpdateRevision
        }
    }

    /// Takes in what came of the last action and gives the next one: a
    /// created folder is kept and the next folder or cipher follows; a
    /// created cipher is counted and the next cipher, or the revision update,
    /// follows; a refused cipher ends the import with that refusal; the
    /// revision update ends it, refused with `RevisionUpdateFailed` if it
    /// failed.
    pub fn step(&mut self, event: ImportEvent) -> (a: ImportAction)
        requires
            old(self).wf(),
            event matches ImportEvent::FolderCreated(_) ==> old(self).folder_uuids@.len() < old(self).n_folders,
            event matches ImportEvent::CipherCreated(_) ==> old(self).folder_uuids@.len() == old(self).n_folders
                && old(self).next_cipher < old(self).folder_index_of@.len(),
            event matches ImportEvent::RevisionUpdated(_) ==> old(self).folder_uuids@.len() == old(self).n_folders
                && old(self).next_cipher == old(self).folder_index_of@.len(),
        ensures
            final(self).wf(),
            final(self).folder_index_of == old(self).folder_index_of,
            final(self).n_folders == old(self).n_folders,
            match event {
                ImportEvent::FolderCreated(id) => {
                    &&& final(self).folder_uuids@ == old(self).folder_uuids@.push(id)
                    &&& final(self).next_cipher == old(self).next_cipher
                    &&& a == final(self).spec_next_action()
                },
                ImportEvent::CipherCreated(Err(e)) => {
                    &&& *final(self) == *old(self)
                    &&& a == ImportAction::Finish(Err(e))
                },
                ImportEvent::CipherCreated(Ok(_)) => {
                    &&& final(self).folder_uuids == old(self).folder_uuids
                    &&& final(self).next_cipher == old(self).next_cipher + 1
                    &&& a == final(self).spec_next_action()
                },
                ImportEvent::RevisionUpdated(ok) => {
                    &&& *final(self) == *old(self)
                    &&& a == ImportAction::Finish(if ok { Ok(()) } else { Err(ApiError::RevisionUpdateFailed) })
                },
            },
    {
        match event {
            ImportEvent::FolderCreated(id) => {
                self.folder_uuids.push(id);
                self.next_action()
            },
            ImportEvent::CipherCreated(Err(e)) => ImportAction::Finish(Err(e)),
            ImportEvent::CipherCreated(Ok(())) => {
                let n = self.folder_index_of.len();
                assert(self.next_cipher < n);
                self.next_cipher = self.next_cipher + 1;
                self.next_action()
            },
            ImportEvent::RevisionUpdated(ok) => {
                if ok {
                    ImportAction::Finish(Ok(()))
                } else {
                    ImportAction::Finish(Err(ApiError::RevisionUpdateFailed))
                }
            },
        }
    }

    /// Makes the posted cipher that comes next, with id `uuid`, as a new
    /// cipher (see `post_ciphers`), and picks the created folder it then goes
    /// in. A folder index past the posted folders is left out by `requires`
    /// (indexing the folders panics there), as is serde_json's panic.
    pub fn create_cipher(
        &self,
        uuid: String,
        data: CipherData,
        user_uuid: &String,
        org_access: Option<bool>,
        folder_owner: Option<String>,
    ) -> (r: Result<ImportedCipher, ApiError>)
        requires
            self.wf(),
            self.folder_uuids@.len() == self.n_folders,
            self.next_cipher < self.folder_index_of@.len(),
            self.folder_index_of@[self.next_cipher as int] matches Some(k) ==> k < self.folder_uuids@.len(),
            !update_panics(data, user_uuid@, true, org_access, folder_owner),
        ensures
            match update_precheck(data, user_uuid@, true, org_access, folder_owner) {
                Err(e) => r == Err::<ImportedCipher, ApiError>(e),
                Ok(t) => r matches Ok(c) && {
                    &&& c.write.folder == data.folder_id
                    &&& c.write.on_move_failure == ApiError::FolderSaveFailed
                    &&& is_updated_cipher(fresh_cipher(uuid, data.atype, data.name, c.write.cipher.data), c.write.cipher, data, t, *user_uuid, true)
                    &&& match self.folder_index_of@[self.next_cipher as int] {
                        Some(k) => c.import_folder == Some(self.folder_uuids@[k as int]),
                        None => c.import_folder is None,
                    }
                },
            },
    {
        let entry = self.folder_index_of[self.next_cipher];
        let write = post_ciphers(uuid, data, user_uuid, org_access, folder_owner)?;
        let import_folder = import_folder_uuid(entry, &self.folder_uuids);
        Ok(ImportedCipher { write, import_folder })
    }
}

/// Starts the import of `n_ciphers` ciphers and `n_folders` folders with the
/// posted relations: each cipher goes in the folder of the last relation
/// that names it, or in none; nothing is created yet.
pub fn post_ciphers_import(relations: &Vec<FolderRelation>, n_ciphers: usize, n_folders: usize) -> (run: ImportRun)
    ensures
        run.wf(),
        run.folder_index_of@.len() == n_ciphers,
        forall|i: int| 0 <= i < n_ciphers ==> #[trigger] run.folder_index_of@[i] == last_relation(relations@, i as usize),
        run.n_folders == n_folders,
        run.folder_uuids@.len() == 0,
        run.next_cipher == 0,
{
    let folder_index_of = relation_map(relations, n_ciphers);
    ImportRun { folder_index_of, n_folders, folder_uuids: Vec::new(), next_cipher: 0 }
}

/// The folder a relation list gives cipher `key` is that of the last
/// relation naming it: some relation names it with that folder and no later
/// one names it; and it gives none exactly when no relation names it.
pub proof fn lemma_last_relation_wins(rels: Seq<FolderRelation>, key: usize)
    ensures
        last_relation(rels, key) is None <==> forall|j: int| 0 <= j < rels.len() ==> (#[trigger] rels[j]).cipher_index != key,
        last_relation(rels, key) matches Some(f) ==> exists|j: int| {
            &&& 0 <= j < rels.len()
            &&& #[trigger] rels[j] == FolderRelation { cipher_index: key, folder_index: f }
            &&& forall|k: int| j < k < rels.len() ==> (#[trigger] rels[k]).cipher_index != key
        },
    decreases rels.len(),
{
    if rels.len() > 0 {
        let prev = rels.drop_last();
        lemma_last_relation_wins(prev, key);
        let n = rels.len() as int;
        assert(rels[n - 1] == rels.last());
        assert forall|j: int| 0 <= j < prev.len() implies rels[j] == prev[j] by {}
        if rels.last().cipher_index != key {
            if let Some(f) = last_relation(prev, key) {
                let j = choose|j: int| {
                    &&& 0 <= j < prev.len()
                    &&& #[trigger] prev[j] == FolderRelation { cipher_index: key, folder_index: f }
                    &&& forall|k: int| j < k < prev.len() ==> (#[trigger] prev[k]).cipher_index != key
                };
                assert(rels[j] == prev[j]);
                assert forall|k: int| j < k < rels.len() implies (#[trigger] rels[k]).cipher_index != key by {
                    if k < prev.len() {
                        assert(rels[k] == prev[k]);
                    }
                }
            } else {
                assert forall|j: int| 0 <= j < rels.len() implies (#[trigger] rels[j]).cipher_index != key by {
                    if j < prev.len() {
                        assert(rels[j] == prev[j]);
                    }
                }
            }
        } else {
            assert(rels[n - 1] == FolderRelation { cipher_index: key, folder_index: rels.last().folder_index });
        }
    }
}

/// An import creates every posted folder, in order, before any cipher;
/// then every posted cipher, in order, put in the folder its relation gives;
/// then updates the revision once all are created.
pub proof fn lemma_import_next_action(run: ImportRun)
    requires
        run.wf(),
    ensures
        run.folder_uuids@.len() < run.n_folders ==> run.spec_next_action()
            == ImportAction::CreateFolder(run.folder_uuids@.len() as usize),
        run.spec_next_action() matches ImportAction::CreateCipher { index, folder_index } ==> {
            &&& run.folder_uuids@.len() == run.n_folders
            &&& index == run.next_cipher
            &&& folder_index == run.folder_index_of@[index as int]
        },
        run.spec_next_action() == ImportAction::UpdateRevision <==> (run.folder_uuids@.len() == run.n_folders
            && run.next_cipher == run.folder_index_of@.len()),
        !(run.spec_next_action() is Finish),
{
}

} // verus!
