//! The records the cipher rules read and write, as plain values.
use vstd::prelude::*;
use serde_json::Value;

verus! {

/// A stored cipher: what the rules read and write of it.
pub struct Cipher {
    pub uuid: String,
    pub atype: i32,
    pub name: String,
    pub notes: Option<String>,
    /// The custom fields, as JSON text.
    pub fields: Option<String>,
    /// The type-specific data (login, card, ...), as JSON text.
    pub data: String,
    /// The password history, as JSON text.
    pub password_history: Option<String>,
    pub favorite: bool,
    /// The owning user; `None` for a cipher owned by an organization.
    pub user_uuid: Option<String>,
    /// The owning organization, if any.
    pub organization_uuid: Option<String>,
}

impl Cipher {
    /// A fresh cipher of type `atype` named `name`, owned by nobody yet,
    /// with no notes, fields, history or data, not a favorite.
    pub fn new(uuid: String, atype: i32, name: String) -> (c: Cipher)
        ensures
            c.uuid == uuid,
            c.atype == atype,
            c.name == name,
            c.notes is None,
            c.fields is None,
            c.data@ == Seq::<char>::empty(),
            c.password_history is None,
            !c.favorite,
            c.user_uuid is None,
            c.organization_uuid is None,
    {
        Cipher {
            uuid,
            atype,
            name,
            notes: None,
            fields: None,
            data: String::new(),
            password_history: None,
            favorite: false,
            user_uuid: None,
            organization_uuid: None,
        }
    }
}

/// The body of a request that creates or edits a cipher.
pub struct CipherData {
    /// Present only when several ciphers are shared at once.
    pub id: Option<String>,
    /// Absent in an import.
    pub folder_id: Option<String>,
    pub organization_id: Option<String>,
    /// 1 login, 2 secure note, 3 card, 4 identity.
    pub atype: i32,
    pub name: String,
    pub notes: Option<String>,
    pub fields: Option<Value>,
    pub login: Option<Value>,
    pub secure_note: Option<Value>,
    pub card: Option<Value>,
    pub identity: Option<Value>,
    pub favorite: Option<bool>,
    pub password_history: Option<Value>,
}

/// What a lookup of a cipher by id tells about the requesting user's rights.
#[derive(PartialEq, Eq, Structural, Clone, Copy, Debug)]
pub struct CipherAccess {
    /// The user may see the cipher.
    pub readable: bool,
    /// The user may change or delete the cipher.
    pub writable: bool,
}

/// A cipher that exists, with the requesting user's rights on it.
pub struct CipherInfo {
    pub uuid: String,
    pub access: CipherAccess,
}

/// A collection that exists, and whether the requesting user may change
/// what it holds.
pub struct CollectionInfo {
    pub uuid: String,
    pub writable: bool,
}

/// The access that the first entry of `infos` with id `id` records, if any.
pub open spec fn lookup_cipher(infos: Seq<CipherInfo>, id: Seq<char>) -> Option<CipherAccess>
    decreases infos.len(),
{
    if infos.len() == 0 {
        None
    } else if infos[0].uuid@ == id {
        Some(infos[0].access)
    } else {
        lookup_cipher(infos.drop_first(), id)
    }
}

/// Whether the first entry of `infos` with id `id` is writable, if any.
pub open spec fn lookup_collection(infos: Seq<CollectionInfo>, id: Seq<char>) -> Option<bool>
    decreases infos.len(),
{
    if infos.len() == 0 {
        None
    } else if infos[0].uuid@ == id {
        Some(infos[0].writable)
    } else {
        lookup_collection(infos.drop_first(), id)
    }
}

/// Finds the rights recorded for cipher `id`.
pub fn find_cipher(infos: &Vec<CipherInfo>, id: &String) -> (r: Option<CipherAccess>)
    ensures
        r == lookup_cipher(infos@, id@),
{
    let mut i: usize = 0;
    assert(infos@.subrange(0, infos@.len() as int) =~= infos@);
    while i < infos.len()
        invariant
            i <= infos.len(),
            lookup_cipher(infos@, id@) == lookup_cipher(infos@.subrange(i as int, infos@.len() as int), id@),
        decreases infos.len() - i,
    {
        let ghost rest = infos@.subrange(i as int, infos@.len() as int);
        assert(rest.drop_first() =~= infos@.subrange(i + 1, infos@.len() as int));
        if infos[i].uuid == *id {
            return Some(infos[i].access);
        }
        i = i + 1;
    }
    None
}

/// Finds whether collection `id` exists and is writable.
pub fn find_collection(infos: &Vec<CollectionInfo>, id: &String) -> (r: Option<bool>)
    ensures
        r == lookup_collection(infos@, id@),
{
    let mut i: usize = 0;
    assert(infos@.subrange(0, infos@.len() as int) =~= infos@);
    while i < infos.len()
        invariant
            i <= infos.len(),
            lookup_collection(infos@, id@) == lookup_collection(infos@.subrange(i as int, infos@.len() as int), id@),
        decreases infos.len() - i,
    {
        let ghost rest = infos@.subrange(i as int, infos@.len() as int);
        assert(rest.drop_first() =~= infos@.subrange(i + 1, infos@.len() as int));
        if infos[i].uuid == *id {
            return Some(infos[i].writable);
        }
        i = i + 1;
    }
    None
}

} // verus!
