//! Attachments: the random name a stored file gets, and what is recorded of
//! a saved upload.
use vstd::prelude::*;

verus! {

/// The lowercase hexadecimal digit of `n` (0 to 15).
pub open spec fn hex_digit(n: int) -> char {
    if n < 10 {
        (48 + n) as char
    } else {
        (87 + n) as char
    }
}

/// Lowercase hexadecimal text of `bytes`: two digits per byte, high half
/// first, no padding or separators.
pub open spec fn hex_lower(bytes: Seq<u8>) -> Seq<char>
    decreases bytes.len(),
{
    if bytes.len() == 0 {
        Seq::empty()
    } else {
        hex_lower(bytes.drop_last()) + seq![hex_digit(bytes.last() as int / 16), hex_digit(bytes.last() as int % 16)]
    }
}

/// `data_encoding::HEXLOWER.encode`, which panics on inputs longer than
/// `usize::MAX / 512` bytes (left out by `requires`).
/// Claimed: the result is the lowercase hexadecimal text of the input, as
/// `hex_lower` states it.
#[verifier::external_body]
fn encode_hex_lower(bytes: &[u8]) -> (s: String)
    requires
        bytes@.len() <= usize::MAX / 512,
    ensures
        s@ == hex_lower(bytes@),
{
    data_encoding::HEXLOWER.encode(bytes)
}

/// How many random bytes name a stored upload.
pub const ATTACHMENT_ID_BYTES: usize = 10;

/// The text is made of lowercase hexadecimal digits.
pub open spec fn is_lower_hex(t: Seq<char>) -> bool {
    forall|i: int| 0 <= i < t.len() ==> ('0' <= #[trigger] t[i] <= '9') || ('a' <= t[i] <= 'f')
}

/// The name under which an uploaded file is stored, and the attachment's
/// id: the lowercase hexadecimal text of the `ATTACHMENT_ID_BYTES` random
/// bytes drawn for it, so 20 hex digits.
pub fn attachment_file_name(random: &Vec<u8>) -> (s: String)
    requires
        random@.len() == ATTACHMENT_ID_BYTES,
    ensures
        s@ == hex_lower(random@),
        s@.len() == 20,
        is_lower_hex(s@),
{
    proof {
        lemma_hex_lower_shape(random@);
    }
    encode_hex_lower(random.as_slice())
}

/// Where an upload is stored: the file `file_name` in the directory `dir`
/// under the attachments folder.
pub struct UploadTarget {
    pub dir: String,
    pub file_name: String,
}

/// Where an upload to cipher `cipher_uuid` is stored: in the cipher's own
/// directory, under the random hex name; the name the client gave the file
/// has no part in it.
pub fn plan_upload(cipher_uuid: &String, random: &Vec<u8>) -> (t: UploadTarget)
    requires
        random@.len() == ATTACHMENT_ID_BYTES,
    ensures
        t.dir == *cipher_uuid,
        t.file_name@ == hex_lower(random@),
        t.file_name@.len() == 20,
        is_lower_hex(t.file_name@),
{
    UploadTarget { dir: cipher_uuid.clone(), file_name: attachment_file_name(random) }
}

/// Hexadecimal text has two digits per byte, each a lowercase hex digit.
pub proof fn lemma_hex_lower_shape(bytes: Seq<u8>)
    ensures
        hex_lower(bytes).len() == 2 * bytes.len(),
        forall|i: int| 0 <= i < hex_lower(bytes).len() ==>
            ('0' <= #[trigger] hex_lower(bytes)[i] <= '9') || ('a' <= hex_lower(bytes)[i] <= 'f'),
    decreases bytes.len(),
{
    if bytes.len() > 0 {
        lemma_hex_lower_shape(bytes.drop_last());
        let prev = hex_lower(bytes.drop_last());
        let tail = seq![hex_digit(bytes.last() as int / 16), hex_digit(bytes.last() as int % 16)];
        assert forall|i: int| 0 <= i < hex_lower(bytes).len() implies
            ('0' <= #[trigger] hex_lower(bytes)[i] <= '9') || ('a' <= hex_lower(bytes)[i] <= 'f') by {
            if i < prev.len() {
                assert(hex_lower(bytes)[i] == prev[i]);
            } else {
                assert(hex_lower(bytes)[i] == tail[i - prev.len()]);
            }
        }
    }
}

/// What saving an uploaded field gave: a file of the given size, other
/// saved data, a partial save, or an error.
#[derive(PartialEq, Eq, Structural, Clone, Copy, Debug)]
pub enum SaveOutcome {
    File(u64),
    NotFile,
    Partial,
    Error,
}

/// A stored attachment of a cipher.
pub struct Attachment {
    /// The stored file's name, also the attachment's id.
    pub id: String,
    pub cipher_uuid: String,
    /// The name the client gave the file.
    pub file_name: String,
    pub file_size: i32,
}

/// The attachment recorded for an uploaded field saved as file `id`: only a
/// field saved whole as a file is recorded, with its size cut to 32 bits;
/// anything else is skipped.
pub fn attachment_for(id: String, cipher_uuid: String, file_name: String, saved: SaveOutcome) -> (r: Option<Attachment>)
    ensures
        match saved {
            SaveOutcome::File(size) => r matches Some(a) && a.id == id && a.cipher_uuid == cipher_uuid
                && a.file_name == file_name && a.file_size == size as i32,
            _ => r is None,
        },
{
    match saved {
        SaveOutcome::File(size) => Some(Attachment { id, cipher_uuid, file_name, file_size: size as i32 }),
        _ => None,
    }
}

} // verus!
