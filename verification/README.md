# bitwarden_ciphers

The request rules of a password vault's cipher API, verified with Verus.

`src/` holds the rules. Each route's decision is a function from what the
database returned (plain values: the cipher found and the user's rights on
it, the folder's owner, the user's organization membership, the collections
that exist) to a refusal or to the writes to perform, in order:

- `update` – merging a posted cipher: ownership, folder, type data, and the
  stored JSON text; creating (`post_ciphers`) and editing (`put_cipher`).
- `collections` – setting a cipher's collections from a request; the
  symmetric difference of posted and current collections, and laws that a
  successful update leaves the cipher in exactly the posted collections.
- `share` – sharing one cipher with an organization, and sharing several
  as a step function: last selected first, stopping at the first refusal.
- `selection` – reading `Ids` and `FolderId` from a JSON body; deleting or
  moving ciphers named by a list of ids.
- `import` – an import as a step function: the posted folders, then each
  posted cipher as a new cipher in order (stopping at the first refusal),
  then the revision update; each cipher goes in the folder of the last
  relation naming it.
- `attachment` – where an upload is stored (the cipher's directory, a
  20-digit hex name from 10 random bytes) and the attachment record.
- `access`, `purge`, `error`, `model`, `json` – checks, vault purge, refusals,
  records, and the serde_json operations the rules rely on.

`app/` holds the routes around the rules: request bodies with their serde
derives, the database interface they read and write, and each route, which
looks up, asks the rules, and performs the writes.
