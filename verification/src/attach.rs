use vstd::prelude::*;
use sha2::Digest;
use crate::chat::{Attachment, sniff_mime_type, sniff_spec};
use crate::storage::{joined_path, path_join};
use crate::text::{string_from, to_chars, string_of_range};

verus! {

/// Largest file, in bytes, that can be attached.
pub const MAX_ATTACHMENT_BYTES: u64 = 10485760u64;

/// The SHA-256 digest of `data`, in lower-case hexadecimal.
pub uninterp spec fn sha256_hex(data: Seq<u8>) -> Seq<char>;

/// `Sha256::digest(data)` printed with `{:x}`: the digest, named
/// `sha256_hex`, as 64 lower-case hexadecimal digits.
#[verifier::external_body]
fn sha256_hex_of(data: &[u8]) -> (r: String)
    ensures
        r@ == sha256_hex(data@),
        r@.len() == 64,
{
    format!("{:x}", sha2::Sha256::digest(data))
}

/// The attachment of the file read from `path` (home already expanded):
/// refused when larger than `MAX_ATTACHMENT_BYTES`; else kept under its
/// digest in `store_dir`, with the first 16 digits of the digest as its id
/// and its MIME type from its content and name.
pub fn attachment_from_data(path: &str, data: &[u8], store_dir: &str) -> (r: Result<Attachment, String>)
    ensures
        data@.len() > MAX_ATTACHMENT_BYTES ==> (r matches Err(m) && m@ == "attachment exceeds max size of 10485760 bytes"@),
        data@.len() <= MAX_ATTACHMENT_BYTES ==> (r matches Ok(a)
            && a.sha256@ == sha256_hex(data@)
            && a.id@ == sha256_hex(data@).take(16)
            && a.original_path@ == path@
            && a.mime_type@ == sniff_spec(path@, data@)
            && a.size_bytes == data@.len()
            && a.store_path@ == joined_path(store_dir@, sha256_hex(data@))
            && a.data_base64 is None),
{
    if data.len() as u64 > MAX_ATTACHMENT_BYTES {
        return Err(string_from("attachment exceeds max size of 10485760 bytes"));
    }
    let mime_type = sniff_mime_type(path, data);
    let sha = sha256_hex_of(data);
    let v = to_chars(sha.as_str());
    let id = string_of_range(&v, 0, 16);
    assert(v@.subrange(0, 16) =~= sha@.take(16));
    let store_path = path_join(store_dir, sha.as_str());
    Ok(Attachment {
        id,
        original_path: string_from(path),
        mime_type,
        sha256: sha,
        size_bytes: data.len() as u64,
        store_path,
        data_base64: None,
    })
}

} // verus!
