use vstd::prelude::*;
use vstd::utf8::encode_utf8;

verus! {

/// The longest human-readable plugin name, in bytes.
pub const MAX_NAME_FOR_HUMAN: usize = 20;

/// The longest plugin name shown to the model, in bytes.
pub const MAX_NAME_FOR_MODEL: usize = 50;

/// The longest human-readable description, in bytes.
pub const MAX_DESCRIPTION_FOR_HUMAN: usize = 100;

/// The longest description shown to the model, in bytes.
pub const MAX_DESCRIPTION_FOR_MODEL: usize = 8000;

/// How a plugin authenticates.
#[derive(Debug, Copy, Clone, PartialEq, Eq, Structural)]
pub enum ManifestAuth {
    /// No authentication.
    NoAuth,
    UserHttp,
    ServiceHttp,
    Oauth,
}

/// Where a plugin's API is described.
#[derive(Debug, Clone)]
pub enum ManifestApi {
    Openapi { url: String, is_user_authenticated: bool },
}

/// A plugin manifest.
#[derive(Debug, Clone)]
pub struct Manifest {
    pub schema_version: String,
    pub name_for_human: String,
    pub name_for_model: String,
    pub description_for_human: String,
    pub description_for_model: String,
    pub auth: ManifestAuth,
    pub api: ManifestApi,
    pub logo_url: String,
    pub contact_email: String,
    pub legal_info_url: String,
}

/// A manifest field longer than its limit.
#[derive(Debug, Clone)]
pub struct FieldTooLong {
    pub field: String,
    pub max: usize,
    pub got: usize,
}

/// The length of a text in UTF-8 bytes, as `str::len` gives it.
pub open spec fn byte_len(s: Seq<char>) -> usize {
    encode_utf8(s).len() as usize
}

/// Accepts a field value of at most `len` bytes; names the field otherwise.
pub fn test_len(string: String, iden: &str, len: usize) -> (r: Result<String, FieldTooLong>)
    ensures
        byte_len(string@) <= len ==> r == Ok::<String, FieldTooLong>(string),
        byte_len(string@) > len ==> (r matches Err(e) && e.field@ == iden@ && e.max == len
            && e.got == byte_len(string@)),
{
    let got = string.as_str().len();
    if got > len {
        Err(FieldTooLong { field: iden.to_owned(), max: len, got })
    } else {
        Ok(string)
    }
}

} // verus!
