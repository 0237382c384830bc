//! Identifiers handed out for opened files: random UUIDs, written and read
//! in their textual form.

use vstd::prelude::*;

verus! {

/// The UUID that a text denotes, if it is one in a form the uuid crate reads.
pub uninterp spec fn uuid_parsed(s: Seq<char>) -> Option<u128>;

/// The lower-case hyphenated text of a UUID.
pub uninterp spec fn uuid_hyphenated(v: u128) -> Seq<char>;

/// Relies on `uuid::Uuid::new_v4` (and `as_u128`): random bits with the
/// version nibble set to 4 and the variant bits to `10`, as its source masks them.
#[verifier::external_body]
fn random_v4() -> (r: u128)
    ensures
        r & 0xF000_C000_0000_0000_0000 == 0x4000_8000_0000_0000_0000,
{
    uuid::Uuid::new_v4().as_u128()
}

/// Relies on `uuid::Uuid::parse_str` (and `as_u128`): the UUID the text
/// denotes, or nothing when it is not a UUID.
#[verifier::external_body]
fn parse_uuid(s: &str) -> (r: Option<u128>)
    ensures
        r == uuid_parsed(s@),
{
    uuid::Uuid::parse_str(s).ok().map(|u| u.as_u128())
}

/// Relies on `uuid::Uuid::from_u128` and its `Display`: the hyphenated text,
/// 36 characters long.
#[verifier::external_body]
fn uuid_text(v: u128) -> (r: String)
    ensures
        r@ == uuid_hyphenated(v),
        r@.len() == 36,
{
    uuid::Uuid::from_u128(v).to_string()
}

/// The identifier of one opened file.
#[derive(Clone, Copy, Debug, PartialEq, Eq, Hash, Structural)]
pub struct FileId {
    pub value: u128,
}

impl FileId {
    /// A fresh random identifier (a version 4 UUID).
    pub fn generate() -> (r: FileId)
        ensures
            r.value & 0xF000_C000_0000_0000_0000 == 0x4000_8000_0000_0000_0000,
    {
        FileId { value: random_v4() }
    }

    /// Reads an identifier from its text; malformed text gives nothing.
    pub fn parse(text: &str) -> (r: Option<FileId>)
        ensures
            r == match uuid_parsed(text@) {
                Some(v) => Some(FileId { value: v }),
                None => None::<FileId>,
            },
    {
        match parse_uuid(text) {
            Some(v) => Some(FileId { value: v }),
            None => None,
        }
    }

    /// The identifier's text, as handed to callers.
    pub fn to_text(&self) -> (r: String)
        ensures
            r@ == uuid_hyphenated(self.value),
            r@.len() == 36,
    {
        uuid_text(self.value)
    }
}

} // verus!
