//! Identifiers made up on the client's side.

use vstd::prelude::*;
use vstd::string::*;

verus! {

/// Number of characters of a random identifier in its hyphenated form.
pub const UUID_LENGTH: usize = 36;

/// What precedes the random part in the id given to an entry that came
/// without one.
pub const LOCAL_ID_PREFIX: &'static str = "msg-";

/// Draws a random identifier with `uuid::Uuid::new_v4` and writes it out
/// with the crate's `Display`, which is the lower-case hyphenated form. The
/// value is random; claimed is only its length, the 36 characters of that
/// form.
#[verifier::external_body]
fn random_uuid() -> (r: String)
    ensures
        r@.len() == UUID_LENGTH,
{
    uuid::Uuid::new_v4().to_string()
}

/// A fresh random identifier, of 36 characters.
pub fn new_identifier() -> (r: String)
    ensures
        r@.len() == UUID_LENGTH,
{
    random_uuid()
}

/// The id for an entry that came without one, made from a random part.
pub fn local_message_id(random_part: &str) -> (r: String)
    ensures
        r@ == LOCAL_ID_PREFIX@ + random_part@,
{
    let mut id = LOCAL_ID_PREFIX.to_owned();
    id.append(random_part);
    id
}

/// A fresh id for an entry that came without one: the prefix, then a random
/// identifier.
pub fn new_local_message_id() -> (r: String)
    ensures
        exists|random_part: Seq<char>|
            random_part.len() == UUID_LENGTH && r@ == LOCAL_ID_PREFIX@ + random_part,
{
    let random_part = new_identifier();
    local_message_id(random_part.as_str())
}

} // verus!
