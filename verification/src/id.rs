//! Identifiers: every row id is a ULID in its canonical text form, which sorts
//! by creation time.

use vstd::prelude::*;

verus! {

/// A character of the Crockford base-32 alphabet ULIDs are written in.
pub open spec fn is_crockford_char(c: char) -> bool {
    ('0' <= c && c <= '9') || ('A' <= c && c <= 'Z' && c != 'I' && c != 'L' && c != 'O' && c
        != 'U')
}

/// The canonical text of a ULID: 26 Crockford base-32 characters.
pub open spec fn is_ulid_text(s: Seq<char>) -> bool {
    s.len() == 26 && forall|i: int| 0 <= i < s.len() ==> is_crockford_char(#[trigger] s[i])
}

/// A fresh ULID (`ulid::Ulid::new`, which reads the clock and a random
/// source) rendered with `Ulid::to_string`. Claims only the shape of the text
/// the crate documents and its encoder writes: 26 characters from its
/// alphabet `0123456789ABCDEFGHJKMNPQRSTVWXYZ`. Which id comes back is not
/// stated: it depends on time and chance.
#[verifier::external_body]
pub fn new_id() -> (r: String)
    ensures
        is_ulid_text(r@),
{
    ulid::Ulid::new().to_string()
}

} // verus!
