//! Identifiers of albums, tracks and temporary uploads.

use vstd::prelude::*;

verus! {

pub open spec fn lower_hex(c: char) -> bool {
    '0' <= c <= '9' || 'a' <= c <= 'f'
}

/// The hyphenated text form of a random (version 4) UUID, such as
/// `67e55044-10b1-426f-9247-bb680e5fe0c8`.
pub open spec fn uuid_v4_text(s: Seq<char>) -> bool {
    &&& s.len() == 36
    &&& forall|i: int|
        0 <= i < 36 ==> if i == 8 || i == 13 || i == 18 || i == 23 {
            #[trigger] s[i] == '-'
        } else {
            lower_hex(s[i])
        }
    &&& s[14] == '4'
    &&& s[19] == '8' || s[19] == '9' || s[19] == 'a' || s[19] == 'b'
}

/// A new random identifier: [`uuid::Uuid::new_v4`], in the text form that its
/// `Display` gives it.
///
/// Claimed of every outcome: the text has the shape of a version 4 UUID in
/// lower case. Nothing is claimed of its random digits, not even that they
/// differ from those of an earlier identifier. The call panics where the
/// operating system has no random bytes to give.
#[verifier::external_body]
pub(crate) fn new_id() -> (id: String)
    ensures
        uuid_v4_text(id@),
{
    uuid::Uuid::new_v4().to_string()
}

} // verus!
