//! Four-byte tags, carried as big-endian 32-bit numbers.

use vstd::prelude::*;

verus! {

/// The code of the tag made of four spaces, which stands for any text that
/// is no tag.
pub const BLANK_TAG: u32 = 0x2020_2020;

/// A printable ASCII character, the space included.
pub open spec fn is_tag_char(c: char) -> bool {
    0x20 <= c as u32 && c as u32 <= 0x7e
}

/// The text can be written as a tag: one to four printable ASCII
/// characters, not starting with a space, and with spaces only at the end.
pub open spec fn is_tag_text(s: Seq<char>) -> bool {
    &&& 1 <= s.len() <= 4
    &&& s[0] != ' '
    &&& forall|i: int| 0 <= i < s.len() ==> is_tag_char(#[trigger] s[i])
    &&& forall|i: int, j: int|
        0 <= i < j < s.len() && #[trigger] s[i] == ' ' ==> #[trigger] s[j] == ' '
}

/// The byte at position `i` of the tag that `s` writes: the character
/// there, or a space past the end.
pub open spec fn tag_byte(s: Seq<char>, i: int) -> int {
    if 0 <= i < s.len() {
        s[i] as u32 as int
    } else {
        0x20
    }
}

/// The code of the tag that a text writes, first byte most significant.
/// A text that is no tag has the code of four spaces.
pub open spec fn tag_code(s: Seq<char>) -> u32 {
    if is_tag_text(s) {
        (tag_byte(s, 0) * 0x100_0000 + tag_byte(s, 1) * 0x1_0000 + tag_byte(s, 2) * 0x100
            + tag_byte(s, 3)) as u32
    } else {
        BLANK_TAG
    }
}

/// The code of the tag that `text` writes.
///
/// Calls skrifa's `Tag::new_checked` on the bytes of `text` and takes
/// `Tag::default()`, four spaces, where it refuses them. It accepts one to
/// four bytes from 0x20 to 0x7E whose first is no space and in which only
/// spaces follow a space, and pads them with spaces to four. Nothing of
/// this is proved here.
#[verifier::external_body]
pub(crate) fn code_of(text: &str) -> (code: u32)
    ensures
        code == tag_code(text@),
{
    u32::from_be_bytes(skrifa::Tag::new_checked(text.as_bytes()).unwrap_or_default().to_be_bytes())
}

} // verus!
