//! Character classification used by name validation: control characters,
//! whitespace, and whole-string checks over them.

use vstd::prelude::*;
use vstd::string::StrSliceExecFns;

verus! {

/// A Unicode control character: the C0 controls, DEL, and the C1 controls.
/// This is exactly the set the registry forbids in player names.
pub open spec fn is_control_char(c: char) -> bool {
    (c as u32) < 0x20 || (0x7f <= (c as u32) && (c as u32) <= 0x9f)
}

/// A Unicode whitespace character (the White_Space property): what trimming
/// strips from the ends of a line, and what a blank name consists of.
pub open spec fn is_space_char(c: char) -> bool {
    ||| (0x09 <= (c as u32) && (c as u32) <= 0x0d)
    ||| c == ' '
    ||| c == '\u{85}'
    ||| c == '\u{a0}'
    ||| c == '\u{1680}'
    ||| (0x2000 <= (c as u32) && (c as u32) <= 0x200a)
    ||| c == '\u{2028}'
    ||| c == '\u{2029}'
    ||| c == '\u{202f}'
    ||| c == '\u{205f}'
    ||| c == '\u{3000}'
}

/// A string is blank when every character is whitespace; trimming such a
/// string leaves nothing. The empty string is blank.
pub open spec fn is_blank(s: Seq<char>) -> bool {
    forall|i: int| 0 <= i < s.len() ==> is_space_char(s[i])
}

/// A string contains at least one control character.
pub open spec fn has_control(s: Seq<char>) -> bool {
    exists|i: int| 0 <= i < s.len() && is_control_char(s[i])
}

/// Decides `is_control_char`.
pub fn check_control_char(c: char) -> (r: bool)
    ensures
        r == is_control_char(c),
{
    let u = c as u32;
    u < 0x20 || (0x7f <= u && u <= 0x9f)
}

/// Decides `is_space_char`.
pub fn check_space_char(c: char) -> (r: bool)
    ensures
        r == is_space_char(c),
{
    let u = c as u32;
    (0x09 <= u && u <= 0x0d) || c == ' ' || c == '\u{85}' || c == '\u{a0}' || c == '\u{1680}' || (
    0x2000 <= u && u <= 0x200a) || c == '\u{2028}' || c == '\u{2029}' || c == '\u{202f}' || c
        == '\u{205f}' || c == '\u{3000}'
}

/// Decides `is_blank` for a string slice.
pub fn check_blank(s: &str) -> (r: bool)
    ensures
        r == is_blank(s@),
{
    let n = s.unicode_len();
    let mut i: usize = 0;
    while i < n
        invariant
            0 <= i <= n,
            n == s@.len(),
            forall|j: int| 0 <= j < i ==> is_space_char(s@[j]),
        decreases n - i,
    {
        if !check_space_char(s.get_char(i)) {
            return false;
        }
        i += 1;
    }
    true
}

/// Decides `has_control` for a string slice.
pub fn check_has_control(s: &str) -> (r: bool)
    ensures
        r == has_control(s@),
{
    let n = s.unicode_len();
    let mut i: usize = 0;
    while i < n
        invariant
            0 <= i <= n,
            n == s@.len(),
            forall|j: int| 0 <= j < i ==> !is_control_char(s@[j]),
        decreases n - i,
    {
        if check_control_char(s.get_char(i)) {
            return true;
        }
        i += 1;
    }
    false
}

} // verus!
