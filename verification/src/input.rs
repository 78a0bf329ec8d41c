//! The computing half of the interaction loop: trimming and bounding a line
//! of input, spotting the sentinel that ends registration, and parsing a
//! winner-id token. Reading and printing stay with the caller.

use vstd::prelude::*;
use vstd::string::StrSliceExecFns;
use crate::text::{is_space_char, check_space_char};

verus! {

/// The sentinel word, matched without regard to ASCII case: `done`, `DONE`,
/// `Done`, and so on.
pub open spec fn is_sentinel(s: Seq<char>) -> bool {
    &&& s.len() == 4
    &&& (s[0] == 'd' || s[0] == 'D')
    &&& (s[1] == 'o' || s[1] == 'O')
    &&& (s[2] == 'n' || s[2] == 'N')
    &&& (s[3] == 'e' || s[3] == 'E')
}

/// Decides `is_sentinel`.
pub fn check_sentinel(s: &str) -> (r: bool)
    ensures
        r == is_sentinel(s@),
{
    if s.unicode_len() != 4 {
        return false;
    }
    let c0 = s.get_char(0);
    let c1 = s.get_char(1);
    let c2 = s.get_char(2);
    let c3 = s.get_char(3);
    (c0 == 'd' || c0 == 'D') && (c1 == 'o' || c1 == 'O') && (c2 == 'n' || c2 == 'N') && (c3 == 'e'
        || c3 == 'E')
}

/// `s.subrange(a, b)` is `s` trimmed of whitespace: everything dropped on
/// either side is whitespace and the ends kept are not. A string of nothing
/// but whitespace trims to the empty range at 0.
pub open spec fn trim_bounds(s: Seq<char>, a: int, b: int) -> bool {
    &&& 0 <= a <= b <= s.len()
    &&& forall|i: int| 0 <= i < a ==> is_space_char(s[i])
    &&& forall|i: int| b <= i < s.len() ==> is_space_char(s[i])
    &&& a < b ==> !is_space_char(s[a]) && !is_space_char(s[b - 1])
    &&& a == b ==> a == 0 && b == 0
}

/// Only one pair of bounds trims a given string.
pub proof fn lemma_trim_bounds_unique(s: Seq<char>, a1: int, b1: int, a2: int, b2: int)
    requires
        trim_bounds(s, a1, b1),
        trim_bounds(s, a2, b2),
    ensures
        a1 == a2,
        b1 == b2,
{
    if a1 < b1 && a2 < b2 {
        assert(!is_space_char(s[a1]));
        assert(!is_space_char(s[a2]));
        assert(!is_space_char(s[b1 - 1]));
        assert(!is_space_char(s[b2 - 1]));
    } else if a1 < b1 {
        assert(is_space_char(s[a1]));
    } else if a2 < b2 {
        assert(is_space_char(s[a2]));
    }
}

/// The accepted form of a line of input: the line trimmed of surrounding
/// whitespace, provided the trimmed text has at most `LINE_LIMIT` characters.
/// A longer line is rejected whole.
pub const LINE_LIMIT: usize = 50;

/// Trims `line` and enforces the length bound: `Some` carries the trimmed
/// text when it has at most `LINE_LIMIT` characters, and `None` means the
/// trimmed text was longer than that.
pub fn clean_line(line: &str) -> (r: Option<String>)
    ensures
        match r {
            Some(t) => exists|a: int, b: int|
                {
                    &&& #[trigger] trim_bounds(line@, a, b)
                    &&& t@ == line@.subrange(a, b)
                    &&& b - a <= LINE_LIMIT
                },
            None => forall|a: int, b: int| #[trigger] trim_bounds(line@, a, b) ==> b - a > LINE_LIMIT,
        },
{
    let n = line.unicode_len();
    let mut a: usize = 0;
    while a < n && check_space_char(line.get_char(a))
        invariant
            0 <= a <= n,
            n == line@.len(),
            forall|i: int| 0 <= i < a ==> is_space_char(line@[i]),
        decreases n - a,
    {
        a += 1;
    }
    if a == n {
        proof {
            assert(trim_bounds(line@, 0, 0));
            assert(line@.subrange(0, 0) =~= Seq::<char>::empty());
        }
        return Some(String::new());
    }
    let mut b: usize = n;
    while b > a + 1 && check_space_char(line.get_char(b - 1))
        invariant
            0 <= a < b <= n,
            n == line@.len(),
            !is_space_char(line@[a as int]),
            forall|i: int| 0 <= i < a ==> is_space_char(line@[i]),
            forall|i: int| b <= i < n ==> is_space_char(line@[i]),
        decreases b,
    {
        b -= 1;
    }
    proof {
        assert(trim_bounds(line@, a as int, b as int));
    }
    if b - a > LINE_LIMIT {
        proof {
            assert forall|x: int, y: int| #[trigger] trim_bounds(line@, x, y) implies y - x
                > LINE_LIMIT by {
                lemma_trim_bounds_unique(line@, a as int, b as int, x, y);
            }
        }
        return None;
    }
    let t = line.substring_char(a, b);
    Some(t.to_owned())
}

/// An ASCII decimal digit.
pub open spec fn is_digit_char(c: char) -> bool {
    0x30 <= (c as u32) && (c as u32) <= 0x39
}

/// Every character of `s` is an ASCII decimal digit.
pub open spec fn all_digits(s: Seq<char>) -> bool {
    forall|i: int| 0 <= i < s.len() ==> is_digit_char(s[i])
}

/// The numeric value a character contributes as a decimal digit.
pub open spec fn digit_val(c: char) -> int {
    (c as u32) - 0x30
}

/// The value of `s` read as a decimal numeral, most significant digit first.
pub open spec fn digits_value(s: Seq<char>) -> int
    decreases s.len(),
{
    if s.len() == 0 {
        0
    } else {
        digits_value(s.drop_last()) * 10 + digit_val(s.last())
    }
}

/// The largest id the interaction loop accepts as a winner-id token.
pub const WINNER_ID_LIMIT: usize = 1000;

/// Once a numeral's prefix exceeds the id limit, the whole numeral does,
/// whatever characters follow.
proof fn lemma_digits_stay_large(s: Seq<char>, k: int)
    requires
        0 <= k <= s.len(),
        digits_value(s.take(k)) > WINNER_ID_LIMIT,
    ensures
        digits_value(s) > WINNER_ID_LIMIT,
    decreases s.len() - k,
{
    if k < s.len() {
        assert(s.take(k + 1).drop_last() =~= s.take(k));
        assert(s.take(k + 1).last() == s[k]);
        assert((s[k] as u32) >= 0);
        assert(digits_value(s.take(k + 1)) > WINNER_ID_LIMIT);
        lemma_digits_stay_large(s, k + 1);
    } else {
        assert(s.take(k) =~= s);
    }
}

/// Parses a winner-id token: the token must be all decimal digits and name
/// an id between 1 and `WINNER_ID_LIMIT`. Anything else — an empty token, a
/// stray character, zero, or a larger number — is rejected.
pub fn parse_winner_id(s: &str) -> (r: Option<usize>)
    ensures
        match r {
            Some(v) => {
                &&& s@.len() > 0
                &&& all_digits(s@)
                &&& 1 <= v <= WINNER_ID_LIMIT
                &&& v == digits_value(s@)
            },
            None => !(s@.len() > 0 && all_digits(s@) && 1 <= digits_value(s@) <= WINNER_ID_LIMIT),
        },
{
    let n = s.unicode_len();
    if n == 0 {
        return None;
    }
    let mut i: usize = 0;
    let mut acc: u64 = 0;
    while i < n
        invariant
            0 <= i <= n,
            n == s@.len(),
            forall|j: int| 0 <= j < i ==> is_digit_char(s@[j]),
            acc as int == digits_value(s@.take(i as int)),
            acc <= WINNER_ID_LIMIT,
        decreases n - i,
    {
        let c = s.get_char(i);
        let u = c as u32;
        if !(0x30 <= u && u <= 0x39) {
            proof {
                assert(!is_digit_char(s@[i as int]));
            }
            return None;
        }
        acc = acc * 10 + ((u - 0x30) as u64);
        proof {
            assert(s@.take(i as int + 1).drop_last() =~= s@.take(i as int));
            assert(s@.take(i as int + 1).last() == s@[i as int]);
        }
        if acc > WINNER_ID_LIMIT as u64 {
            proof {
                lemma_digits_stay_large(s@, i as int + 1);
            }
            return None;
        }
        i += 1;
    }
    proof {
        assert(s@.take(n as int) =~= s@);
    }
    if acc == 0 {
        return None;
    }
    Some(acc as usize)
}

} // verus!
