//! Reading values out of the whitespace-separated tokens of a turn's input.
use vstd::prelude::*;

verus! {

/// A decimal digit.
pub open spec fn is_digit(c: char) -> bool {
    '0' <= c <= '9'
}

/// Every character is a decimal digit.
pub open spec fn all_digits(s: Seq<char>) -> bool {
    forall|i: int| 0 <= i < s.len() ==> is_digit(#[trigger] s[i])
}

/// The number a run of decimal digits spells.
pub open spec fn digits_value(s: Seq<char>) -> int
    decreases s.len(),
{
    if s.len() == 0 {
        0
    } else {
        digits_value(s.drop_last()) * 10 + (s.last() as int - '0' as int)
    }
}

/// The integer a token spells: one or more decimal digits, with an optional
/// leading `-` or `+`.
pub open spec fn decimal_value(s: Seq<char>) -> Option<int> {
    if s.len() > 1 && (s[0] == '-' || s[0] == '+') && all_digits(s.drop_first()) {
        if s[0] == '-' {
            Some(-digits_value(s.drop_first()))
        } else {
            Some(digits_value(s.drop_first()))
        }
    } else if s.len() > 0 && all_digits(s) {
        Some(digits_value(s))
    } else {
        None
    }
}

/// The integer a token spells, if it lies in `lo..=hi`.
pub open spec fn int_in(s: Seq<char>, lo: int, hi: int) -> Option<int> {
    match decimal_value(s) {
        Some(v) => if lo <= v <= hi {
            Some(v)
        } else {
            None
        },
        None => None,
    }
}

/// Largest magnitude the parser tracks exactly; beyond it only "too large"
/// is kept.
pub const TRACKED: i64 = 1_000_000;

proof fn lemma_digits_value_non_negative(s: Seq<char>)
    requires
        all_digits(s),
    ensures
        digits_value(s) >= 0,
    decreases s.len(),
{
    if s.len() > 0 {
        assert(all_digits(s.drop_last())) by {
            assert forall|i: int| 0 <= i < s.drop_last().len() implies is_digit(
                #[trigger] s.drop_last()[i],
            ) by {
                assert(s.drop_last()[i] == s[i]);
            }
        }
        lemma_digits_value_non_negative(s.drop_last());
    }
}

/// The value of the digits of `s` from `start` on, capped: `None` when it
/// exceeds the tracked range, and when a character is not a digit.
fn digits_from(s: &str, start: usize) -> (r: Option<i64>)
    requires
        start <= s@.len(),
    ensures
        all_digits(s@.subrange(start as int, s@.len() as int)) ==> match r {
            Some(v) => v == digits_value(s@.subrange(start as int, s@.len() as int)) && v
                <= TRACKED,
            None => digits_value(s@.subrange(start as int, s@.len() as int)) > TRACKED,
        },
        !all_digits(s@.subrange(start as int, s@.len() as int)) ==> r is None,
{
    let n = s.unicode_len();
    let mut i: usize = start;
    let mut acc: i64 = 0;
    let mut big = false;
    assert(s@.subrange(start as int, start as int) =~= Seq::<char>::empty());
    while i < n
        invariant
            start <= i <= n,
            n == s@.len(),
            all_digits(s@.subrange(start as int, i as int)),
            !big ==> acc == digits_value(s@.subrange(start as int, i as int)) && 0 <= acc
                <= TRACKED,
            big ==> digits_value(s@.subrange(start as int, i as int)) > TRACKED,
        decreases n - i,
    {
        let c = s.get_char(i);
        let ghost prefix = s@.subrange(start as int, i + 1);
        assert(prefix.drop_last() =~= s@.subrange(start as int, i as int));
        assert(prefix.last() == c);
        if !('0' <= c && c <= '9') {
            assert(!all_digits(s@.subrange(start as int, n as int))) by {
                assert(s@.subrange(start as int, n as int)[i - start] == c);
            }
            return None;
        }
        assert(all_digits(prefix)) by {
            assert forall|j: int| 0 <= j < prefix.len() implies is_digit(#[trigger] prefix[j]) by {
                if j < prefix.len() - 1 {
                    assert(prefix[j] == s@.subrange(start as int, i as int)[j]);
                }
            }
        }
        if !big {
            let d = (c as u32 - '0' as u32) as i64;
            let next = acc * 10 + d;
            if next > TRACKED {
                big = true;
            } else {
                acc = next;
            }
        }
        i += 1;
    }
    assert(s@.subrange(start as int, n as int) == s@.subrange(start as int, i as int));
    if big {
        None
    } else {
        Some(acc)
    }
}

/// The integer `token` spells, if it lies in `lo..=hi`.
pub fn parse_int_in(token: &str, lo: i64, hi: i64) -> (r: Option<i64>)
    requires
        -TRACKED <= lo <= hi <= TRACKED,
    ensures
        match r {
            Some(v) => int_in(token@, lo as int, hi as int) == Some(v as int),
            None => int_in(token@, lo as int, hi as int) is None,
        },
{
    let n = token.unicode_len();
    if n == 0 {
        return None;
    }
    let first = token.get_char(0);
    let signed = first == '-' || first == '+';
    if signed && n == 1 {
        return None;
    }
    let start: usize = if signed {
        1
    } else {
        0
    };
    assert(token@.subrange(0, n as int) =~= token@);
    assert(token@.subrange(1, n as int) =~= token@.drop_first());
    let digits = digits_from(token, start);
    proof {
        let rest = token@.subrange(start as int, n as int);
        if all_digits(rest) {
            lemma_digits_value_non_negative(rest);
        }
        if signed && !all_digits(token@.drop_first()) {
            assert(!all_digits(token@)) by {
                assert(!is_digit(token@[0]));
            }
        }
    }
    match digits {
        Some(v) => {
            let value = if first == '-' {
                -v
            } else {
                v
            };
            if lo <= value && value <= hi {
                Some(value)
            } else {
                None
            }
        },
        None => None,
    }
}

/// Whether two strings hold the same characters.
pub fn str_eq(a: &str, b: &str) -> (r: bool)
    ensures
        r == (a@ == b@),
{
    let n = a.unicode_len();
    if n != b.unicode_len() {
        return false;
    }
    let mut i: usize = 0;
    while i < n
        invariant
            i <= n,
            n == a@.len() == b@.len(),
            forall|j: int| 0 <= j < i ==> a@[j] == b@[j],
        decreases n - i,
    {
        if a.get_char(i) != b.get_char(i) {
            return false;
        }
        i += 1;
    }
    assert(a@ =~= b@);
    true
}

} // verus!
