//! Decimal rendering and parsing of record ids, used for the `sub` claim of
//! session tokens, which carries the user id as a string.

use vstd::prelude::*;

verus! {

/// The digit character for a value in 0..=9.
pub open spec fn spec_digit_char(d: int) -> char
    recommends
        0 <= d < 10,
{
    if d == 0 {
        '0'
    } else if d == 1 {
        '1'
    } else if d == 2 {
        '2'
    } else if d == 3 {
        '3'
    } else if d == 4 {
        '4'
    } else if d == 5 {
        '5'
    } else if d == 6 {
        '6'
    } else if d == 7 {
        '7'
    } else if d == 8 {
        '8'
    } else {
        '9'
    }
}

/// Whether `c` is an ASCII decimal digit.
pub open spec fn is_digit_char(c: char) -> bool {
    48 <= c as int <= 57
}

/// The numeric value of a digit character.
pub open spec fn digit_val(c: char) -> int {
    c as int - 48
}

/// Whether every character of `s` is a decimal digit.
pub open spec fn all_digits(s: Seq<char>) -> bool {
    forall|i: int| 0 <= i < s.len() ==> is_digit_char(#[trigger] s[i])
}

/// The canonical decimal rendering of a non-negative number.
pub open spec fn spec_decimal(n: int) -> Seq<char>
    recommends
        n >= 0,
    decreases n,
{
    if n < 10 {
        seq![spec_digit_char(n)]
    } else {
        spec_decimal(n / 10) + seq![spec_digit_char(n % 10)]
    }
}

/// The number that a sequence of digit characters denotes
/// (0 for the empty sequence).
pub open spec fn spec_parse_digits(s: Seq<char>) -> int
    decreases s.len(),
{
    if s.len() == 0 {
        0
    } else {
        spec_parse_digits(s.subrange(0, s.len() - 1)) * 10 + digit_val(s[s.len() - 1])
    }
}

/// A one-character string holding the digit for `d`.
fn digit_str(d: i32) -> (r: &'static str)
    requires
        0 <= d < 10,
    ensures
        r@.len() == 1,
        r@[0] == spec_digit_char(d as int),
{
    if d == 0 {
        proof {
            reveal_strlit("0");
        }
        "0"
    } else if d == 1 {
        proof {
            reveal_strlit("1");
        }
        "1"
    } else if d == 2 {
        proof {
            reveal_strlit("2");
        }
        "2"
    } else if d == 3 {
        proof {
            reveal_strlit("3");
        }
        "3"
    } else if d == 4 {
        proof {
            reveal_strlit("4");
        }
        "4"
    } else if d == 5 {
        proof {
            reveal_strlit("5");
        }
        "5"
    } else if d == 6 {
        proof {
            reveal_strlit("6");
        }
        "6"
    } else if d == 7 {
        proof {
            reveal_strlit("7");
        }
        "7"
    } else if d == 8 {
        proof {
            reveal_strlit("8");
        }
        "8"
    } else {
        proof {
            reveal_strlit("9");
        }
        "9"
    }
}

/// Renders a number as its decimal string.
pub fn u64_to_string(n: u64) -> (r: String)
    ensures
        r@ == spec_decimal(n as int),
    decreases n,
{
    if n < 10 {
        let r = String::from_str(digit_str((n % 10) as i32));
        proof {
            assert(r@ =~= spec_decimal(n as int));
        }
        r
    } else {
        let mut s = u64_to_string(n / 10);
        s.append(digit_str((n % 10) as i32));
        proof {
            assert(s@ =~= spec_decimal(n as int));
        }
        s
    }
}

/// Renders a non-negative id as its decimal string.
pub fn i32_to_string(n: i32) -> (r: String)
    requires
        n >= 0,
    ensures
        r@ == spec_decimal(n as int),
{
    u64_to_string(n as u64)
}

/// The value of a digit string only grows as more digits are read:
/// every prefix denotes at most the whole.
proof fn lemma_parse_prefix_le(s: Seq<char>, i: int)
    requires
        all_digits(s),
        0 <= i <= s.len(),
    ensures
        spec_parse_digits(s.subrange(0, i)) <= spec_parse_digits(s),
        spec_parse_digits(s) >= 0,
    decreases s.len(), s.len() - i,
{
    if i == s.len() {
        assert(s.subrange(0, i) =~= s);
        if s.len() == 0 {
        } else {
            lemma_parse_prefix_le(s.subrange(0, s.len() - 1), s.len() - 1);
            assert(s.subrange(0, s.len() - 1).subrange(0, s.len() - 1) =~= s.subrange(
                0,
                s.len() - 1,
            ));
            assert(spec_parse_digits(s.subrange(0, s.len() - 1)) >= 0);
        }
    } else {
        lemma_parse_prefix_le(s, i + 1);
        let p = s.subrange(0, i + 1);
        assert(p.subrange(0, i) =~= s.subrange(0, i));
        assert(spec_parse_digits(p) == spec_parse_digits(s.subrange(0, i)) * 10 + digit_val(
            s[i],
        ));
        lemma_parse_nonneg(s.subrange(0, i));
    }
}

/// A digit string denotes a non-negative number.
proof fn lemma_parse_nonneg(s: Seq<char>)
    requires
        all_digits(s),
    ensures
        spec_parse_digits(s) >= 0,
    decreases s.len(),
{
    if s.len() > 0 {
        let p = s.subrange(0, s.len() - 1);
        lemma_parse_nonneg(p);
    }
}

/// The id a subject string denotes: `Some` exactly for a non-empty,
/// all-digit string whose value fits in an `i32`.
pub open spec fn spec_parse_id(s: Seq<char>) -> Option<int> {
    if s.len() > 0 && all_digits(s) && spec_parse_digits(s) <= i32::MAX {
        Some(spec_parse_digits(s))
    } else {
        None
    }
}

/// Parses a record id from its decimal string: `Some` exactly for a
/// non-empty, all-digit string whose value fits in an `i32`.
pub fn parse_user_id(s: &str) -> (r: Option<i32>)
    ensures
        r matches Some(v) ==> spec_parse_id(s@) == Some(v as int),
        r is Some <==> spec_parse_id(s@) is Some,
{
    let len = s.unicode_len();
    if len == 0 {
        return None;
    }
    let mut acc: i32 = 0;
    let mut i: usize = 0;
    while i < len
        invariant
            0 <= i <= len,
            len == s@.len(),
            all_digits(s@.subrange(0, i as int)),
            acc == spec_parse_digits(s@.subrange(0, i as int)),
            0 <= acc <= i32::MAX,
        decreases len - i,
    {
        let c = s.get_char(i);
        let v = c as u32;
        if v < 48 || v > 57 {
            proof {
                assert(!is_digit_char(s@[i as int]));
            }
            return None;
        }
        let d: i32 = (v - 48) as i32;
        proof {
            assert(s@.subrange(0, i + 1).subrange(0, i as int) =~= s@.subrange(0, i as int));
        }
        if acc > (i32::MAX - d) / 10 {
            proof {
                let p = s@.subrange(0, i + 1);
                assert(spec_parse_digits(p) == acc * 10 + d);
                assert(acc * 10 + d > i32::MAX) by (nonlinear_arith)
                    requires
                        acc > (i32::MAX - d) / 10,
                        0 <= d < 10,
                        acc >= 0,
                ;
                if all_digits(s@) {
                    lemma_parse_prefix_le(s@, i + 1);
                }
            }
            return None;
        }
        proof {
            assert(acc * 10 + d <= i32::MAX) by (nonlinear_arith)
                requires
                    acc <= (i32::MAX - d) / 10,
                    0 <= d < 10,
                    acc >= 0,
            ;
        }
        acc = acc * 10 + d;
        i = i + 1;
    }
    proof {
        assert(s@.subrange(0, len as int) =~= s@);
    }
    Some(acc)
}

/// Rendering an id and reading it back returns the id: `spec_decimal`
/// always yields a non-empty digit string denoting its input.
pub proof fn lemma_decimal_roundtrip(n: int)
    requires
        n >= 0,
    ensures
        spec_decimal(n).len() >= 1,
        all_digits(spec_decimal(n)),
        spec_parse_digits(spec_decimal(n)) == n,
    decreases n,
{
    if n < 10 {
        let s = spec_decimal(n);
        assert(s.subrange(0, 0) =~= Seq::<char>::empty());
        assert(digit_val(spec_digit_char(n)) == n);
        assert(spec_parse_digits(s) == spec_parse_digits(s.subrange(0, 0)) * 10 + digit_val(
            s[0],
        ));
    } else {
        lemma_decimal_roundtrip(n / 10);
        let p = spec_decimal(n / 10);
        let s = spec_decimal(n);
        assert(s == p + seq![spec_digit_char(n % 10)]);
        assert(s.len() == p.len() + 1);
        assert(is_digit_char(spec_digit_char(n % 10)));
        assert(forall|i: int| 0 <= i < s.len() ==> is_digit_char(#[trigger] s[i]));
        assert(s.subrange(0, s.len() - 1) =~= p);
        assert(spec_parse_digits(s) == spec_parse_digits(p) * 10 + digit_val(s[s.len() - 1]));
        assert((n / 10) * 10 + n % 10 == n) by (nonlinear_arith)
            requires
                n >= 0,
        ;
    }
}

} // verus!
