//! Classification of number tokens.
//!
//! A token is a numeral when it matches the standard decimal
//! floating-point literal grammar: an optional sign, then either one of
//! the special words `inf`, `infinity` or `nan` (in any letter case), or
//! a digit string with an optional fractional part and an optional
//! exponent part. Numerals keep their spelling: the interpreter renders
//! them as written.

use vstd::prelude::*;
use vstd::string::StrSliceExecFns;

verus! {

pub open spec fn is_digit(c: char) -> bool {
    '0' <= c && c <= '9'
}

/// How many leading characters of `s` are digits.
pub open spec fn digits_prefix_len(s: Seq<char>) -> nat
    decreases s.len(),
{
    if s.len() > 0 && is_digit(s[0]) {
        1 + digits_prefix_len(s.drop_first())
    } else {
        0
    }
}

pub open spec fn all_digits(s: Seq<char>) -> bool {
    forall|i: int| 0 <= i < s.len() ==> is_digit(s[i])
}

/// An exponent part: `e` or `E`, an optional sign, then one or more digits.
pub open spec fn is_exponent(s: Seq<char>) -> bool {
    s.len() >= 2 && (s[0] == 'e' || s[0] == 'E') && {
        let t = if s[1] == '+' || s[1] == '-' {
            s.skip(2)
        } else {
            s.skip(1)
        };
        t.len() >= 1 && all_digits(t)
    }
}

pub open spec fn exponent_or_empty(s: Seq<char>) -> bool {
    s.len() == 0 || is_exponent(s)
}

/// An unsigned decimal: `Digit+ ('.' Digit*)? Exp?` or `'.' Digit+ Exp?`.
pub open spec fn is_decimal(s: Seq<char>) -> bool {
    let d = digits_prefix_len(s) as int;
    if d == 0 {
        s.len() >= 2 && s[0] == '.' && {
            let t = s.drop_first();
            let d2 = digits_prefix_len(t) as int;
            d2 >= 1 && exponent_or_empty(t.skip(d2))
        }
    } else {
        let r = s.skip(d);
        r.len() == 0 || is_exponent(r) || (r[0] == '.' && {
            let r2 = r.drop_first();
            exponent_or_empty(r2.skip(digits_prefix_len(r2) as int))
        })
    }
}

pub open spec fn ci(c: char, lo: char, up: char) -> bool {
    c == lo || c == up
}

/// `inf`, `infinity` or `nan`, in any letter case.
pub open spec fn is_special_word(s: Seq<char>) -> bool {
    (s.len() == 3 && ci(s[0], 'i', 'I') && ci(s[1], 'n', 'N') && ci(s[2], 'f', 'F')) || (s.len()
        == 8 && ci(s[0], 'i', 'I') && ci(s[1], 'n', 'N') && ci(s[2], 'f', 'F') && ci(
        s[3],
        'i',
        'I',
    ) && ci(s[4], 'n', 'N') && ci(s[5], 'i', 'I') && ci(s[6], 't', 'T') && ci(s[7], 'y', 'Y')) || (
    s.len() == 3 && ci(s[0], 'n', 'N') && ci(s[1], 'a', 'A') && ci(s[2], 'n', 'N'))
}

/// A numeral token: optional sign, then a special word or a decimal.
pub open spec fn is_numeral(s: Seq<char>) -> bool {
    let b = if s.len() > 0 && (s[0] == '+' || s[0] == '-') {
        s.drop_first()
    } else {
        s
    };
    is_special_word(b) || is_decimal(b)
}

proof fn lemma_digits_prefix(s: Seq<char>, n: int)
    requires
        0 <= n <= s.len(),
        forall|j: int| 0 <= j < n ==> is_digit(s[j]),
        n == s.len() || !is_digit(s[n]),
    ensures
        digits_prefix_len(s) == n,
    decreases n,
{
    if n > 0 {
        lemma_digits_prefix(s.drop_first(), n - 1);
    }
}

fn digit_at(s: &str, j: usize) -> (r: bool)
    requires
        j < s@.len(),
    ensures
        r == is_digit(s@[j as int]),
{
    let c: char = s.get_char(j);
    '0' <= c && c <= '9'
}

/// The index of the first non-digit character at or after `from`.
fn digits_end(s: &str, from: usize) -> (j: usize)
    requires
        from <= s@.len(),
    ensures
        from <= j <= s@.len(),
        digits_prefix_len(s@.skip(from as int)) == j - from,
{
    let len: usize = s.unicode_len();
    let mut j: usize = from;
    while j < len && digit_at(s, j)
        invariant
            from <= j <= len,
            len == s@.len(),
            forall|k: int| from <= k < j ==> is_digit(s@[k]),
        decreases len - j,
    {
        j += 1;
    }
    proof {
        let t = s@.skip(from as int);
        assert(forall|k: int| 0 <= k < j - from ==> t[k] == s@[k + from]);
        assert(j - from == t.len() || !is_digit(t[j - from]));
        lemma_digits_prefix(t, j - from);
    }
    j
}

proof fn lemma_all_digits_prefix(s: Seq<char>)
    ensures
        all_digits(s) <==> digits_prefix_len(s) == s.len(),
    decreases s.len(),
{
    if s.len() > 0 {
        lemma_all_digits_prefix(s.drop_first());
        if is_digit(s[0]) {
            assert(forall|i: int| 0 <= i < s.drop_first().len() ==> s.drop_first()[i] == s[i + 1]);
            assert(all_digits(s) ==> all_digits(s.drop_first()));
            if all_digits(s.drop_first()) && is_digit(s[0]) {
                assert forall|i: int| 0 <= i < s.len() implies is_digit(s[i]) by {
                    if i >= 1 {
                        assert(is_digit(s.drop_first()[i - 1]));
                    }
                }
                assert(all_digits(s));
            }
        } else {
            assert(!is_digit(s[0]));
            assert(!all_digits(s));
        }
    }
}

/// Whether an exponent part starts at `from` and reaches the end of `s`.
fn check_exponent(s: &str, from: usize) -> (r: bool)
    requires
        from <= s@.len(),
    ensures
        r == is_exponent(s@.skip(from as int)),
{
    let len: usize = s.unicode_len();
    let ghost t = s@.skip(from as int);
    if len - from < 2 {
        return false;
    }
    let c0: char = s.get_char(from);
    proof {
        assert(t[0] == s@[from as int]);
    }
    if !(c0 == 'e' || c0 == 'E') {
        return false;
    }
    let c1: char = s.get_char(from + 1);
    proof {
        assert(t[1] == s@[from + 1]);
    }
    let start: usize = if c1 == '+' || c1 == '-' {
        from + 2
    } else {
        from + 1
    };
    let ghost u = if c1 == '+' || c1 == '-' {
        t.skip(2)
    } else {
        t.skip(1)
    };
    proof {
        assert(u =~= s@.skip(start as int));
    }
    if start == len {
        return false;
    }
    let j: usize = digits_end(s, start);
    proof {
        lemma_all_digits_prefix(u);
    }
    j == len
}

/// Whether an unsigned decimal starts at `from` and reaches the end of `s`.
fn check_decimal(s: &str, from: usize) -> (r: bool)
    requires
        from <= s@.len(),
    ensures
        r == is_decimal(s@.skip(from as int)),
{
    let len: usize = s.unicode_len();
    let ghost t = s@.skip(from as int);
    let d: usize = digits_end(s, from);
    if d == from {
        if len - from < 2 {
            return false;
        }
        if s.get_char(from) != '.' {
            proof {
                assert(t[0] == s@[from as int]);
            }
            return false;
        }
        proof {
            assert(t[0] == s@[from as int]);
            assert(t.drop_first() =~= s@.skip(from + 1));
        }
        let d2: usize = digits_end(s, from + 1);
        if d2 == from + 1 {
            return false;
        }
        proof {
            assert(t.drop_first().skip(d2 - (from + 1)) =~= s@.skip(d2 as int));
        }
        if d2 == len {
            true
        } else {
            check_exponent(s, d2)
        }
    } else {
        proof {
            assert(t.skip(d - from) =~= s@.skip(d as int));
        }
        if d == len {
            return true;
        }
        let c: char = s.get_char(d);
        proof {
            assert(s@.skip(d as int)[0] == s@[d as int]);
        }
        if c == '.' {
            proof {
                assert(s@.skip(d as int).drop_first() =~= s@.skip(d + 1));
            }
            let d2: usize = digits_end(s, d + 1);
            proof {
                assert(s@.skip(d + 1).skip(d2 - (d + 1)) =~= s@.skip(d2 as int));
            }
            let r: bool = if d2 == len {
                true
            } else {
                check_exponent(s, d2)
            };
            proof {
                if d2 == len {
                    assert(s@.skip(d2 as int).len() == 0);
                }
            }
            r
        } else {
            check_exponent(s, d)
        }
    }
}

/// Whether `inf`, `infinity` or `nan` (in any letter case) starts at
/// `from` and reaches the end of `s`.
fn check_special(s: &str, from: usize) -> (r: bool)
    requires
        from <= s@.len(),
    ensures
        r == is_special_word(s@.skip(from as int)),
{
    let len: usize = s.unicode_len();
    let ghost t = s@.skip(from as int);
    proof {
        assert(forall|k: int| 0 <= k < t.len() ==> t[k] == s@[k + from]);
    }
    if len - from == 3 {
        let c0: char = s.get_char(from);
        let c1: char = s.get_char(from + 1);
        let c2: char = s.get_char(from + 2);
        ((c0 == 'i' || c0 == 'I') && (c1 == 'n' || c1 == 'N') && (c2 == 'f' || c2 == 'F')) || ((c0
            == 'n' || c0 == 'N') && (c1 == 'a' || c1 == 'A') && (c2 == 'n' || c2 == 'N'))
    } else if len - from == 8 {
        let c0: char = s.get_char(from);
        let c1: char = s.get_char(from + 1);
        let c2: char = s.get_char(from + 2);
        let c3: char = s.get_char(from + 3);
        let c4: char = s.get_char(from + 4);
        let c5: char = s.get_char(from + 5);
        let c6: char = s.get_char(from + 6);
        let c7: char = s.get_char(from + 7);
        (c0 == 'i' || c0 == 'I') && (c1 == 'n' || c1 == 'N') && (c2 == 'f' || c2 == 'F') && (c3
            == 'i' || c3 == 'I') && (c4 == 'n' || c4 == 'N') && (c5 == 'i' || c5 == 'I') && (c6
            == 't' || c6 == 'T') && (c7 == 'y' || c7 == 'Y')
    } else {
        false
    }
}

/// Whether the whole token is a numeral.
pub fn is_numeral_token(s: &str) -> (r: bool)
    ensures
        r == is_numeral(s@),
{
    let len: usize = s.unicode_len();
    let start: usize = if len > 0 {
        let c: char = s.get_char(0);
        if c == '+' || c == '-' {
            1
        } else {
            0
        }
    } else {
        0
    };
    proof {
        if start == 0 {
            assert(s@.skip(0) =~= s@);
        } else {
            assert(s@.skip(1) =~= s@.drop_first());
        }
    }
    if check_special(s, start) {
        true
    } else {
        check_decimal(s, start)
    }
}

} // verus!
