use vstd::prelude::*;

verus! {

/// The text `true`.
pub open spec fn true_text() -> Seq<char> {
    seq!['t', 'r', 'u', 'e']
}

/// What a boolean default written as `text` reads as: `true` for the exact text
/// `true`, `false` for anything else (an unreadable default falls back to `false`).
pub open spec fn bool_default(text: Seq<char>) -> bool {
    text == true_text()
}

pub open spec fn is_digit(c: char) -> bool {
    '0' <= c && c <= '9'
}

pub open spec fn all_digits(s: Seq<char>) -> bool {
    forall|i: int| 0 <= i < s.len() ==> is_digit(#[trigger] s[i])
}

/// The number that a run of decimal digits writes.
pub open spec fn digits_value(s: Seq<char>) -> int
    decreases s.len(),
{
    if s.len() == 0 {
        0
    } else {
        digits_value(s.drop_last()) * 10 + (s.last() as int - '0' as int)
    }
}

/// The integer that `text` writes: an optional `+` or `-`, then one or more decimal
/// digits, the value within the range of `i32`. `None` for any other text.
pub open spec fn int_text_value(text: Seq<char>) -> Option<int> {
    let negative = text.len() > 0 && text[0] == '-';
    let signed = text.len() > 0 && (text[0] == '-' || text[0] == '+');
    let digits = if signed { text.subrange(1, text.len() as int) } else { text };
    signed_digits_value(digits, negative)
}

/// The integer that a run of digits writes, negated where `negative`, if it is one
/// and fits in `i32`.
pub open spec fn signed_digits_value(digits: Seq<char>, negative: bool) -> Option<int> {
    let v = if negative { -digits_value(digits) } else { digits_value(digits) };
    if digits.len() > 0 && all_digits(digits) && i32::MIN <= v <= i32::MAX {
        Some(v)
    } else {
        None
    }
}

/// What an integer default written as `text` reads as; `0` where it is no integer.
pub open spec fn int_default(text: Seq<char>) -> int {
    match int_text_value(text) {
        Some(v) => v,
        None => 0,
    }
}

/// Reads a boolean default value.
pub fn parse_bool_default(text: &str) -> (r: bool)
    ensures
        r == bool_default(text@),
{
    let n = text.unicode_len();
    if n != 4 {
        return false;
    }
    let r = text.get_char(0) == 't' && text.get_char(1) == 'r' && text.get_char(2) == 'u'
        && text.get_char(3) == 'e';
    proof {
        if r {
            assert(text@ =~= true_text());
        }
    }
    r
}

proof fn lemma_digits_value_grows(s: Seq<char>, n: int)
    requires
        all_digits(s),
        0 <= n <= s.len(),
    ensures
        0 <= digits_value(s.subrange(0, n)) <= digits_value(s),
    decreases s.len() - n,
{
    if n < s.len() {
        let p = s.subrange(0, n + 1);
        assert(p.drop_last() =~= s.subrange(0, n));
        assert(is_digit(s[n]));
        lemma_digits_value_grows(s, n + 1);
        lemma_digits_value_nonneg(s.subrange(0, n));
    } else {
        assert(s.subrange(0, n) =~= s);
        lemma_digits_value_nonneg(s);
    }
}

proof fn lemma_digits_value_nonneg(s: Seq<char>)
    requires
        all_digits(s),
    ensures
        digits_value(s) >= 0,
    decreases s.len(),
{
    if s.len() > 0 {
        assert(is_digit(s.last()));
        assert(all_digits(s.drop_last())) by {
            assert forall|i: int| 0 <= i < s.drop_last().len() implies is_digit(
                #[trigger] s.drop_last()[i],
            ) by {
                assert(s.drop_last()[i] == s[i]);
            }
        }
        lemma_digits_value_nonneg(s.drop_last());
    }
}

/// Reads an integer default value, as `i32`'s `parse` does, with `0` where it fails.
pub fn parse_int_default(text: &str) -> (r: i32)
    ensures
        r as int == int_default(text@),
{
    let n = text.unicode_len();
    if n == 0 {
        return 0;
    }
    let first = text.get_char(0);
    let negative = first == '-';
    let start: usize = if first == '-' || first == '+' { 1 } else { 0 };
    if start == n {
        return 0;
    }
    let ghost digits = if start == 1 { text@.subrange(1, n as int) } else { text@ };
    assert(digits == text@.subrange(start as int, n as int));
    assert(int_text_value(text@) == signed_digits_value(digits, negative));
    let mut acc: i64 = 0;
    let mut i: usize = start;
    while i < n
        invariant
            start <= i <= n,
            int_text_value(text@) == signed_digits_value(digits, negative),
            n > 0,
            text@[0] == first,
            negative == (first == '-'),
            start == (if first == '-' || first == '+' { 1usize } else { 0usize }),
            n == text@.len(),
            digits == text@.subrange(start as int, n as int),
            all_digits(digits.subrange(0, i - start)),
            acc as int == digits_value(digits.subrange(0, i - start)),
            0 <= acc <= 2147483648,
        decreases n - i,
    {
        let c = text.get_char(i);
        if c < '0' || c > '9' {
            proof {
                assert(digits[i - start] == c);
                assert(!is_digit(digits[i - start]));
                assert(!all_digits(digits));
            }
            return 0;
        }
        let d = (c as u32 - '0' as u32) as i64;
        let next = acc * 10 + d;
        proof {
            let p = digits.subrange(0, i + 1 - start);
            assert(p.drop_last() =~= digits.subrange(0, i - start));
            assert(p.last() == c);
            assert(all_digits(p)) by {
                assert forall|j: int| 0 <= j < p.len() implies is_digit(#[trigger] p[j]) by {
                    if j < p.len() - 1 {
                        assert(p[j] == digits.subrange(0, i - start)[j]);
                    }
                }
            }
        }
        if next > 2147483648 {
            proof {
                let p = digits.subrange(0, i + 1 - start);
                assert(digits_value(p) > 2147483648);
                if all_digits(digits) {
                    assert(p =~= digits.subrange(0, (i + 1 - start) as int));
                    lemma_digits_value_grows(digits, i + 1 - start);
                    assert(digits_value(digits) > 2147483648);
                }

            }
            return 0;
        }
        acc = next;
        i = i + 1;
    }
    proof {
        assert(digits.subrange(0, n - start) =~= digits);
    }
    if negative {
        (-acc) as i32
    } else if acc > 2147483647 {
        0
    } else {
        acc as i32
    }
}

} // verus!
