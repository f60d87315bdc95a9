//! Interpretation of numeric lexemes against integer primitives, with the
//! value range-checked for the declared width.

use vstd::prelude::*;
use vstd::string::StrSliceExecFns;
use crate::text::is_digit;
use crate::text::is_digit_char;

verus! {

pub open spec fn digit_val(c: char) -> nat {
    if is_digit_char(c) {
        (c as u32 - 48) as nat
    } else {
        0
    }
}

pub open spec fn all_digits(s: Seq<char>) -> bool {
    forall|i: int| 0 <= i < s.len() ==> is_digit_char(#[trigger] s[i])
}

/// Value of a digit string, most significant digit first.
pub open spec fn digits_value(s: Seq<char>) -> nat
    decreases s.len(),
{
    if s.len() == 0 {
        0
    } else {
        digits_value(s.subrange(0, s.len() - 1)) * 10 + digit_val(s[s.len() - 1])
    }
}

/// The unsigned value of a lexeme: defined exactly when the lexeme is a
/// non-empty digit run whose value fits in 64 bits.
pub open spec fn spec_parse_u64(s: Seq<char>) -> Option<u64> {
    if s.len() > 0 && all_digits(s) && digits_value(s) <= u64::MAX {
        Some(digits_value(s) as u64)
    } else {
        None
    }
}

proof fn lemma_digits_value_extend(s: Seq<char>, i: int)
    requires
        0 <= i < s.len(),
    ensures
        digits_value(s.subrange(0, i + 1)) == digits_value(s.subrange(0, i)) * 10 + digit_val(
            s[i],
        ),
{
    let p = s.subrange(0, i + 1);
    assert(p.subrange(0, p.len() - 1) =~= s.subrange(0, i));
    assert(p[p.len() - 1] == s[i]);
}

proof fn lemma_digits_value_prefix_le(s: Seq<char>, i: int)
    requires
        0 <= i <= s.len(),
    ensures
        digits_value(s.subrange(0, i)) <= digits_value(s),
    decreases s.len() - i,
{
    if i < s.len() {
        lemma_digits_value_extend(s, i);
        assert(digits_value(s.subrange(0, i)) <= digits_value(s.subrange(0, i)) * 10);
        lemma_digits_value_prefix_le(s, i + 1);
    } else {
        assert(s.subrange(0, i) =~= s);
    }
}

/// Parse a digit-only lexeme into its 64-bit value.
pub fn parse_u64(s: &str) -> (r: Option<u64>)
    ensures
        r == spec_parse_u64(s@),
{
    let n = s.unicode_len();
    if n == 0 {
        return None;
    }
    let mut acc: u64 = 0;
    let mut i: usize = 0;
    while i < n
        invariant
            n as nat == s@.len(),
            i <= n,
            forall|j: int| 0 <= j < i ==> is_digit_char(#[trigger] s@[j]),
            acc as nat == digits_value(s@.subrange(0, i as int)),
        decreases n - i,
    {
        let c = s.get_char(i);
        if !is_digit(c) {
            return None;
        }
        let d: u64 = (c as u32 - 48) as u64;
        proof {
            lemma_digits_value_extend(s@, i as int);
        }
        let acc10 = match acc.checked_mul(10) {
            Some(v) => v,
            None => {
                proof {
                    lemma_digits_value_prefix_le(s@, i as int + 1);
                }
                return None;
            },
        };
        let next = match acc10.checked_add(d) {
            Some(v) => v,
            None => {
                proof {
                    lemma_digits_value_prefix_le(s@, i as int + 1);
                }
                return None;
            },
        };
        acc = next;
        i = i + 1;
    }
    proof {
        assert(s@.subrange(0, n as int) =~= s@);
    }
    Some(acc)
}

} // verus!
