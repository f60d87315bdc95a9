//! Character-level text helpers shared by the metadata parser, the registry
//! lookups and the schema renderer.

use vstd::prelude::*;
use vstd::string::StrSliceExecFns;
use vstd::string::StringExecFns;

verus! {

/// Relies on `String::push` from std: appends the given character to the end
/// of the string.
pub assume_specification[ String::push ](s: &mut String, c: char)
    ensures
        final(s)@ == old(s)@.push(c),
;

pub open spec fn is_ws_char(c: char) -> bool {
    c == ' ' || c == '\t' || c == '\n' || c == '\r'
}

pub open spec fn is_digit_char(c: char) -> bool {
    48 <= c as u32 && c as u32 <= 57
}

/// ASCII lowercase letters map to their uppercase form; all other characters
/// are unchanged.
pub open spec fn upper_ascii_char(c: char) -> char {
    if 97 <= c as u32 && c as u32 <= 122 {
        (((c as u32) - 32) as u8) as char
    } else {
        c
    }
}

pub fn is_ws(c: char) -> (b: bool)
    ensures
        b == is_ws_char(c),
{
    c == ' ' || c == '\t' || c == '\n' || c == '\r'
}

pub fn is_digit(c: char) -> (b: bool)
    ensures
        b == is_digit_char(c),
{
    let u = c as u32;
    48 <= u && u <= 57
}

pub fn str_eq(a: &str, b: &str) -> (r: bool)
    ensures
        r == (a@ == b@),
{
    let na = a.unicode_len();
    let nb = b.unicode_len();
    if na != nb {
        proof {
            if a@ == b@ {
                assert(a@.len() == b@.len());
            }
        }
        return false;
    }
    let mut i: usize = 0;
    while i < na
        invariant
            na as nat == a@.len(),
            nb as nat == b@.len(),
            na == nb,
            i <= na,
            forall|j: int| 0 <= j < i ==> a@[j] == b@[j],
        decreases na - i,
    {
        if a.get_char(i) != b.get_char(i) {
            proof {
                if a@ == b@ {
                    assert(a@[i as int] == b@[i as int]);
                }
            }
            return false;
        }
        i = i + 1;
    }
    proof {
        assert(a@ =~= b@);
    }
    true
}

pub open spec fn spec_starts_with(s: Seq<char>, p: Seq<char>) -> bool {
    p.len() <= s.len() && s.subrange(0, p.len() as int) == p
}

pub fn starts_with_str(s: &str, p: &str) -> (r: bool)
    ensures
        r == spec_starts_with(s@, p@),
{
    let n = s.unicode_len();
    let m = p.unicode_len();
    if m > n {
        return false;
    }
    let mut i: usize = 0;
    while i < m
        invariant
            n as nat == s@.len(),
            m as nat == p@.len(),
            m <= n,
            i <= m,
            forall|j: int| 0 <= j < i ==> s@[j] == p@[j],
        decreases m - i,
    {
        if s.get_char(i) != p.get_char(i) {
            proof {
                if s@.subrange(0, p@.len() as int) == p@ {
                    assert(s@.subrange(0, p@.len() as int)[i as int] == p@[i as int]);
                }
            }
            return false;
        }
        i = i + 1;
    }
    proof {
        assert(s@.subrange(0, p@.len() as int) =~= p@);
    }
    true
}

pub open spec fn spec_contains_sub(h: Seq<char>, n: Seq<char>) -> bool {
    exists|i: int|
        0 <= i && i + n.len() <= h.len() && #[trigger] h.subrange(i, i + n.len() as int) == n
}

/// Does `p` occur in `s` starting at position `i`?
pub fn match_at(s: &str, i: usize, p: &str) -> (r: bool)
    requires
        i <= s@.len(),
        i + p@.len() <= s@.len(),
    ensures
        r == (s@.subrange(i as int, i + p@.len() as int) == p@),
{
    let sl = s.unicode_len();
    let m = p.unicode_len();
    let mut k: usize = 0;
    while k < m
        invariant
            sl as nat == s@.len(),
            m as nat == p@.len(),
            i + m <= sl,
            k <= m,
            forall|j: int| 0 <= j < k ==> s@[i + j] == p@[j],
        decreases m - k,
    {
        if s.get_char(i + k) != p.get_char(k) {
            proof {
                if s@.subrange(i as int, i + p@.len() as int) == p@ {
                    assert(s@.subrange(i as int, i + p@.len() as int)[k as int] == p@[k as int]);
                }
            }
            return false;
        }
        k = k + 1;
    }
    proof {
        assert(s@.subrange(i as int, i + p@.len() as int) =~= p@);
    }
    true
}

/// Substring search, used for the ignore-list's substring matching.
pub fn contains_str(h: &str, n: &str) -> (r: bool)
    ensures
        r == spec_contains_sub(h@, n@),
{
    let hl = h.unicode_len();
    let nl = n.unicode_len();
    if nl == 0 {
        proof {
            assert(0 <= 0 && 0 + n@.len() <= h@.len() && h@.subrange(0, 0 + n@.len() as int)
                =~= n@);
        }
        return true;
    }
    if nl > hl {
        proof {
            if spec_contains_sub(h@, n@) {
                let i = choose|i: int|
                    0 <= i && i + n@.len() <= h@.len() && #[trigger] h@.subrange(
                        i,
                        i + n@.len() as int,
                    ) == n@;
            }
        }
        return false;
    }
    let mut i: usize = 0;
    while i <= hl - nl
        invariant
            hl as nat == h@.len(),
            nl as nat == n@.len(),
            nl <= hl,
            1 <= nl,
            i <= hl - nl + 1,
            forall|j: int|
                0 <= j < i ==> #[trigger] h@.subrange(j, j + n@.len() as int) != n@,
        decreases hl - i,
    {
        if match_at(h, i, n) {
            proof {
                assert(0 <= i as int && i as int + n@.len() <= h@.len() && h@.subrange(
                    i as int,
                    i as int + n@.len() as int,
                ) == n@);
            }
            return true;
        }
        i = i + 1;
    }
    proof {
        if spec_contains_sub(h@, n@) {
            let j = choose|j: int|
                0 <= j && j + n@.len() <= h@.len() && #[trigger] h@.subrange(
                    j,
                    j + n@.len() as int,
                ) == n@;
            assert(j < i);
        }
    }
    false
}

pub open spec fn lead_ws_end(s: Seq<char>, i: nat) -> nat
    decreases s.len() - i,
{
    if i < s.len() && is_ws_char(s[i as int]) {
        lead_ws_end(s, i + 1)
    } else {
        i
    }
}

pub open spec fn tail_ws_start(s: Seq<char>, j: nat) -> nat
    decreases j,
{
    if j > 0 && j <= s.len() && is_ws_char(s[j - 1]) {
        tail_ws_start(s, (j - 1) as nat)
    } else {
        j
    }
}

/// The input with leading and trailing whitespace removed.
pub open spec fn spec_trim(s: Seq<char>) -> Seq<char> {
    let a = lead_ws_end(s, 0);
    let b = tail_ws_start(s, s.len());
    if a <= b {
        s.subrange(a as int, b as int)
    } else {
        Seq::empty()
    }
}

proof fn lemma_lead_ws_end_bounds(s: Seq<char>, i: nat)
    requires
        i <= s.len(),
    ensures
        i <= lead_ws_end(s, i) <= s.len(),
    decreases s.len() - i,
{
    if i < s.len() && is_ws_char(s[i as int]) {
        lemma_lead_ws_end_bounds(s, i + 1);
    }
}

proof fn lemma_tail_ws_start_bounds(s: Seq<char>, j: nat)
    requires
        j <= s.len(),
    ensures
        tail_ws_start(s, j) <= j,
    decreases j,
{
    if j > 0 && j <= s.len() && is_ws_char(s[j - 1]) {
        lemma_tail_ws_start_bounds(s, (j - 1) as nat);
    }
}

/// Remove leading and trailing whitespace.
pub fn trim_str(s: &str) -> (r: String)
    ensures
        r@ == spec_trim(s@),
{
    let n = s.unicode_len();
    let mut a: usize = 0;
    while a < n && is_ws(s.get_char(a))
        invariant
            n as nat == s@.len(),
            a <= n,
            lead_ws_end(s@, 0) == lead_ws_end(s@, a as nat),
        decreases n - a,
    {
        a = a + 1;
    }
    proof {
        assert(lead_ws_end(s@, a as nat) == a as nat);
    }
    let mut b: usize = n;
    while b > 0 && is_ws(s.get_char(b - 1))
        invariant
            n as nat == s@.len(),
            b <= n,
            tail_ws_start(s@, s@.len()) == tail_ws_start(s@, b as nat),
        decreases b,
    {
        b = b - 1;
    }
    proof {
        assert(tail_ws_start(s@, b as nat) == b as nat);
    }
    if a <= b {
        let piece = s.substring_char(a, b);
        piece.to_owned()
    } else {
        String::new()
    }
}

/// Capitalize the first character of a non-empty name whose first character
/// is ASCII; the rest of the name is unchanged.
pub fn capitalize_first_letter(s: &str) -> (r: String)
    requires
        s@.len() >= 1,
        (s@[0] as u32) < 128,
    ensures
        r@ == s@.update(0, upper_ascii_char(s@[0])),
{
    let n = s.unicode_len();
    let c = s.get_char(0);
    let u = c as u32;
    let up: char = if 97 <= u && u <= 122 {
        (((c as u8) - 32) as u8) as char
    } else {
        c
    };
    let mut out = String::new();
    out.push(up);
    let rest = s.substring_char(1, n);
    out.append(rest);
    proof {
        assert(out@ =~= s@.update(0, upper_ascii_char(s@[0])));
    }
    out
}

} // verus!
