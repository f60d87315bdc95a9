//! The metadata blob grammar and its parser.
//!
//! A blob is one outer map `{ "key": value, ... }`; values are quoted strings
//! (no escape sequences), numeric literals with an optional sign and an
//! optional fractional part, the literals `true` and `false`, nested maps and
//! nested lists, with optional trailing commas. The spec functions define the
//! grammar; the executable parser returns exactly what they describe.

use vstd::prelude::*;
use vstd::string::StrSliceExecFns;
use vstd::string::StringExecFns;
use crate::rawvalue::RawVal;
use crate::rawvalue::RawValue;
use crate::rawvalue::raw_entries_view;
use crate::rawvalue::raw_items_view;
use crate::text::is_digit;
use crate::text::is_digit_char;
use crate::text::is_ws;
use crate::text::lead_ws_end;
use crate::text::match_at;

verus! {

/// Position of the closing quote at or after `i`, if any.
pub open spec fn scan_string_end(s: Seq<char>, i: nat) -> Option<nat>
    decreases s.len() - i,
{
    if i >= s.len() {
        None
    } else if s[i as int] == '"' {
        Some(i)
    } else {
        scan_string_end(s, i + 1)
    }
}

/// End of the digit run starting at `i`.
pub open spec fn scan_digits_end(s: Seq<char>, i: nat) -> nat
    decreases s.len() - i,
{
    if i < s.len() && is_digit_char(s[i as int]) {
        scan_digits_end(s, i + 1)
    } else {
        i
    }
}

/// A quoted string at `i`: its contents and the position after the closing
/// quote.
pub open spec fn sp_key(s: Seq<char>, i: nat) -> Option<(Seq<char>, nat)> {
    if i < s.len() && s[i as int] == '"' {
        match scan_string_end(s, i + 1) {
            Some(e) => Some((s.subrange(i as int + 1, e as int), (e + 1) as nat)),
            None => None,
        }
    } else {
        None
    }
}

/// A numeric literal at `i`: optional sign, digits, optional fraction.
pub open spec fn sp_number(s: Seq<char>, i: nat) -> Option<(RawVal, nat)> {
    if i >= s.len() {
        None
    } else {
        let j: nat = if s[i as int] == '-' {
            i + 1
        } else {
            i
        };
        let k = scan_digits_end(s, j);
        if k == j || k > s.len() {
            None
        } else if k < s.len() && s[k as int] == '.' {
            let m = scan_digits_end(s, k + 1);
            if m == k + 1 || m > s.len() {
                None
            } else {
                Some((RawVal::Num { lexeme: s.subrange(i as int, m as int) }, m))
            }
        } else {
            Some((RawVal::Num { lexeme: s.subrange(i as int, k as int) }, k))
        }
    }
}

/// A value at `i`: string, number, boolean, nested map or nested list.
pub open spec fn sp_value(s: Seq<char>, i: nat) -> Option<(RawVal, nat)>
    decreases s.len() - i, 0nat,
{
    if i >= s.len() {
        None
    } else {
        let c = s[i as int];
        if c == '"' {
            match sp_key(s, i) {
                Some((k, j)) => Some((RawVal::Text { value: k }, j)),
                None => None,
            }
        } else if c == '-' || is_digit_char(c) {
            sp_number(s, i)
        } else if c == 't' {
            if i + 4 <= s.len() && s.subrange(i as int, i as int + 4) == "true"@ {
                Some((RawVal::Flag { value: true }, (i + 4) as nat))
            } else {
                None
            }
        } else if c == 'f' {
            if i + 5 <= s.len() && s.subrange(i as int, i as int + 5) == "false"@ {
                Some((RawVal::Flag { value: false }, (i + 5) as nat))
            } else {
                None
            }
        } else if c == '{' {
            let j = lead_ws_end(s, i + 1);
            if i < j && j <= s.len() {
                match sp_map_items(s, j) {
                    Some((es, k)) => Some((RawVal::MapEntries { entries: es }, k)),
                    None => None,
                }
            } else {
                None
            }
        } else if c == '[' {
            let j = lead_ws_end(s, i + 1);
            if i < j && j <= s.len() {
                match sp_list_items(s, j) {
                    Some((vs, k)) => Some((RawVal::ListItems { items: vs }, k)),
                    None => None,
                }
            } else {
                None
            }
        } else {
            None
        }
    }
}

/// Map entries from `i` (which sits on `}` or on the first key) up to and
/// including the closing brace.
pub open spec fn sp_map_items(s: Seq<char>, i: nat) -> Option<(Seq<(Seq<char>, RawVal)>, nat)>
    decreases s.len() - i, 1nat,
{
    if i >= s.len() {
        None
    } else if s[i as int] == '}' {
        Some((Seq::empty(), i + 1))
    } else {
        match sp_key(s, i) {
            None => None,
            Some((k, j1)) => {
                if j1 <= i || j1 > s.len() {
                    None
                } else {
                    let j2 = lead_ws_end(s, j1);
                    if j2 >= s.len() || s[j2 as int] != ':' {
                        None
                    } else {
                        let j3 = lead_ws_end(s, j2 + 1);
                        if j3 <= i || j3 > s.len() {
                            None
                        } else {
                            match sp_value(s, j3) {
                                None => None,
                                Some((v, j4)) => {
                                    if j4 <= j3 || j4 > s.len() {
                                        None
                                    } else {
                                        let j5 = lead_ws_end(s, j4);
                                        if j5 >= s.len() {
                                            None
                                        } else if s[j5 as int] == ',' {
                                            let j6 = lead_ws_end(s, j5 + 1);
                                            if j6 <= i || j6 > s.len() {
                                                None
                                            } else {
                                                match sp_map_items(s, j6) {
                                                    None => None,
                                                    Some((rest, j7)) => Some(
                                                        (seq![(k, v)] + rest, j7),
                                                    ),
                                                }
                                            }
                                        } else if s[j5 as int] == '}' {
                                            Some((seq![(k, v)], j5 + 1))
                                        } else {
                                            None
                                        }
                                    }
                                },
                            }
                        }
                    }
                }
            },
        }
    }
}

/// List items from `i` (which sits on `]` or on the first item) up to and
/// including the closing bracket.
pub open spec fn sp_list_items(s: Seq<char>, i: nat) -> Option<(Seq<RawVal>, nat)>
    decreases s.len() - i, 1nat,
{
    if i >= s.len() {
        None
    } else if s[i as int] == ']' {
        Some((Seq::empty(), i + 1))
    } else {
        match sp_value(s, i) {
            None => None,
            Some((v, j1)) => {
                if j1 <= i || j1 > s.len() {
                    None
                } else {
                    let j2 = lead_ws_end(s, j1);
                    if j2 >= s.len() {
                        None
                    } else if s[j2 as int] == ',' {
                        let j3 = lead_ws_end(s, j2 + 1);
                        if j3 <= i || j3 > s.len() {
                            None
                        } else {
                            match sp_list_items(s, j3) {
                                None => None,
                                Some((rest, j4)) => Some((seq![v] + rest, j4)),
                            }
                        }
                    } else if s[j2 as int] == ']' {
                        Some((seq![v], j2 + 1))
                    } else {
                        None
                    }
                }
            },
        }
    }
}

/// A whole blob: one outer map with nothing but whitespace around it.
pub open spec fn sp_document(s: Seq<char>) -> Option<Seq<(Seq<char>, RawVal)>> {
    let j = lead_ws_end(s, 0);
    if j < s.len() && s[j as int] == '{' {
        let j2 = lead_ws_end(s, j + 1);
        if j < j2 && j2 <= s.len() {
            match sp_map_items(s, j2) {
                Some((es, k)) => {
                    if k <= s.len() && lead_ws_end(s, k) == s.len() {
                        Some(es)
                    } else {
                        None
                    }
                },
                None => None,
            }
        } else {
            None
        }
    } else {
        None
    }
}

/// Skip whitespace starting at `i`.
fn skip_ws_from(s: &str, n: usize, i: usize) -> (j: usize)
    requires
        n as nat == s@.len(),
        i <= n,
    ensures
        j as nat == lead_ws_end(s@, i as nat),
        i <= j <= n,
{
    let mut j = i;
    while j < n && is_ws(s.get_char(j))
        invariant
            n as nat == s@.len(),
            i <= j <= n,
            lead_ws_end(s@, i as nat) == lead_ws_end(s@, j as nat),
        decreases n - j,
    {
        j = j + 1;
    }
    proof {
        assert(lead_ws_end(s@, j as nat) == j as nat);
    }
    j
}

fn scan_quote(s: &str, n: usize, i: usize) -> (r: Option<usize>)
    requires
        n as nat == s@.len(),
        i <= n,
    ensures
        match r {
            Some(e) => scan_string_end(s@, i as nat) == Some(e as nat) && i <= e < n,
            None => scan_string_end(s@, i as nat) is None,
        },
{
    let mut j = i;
    while j < n && s.get_char(j) != '"'
        invariant
            n as nat == s@.len(),
            i <= j <= n,
            scan_string_end(s@, i as nat) == scan_string_end(s@, j as nat),
        decreases n - j,
    {
        j = j + 1;
    }
    if j < n {
        Some(j)
    } else {
        None
    }
}

fn scan_digits(s: &str, n: usize, i: usize) -> (j: usize)
    requires
        n as nat == s@.len(),
        i <= n,
    ensures
        j as nat == scan_digits_end(s@, i as nat),
        i <= j <= n,
{
    let mut j = i;
    while j < n && is_digit(s.get_char(j))
        invariant
            n as nat == s@.len(),
            i <= j <= n,
            scan_digits_end(s@, i as nat) == scan_digits_end(s@, j as nat),
        decreases n - j,
    {
        j = j + 1;
    }
    proof {
        assert(scan_digits_end(s@, j as nat) == j as nat);
    }
    j
}

fn p_key(s: &str, n: usize, i: usize) -> (r: Option<(String, usize)>)
    requires
        n as nat == s@.len(),
        i <= n,
    ensures
        match r {
            Some(kj) => sp_key(s@, i as nat) == Some((kj.0@, kj.1 as nat)) && i < kj.1 <= n,
            None => sp_key(s@, i as nat) is None,
        },
{
    if i < n && s.get_char(i) == '"' {
        match scan_quote(s, n, i + 1) {
            Some(e) => {
                let k = s.substring_char(i + 1, e).to_owned();
                Some((k, e + 1))
            },
            None => None,
        }
    } else {
        None
    }
}

fn p_number(s: &str, n: usize, i: usize) -> (r: Option<(RawValue, usize)>)
    requires
        n as nat == s@.len(),
        i < n,
    ensures
        match r {
            Some(vj) => sp_number(s@, i as nat) == Some((vj.0@, vj.1 as nat)) && i < vj.1 <= n,
            None => sp_number(s@, i as nat) is None,
        },
{
    let c = s.get_char(i);
    let j = if c == '-' {
        i + 1
    } else {
        i
    };
    let k = scan_digits(s, n, j);
    if k == j {
        return None;
    }
    if k < n && s.get_char(k) == '.' {
        let m = scan_digits(s, n, k + 1);
        if m == k + 1 {
            return None;
        }
        let lex = s.substring_char(i, m).to_owned();
        return Some((RawValue::Num { lexeme: lex }, m));
    }
    let lex = s.substring_char(i, k).to_owned();
    Some((RawValue::Num { lexeme: lex }, k))
}

/// One metadata value, starting exactly at `i`.
fn p_value(s: &str, n: usize, i: usize) -> (r: Option<(RawValue, usize)>)
    requires
        n as nat == s@.len(),
        i <= n,
    ensures
        match r {
            Some(vj) => sp_value(s@, i as nat) == Some((vj.0@, vj.1 as nat)) && i < vj.1 <= n,
            None => sp_value(s@, i as nat) is None,
        },
    decreases n - i, 0nat,
{
    if i >= n {
        return None;
    }
    let c = s.get_char(i);
    if c == '"' {
        match p_key(s, n, i) {
            Some((k, j)) => Some((RawValue::Text { value: k }, j)),
            None => None,
        }
    } else if c == '-' || is_digit(c) {
        p_number(s, n, i)
    } else if c == 't' {
        proof {
            reveal_strlit("true");
        }
        if n - i >= 4 && match_at(s, i, "true") {
            Some((RawValue::Flag { value: true }, i + 4))
        } else {
            None
        }
    } else if c == 'f' {
        proof {
            reveal_strlit("false");
        }
        if n - i >= 5 && match_at(s, i, "false") {
            Some((RawValue::Flag { value: false }, i + 5))
        } else {
            None
        }
    } else if c == '{' {
        let j = skip_ws_from(s, n, i + 1);
        match p_map_items(s, n, j) {
            Some((es, k)) => {
                let ghost esv = es@;
                let out = RawValue::MapEntries { entries: es };
                proof {
                    assert(out@ == RawVal::MapEntries { entries: raw_entries_view(esv) });
                }
                Some((out, k))
            },
            None => None,
        }
    } else if c == '[' {
        let j = skip_ws_from(s, n, i + 1);
        match p_list_items(s, n, j) {
            Some((vs, k)) => {
                let ghost vsv = vs@;
                let out = RawValue::ListItems { items: vs };
                proof {
                    assert(out@ == RawVal::ListItems { items: raw_items_view(vsv) });
                }
                Some((out, k))
            },
            None => None,
        }
    } else {
        None
    }
}

/// Map entries from `i` up to and including the closing brace.
fn p_map_items(s: &str, n: usize, i: usize) -> (r: Option<(Vec<(String, RawValue)>, usize)>)
    requires
        n as nat == s@.len(),
        i <= n,
    ensures
        match r {
            Some(ej) => sp_map_items(s@, i as nat) == Some((raw_entries_view(ej.0@), ej.1 as nat))
                && i < ej.1 <= n,
            None => sp_map_items(s@, i as nat) is None,
        },
    decreases n - i, 1nat,
{
    if i >= n {
        return None;
    }
    if s.get_char(i) == '}' {
        let out: Vec<(String, RawValue)> = Vec::new();
        proof {
            assert(raw_entries_view(out@) =~= Seq::<(Seq<char>, RawVal)>::empty());
        }
        return Some((out, i + 1));
    }
    let (k, j1) = match p_key(s, n, i) {
        Some(kj) => kj,
        None => {
            return None;
        },
    };
    let ghost kv = k@;
    let j2 = skip_ws_from(s, n, j1);
    if j2 >= n || s.get_char(j2) != ':' {
        return None;
    }
    let j3 = skip_ws_from(s, n, j2 + 1);
    let (v, j4) = match p_value(s, n, j3) {
        Some(vj) => vj,
        None => {
            return None;
        },
    };
    let ghost vv = v@;
    let j5 = skip_ws_from(s, n, j4);
    if j5 >= n {
        return None;
    }
    let c5 = s.get_char(j5);
    if c5 == ',' {
        let j6 = skip_ws_from(s, n, j5 + 1);
        let (mut rest, j7) = match p_map_items(s, n, j6) {
            Some(rj) => rj,
            None => {
                return None;
            },
        };
        let ghost restv = rest@;
        let mut out: Vec<(String, RawValue)> = Vec::new();
        out.push((k, v));
        out.append(&mut rest);
        proof {
            assert(out@ =~= seq![(k, v)].add(restv));
            assert(out@[0].0@ == kv);
            assert(raw_value_view_of(out@[0].1) == vv);
            assert(out@.subrange(1, out@.len() as int) =~= restv);
            assert(raw_entries_view(out@) =~= seq![(kv, vv)] + raw_entries_view(restv));
        }
        Some((out, j7))
    } else if c5 == '}' {
        let mut out: Vec<(String, RawValue)> = Vec::new();
        out.push((k, v));
        proof {
            assert(out@[0].0@ == kv);
            assert(raw_value_view_of(out@[0].1) == vv);
            assert(out@.subrange(1, out@.len() as int) =~= Seq::<(String, RawValue)>::empty());
            assert(raw_entries_view(Seq::<(String, RawValue)>::empty())
                =~= Seq::<(Seq<char>, RawVal)>::empty());
            assert(raw_entries_view(out@) =~= seq![(kv, vv)]);
        }
        Some((out, j5 + 1))
    } else {
        None
    }
}

/// List items from `i` up to and including the closing bracket.
fn p_list_items(s: &str, n: usize, i: usize) -> (r: Option<(Vec<RawValue>, usize)>)
    requires
        n as nat == s@.len(),
        i <= n,
    ensures
        match r {
            Some(vj) => sp_list_items(s@, i as nat) == Some((raw_items_view(vj.0@), vj.1 as nat))
                && i < vj.1 <= n,
            None => sp_list_items(s@, i as nat) is None,
        },
    decreases n - i, 1nat,
{
    if i >= n {
        return None;
    }
    if s.get_char(i) == ']' {
        let out: Vec<RawValue> = Vec::new();
        proof {
            assert(raw_items_view(out@) =~= Seq::<RawVal>::empty());
        }
        return Some((out, i + 1));
    }
    let (v, j1) = match p_value(s, n, i) {
        Some(vj) => vj,
        None => {
            return None;
        },
    };
    let ghost vv = v@;
    let j2 = skip_ws_from(s, n, j1);
    if j2 >= n {
        return None;
    }
    let c2 = s.get_char(j2);
    if c2 == ',' {
        let j3 = skip_ws_from(s, n, j2 + 1);
        let (mut rest, j4) = match p_list_items(s, n, j3) {
            Some(rj) => rj,
            None => {
                return None;
            },
        };
        let ghost restv = rest@;
        let mut out: Vec<RawValue> = Vec::new();
        out.push(v);
        out.append(&mut rest);
        proof {
            assert(out@ =~= seq![v].add(restv));
            assert(raw_value_view_of(out@[0]) == vv);
            assert(out@.subrange(1, out@.len() as int) =~= restv);
            assert(raw_items_view(out@) =~= seq![vv] + raw_items_view(restv));
        }
        Some((out, j4))
    } else if c2 == ']' {
        let mut out: Vec<RawValue> = Vec::new();
        out.push(v);
        proof {
            assert(raw_value_view_of(out@[0]) == vv);
            assert(out@.subrange(1, out@.len() as int) =~= Seq::<RawValue>::empty());
            assert(raw_items_view(Seq::<RawValue>::empty()) =~= Seq::<RawVal>::empty());
            assert(raw_items_view(out@) =~= seq![vv]);
        }
        Some((out, j2 + 1))
    } else {
        None
    }
}

/// Spec-side alias so proofs can name the view of an element that was moved
/// into a container.
pub open spec fn raw_value_view_of(r: RawValue) -> RawVal {
    crate::rawvalue::raw_value_view(r)
}

/// Parse one whole metadata blob into its outer entries, in textual order.
/// Malformed text yields `None` and never aborts the caller.
pub fn parse_blob(s: &str) -> (r: Option<Vec<(String, RawValue)>>)
    ensures
        match r {
            Some(es) => sp_document(s@) == Some(raw_entries_view(es@)),
            None => sp_document(s@) is None,
        },
{
    let n = s.unicode_len();
    let j = skip_ws_from(s, n, 0);
    if j >= n || s.get_char(j) != '{' {
        return None;
    }
    let j2 = skip_ws_from(s, n, j + 1);
    match p_map_items(s, n, j2) {
        Some((es, k)) => {
            let e = skip_ws_from(s, n, k);
            if e == n {
                Some(es)
            } else {
                None
            }
        },
        None => None,
    }
}

} // verus!
