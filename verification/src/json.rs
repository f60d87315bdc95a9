//! The schema document tree and its deterministic pretty-printer. Object
//! entries keep their insertion order, so rendering is a pure function of
//! the tree and two exports of the same registry are byte-identical.

use vstd::prelude::*;
use vstd::string::StrSliceExecFns;
use vstd::string::StringExecFns;

verus! {

/// One schema document value.
pub enum Json {
    JStr { value: String },
    JBool { value: bool },
    JArr { items: Vec<Json> },
    JObj { entries: Vec<(String, Json)> },
}

/// Ghost mirror of `Json`.
pub enum JsonV {
    JStr { value: Seq<char> },
    JBool { value: bool },
    JArr { items: Seq<JsonV> },
    JObj { entries: Seq<(Seq<char>, JsonV)> },
}

pub open spec fn json_view(j: Json) -> JsonV
    decreases j,
{
    match j {
        Json::JStr { value } => JsonV::JStr { value: value@ },
        Json::JBool { value } => JsonV::JBool { value },
        Json::JArr { items } => JsonV::JArr { items: json_items_view(items@) },
        Json::JObj { entries } => JsonV::JObj { entries: json_entries_view(entries@) },
    }
}

pub open spec fn json_items_view(s: Seq<Json>) -> Seq<JsonV>
    decreases s,
{
    if s.len() == 0 {
        Seq::empty()
    } else {
        seq![json_view(s[0])] + json_items_view(s.subrange(1, s.len() as int))
    }
}

pub open spec fn json_entries_view(s: Seq<(String, Json)>) -> Seq<(Seq<char>, JsonV)>
    decreases s,
{
    if s.len() == 0 {
        Seq::empty()
    } else {
        seq![(s[0].0@, json_view(s[0].1))] + json_entries_view(s.subrange(1, s.len() as int))
    }
}

impl View for Json {
    type V = JsonV;

    open spec fn view(&self) -> JsonV {
        json_view(*self)
    }
}

/// Entry views distribute over length, entry by entry.
pub proof fn lemma_json_entries_view_len(s: Seq<(String, Json)>)
    ensures
        json_entries_view(s).len() == s.len(),
        forall|i: int|
            0 <= i < s.len() ==> #[trigger] json_entries_view(s)[i] == (
                s[i].0@,
                json_view(s[i].1),
            ),
    decreases s,
{
    if s.len() > 0 {
        let tail = s.subrange(1, s.len() as int);
        lemma_json_entries_view_len(tail);
        assert forall|i: int| 0 <= i < s.len() implies #[trigger] json_entries_view(s)[i] == (
            s[i].0@,
            json_view(s[i].1),
        ) by {
            if i > 0 {
                assert(json_entries_view(tail)[i - 1] == (tail[i - 1].0@, json_view(
                    tail[i - 1].1,
                )));
                assert(tail[i - 1] == s[i]);
            }
        }
    }
}

/// Item views distribute over length, item by item.
pub proof fn lemma_json_items_view_len(s: Seq<Json>)
    ensures
        json_items_view(s).len() == s.len(),
        forall|i: int| 0 <= i < s.len() ==> #[trigger] json_items_view(s)[i] == json_view(s[i]),
    decreases s,
{
    if s.len() > 0 {
        let tail = s.subrange(1, s.len() as int);
        lemma_json_items_view_len(tail);
        assert forall|i: int| 0 <= i < s.len() implies #[trigger] json_items_view(s)[i]
            == json_view(s[i]) by {
            if i > 0 {
                assert(json_items_view(tail)[i - 1] == json_view(tail[i - 1]));
                assert(tail[i - 1] == s[i]);
            }
        }
    }
}


/// Entry views distribute over `push`.
pub proof fn lemma_json_entries_view_push(s: Seq<(String, Json)>, x: (String, Json))
    ensures
        json_entries_view(s.push(x)) == json_entries_view(s).push((x.0@, json_view(x.1))),
    decreases s,
{
    let t = s.push(x);
    if s.len() == 0 {
        assert(t[0] == x);
        assert(t.subrange(1, t.len() as int) =~= Seq::<(String, Json)>::empty());
        assert(json_entries_view(Seq::<(String, Json)>::empty()) =~= Seq::<
            (Seq<char>, JsonV),
        >::empty());
        assert(json_entries_view(t) =~= json_entries_view(s).push((x.0@, json_view(x.1))));
    } else {
        assert(t[0] == s[0]);
        assert(t.subrange(1, t.len() as int) =~= s.subrange(1, s.len() as int).push(x));
        lemma_json_entries_view_push(s.subrange(1, s.len() as int), x);
        assert(json_entries_view(t) =~= json_entries_view(s).push((x.0@, json_view(x.1))));
    }
}

/// Item views distribute over `push`.
pub proof fn lemma_json_items_view_push(s: Seq<Json>, x: Json)
    ensures
        json_items_view(s.push(x)) == json_items_view(s).push(json_view(x)),
    decreases s,
{
    let t = s.push(x);
    if s.len() == 0 {
        assert(t[0] == x);
        assert(t.subrange(1, t.len() as int) =~= Seq::<Json>::empty());
        assert(json_items_view(Seq::<Json>::empty()) =~= Seq::<JsonV>::empty());
        assert(json_items_view(t) =~= json_items_view(s).push(json_view(x)));
    } else {
        assert(t[0] == s[0]);
        assert(t.subrange(1, t.len() as int) =~= s.subrange(1, s.len() as int).push(x));
        lemma_json_items_view_push(s.subrange(1, s.len() as int), x);
        assert(json_items_view(t) =~= json_items_view(s).push(json_view(x)));
    }
}

pub open spec fn hex_digit(d: nat) -> char {
    if d < 10 {
        ((48 + d) as u8) as char
    } else {
        ((87 + d) as u8) as char
    }
}

/// The escape sequence one character renders as inside a string literal.
pub open spec fn esc_char(c: char) -> Seq<char> {
    if c == '"' {
        seq!['\\', '"']
    } else if c == '\\' {
        seq!['\\', '\\']
    } else if c == '\n' {
        seq!['\\', 'n']
    } else if c == '\r' {
        seq!['\\', 'r']
    } else if c == '\t' {
        seq!['\\', 't']
    } else if (c as u32) < 32 {
        seq!['\\', 'u', '0', '0', hex_digit((c as u32 / 16) as nat), hex_digit(
            (c as u32 % 16) as nat,
        )]
    } else {
        seq![c]
    }
}

/// A whole string escaped, character by character.
pub open spec fn esc_str(s: Seq<char>) -> Seq<char>
    decreases s.len(),
{
    if s.len() == 0 {
        Seq::empty()
    } else {
        esc_str(s.subrange(0, s.len() - 1)) + esc_char(s[s.len() - 1])
    }
}

/// A rendered string literal: quotes around the escaped content.
pub open spec fn sp_render_str(s: Seq<char>) -> Seq<char> {
    seq!['"'] + esc_str(s) + seq!['"']
}

/// Pretty-printed rendering with the given current indentation: two more
/// spaces per nesting level, one line per item or entry.
pub open spec fn sp_render(j: JsonV, ind: Seq<char>) -> Seq<char>
    decreases j, 0nat,
{
    match j {
        JsonV::JStr { value } => sp_render_str(value),
        JsonV::JBool { value } => if value {
            "true"@
        } else {
            "false"@
        },
        JsonV::JArr { items } => if items.len() == 0 {
            "[]"@
        } else {
            seq!['['] + sp_render_items(items, 0, ind + "  "@) + seq!['\n'] + ind + seq![']']
        },
        JsonV::JObj { entries } => if entries.len() == 0 {
            "{}"@
        } else {
            seq!['{'] + sp_render_entries(entries, 0, ind + "  "@) + seq!['\n'] + ind + seq!['}']
        },
    }
}

pub open spec fn sp_render_items(items: Seq<JsonV>, i: nat, ind: Seq<char>) -> Seq<char>
    decreases items, items.len() - i,
{
    if i >= items.len() {
        Seq::empty()
    } else {
        seq!['\n'] + ind + sp_render(items[i as int], ind) + (if i + 1 < items.len() {
            seq![',']
        } else {
            Seq::empty()
        }) + sp_render_items(items, i + 1, ind)
    }
}

pub open spec fn sp_render_entries(entries: Seq<(Seq<char>, JsonV)>, i: nat, ind: Seq<char>) -> Seq<
    char,
>
    decreases entries, entries.len() - i,
{
    if i >= entries.len() {
        Seq::empty()
    } else {
        seq!['\n'] + ind + sp_render_str(entries[i as int].0) + seq![':', ' '] + sp_render(
            entries[i as int].1,
            ind,
        ) + (if i + 1 < entries.len() {
            seq![',']
        } else {
            Seq::empty()
        }) + sp_render_entries(entries, i + 1, ind)
    }
}

proof fn lemma_esc_str_extend(s: Seq<char>, i: int)
    requires
        0 <= i < s.len(),
    ensures
        esc_str(s.subrange(0, i + 1)) == esc_str(s.subrange(0, i)) + esc_char(s[i]),
{
    let p = s.subrange(0, i + 1);
    assert(p.subrange(0, p.len() - 1) =~= s.subrange(0, i));
    assert(p[p.len() - 1] == s[i]);
}

/// Append the escaped, quoted form of `s`.
fn render_str_into(s: &str, out: &mut String)
    ensures
        final(out)@ == old(out)@ + sp_render_str(s@),
{
    out.push('"');
    let n = s.unicode_len();
    let mut i: usize = 0;
    while i < n
        invariant
            n as nat == s@.len(),
            i <= n,
            out@ == old(out)@ + seq!['"'] + esc_str(s@.subrange(0, i as int)),
        decreases n - i,
    {
        let c = s.get_char(i);
        proof {
            lemma_esc_str_extend(s@, i as int);
        }
        if c == '"' {
            out.push('\\');
            out.push('"');
        } else if c == '\\' {
            out.push('\\');
            out.push('\\');
        } else if c == '\n' {
            out.push('\\');
            out.push('n');
        } else if c == '\r' {
            out.push('\\');
            out.push('r');
        } else if c == '\t' {
            out.push('\\');
            out.push('t');
        } else if (c as u32) < 32 {
            out.push('\\');
            out.push('u');
            out.push('0');
            out.push('0');
            let u = c as u32;
            let hi: u32 = u / 16;
            let lo: u32 = u % 16;
            let hc: char = if hi < 10 {
                ((48 + hi) as u8) as char
            } else {
                ((87 + hi) as u8) as char
            };
            let lc: char = if lo < 10 {
                ((48 + lo) as u8) as char
            } else {
                ((87 + lo) as u8) as char
            };
            out.push(hc);
            out.push(lc);
        } else {
            out.push(c);
        }
        proof {
            assert(out@ =~= old(out)@ + seq!['"'] + esc_str(s@.subrange(0, i as int + 1)));
        }
        i = i + 1;
    }
    proof {
        assert(s@.subrange(0, n as int) =~= s@);
    }
    out.push('"');
    proof {
        assert(out@ =~= old(out)@ + sp_render_str(s@));
    }
}

/// Append the rendering of `j` at the given indentation.
pub fn render_into(j: &Json, ind: &str, out: &mut String)
    ensures
        final(out)@ == old(out)@ + sp_render(j@, ind@),
    decreases j, 1nat,
{
    match j {
        Json::JStr { value } => {
            render_str_into(value.as_str(), out);
        },
        Json::JBool { value } => {
            if *value {
                out.append("true");
            } else {
                out.append("false");
            }
        },
        Json::JArr { items } => {
            if items.len() == 0 {
                proof {
                    assert(json_items_view(items@) =~= Seq::<JsonV>::empty());
                }
                out.append("[]");
            } else {
                proof {
                    crate::json::lemma_json_items_view_len(items@);
                }
                out.push('[');
                let mut ind2 = ind.to_owned();
                ind2.append("  ");
                render_items_into(items, 0, ind2.as_str(), out);
                out.push('\n');
                out.append(ind);
                out.push(']');
                proof {
                    assert(out@ =~= old(out)@ + sp_render(j@, ind@));
                }
            }
        },
        Json::JObj { entries } => {
            if entries.len() == 0 {
                proof {
                    assert(json_entries_view(entries@) =~= Seq::<(Seq<char>, JsonV)>::empty());
                }
                out.append("{}");
            } else {
                proof {
                    crate::json::lemma_json_entries_view_len(entries@);
                }
                out.push('{');
                let mut ind2 = ind.to_owned();
                ind2.append("  ");
                render_entries_into(entries, 0, ind2.as_str(), out);
                out.push('\n');
                out.append(ind);
                out.push('}');
                proof {
                    assert(out@ =~= old(out)@ + sp_render(j@, ind@));
                }
            }
        },
    }
}

fn render_items_into(items: &Vec<Json>, i: usize, ind: &str, out: &mut String)
    requires
        i <= items@.len(),
    ensures
        final(out)@ == old(out)@ + sp_render_items(json_items_view(items@), i as nat, ind@),
    decreases items, items@.len() - i,
{
    proof {
        lemma_json_items_view_len(items@);
    }
    if i >= items.len() {
        proof {
            assert(out@ =~= old(out)@ + sp_render_items(
                json_items_view(items@),
                i as nat,
                ind@,
            ));
        }
        return ;
    }
    out.push('\n');
    out.append(ind);
    render_into(&items[i], ind, out);
    if i + 1 < items.len() {
        out.push(',');
    }
    render_items_into(items, i + 1, ind, out);
    proof {
        assert(out@ =~= old(out)@ + sp_render_items(json_items_view(items@), i as nat, ind@));
    }
}

fn render_entries_into(entries: &Vec<(String, Json)>, i: usize, ind: &str, out: &mut String)
    requires
        i <= entries@.len(),
    ensures
        final(out)@ == old(out)@ + sp_render_entries(
            json_entries_view(entries@),
            i as nat,
            ind@,
        ),
    decreases entries, entries@.len() - i,
{
    proof {
        lemma_json_entries_view_len(entries@);
    }
    if i >= entries.len() {
        proof {
            assert(out@ =~= old(out)@ + sp_render_entries(
                json_entries_view(entries@),
                i as nat,
                ind@,
            ));
        }
        return ;
    }
    out.push('\n');
    out.append(ind);
    render_str_into(entries[i].0.as_str(), out);
    out.push(':');
    out.push(' ');
    render_into(&entries[i].1, ind, out);
    if i + 1 < entries.len() {
        out.push(',');
    }
    render_entries_into(entries, i + 1, ind, out);
    proof {
        assert(out@ =~= old(out)@ + sp_render_entries(
            json_entries_view(entries@),
            i as nat,
            ind@,
        ));
    }
}

/// Render a whole document tree, starting unindented.
pub fn json_to_pretty_string(j: &Json) -> (r: String)
    ensures
        r@ == sp_render(j@, ""@),
{
    let mut out = String::new();
    render_into(j, "", &mut out);
    proof {
        assert(out@ =~= sp_render(j@, ""@));
    }
    out
}

} // verus!
