//! The intermediate value tree of the metadata language: a tagged scalar,
//! a nested map, or a nested list, exactly as the content pipeline writes it.

use vstd::prelude::*;

verus! {

/// One raw value of a parsed metadata blob.
pub enum RawValue {
    /// A quoted string.
    Text { value: String },
    /// A numeric literal, kept as its lexeme; the decoder interprets it
    /// against the target type's primitive kind.
    Num { lexeme: String },
    /// A boolean literal.
    Flag { value: bool },
    /// A nested map of named entries, in textual order, duplicates kept.
    MapEntries { entries: Vec<(String, RawValue)> },
    /// A nested list of values, in textual order.
    ListItems { items: Vec<RawValue> },
}

/// Ghost mirror of `RawValue`.
pub enum RawVal {
    Text { value: Seq<char> },
    Num { lexeme: Seq<char> },
    Flag { value: bool },
    MapEntries { entries: Seq<(Seq<char>, RawVal)> },
    ListItems { items: Seq<RawVal> },
}

pub open spec fn raw_value_view(r: RawValue) -> RawVal
    decreases r,
{
    match r {
        RawValue::Text { value } => RawVal::Text { value: value@ },
        RawValue::Num { lexeme } => RawVal::Num { lexeme: lexeme@ },
        RawValue::Flag { value } => RawVal::Flag { value },
        RawValue::MapEntries { entries } => RawVal::MapEntries {
            entries: raw_entries_view(entries@),
        },
        RawValue::ListItems { items } => RawVal::ListItems { items: raw_items_view(items@) },
    }
}

pub open spec fn raw_entries_view(s: Seq<(String, RawValue)>) -> Seq<(Seq<char>, RawVal)>
    decreases s,
{
    if s.len() == 0 {
        Seq::empty()
    } else {
        seq![(s[0].0@, raw_value_view(s[0].1))] + raw_entries_view(s.subrange(1, s.len() as int))
    }
}

pub open spec fn raw_items_view(s: Seq<RawValue>) -> Seq<RawVal>
    decreases s,
{
    if s.len() == 0 {
        Seq::empty()
    } else {
        seq![raw_value_view(s[0])] + raw_items_view(s.subrange(1, s.len() as int))
    }
}

impl View for RawValue {
    type V = RawVal;

    open spec fn view(&self) -> RawVal {
        raw_value_view(*self)
    }
}

/// Entry views distribute over length: the mirrored entry list is as long as
/// the entry list itself, entry by entry.
pub proof fn lemma_raw_entries_view_len(s: Seq<(String, RawValue)>)
    ensures
        raw_entries_view(s).len() == s.len(),
        forall|i: int|
            0 <= i < s.len() ==> #[trigger] raw_entries_view(s)[i] == (
                s[i].0@,
                raw_value_view(s[i].1),
            ),
    decreases s,
{
    if s.len() > 0 {
        let tail = s.subrange(1, s.len() as int);
        lemma_raw_entries_view_len(tail);
        assert forall|i: int| 0 <= i < s.len() implies #[trigger] raw_entries_view(s)[i] == (
            s[i].0@,
            raw_value_view(s[i].1),
        ) by {
            if i > 0 {
                assert(raw_entries_view(tail)[i - 1] == (tail[i - 1].0@, raw_value_view(
                    tail[i - 1].1,
                )));
                assert(tail[i - 1] == s[i]);
            }
        }
    }
}

/// Item views distribute over length, item by item.
pub proof fn lemma_raw_items_view_len(s: Seq<RawValue>)
    ensures
        raw_items_view(s).len() == s.len(),
        forall|i: int|
            0 <= i < s.len() ==> #[trigger] raw_items_view(s)[i] == raw_value_view(s[i]),
    decreases s,
{
    if s.len() > 0 {
        let tail = s.subrange(1, s.len() as int);
        lemma_raw_items_view_len(tail);
        assert forall|i: int| 0 <= i < s.len() implies #[trigger] raw_items_view(s)[i]
            == raw_value_view(s[i]) by {
            if i > 0 {
                assert(raw_items_view(tail)[i - 1] == raw_value_view(tail[i - 1]));
                assert(tail[i - 1] == s[i]);
            }
        }
    }
}

} // verus!
