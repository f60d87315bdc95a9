//! Decoded component instances: the typed value trees the decoder constructs
//! atomically from raw metadata values.

use vstd::prelude::*;

verus! {

/// One decoded instance, shaped by the descriptor it was decoded against.
pub enum Instance {
    /// A boolean primitive.
    BoolVal { value: bool },
    /// An unsigned integer primitive, range-checked for its declared width.
    UIntVal { value: u64 },
    /// A signed integer primitive, range-checked for its declared width.
    IntVal { negative: bool, magnitude: u64 },
    /// A textual primitive.
    TextVal { value: String },
    /// A floating-point primitive, kept as its checked lexeme.
    FloatLex { lexeme: String },
    /// A struct or struct-like variant payload: the decoded fields that were
    /// present, in discovery order.
    StructVal { fields: Vec<(String, Instance)> },
    /// An enum instance: the variant name and its payload, if any.
    EnumVal { variant: String, payload: Option<Box<Instance>> },
    /// A list, array, tuple or tuple-struct instance: positional items.
    ListVal { items: Vec<Instance> },
    /// A map instance: decoded key/value pairs in discovery order.
    MapVal { pairs: Vec<(Instance, Instance)> },
    /// A resolved entity reference: the named node, or the placeholder.
    NodeRef { id: u64 },
}

/// Ghost mirror of `Instance`.
pub enum InstV {
    BoolVal { value: bool },
    UIntVal { value: u64 },
    IntVal { negative: bool, magnitude: u64 },
    TextVal { value: Seq<char> },
    FloatLex { lexeme: Seq<char> },
    StructVal { fields: Seq<(Seq<char>, InstV)> },
    EnumVal { variant: Seq<char>, payload: Option<Box<InstV>> },
    ListVal { items: Seq<InstV> },
    MapVal { pairs: Seq<(InstV, InstV)> },
    NodeRef { id: u64 },
}

pub open spec fn inst_view(x: Instance) -> InstV
    decreases x,
{
    match x {
        Instance::BoolVal { value } => InstV::BoolVal { value },
        Instance::UIntVal { value } => InstV::UIntVal { value },
        Instance::IntVal { negative, magnitude } => InstV::IntVal { negative, magnitude },
        Instance::TextVal { value } => InstV::TextVal { value: value@ },
        Instance::FloatLex { lexeme } => InstV::FloatLex { lexeme: lexeme@ },
        Instance::StructVal { fields } => InstV::StructVal {
            fields: inst_fields_view(fields@),
        },
        Instance::EnumVal { variant, payload } => InstV::EnumVal {
            variant: variant@,
            payload: match payload {
                Some(b) => Some(Box::new(inst_view(*b))),
                None => None,
            },
        },
        Instance::ListVal { items } => InstV::ListVal { items: inst_items_view(items@) },
        Instance::MapVal { pairs } => InstV::MapVal { pairs: inst_pairs_view(pairs@) },
        Instance::NodeRef { id } => InstV::NodeRef { id },
    }
}

pub open spec fn inst_fields_view(s: Seq<(String, Instance)>) -> Seq<(Seq<char>, InstV)>
    decreases s,
{
    if s.len() == 0 {
        Seq::empty()
    } else {
        seq![(s[0].0@, inst_view(s[0].1))] + inst_fields_view(s.subrange(1, s.len() as int))
    }
}

pub open spec fn inst_items_view(s: Seq<Instance>) -> Seq<InstV>
    decreases s,
{
    if s.len() == 0 {
        Seq::empty()
    } else {
        seq![inst_view(s[0])] + inst_items_view(s.subrange(1, s.len() as int))
    }
}

pub open spec fn inst_pairs_view(s: Seq<(Instance, Instance)>) -> Seq<(InstV, InstV)>
    decreases s,
{
    if s.len() == 0 {
        Seq::empty()
    } else {
        seq![(inst_view(s[0].0), inst_view(s[0].1))] + inst_pairs_view(
            s.subrange(1, s.len() as int),
        )
    }
}

impl View for Instance {
    type V = InstV;

    open spec fn view(&self) -> InstV {
        inst_view(*self)
    }
}

} // verus!
