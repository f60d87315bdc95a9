//! The metadata parser pipeline: one raw blob is parsed and decoded into an
//! ordered list of typed components. The primary channel resolves derived
//! display names against the registry's short names; the reserved
//! `"bevy_components"` namespace holds a nested map keyed by canonical type
//! paths. Unresolvable names are skipped with a diagnostic unless covered by
//! the ignore-list; decode failures skip the one entry and warn.

use vstd::prelude::*;
use vstd::string::StrSliceExecFns;
use crate::decode::spec_decode;
use crate::decode::decode_value;
use crate::diag::DiagKind;
use crate::diag::DiagV;
use crate::diag::Diagnostic;
use crate::diag::diags_view;
use crate::diag::opt_name_view;
use crate::diag::push_diag;
use crate::instance::InstV;
use crate::instance::Instance;
use crate::parse::parse_blob;
use crate::parse::sp_document;
use crate::rawvalue::RawVal;
use crate::rawvalue::RawValue;
use crate::rawvalue::lemma_raw_entries_view_len;
use crate::rawvalue::raw_entries_view;
use crate::registry::TypeRegistry;
use crate::registry::spec_lookup_path;
use crate::registry::spec_lookup_short;
use crate::resolver::ResolutionContext;
use crate::resolver::opt_ctx_view;
use crate::shape::TypeDescV;
use crate::shape::TypeDescriptor;
use crate::shape::clone_descriptor;
use crate::text::capitalize_first_letter;
use crate::text::contains_str;
use crate::text::spec_contains_sub;
use crate::text::spec_starts_with;
use crate::text::spec_trim;
use crate::text::starts_with_str;
use crate::text::str_eq;
use crate::text::trim_str;
use crate::text::upper_ascii_char;

verus! {

/// View of a decoded component list.
pub open spec fn comps_view(s: Seq<(Instance, TypeDescriptor)>) -> Seq<(InstV, TypeDescV)> {
    s.map_values(|c: (Instance, TypeDescriptor)| (c.0@, c.1@))
}

/// The display type name derived from an outer key: the fixed marker prefix
/// is stripped and the rest trimmed.
pub open spec fn spec_display_name(k: Seq<char>) -> Seq<char> {
    if spec_starts_with(k, "component: "@) {
        spec_trim(k.subrange("component: "@.len() as int, k.len() as int))
    } else {
        spec_trim(k)
    }
}

/// The capitalized display name the primary channel looks up. A name whose
/// first character is not ASCII is looked up unchanged.
pub open spec fn spec_capitalized(k: Seq<char>) -> Seq<char> {
    let d = spec_display_name(k);
    if d.len() > 0 && (d[0] as u32) < 128 {
        d.update(0, upper_ascii_char(d[0]))
    } else {
        d
    }
}

/// Is the name covered by the ignore-list? Matching is by substring.
pub open spec fn spec_ignored(name: Seq<char>, ignore: Seq<Seq<char>>) -> bool {
    exists|i: int| 0 <= i < ignore.len() && spec_contains_sub(name, #[trigger] ignore[i])
}

/// One primary-channel entry: derive the display name, look it up by short
/// name, decode on success; an unknown name is skipped, silently when the
/// ignore-list covers it, with one diagnostic otherwise.
pub open spec fn spec_process_primary(
    reg: Seq<TypeDescV>,
    ignore: Seq<Seq<char>>,
    k: Seq<char>,
    v: RawVal,
    ctx: Option<crate::resolver::CtxV>,
    node: Option<Seq<char>>,
) -> (Seq<(InstV, TypeDescV)>, Seq<DiagV>) {
    let name = spec_capitalized(k);
    match spec_lookup_short(reg, name) {
        Some(d) => {
            let (r, ds) = spec_decode(reg, d.canonical_path, v, ctx);
            match r {
                Ok(inst) => (seq![(inst, d)], ds),
                Err(e) => (
                    Seq::empty(),
                    ds.push(DiagV { kind: DiagKind::DecodeFailed, node, subject: name }),
                ),
            }
        },
        None => if spec_ignored(name, ignore) {
            (Seq::empty(), Seq::empty())
        } else {
            (
                Seq::empty(),
                seq![DiagV { kind: DiagKind::UnknownShortName, node, subject: name }],
            )
        },
    }
}

/// One extended-channel entry: the key is a full canonical path, looked up
/// collision-free; unknown paths and decode failures are skipped with one
/// diagnostic each.
pub open spec fn spec_process_extended(
    reg: Seq<TypeDescV>,
    k: Seq<char>,
    v: RawVal,
    ctx: Option<crate::resolver::CtxV>,
    node: Option<Seq<char>>,
) -> (Seq<(InstV, TypeDescV)>, Seq<DiagV>) {
    match spec_lookup_path(reg, k) {
        Some(d) => {
            let (r, ds) = spec_decode(reg, k, v, ctx);
            match r {
                Ok(inst) => (seq![(inst, d)], ds),
                Err(e) => (
                    Seq::empty(),
                    ds.push(DiagV { kind: DiagKind::DecodeFailed, node, subject: k }),
                ),
            }
        },
        None => (
            Seq::empty(),
            seq![DiagV { kind: DiagKind::UnknownTypePath, node, subject: k }],
        ),
    }
}

/// All extended-channel entries of one nested map, from index `i` on.
pub open spec fn spec_process_extended_entries(
    reg: Seq<TypeDescV>,
    es: Seq<(Seq<char>, RawVal)>,
    i: nat,
    ctx: Option<crate::resolver::CtxV>,
    node: Option<Seq<char>>,
) -> (Seq<(InstV, TypeDescV)>, Seq<DiagV>)
    decreases es.len() - i,
{
    if i >= es.len() {
        (Seq::empty(), Seq::empty())
    } else {
        let (c0, d0) = spec_process_extended(reg, es[i as int].0, es[i as int].1, ctx, node);
        let (cr, dr) = spec_process_extended_entries(reg, es, i + 1, ctx, node);
        (c0 + cr, d0 + dr)
    }
}

/// The reserved namespace value: a nested map of canonical-path entries;
/// anything else is malformed and yields one diagnostic.
pub open spec fn spec_process_reserved(
    reg: Seq<TypeDescV>,
    v: RawVal,
    ctx: Option<crate::resolver::CtxV>,
    node: Option<Seq<char>>,
) -> (Seq<(InstV, TypeDescV)>, Seq<DiagV>) {
    match v {
        RawVal::MapEntries { entries } => spec_process_extended_entries(reg, entries, 0, ctx, node),
        _ => (
            Seq::empty(),
            seq![
                DiagV { kind: DiagKind::MalformedNested, node, subject: "bevy_components"@ },
            ],
        ),
    }
}

/// The primary pass over the outer entries, from index `i` on, skipping the
/// reserved namespace key.
pub open spec fn spec_process_primary_entries(
    reg: Seq<TypeDescV>,
    ignore: Seq<Seq<char>>,
    es: Seq<(Seq<char>, RawVal)>,
    i: nat,
    ctx: Option<crate::resolver::CtxV>,
    node: Option<Seq<char>>,
) -> (Seq<(InstV, TypeDescV)>, Seq<DiagV>)
    decreases es.len() - i,
{
    if i >= es.len() {
        (Seq::empty(), Seq::empty())
    } else {
        let (cr, dr) = spec_process_primary_entries(reg, ignore, es, i + 1, ctx, node);
        if es[i as int].0 == "bevy_components"@ {
            (cr, dr)
        } else {
            let (c0, d0) = spec_process_primary(
                reg,
                ignore,
                es[i as int].0,
                es[i as int].1,
                ctx,
                node,
            );
            (c0 + cr, d0 + dr)
        }
    }
}

/// The reserved pass over the outer entries, from index `i` on: every entry
/// under the reserved key contributes, in order.
pub open spec fn spec_process_reserved_entries(
    reg: Seq<TypeDescV>,
    es: Seq<(Seq<char>, RawVal)>,
    i: nat,
    ctx: Option<crate::resolver::CtxV>,
    node: Option<Seq<char>>,
) -> (Seq<(InstV, TypeDescV)>, Seq<DiagV>)
    decreases es.len() - i,
{
    if i >= es.len() {
        (Seq::empty(), Seq::empty())
    } else {
        let (cr, dr) = spec_process_reserved_entries(reg, es, i + 1, ctx, node);
        if es[i as int].0 == "bevy_components"@ {
            let (c0, d0) = spec_process_reserved(reg, es[i as int].1, ctx, node);
            (c0 + cr, d0 + dr)
        } else {
            (cr, dr)
        }
    }
}

/// The whole pipeline on one blob: parse, then the primary pass, then the
/// reserved pass, components concatenated in that order. Malformed text is
/// fatal for the blob: no components and exactly one diagnostic.
pub open spec fn spec_process_blob(
    reg: Seq<TypeDescV>,
    ignore: Seq<Seq<char>>,
    s: Seq<char>,
    ctx: Option<crate::resolver::CtxV>,
    node: Option<Seq<char>>,
) -> (Seq<(InstV, TypeDescV)>, Seq<DiagV>) {
    match sp_document(s) {
        None => (
            Seq::empty(),
            seq![DiagV { kind: DiagKind::MalformedBlob, node, subject: ""@ }],
        ),
        Some(es) => {
            let (cp, dp) = spec_process_primary_entries(reg, ignore, es, 0, ctx, node);
            let (cx, dx) = spec_process_reserved_entries(reg, es, 0, ctx, node);
            (cp + cx, dp + dx)
        },
    }
}

/// Derive the display type name from an outer key.
pub fn display_name(k: &str) -> (r: String)
    ensures
        r@ == spec_display_name(k@),
{
    if starts_with_str(k, "component: ") {
        let m = "component: ".unicode_len();
        let n = k.unicode_len();
        let rest = k.substring_char(m, n);
        trim_str(rest)
    } else {
        trim_str(k)
    }
}

/// Derive and capitalize the display name for the short-name lookup.
pub fn capitalized_display(k: &str) -> (r: String)
    ensures
        r@ == spec_capitalized(k@),
{
    let d = display_name(k);
    let n = d.as_str().unicode_len();
    if n > 0 {
        let c = d.as_str().get_char(0);
        if (c as u32) < 128 {
            capitalize_first_letter(d.as_str())
        } else {
            d
        }
    } else {
        d
    }
}

/// Is the name covered by the ignore-list?
pub fn is_ignored(name: &str, ignore: &Vec<String>) -> (r: bool)
    ensures
        r == spec_ignored(name@, ignore@.map_values(|s: String| s@)),
{
    let ghost iv = ignore@.map_values(|s: String| s@);
    let n = ignore.len();
    let mut i: usize = 0;
    while i < n
        invariant
            n as nat == ignore@.len(),
            iv == ignore@.map_values(|s: String| s@),
            i <= n,
            forall|j: int| 0 <= j < i ==> !spec_contains_sub(name@, #[trigger] iv[j]),
        decreases n - i,
    {
        if contains_str(name, ignore[i].as_str()) {
            proof {
                assert(spec_contains_sub(name@, iv[i as int]));
            }
            return true;
        }
        i = i + 1;
    }
    false
}

/// Process one primary-channel entry, appending its components and
/// diagnostics.
fn components_string_to_components(
    reg: &TypeRegistry,
    ignore: &Vec<String>,
    k: &String,
    v: &RawValue,
    ctx: Option<&ResolutionContext>,
    node: Option<&str>,
    comps: &mut Vec<(Instance, TypeDescriptor)>,
    diags: &mut Vec<Diagnostic>,
)
    ensures
        ({
            let s = spec_process_primary(
                reg@,
                ignore@.map_values(|x: String| x@),
                k@,
                v@,
                opt_ctx_view(ctx),
                opt_name_view(node),
            );
            comps_view(final(comps)@) == comps_view(old(comps)@) + s.0 && diags_view(
                final(diags)@,
            ) == diags_view(old(diags)@) + s.1
        }),
{
    let ghost s = spec_process_primary(
        reg@,
        ignore@.map_values(|x: String| x@),
        k@,
        v@,
        opt_ctx_view(ctx),
        opt_name_view(node),
    );
    let name = capitalized_display(k.as_str());
    let d = match reg.lookup_by_short_name(name.as_str()) {
        Some(d) => d,
        None => {
            if is_ignored(name.as_str(), ignore) {
                proof {
                    assert(comps_view(comps@) =~= comps_view(old(comps)@) + s.0);
                    assert(diags_view(diags@) =~= diags_view(old(diags)@) + s.1);
                }
                return ;
            }
            push_diag(diags, DiagKind::UnknownShortName, node, name.as_str());
            proof {
                assert(comps_view(comps@) =~= comps_view(old(comps)@) + s.0);
                assert(diags_view(diags@) =~= diags_view(old(diags)@) + s.1);
            }
            return ;
        },
    };
    let desc = clone_descriptor(d);
    match decode_value(reg, desc.canonical_path.as_str(), v, ctx, diags) {
        Ok(inst) => {
            let ghost instv = inst@;
            let ghost descv = desc@;
            comps.push((inst, desc));
            proof {
                assert(comps_view(comps@) =~= comps_view(old(comps)@).push((instv, descv)));
                assert(comps_view(comps@) =~= comps_view(old(comps)@) + s.0);
                assert(diags_view(diags@) =~= diags_view(old(diags)@) + s.1);
            }
        },
        Err(_) => {
            push_diag(diags, DiagKind::DecodeFailed, node, name.as_str());
            proof {
                assert(comps_view(comps@) =~= comps_view(old(comps)@) + s.0);
                assert(diags_view(diags@) =~= diags_view(old(diags)@) + s.1);
            }
        },
    }
}

/// Process one extended-channel entry, appending its components and
/// diagnostics.
fn extended_entry_to_component(
    reg: &TypeRegistry,
    k: &String,
    v: &RawValue,
    ctx: Option<&ResolutionContext>,
    node: Option<&str>,
    comps: &mut Vec<(Instance, TypeDescriptor)>,
    diags: &mut Vec<Diagnostic>,
)
    ensures
        ({
            let s = spec_process_extended(reg@, k@, v@, opt_ctx_view(ctx), opt_name_view(node));
            comps_view(final(comps)@) == comps_view(old(comps)@) + s.0 && diags_view(
                final(diags)@,
            ) == diags_view(old(diags)@) + s.1
        }),
{
    let ghost s = spec_process_extended(reg@, k@, v@, opt_ctx_view(ctx), opt_name_view(node));
    let d = match reg.lookup_by_path(k.as_str()) {
        Some(d) => d,
        None => {
            push_diag(diags, DiagKind::UnknownTypePath, node, k.as_str());
            proof {
                assert(comps_view(comps@) =~= comps_view(old(comps)@) + s.0);
                assert(diags_view(diags@) =~= diags_view(old(diags)@) + s.1);
            }
            return ;
        },
    };
    let desc = clone_descriptor(d);
    match decode_value(reg, k.as_str(), v, ctx, diags) {
        Ok(inst) => {
            let ghost instv = inst@;
            let ghost descv = desc@;
            comps.push((inst, desc));
            proof {
                assert(comps_view(comps@) =~= comps_view(old(comps)@).push((instv, descv)));
                assert(comps_view(comps@) =~= comps_view(old(comps)@) + s.0);
                assert(diags_view(diags@) =~= diags_view(old(diags)@) + s.1);
            }
        },
        Err(_) => {
            push_diag(diags, DiagKind::DecodeFailed, node, k.as_str());
            proof {
                assert(comps_view(comps@) =~= comps_view(old(comps)@) + s.0);
                assert(diags_view(diags@) =~= diags_view(old(diags)@) + s.1);
            }
        },
    }
}

/// Process the nested extended-channel map from index `i` on.
fn extended_entries_from(
    reg: &TypeRegistry,
    es: &Vec<(String, RawValue)>,
    i: usize,
    ctx: Option<&ResolutionContext>,
    node: Option<&str>,
    comps: &mut Vec<(Instance, TypeDescriptor)>,
    diags: &mut Vec<Diagnostic>,
)
    requires
        i <= es@.len(),
    ensures
        ({
            let s = spec_process_extended_entries(
                reg@,
                raw_entries_view(es@),
                i as nat,
                opt_ctx_view(ctx),
                opt_name_view(node),
            );
            comps_view(final(comps)@) == comps_view(old(comps)@) + s.0 && diags_view(
                final(diags)@,
            ) == diags_view(old(diags)@) + s.1
        }),
    decreases es@.len() - i,
{
    let ghost s = spec_process_extended_entries(
        reg@,
        raw_entries_view(es@),
        i as nat,
        opt_ctx_view(ctx),
        opt_name_view(node),
    );
    proof {
        lemma_raw_entries_view_len(es@);
    }
    if i >= es.len() {
        proof {
            assert(comps_view(comps@) =~= comps_view(old(comps)@) + s.0);
            assert(diags_view(diags@) =~= diags_view(old(diags)@) + s.1);
        }
        return ;
    }
    extended_entry_to_component(reg, &es[i].0, &es[i].1, ctx, node, comps, diags);
    extended_entries_from(reg, es, i + 1, ctx, node, comps, diags);
    proof {
        assert(comps_view(comps@) =~= comps_view(old(comps)@) + s.0);
        assert(diags_view(diags@) =~= diags_view(old(diags)@) + s.1);
    }
}

/// Process the reserved namespace value: its nested map, or one diagnostic
/// for a malformed channel.
fn bevy_components_string_to_components(
    reg: &TypeRegistry,
    v: &RawValue,
    ctx: Option<&ResolutionContext>,
    node: Option<&str>,
    comps: &mut Vec<(Instance, TypeDescriptor)>,
    diags: &mut Vec<Diagnostic>,
)
    ensures
        ({
            let s = spec_process_reserved(reg@, v@, opt_ctx_view(ctx), opt_name_view(node));
            comps_view(final(comps)@) == comps_view(old(comps)@) + s.0 && diags_view(
                final(diags)@,
            ) == diags_view(old(diags)@) + s.1
        }),
{
    let ghost s = spec_process_reserved(reg@, v@, opt_ctx_view(ctx), opt_name_view(node));
    match v {
        RawValue::MapEntries { entries } => {
            extended_entries_from(reg, entries, 0, ctx, node, comps, diags);
            proof {
                assert(comps_view(comps@) =~= comps_view(old(comps)@) + s.0);
                assert(diags_view(diags@) =~= diags_view(old(diags)@) + s.1);
            }
        },
        _ => {
            push_diag(diags, DiagKind::MalformedNested, node, "bevy_components");
            proof {
                assert(comps_view(comps@) =~= comps_view(old(comps)@) + s.0);
                assert(diags_view(diags@) =~= diags_view(old(diags)@) + s.1);
            }
        },
    }
}

/// The primary pass from index `i` on.
fn primary_entries_from(
    reg: &TypeRegistry,
    ignore: &Vec<String>,
    es: &Vec<(String, RawValue)>,
    i: usize,
    ctx: Option<&ResolutionContext>,
    node: Option<&str>,
    comps: &mut Vec<(Instance, TypeDescriptor)>,
    diags: &mut Vec<Diagnostic>,
)
    requires
        i <= es@.len(),
    ensures
        ({
            let s = spec_process_primary_entries(
                reg@,
                ignore@.map_values(|x: String| x@),
                raw_entries_view(es@),
                i as nat,
                opt_ctx_view(ctx),
                opt_name_view(node),
            );
            comps_view(final(comps)@) == comps_view(old(comps)@) + s.0 && diags_view(
                final(diags)@,
            ) == diags_view(old(diags)@) + s.1
        }),
    decreases es@.len() - i,
{
    let ghost s = spec_process_primary_entries(
        reg@,
        ignore@.map_values(|x: String| x@),
        raw_entries_view(es@),
        i as nat,
        opt_ctx_view(ctx),
        opt_name_view(node),
    );
    proof {
        lemma_raw_entries_view_len(es@);
    }
    if i >= es.len() {
        proof {
            assert(comps_view(comps@) =~= comps_view(old(comps)@) + s.0);
            assert(diags_view(diags@) =~= diags_view(old(diags)@) + s.1);
        }
        return ;
    }
    if !str_eq(es[i].0.as_str(), "bevy_components") {
        components_string_to_components(
            reg,
            ignore,
            &es[i].0,
            &es[i].1,
            ctx,
            node,
            comps,
            diags,
        );
    }
    primary_entries_from(reg, ignore, es, i + 1, ctx, node, comps, diags);
    proof {
        assert(comps_view(comps@) =~= comps_view(old(comps)@) + s.0);
        assert(diags_view(diags@) =~= diags_view(old(diags)@) + s.1);
    }
}

/// The reserved pass from index `i` on.
fn reserved_entries_from(
    reg: &TypeRegistry,
    es: &Vec<(String, RawValue)>,
    i: usize,
    ctx: Option<&ResolutionContext>,
    node: Option<&str>,
    comps: &mut Vec<(Instance, TypeDescriptor)>,
    diags: &mut Vec<Diagnostic>,
)
    requires
        i <= es@.len(),
    ensures
        ({
            let s = spec_process_reserved_entries(
                reg@,
                raw_entries_view(es@),
                i as nat,
                opt_ctx_view(ctx),
                opt_name_view(node),
            );
            comps_view(final(comps)@) == comps_view(old(comps)@) + s.0 && diags_view(
                final(diags)@,
            ) == diags_view(old(diags)@) + s.1
        }),
    decreases es@.len() - i,
{
    let ghost s = spec_process_reserved_entries(
        reg@,
        raw_entries_view(es@),
        i as nat,
        opt_ctx_view(ctx),
        opt_name_view(node),
    );
    proof {
        lemma_raw_entries_view_len(es@);
    }
    if i >= es.len() {
        proof {
            assert(comps_view(comps@) =~= comps_view(old(comps)@) + s.0);
            assert(diags_view(diags@) =~= diags_view(old(diags)@) + s.1);
        }
        return ;
    }
    if str_eq(es[i].0.as_str(), "bevy_components") {
        bevy_components_string_to_components(reg, &es[i].1, ctx, node, comps, diags);
    }
    reserved_entries_from(reg, es, i + 1, ctx, node, comps, diags);
    proof {
        assert(comps_view(comps@) =~= comps_view(old(comps)@) + s.0);
        assert(diags_view(diags@) =~= diags_view(old(diags)@) + s.1);
    }
}

/// Parse one raw metadata blob and decode every entry of both channels into
/// typed components, in stable discovery order: the primary channel's
/// components first, then the reserved namespace's. Malformed blob text
/// yields no components and exactly one diagnostic; it never aborts the
/// caller.
pub fn ronstring_to_reflect_component(
    ron_string: &str,
    registry: &TypeRegistry,
    node: Option<&str>,
    ignore: &Vec<String>,
    ctx: Option<&ResolutionContext>,
) -> (r: (Vec<(Instance, TypeDescriptor)>, Vec<Diagnostic>))
    ensures
        ({
            let s = spec_process_blob(
                registry@,
                ignore@.map_values(|x: String| x@),
                ron_string@,
                opt_ctx_view(ctx),
                opt_name_view(node),
            );
            comps_view(r.0@) == s.0 && diags_view(r.1@) == s.1
        }),
{
    let ghost s = spec_process_blob(
        registry@,
        ignore@.map_values(|x: String| x@),
        ron_string@,
        opt_ctx_view(ctx),
        opt_name_view(node),
    );
    let mut comps: Vec<(Instance, TypeDescriptor)> = Vec::new();
    let mut diags: Vec<Diagnostic> = Vec::new();
    match parse_blob(ron_string) {
        None => {
            push_diag(&mut diags, DiagKind::MalformedBlob, node, "");
            proof {
                assert(comps_view(comps@) =~= s.0);
                assert(diags_view(diags@) =~= s.1);
            }
            (comps, diags)
        },
        Some(es) => {
            proof {
                assert(comps_view(comps@) =~= Seq::<(InstV, TypeDescV)>::empty());
                assert(diags_view(diags@) =~= Seq::<DiagV>::empty());
            }
            primary_entries_from(registry, ignore, &es, 0, ctx, node, &mut comps, &mut diags);
            reserved_entries_from(registry, &es, 0, ctx, node, &mut comps, &mut diags);
            proof {
                assert(comps_view(comps@) =~= s.0);
                assert(diags_view(diags@) =~= s.1);
            }
            (comps, diags)
        },
    }
}


/// One primary entry processes cleanly: it yields exactly one component and
/// no diagnostic.
pub open spec fn spec_primary_entry_clean(
    reg: Seq<TypeDescV>,
    ignore: Seq<Seq<char>>,
    k: Seq<char>,
    v: RawVal,
    ctx: Option<crate::resolver::CtxV>,
    node: Option<Seq<char>>,
) -> bool {
    spec_process_primary(reg, ignore, k, v, ctx, node).0.len() == 1 && spec_process_primary(
        reg,
        ignore,
        k,
        v,
        ctx,
        node,
    ).1.len() == 0
}

/// One extended entry processes cleanly.
pub open spec fn spec_extended_entry_clean(
    reg: Seq<TypeDescV>,
    k: Seq<char>,
    v: RawVal,
    ctx: Option<crate::resolver::CtxV>,
    node: Option<Seq<char>>,
) -> bool {
    spec_process_extended(reg, k, v, ctx, node).0.len() == 1 && spec_process_extended(
        reg,
        k,
        v,
        ctx,
        node,
    ).1.len() == 0
}

/// A reserved-namespace value processes cleanly: it is a nested map and
/// yields one component per nested entry and no diagnostic.
pub open spec fn spec_reserved_entry_clean(
    reg: Seq<TypeDescV>,
    v: RawVal,
    ctx: Option<crate::resolver::CtxV>,
    node: Option<Seq<char>>,
) -> bool {
    &&& v is MapEntries
    &&& spec_process_reserved(reg, v, ctx, node).0.len() == v->MapEntries_entries.len()
    &&& spec_process_reserved(reg, v, ctx, node).1.len() == 0
}

/// How many outer entries belong to the primary channel, from index `i` on.
pub open spec fn spec_primary_count(es: Seq<(Seq<char>, RawVal)>, i: nat) -> nat
    decreases es.len() - i,
{
    if i >= es.len() {
        0
    } else {
        (if es[i as int].0 == "bevy_components"@ {
            0nat
        } else {
            1nat
        }) + spec_primary_count(es, i + 1)
    }
}

/// How many nested entries the reserved channel holds, from index `i` on.
pub open spec fn spec_nested_count(es: Seq<(Seq<char>, RawVal)>, i: nat) -> nat
    decreases es.len() - i,
{
    if i >= es.len() {
        0
    } else {
        (if es[i as int].0 == "bevy_components"@ && es[i as int].1 is MapEntries {
            es[i as int].1->MapEntries_entries.len()
        } else {
            0nat
        }) + spec_nested_count(es, i + 1)
    }
}

/// All extended entries clean from `i` on: one component each, no
/// diagnostics.
proof fn lemma_extended_entries_clean(
    reg: Seq<TypeDescV>,
    es: Seq<(Seq<char>, RawVal)>,
    i: nat,
    ctx: Option<crate::resolver::CtxV>,
    node: Option<Seq<char>>,
)
    requires
        i <= es.len(),
        forall|j: int|
            i <= j < es.len() ==> spec_extended_entry_clean(
                reg,
                (#[trigger] es[j]).0,
                es[j].1,
                ctx,
                node,
            ),
    ensures
        spec_process_extended_entries(reg, es, i, ctx, node).0.len() == es.len() - i,
        spec_process_extended_entries(reg, es, i, ctx, node).1.len() == 0,
    decreases es.len() - i,
{
    if i < es.len() {
        lemma_extended_entries_clean(reg, es, i + 1, ctx, node);
    }
}

/// A reserved value whose nested entries are all clean is itself clean.
pub proof fn lemma_reserved_value_clean(
    reg: Seq<TypeDescV>,
    entries: Seq<(Seq<char>, RawVal)>,
    ctx: Option<crate::resolver::CtxV>,
    node: Option<Seq<char>>,
)
    requires
        forall|m: int|
            0 <= m < entries.len() ==> spec_extended_entry_clean(
                reg,
                (#[trigger] entries[m]).0,
                entries[m].1,
                ctx,
                node,
            ),
    ensures
        spec_reserved_entry_clean(reg, RawVal::MapEntries { entries }, ctx, node),
{
    lemma_extended_entries_clean(reg, entries, 0, ctx, node);
}

proof fn lemma_primary_pass_clean(
    reg: Seq<TypeDescV>,
    ignore: Seq<Seq<char>>,
    es: Seq<(Seq<char>, RawVal)>,
    i: nat,
    ctx: Option<crate::resolver::CtxV>,
    node: Option<Seq<char>>,
)
    requires
        i <= es.len(),
        forall|j: int|
            i <= j < es.len() && (#[trigger] es[j]).0 != "bevy_components"@
                ==> spec_primary_entry_clean(reg, ignore, es[j].0, es[j].1, ctx, node),
    ensures
        spec_process_primary_entries(reg, ignore, es, i, ctx, node).0.len() == spec_primary_count(
            es,
            i,
        ),
        spec_process_primary_entries(reg, ignore, es, i, ctx, node).1.len() == 0,
    decreases es.len() - i,
{
    if i < es.len() {
        lemma_primary_pass_clean(reg, ignore, es, i + 1, ctx, node);
    }
}

proof fn lemma_reserved_pass_clean(
    reg: Seq<TypeDescV>,
    es: Seq<(Seq<char>, RawVal)>,
    i: nat,
    ctx: Option<crate::resolver::CtxV>,
    node: Option<Seq<char>>,
)
    requires
        i <= es.len(),
        forall|j: int|
            i <= j < es.len() && (#[trigger] es[j]).0 == "bevy_components"@
                ==> spec_reserved_entry_clean(reg, es[j].1, ctx, node),
    ensures
        spec_process_reserved_entries(reg, es, i, ctx, node).0.len() == spec_nested_count(es, i),
        spec_process_reserved_entries(reg, es, i, ctx, node).1.len() == 0,
    decreases es.len() - i,
{
    if i < es.len() {
        lemma_reserved_pass_clean(reg, es, i + 1, ctx, node);
    }
}

/// For a well-formed blob whose types are all present in the registry and
/// whose values all decode, the pipeline produces exactly one component per
/// primary entry plus one per nested reserved entry and not a single
/// diagnostic; that the components come in discovery order, primary channel
/// first, is how the pipeline's model is built entry by entry.
pub proof fn lemma_clean_blob_component_count(
    reg: Seq<TypeDescV>,
    ignore: Seq<Seq<char>>,
    s: Seq<char>,
    es: Seq<(Seq<char>, RawVal)>,
    ctx: Option<crate::resolver::CtxV>,
    node: Option<Seq<char>>,
)
    requires
        sp_document(s) == Some(es),
        forall|j: int|
            0 <= j < es.len() && (#[trigger] es[j]).0 != "bevy_components"@
                ==> spec_primary_entry_clean(reg, ignore, es[j].0, es[j].1, ctx, node),
        forall|j: int|
            0 <= j < es.len() && (#[trigger] es[j]).0 == "bevy_components"@
                ==> spec_reserved_entry_clean(reg, es[j].1, ctx, node),
    ensures
        spec_process_blob(reg, ignore, s, ctx, node).0.len() == spec_primary_count(es, 0)
            + spec_nested_count(es, 0),
        spec_process_blob(reg, ignore, s, ctx, node).1.len() == 0,
{
    lemma_primary_pass_clean(reg, ignore, es, 0, ctx, node);
    lemma_reserved_pass_clean(reg, es, 0, ctx, node);
}

/// A display name absent from the registry never yields a component; it is
/// skipped silently exactly when the ignore-list covers it, and otherwise
/// yields exactly one diagnostic naming it.
pub proof fn lemma_unregistered_name_policy(
    reg: Seq<TypeDescV>,
    ignore: Seq<Seq<char>>,
    k: Seq<char>,
    v: RawVal,
    ctx: Option<crate::resolver::CtxV>,
    node: Option<Seq<char>>,
)
    requires
        spec_lookup_short(reg, spec_capitalized(k)) is None,
    ensures
        spec_process_primary(reg, ignore, k, v, ctx, node).0.len() == 0,
        spec_ignored(spec_capitalized(k), ignore) ==> spec_process_primary(
            reg,
            ignore,
            k,
            v,
            ctx,
            node,
        ).1.len() == 0,
        !spec_ignored(spec_capitalized(k), ignore) ==> spec_process_primary(
            reg,
            ignore,
            k,
            v,
            ctx,
            node,
        ).1 == seq![
            DiagV { kind: DiagKind::UnknownShortName, node, subject: spec_capitalized(k) },
        ],
{
}

} // verus!
