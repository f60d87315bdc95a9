//! Structured diagnostics: every skipped entry, malformed blob or unresolved
//! reference is reported as one diagnostic carrying the offending node's
//! display name (if any) and the type name or path involved.

use vstd::prelude::*;
use vstd::string::StringExecFns;

verus! {

#[derive(Clone, Copy, PartialEq, Eq, Structural, Debug)]
pub enum DiagKind {
    /// The outer blob text failed to parse; fatal for that blob.
    MalformedBlob,
    /// A display name of the primary channel has no registry entry and is not
    /// covered by the ignore-list.
    UnknownShortName,
    /// A canonical path of the extended channel has no registry entry.
    UnknownTypePath,
    /// The reserved namespace entry does not hold a nested map.
    MalformedNested,
    /// A resolved type failed to decode; the entry is skipped.
    DecodeFailed,
    /// An entity reference resolved to the placeholder node.
    UnresolvedEntityRef,
}

pub struct Diagnostic {
    pub kind: DiagKind,
    pub node: Option<String>,
    pub subject: String,
}

/// Ghost mirror of `Diagnostic`.
pub struct DiagV {
    pub kind: DiagKind,
    pub node: Option<Seq<char>>,
    pub subject: Seq<char>,
}

impl View for Diagnostic {
    type V = DiagV;

    open spec fn view(&self) -> DiagV {
        DiagV {
            kind: self.kind,
            node: match self.node {
                Some(ref s) => Some(s@),
                None => None,
            },
            subject: self.subject@,
        }
    }
}

/// View of a diagnostic list.
pub open spec fn diags_view(s: Seq<Diagnostic>) -> Seq<DiagV> {
    s.map_values(|d: Diagnostic| d@)
}

/// View of the optional node display name handed in by the driver.
pub open spec fn opt_name_view(n: Option<&str>) -> Option<Seq<char>> {
    match n {
        Some(s) => Some(s@),
        None => None,
    }
}

/// Make one diagnostic for the node named by `node`.
pub fn make_diag(kind: DiagKind, node: Option<&str>, subject: &str) -> (d: Diagnostic)
    ensures
        d@ == (DiagV { kind, node: opt_name_view(node), subject: subject@ }),
{
    Diagnostic {
        kind,
        node: match node {
            Some(s) => Some(s.to_owned()),
            None => None,
        },
        subject: subject.to_owned(),
    }
}

/// Push one diagnostic, appending its mirror to the list's view.
pub fn push_diag(diags: &mut Vec<Diagnostic>, kind: DiagKind, node: Option<&str>, subject: &str)
    ensures
        diags_view(final(diags)@) == diags_view(old(diags)@).push(
            DiagV { kind, node: opt_name_view(node), subject: subject@ },
        ),
{
    let d = make_diag(kind, node, subject);
    let ghost dv = d@;
    diags.push(d);
    proof {
        assert(diags_view(diags@) =~= diags_view(old(diags)@).push(dv));
    }
}

} // verus!
