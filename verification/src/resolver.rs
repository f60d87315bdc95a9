//! Entity reference resolution: a scoped context installed by the injection
//! driver immediately before a decode pass and torn down immediately after.
//! Resolution is never global by name: it consults exactly the one table that
//! belongs to the graph instantiation being decoded, so two instantiations of
//! the same authored content never cross-wire.

use vstd::prelude::*;
use crate::PLACEHOLDER_NODE_ID;
use crate::text::str_eq;

verus! {

/// Lookup table from node display name to node identifier, restricted by its
/// builder to metadata-bearing descendants of one graph instantiation.
pub struct ResolutionContext {
    pub instance_id: u64,
    pub names: Vec<(String, u64)>,
}

/// Ghost mirror of `ResolutionContext`.
pub struct CtxV {
    pub instance_id: u64,
    pub names: Seq<(Seq<char>, u64)>,
}

impl View for ResolutionContext {
    type V = CtxV;

    open spec fn view(&self) -> CtxV {
        CtxV {
            instance_id: self.instance_id,
            names: self.names@.map_values(|p: (String, u64)| (p.0@, p.1)),
        }
    }
}

pub open spec fn opt_ctx_view(c: Option<&ResolutionContext>) -> Option<CtxV> {
    match c {
        Some(ctx) => Some(ctx@),
        None => None,
    }
}

/// First table entry for `name`, front to back.
pub open spec fn spec_table_lookup(t: Seq<(Seq<char>, u64)>, name: Seq<char>) -> Option<u64>
    decreases t.len(),
{
    if t.len() == 0 {
        None
    } else if t[0].0 == name {
        Some(t[0].1)
    } else {
        spec_table_lookup(t.subrange(1, t.len() as int), name)
    }
}

/// What a reference to `name` resolves to under an installed context: the
/// named node of that one instantiation, or the placeholder when no context
/// is installed or the name is absent. The second component reports whether
/// the reference was resolved.
pub open spec fn spec_resolve(ctx: Option<CtxV>, name: Seq<char>) -> (u64, bool) {
    match ctx {
        None => (PLACEHOLDER_NODE_ID, false),
        Some(c) => match spec_table_lookup(c.names, name) {
            Some(id) => (id, true),
            None => (PLACEHOLDER_NODE_ID, false),
        },
    }
}

proof fn lemma_table_lookup_step(t: Seq<(Seq<char>, u64)>, name: Seq<char>, i: int)
    requires
        0 <= i < t.len(),
        t[i].0 != name,
    ensures
        spec_table_lookup(t.subrange(i, t.len() as int), name) == spec_table_lookup(
            t.subrange(i + 1, t.len() as int),
            name,
        ),
{
    let tail = t.subrange(i, t.len() as int);
    assert(tail[0] == t[i]);
    assert(tail.subrange(1, tail.len() as int) =~= t.subrange(i + 1, t.len() as int));
}

impl ResolutionContext {
    /// Resolve one display name within this context.
    pub fn resolve(&self, name: &str) -> (r: (u64, bool))
        ensures
            r == spec_resolve(Some(self@), name@),
    {
        let n = self.names.len();
        let mut i: usize = 0;
        proof {
            assert(self@.names.subrange(0, n as int) =~= self@.names);
        }
        while i < n
            invariant
                n as nat == self@.names.len(),
                i <= n,
                spec_table_lookup(self@.names, name@) == spec_table_lookup(
                    self@.names.subrange(i as int, n as int),
                    name@,
                ),
            decreases n - i,
        {
            if str_eq(self.names[i].0.as_str(), name) {
                proof {
                    let tail = self@.names.subrange(i as int, n as int);
                    assert(tail[0] == self@.names[i as int]);
                }
                return (self.names[i].1, true);
            }
            proof {
                lemma_table_lookup_step(self@.names, name@, i as int);
            }
            i = i + 1;
        }
        proof {
            assert(self@.names.subrange(n as int, n as int) =~= Seq::<(Seq<char>, u64)>::empty());
        }
        (PLACEHOLDER_NODE_ID, false)
    }
}

/// Resolve one display name under an optional installed context.
pub fn resolve_name(ctx: Option<&ResolutionContext>, name: &str) -> (r: (u64, bool))
    ensures
        r == spec_resolve(opt_ctx_view(ctx), name@),
{
    match ctx {
        Some(c) => c.resolve(name),
        None => (PLACEHOLDER_NODE_ID, false),
    }
}

/// The single-owner slot a decode pass installs its context into. Installing
/// while a context is already installed is a programming error and fails
/// fast without overwriting; tearing down returns the installed context.
pub struct ContextSlot {
    pub current: Option<ResolutionContext>,
}

#[derive(Debug)]
pub enum SlotError {
    AlreadyInstalled,
}

impl ContextSlot {
    pub fn new() -> (r: ContextSlot)
        ensures
            r.current is None,
    {
        ContextSlot { current: None }
    }

    /// Install a context for one decode pass; refuses a nested install.
    pub fn install(&mut self, ctx: ResolutionContext) -> (r: Result<(), SlotError>)
        ensures
            match r {
                Ok(()) => old(self).current is None && final(self).current == Some(ctx),
                Err(_) => old(self).current is Some && *final(self) == *old(self),
            },
    {
        if self.current.is_some() {
            return Err(SlotError::AlreadyInstalled);
        }
        self.current = Some(ctx);
        Ok(())
    }

    /// Tear the context down after the pass; hands the context back.
    pub fn teardown(&mut self) -> (r: Option<ResolutionContext>)
        ensures
            final(self).current is None,
            r == old(self).current,
    {
        let mut taken: Option<ResolutionContext> = None;
        core::mem::swap(&mut taken, &mut self.current);
        taken
    }

    /// The installed context, if any, for the decoder to consult.
    pub fn installed(&self) -> (r: Option<&ResolutionContext>)
        ensures
            match r {
                Some(c) => self.current == Some(*c),
                None => self.current is None,
            },
    {
        match &self.current {
            Some(c) => Some(c),
            None => None,
        }
    }
}

/// Reference resolution is instance-scoped: a name resolved while one
/// instantiation's context is installed yields that instantiation's node,
/// whatever any other context for the same authored content holds; and it is
/// idempotent, because resolution is a function of the installed context and
/// the name alone.
pub proof fn lemma_resolution_instance_scoped(
    a: CtxV,
    b: CtxV,
    name: Seq<char>,
    ia: u64,
    ib: u64,
)
    requires
        spec_table_lookup(a.names, name) == Some(ia),
        spec_table_lookup(b.names, name) == Some(ib),
    ensures
        spec_resolve(Some(a), name) == (ia, true),
        spec_resolve(Some(b), name) == (ib, true),
{
}

} // verus!
