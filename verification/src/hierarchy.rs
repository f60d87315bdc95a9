//! A model of the scene graph the injection driver works against: nodes with
//! identifiers, parent links, display names, metadata markers and
//! instantiation tags. It supports the two graph duties of the driver:
//! building the name table for one graph instantiation, and the flatten
//! attachment mode's reparent-and-discard step.

use vstd::prelude::*;

verus! {

/// One scene node.
pub struct SceneNode {
    pub id: u64,
    pub parent: Option<u64>,
    pub name: String,
    pub has_metadata: bool,
    /// The instantiation this node is a root of, if any.
    pub instance: Option<u64>,
}

/// Ghost mirror of `SceneNode`.
pub struct NodeV {
    pub id: u64,
    pub parent: Option<u64>,
    pub name: Seq<char>,
    pub has_metadata: bool,
    pub instance: Option<u64>,
}

impl View for SceneNode {
    type V = NodeV;

    open spec fn view(&self) -> NodeV {
        NodeV {
            id: self.id,
            parent: self.parent,
            name: self.name@,
            has_metadata: self.has_metadata,
            instance: self.instance,
        }
    }
}

/// The scene graph: a flat node list with parent pointers.
pub struct SceneTree {
    pub nodes: Vec<SceneNode>,
}

impl View for SceneTree {
    type V = Seq<NodeV>;

    open spec fn view(&self) -> Seq<NodeV> {
        self.nodes@.map_values(|n: SceneNode| n@)
    }
}

/// Node identifiers are unique.
pub open spec fn spec_tree_wf(t: Seq<NodeV>) -> bool {
    forall|i: int, j: int| 0 <= i < j < t.len() ==> (#[trigger] t[i]).id != (#[trigger] t[j]).id
}

pub open spec fn spec_has_id(t: Seq<NodeV>, id: u64) -> bool {
    exists|i: int| 0 <= i < t.len() && (#[trigger] t[i]).id == id
}

/// Is `c` a child of `p`?
pub open spec fn spec_is_child(t: Seq<NodeV>, c: u64, p: u64) -> bool {
    exists|i: int| 0 <= i < t.len() && (#[trigger] t[i]).id == c && t[i].parent == Some(p)
}

/// First node carrying `id`.
pub open spec fn spec_node_by_id(t: Seq<NodeV>, id: u64) -> Option<NodeV>
    decreases t.len(),
{
    if t.len() == 0 {
        None
    } else if t[0].id == id {
        Some(t[0])
    } else {
        spec_node_by_id(t.subrange(1, t.len() as int), id)
    }
}

/// Does some strict ancestor of `id` root the instantiation `inst`? The walk
/// is bounded by `fuel`, so a cyclic parent chain simply runs out.
pub open spec fn spec_in_instance(t: Seq<NodeV>, id: u64, inst: u64, fuel: nat) -> bool
    decreases fuel,
{
    if fuel == 0 {
        false
    } else {
        match spec_node_by_id(t, id) {
            None => false,
            Some(n) => match n.parent {
                None => false,
                Some(p) => match spec_node_by_id(t, p) {
                    None => false,
                    Some(pn) => pn.instance == Some(inst) || spec_in_instance(
                        t,
                        p,
                        inst,
                        (fuel - 1) as nat,
                    ),
                },
            },
        }
    }
}

/// The name table of one instantiation: the metadata-bearing descendants of
/// its root, in node order.
pub open spec fn spec_name_table(t: Seq<NodeV>, i: nat, inst: u64) -> Seq<(Seq<char>, u64)>
    decreases i,
{
    if i == 0 || i > t.len() {
        Seq::empty()
    } else {
        let rest = spec_name_table(t, (i - 1) as nat, inst);
        if t[i - 1].has_metadata && spec_in_instance(t, t[i - 1].id, inst, t.len()) {
            rest.push((t[i - 1].name, t[i - 1].id))
        } else {
            rest
        }
    }
}

/// The node after the flatten step: children of the flattened node move up
/// to its parent; everything else is untouched.
pub open spec fn spec_repar(m: NodeV, nid: u64, pid: u64) -> NodeV {
    if m.parent == Some(nid) {
        NodeV { id: m.id, parent: Some(pid), name: m.name, has_metadata: m.has_metadata, instance: m.instance }
    } else {
        m
    }
}

/// The first `i` nodes after flattening `nid` onto `pid`: the flattened node
/// is dropped, its children are reparented, all other nodes are kept.
pub open spec fn spec_flatten(t: Seq<NodeV>, i: nat, nid: u64, pid: u64) -> Seq<NodeV>
    decreases i,
{
    if i == 0 || i > t.len() {
        Seq::empty()
    } else {
        let rest = spec_flatten(t, (i - 1) as nat, nid, pid);
        if t[i - 1].id == nid {
            rest
        } else {
            rest.push(spec_repar(t[i - 1], nid, pid))
        }
    }
}

#[derive(Debug)]
pub enum HierarchyError {
    NoSuchNode,
    NoParent,
}

proof fn lemma_node_by_id_step(t: Seq<NodeV>, id: u64, i: int)
    requires
        0 <= i < t.len(),
        t[i].id != id,
    ensures
        spec_node_by_id(t.subrange(i, t.len() as int), id) == spec_node_by_id(
            t.subrange(i + 1, t.len() as int),
            id,
        ),
{
    let tail = t.subrange(i, t.len() as int);
    assert(tail[0] == t[i]);
    assert(tail.subrange(1, tail.len() as int) =~= t.subrange(i + 1, t.len() as int));
}

impl SceneTree {
    pub fn new() -> (r: SceneTree)
        ensures
            r@ == Seq::<NodeV>::empty(),
            spec_tree_wf(r@),
    {
        let r = SceneTree { nodes: Vec::new() };
        proof {
            assert(r@ =~= Seq::<NodeV>::empty());
        }
        r
    }

    /// Add a node; an identifier already present is refused, which keeps
    /// identifiers unique.
    pub fn add_node(&mut self, n: SceneNode) -> (r: Result<(), HierarchyError>)
        ensures
            match r {
                Ok(()) => !spec_has_id(old(self)@, n@.id) && final(self)@ == old(self)@.push(n@),
                Err(_) => spec_has_id(old(self)@, n@.id) && final(self)@ == old(self)@,
            },
            spec_tree_wf(old(self)@) ==> spec_tree_wf(final(self)@),
    {
        let nid = n.id;
        let ln = self.nodes.len();
        let mut i: usize = 0;
        while i < ln
            invariant
                self@ == old(self)@,
                n@.id == nid,
                ln as nat == self@.len(),
                i <= ln,
                forall|j: int| 0 <= j < i ==> (#[trigger] self@[j]).id != nid,
            decreases ln - i,
        {
            if self.nodes[i].id == nid {
                proof {
                    assert(self@ == old(self)@);
                    assert(self@[i as int].id == nid);
                    assert(n@.id == nid);
                    assert(spec_has_id(old(self)@, n@.id));
                }
                return Err(HierarchyError::NoSuchNode);
            }
            i = i + 1;
        }
        let ghost oldv = self@;
        let ghost nv = n@;
        self.nodes.push(n);
        proof {
            assert(self@ =~= oldv.push(nv));
            if spec_tree_wf(oldv) {
                let newv = self@;
                assert forall|a: int, b: int| 0 <= a < b < newv.len() implies (#[trigger] newv[a])
                    .id != (#[trigger] newv[b]).id by {
                    if b == newv.len() - 1 {
                        assert(newv[a] == oldv[a]);
                    } else {
                        assert(newv[a] == oldv[a] && newv[b] == oldv[b]);
                    }
                }
            }
        }
        Ok(())
    }

    /// First node carrying `id`.
    pub fn find_by_id(&self, id: u64) -> (r: Option<&SceneNode>)
        ensures
            match r {
                Some(n) => spec_node_by_id(self@, id) == Some(n@),
                None => spec_node_by_id(self@, id) is None,
            },
    {
        let n = self.nodes.len();
        let mut i: usize = 0;
        proof {
            assert(self@.subrange(0, n as int) =~= self@);
        }
        while i < n
            invariant
                n as nat == self@.len(),
                i <= n,
                spec_node_by_id(self@, id) == spec_node_by_id(
                    self@.subrange(i as int, n as int),
                    id,
                ),
            decreases n - i,
        {
            if self.nodes[i].id == id {
                proof {
                    let tail = self@.subrange(i as int, n as int);
                    assert(tail[0] == self@[i as int]);
                }
                return Some(&self.nodes[i]);
            }
            proof {
                lemma_node_by_id_step(self@, id, i as int);
            }
            i = i + 1;
        }
        proof {
            assert(self@.subrange(n as int, n as int) =~= Seq::<NodeV>::empty());
        }
        None
    }

    /// Does some strict ancestor of `id`, within `fuel` steps, root the
    /// instantiation `inst`?
    pub fn in_instance(&self, id: u64, inst: u64, fuel: usize) -> (r: bool)
        ensures
            r == spec_in_instance(self@, id, inst, fuel as nat),
        decreases fuel,
    {
        if fuel == 0 {
            return false;
        }
        let n = match self.find_by_id(id) {
            Some(n) => n,
            None => {
                return false;
            },
        };
        let p = match n.parent {
            Some(p) => p,
            None => {
                return false;
            },
        };
        let pn = match self.find_by_id(p) {
            Some(pn) => pn,
            None => {
                return false;
            },
        };
        let rooted = match pn.instance {
            Some(x) => x == inst,
            None => false,
        };
        if rooted {
            return true;
        }
        self.in_instance(p, inst, fuel - 1)
    }

    /// The name table for one instantiation: display name and identifier of
    /// every metadata-bearing node that descends from its root, in node
    /// order. This is what the driver installs before a decode pass.
    pub fn build_name_table(&self, inst: u64) -> (r: Vec<(String, u64)>)
        ensures
            r@.map_values(|p: (String, u64)| (p.0@, p.1)) == spec_name_table(
                self@,
                self@.len(),
                inst,
            ),
    {
        let n = self.nodes.len();
        let mut out: Vec<(String, u64)> = Vec::new();
        let mut i: usize = 0;
        proof {
            assert(out@.map_values(|p: (String, u64)| (p.0@, p.1)) =~= spec_name_table(
                self@,
                0,
                inst,
            ));
        }
        while i < n
            invariant
                n as nat == self@.len(),
                i <= n,
                out@.map_values(|p: (String, u64)| (p.0@, p.1)) == spec_name_table(
                    self@,
                    i as nat,
                    inst,
                ),
            decreases n - i,
        {
            let node = &self.nodes[i];
            if node.has_metadata && self.in_instance(node.id, inst, n) {
                let ghost outv = out@.map_values(|p: (String, u64)| (p.0@, p.1));
                out.push((node.name.clone(), node.id));
                proof {
                    assert(out@.map_values(|p: (String, u64)| (p.0@, p.1)) =~= outv.push(
                        (self@[i as int].name, self@[i as int].id),
                    ));
                }
            }
            i = i + 1;
        }
        out
    }

    /// The flatten attachment mode's reparent-and-discard: move the node's
    /// children up to its parent and drop the node. A node that is missing
    /// or has no structural parent fails fast and changes nothing.
    pub fn flatten_into_parent(&mut self, node_id: u64) -> (r: Result<u64, HierarchyError>)
        ensures
            match r {
                Ok(pid) => spec_node_by_id(old(self)@, node_id) matches Some(n) && n.parent
                    == Some(pid) && final(self)@ == spec_flatten(
                    old(self)@,
                    old(self)@.len(),
                    node_id,
                    pid,
                ),
                Err(_) => final(self)@ == old(self)@ && (spec_node_by_id(old(self)@, node_id)
                    is None || (spec_node_by_id(old(self)@, node_id) matches Some(n) && n.parent
                    is None)),
            },
    {
        let pid = match self.find_by_id(node_id) {
            None => {
                return Err(HierarchyError::NoSuchNode);
            },
            Some(n) => match n.parent {
                None => {
                    return Err(HierarchyError::NoParent);
                },
                Some(p) => p,
            },
        };
        let n = self.nodes.len();
        let mut out: Vec<SceneNode> = Vec::new();
        let mut i: usize = 0;
        proof {
            assert(out@.map_values(|x: SceneNode| x@) =~= spec_flatten(self@, 0, node_id, pid));
        }
        while i < n
            invariant
                self@ == old(self)@,
                n as nat == self@.len(),
                i <= n,
                out@.map_values(|x: SceneNode| x@) == spec_flatten(self@, i as nat, node_id, pid),
            decreases n - i,
        {
            let node = &self.nodes[i];
            if node.id != node_id {
                let is_child_of_flattened = match node.parent {
                    Some(p) => p == node_id,
                    None => false,
                };
                let new_parent: Option<u64> = if is_child_of_flattened {
                    Some(pid)
                } else {
                    node.parent
                };
                let ghost outv = out@.map_values(|x: SceneNode| x@);
                out.push(
                    SceneNode {
                        id: node.id,
                        parent: new_parent,
                        name: node.name.clone(),
                        has_metadata: node.has_metadata,
                        instance: node.instance,
                    },
                );
                proof {
                    assert(out@.map_values(|x: SceneNode| x@) =~= outv.push(
                        spec_repar(self@[i as int], node_id, pid),
                    ));
                }
            }
            i = i + 1;
        }
        self.nodes = out;
        proof {
            assert(self@ =~= spec_flatten(old(self)@, old(self)@.len(), node_id, pid));
        }
        Ok(pid)
    }
}


/// The driver's attachment policy: a decoded component goes to the source
/// node itself, or, in flatten mode, to that node's structural parent.
#[derive(Clone, Copy, PartialEq, Eq, Structural, Debug)]
pub enum AttachMode {
    Direct,
    Flatten,
}

/// Which node a decoded component is attached to: the source node, or its
/// structural parent in flatten mode; a parentless node keeps its components
/// either way.
pub fn attachment_target(mode: AttachMode, node_id: u64, parent: Option<u64>) -> (r: u64)
    ensures
        mode is Direct ==> r == node_id,
        mode is Flatten ==> r == (if parent is Some {
            parent->0
        } else {
            node_id
        }),
{
    match mode {
        AttachMode::Direct => node_id,
        AttachMode::Flatten => match parent {
            Some(p) => p,
            None => node_id,
        },
    }
}

/// Every node of the flattened tree is the reparented image of a kept
/// original node, and every kept original node appears in the flattened
/// tree.
proof fn lemma_flatten_membership(t: Seq<NodeV>, i: nat, nid: u64, pid: u64)
    requires
        i <= t.len(),
    ensures
        forall|j: int|
            0 <= j < spec_flatten(t, i, nid, pid).len() ==> exists|k: int|
                0 <= k < i && t[k].id != nid && #[trigger] spec_flatten(t, i, nid, pid)[j]
                    == spec_repar(t[k], nid, pid),
        forall|k: int|
            0 <= k < i && (#[trigger] t[k]).id != nid ==> exists|j: int|
                0 <= j < spec_flatten(t, i, nid, pid).len() && spec_flatten(t, i, nid, pid)[j]
                    == spec_repar(t[k], nid, pid),
    decreases i,
{
    if i > 0 {
        lemma_flatten_membership(t, (i - 1) as nat, nid, pid);
        let prev = spec_flatten(t, (i - 1) as nat, nid, pid);
        let cur = spec_flatten(t, i, nid, pid);
        if t[i - 1].id == nid {
            assert(cur == prev);
        } else {
            assert(cur == prev.push(spec_repar(t[i - 1], nid, pid)));
            assert forall|j: int| 0 <= j < cur.len() implies exists|k: int|
                0 <= k < i && t[k].id != nid && #[trigger] cur[j] == spec_repar(
                    t[k],
                    nid,
                    pid,
                ) by {
                if j < prev.len() {
                    assert(cur[j] == prev[j]);
                    let k = choose|k: int|
                        0 <= k < i - 1 && t[k].id != nid && prev[j] == spec_repar(t[k], nid, pid);
                    assert(0 <= k < i && t[k].id != nid && cur[j] == spec_repar(t[k], nid, pid));
                } else {
                    assert(cur[j] == spec_repar(t[i - 1], nid, pid));
                    assert(0 <= i - 1 < i && t[i - 1].id != nid);
                }
            }
            assert forall|k: int| 0 <= k < i && (#[trigger] t[k]).id != nid implies exists|j: int|
                0 <= j < cur.len() && cur[j] == spec_repar(t[k], nid, pid) by {
                if k < i - 1 {
                    let j = choose|j: int|
                        0 <= j < prev.len() && prev[j] == spec_repar(t[k], nid, pid);
                    assert(cur[j] == prev[j]);
                } else {
                    assert(cur[cur.len() - 1] == spec_repar(t[k], nid, pid));
                }
            }
        }
    }
}

/// Identifier uniqueness survives flattening, and every identifier of the
/// flattened tree comes from a kept original node.
proof fn lemma_flatten_wf(t: Seq<NodeV>, i: nat, nid: u64, pid: u64)
    requires
        i <= t.len(),
        spec_tree_wf(t),
    ensures
        spec_tree_wf(spec_flatten(t, i, nid, pid)),
        forall|j: int|
            0 <= j < spec_flatten(t, i, nid, pid).len() ==> exists|k: int|
                0 <= k < i && t[k].id != nid && (#[trigger] spec_flatten(t, i, nid, pid)[j]).id
                    == t[k].id,
        spec_flatten(t, i, nid, pid).len() <= i,
    decreases i,
{
    if i > 0 {
        lemma_flatten_wf(t, (i - 1) as nat, nid, pid);
        let prev = spec_flatten(t, (i - 1) as nat, nid, pid);
        let cur = spec_flatten(t, i, nid, pid);
        if t[i - 1].id == nid {
        } else {
            assert(cur == prev.push(spec_repar(t[i - 1], nid, pid)));
            assert forall|j: int| 0 <= j < cur.len() implies exists|k: int|
                0 <= k < i && t[k].id != nid && (#[trigger] cur[j]).id == t[k].id by {
                if j < prev.len() {
                    assert(cur[j] == prev[j]);
                    let k = choose|k: int|
                        0 <= k < i - 1 && t[k].id != nid && prev[j].id == t[k].id;
                    assert(0 <= k < i && t[k].id != nid && cur[j].id == t[k].id);
                } else {
                    assert(cur[j] == spec_repar(t[i - 1], nid, pid));
                    assert(cur[j].id == t[i - 1].id);
                }
            }
            assert forall|a: int, b: int| 0 <= a < b < cur.len() implies (#[trigger] cur[a]).id
                != (#[trigger] cur[b]).id by {
                if b < prev.len() {
                    assert(cur[a] == prev[a] && cur[b] == prev[b]);
                } else {
                    assert(cur[a] == prev[a]);
                    assert(cur[b].id == t[i - 1].id);
                    let k = choose|k: int|
                        0 <= k < i - 1 && t[k].id != nid && prev[a].id == t[k].id;
                    assert(t[k].id != t[i - 1].id);
                }
            }
        }
    }
}

proof fn lemma_flatten_child_forward(t: Seq<NodeV>, nid: u64, pid: u64, c: u64)
    requires
        spec_tree_wf(t),
        pid != nid,
        spec_is_child(spec_flatten(t, t.len(), nid, pid), c, pid),
    ensures
        (spec_is_child(t, c, pid) && c != nid) || spec_is_child(t, c, nid),
{
    let ft = spec_flatten(t, t.len(), nid, pid);
    lemma_flatten_membership(t, t.len(), nid, pid);
    let j = choose|j: int|
        0 <= j < ft.len() && (#[trigger] ft[j]).id == c && ft[j].parent == Some(pid);
    let k = choose|k: int|
        0 <= k < t.len() && t[k].id != nid && #[trigger] ft[j] == spec_repar(t[k], nid, pid);
    if t[k].parent == Some(nid) {
        assert(t[k].id == c && t[k].parent == Some(nid));
        assert(spec_is_child(t, c, nid));
    } else {
        assert(t[k].id == c && t[k].parent == Some(pid));
        assert(spec_is_child(t, c, pid) && c != nid);
    }
}

proof fn lemma_flatten_child_backward(t: Seq<NodeV>, nid: u64, pid: u64, c: u64)
    requires
        spec_tree_wf(t),
        spec_node_by_id(t, nid) matches Some(n) && n.parent == Some(pid),
        pid != nid,
        (spec_is_child(t, c, pid) && c != nid) || spec_is_child(t, c, nid),
    ensures
        spec_is_child(spec_flatten(t, t.len(), nid, pid), c, pid),
{
    let ft = spec_flatten(t, t.len(), nid, pid);
    lemma_flatten_membership(t, t.len(), nid, pid);
    lemma_node_by_id_found(t, nid);
    if spec_is_child(t, c, pid) && c != nid {
        let k = choose|k: int|
            0 <= k < t.len() && (#[trigger] t[k]).id == c && t[k].parent == Some(pid);
        let j = choose|j: int|
            0 <= j < ft.len() && #[trigger] ft[j] == spec_repar(t[k], nid, pid);
        assert(ft[j].id == c && ft[j].parent == Some(pid));
        assert(spec_is_child(ft, c, pid));
    } else {
        let k = choose|k: int|
            0 <= k < t.len() && (#[trigger] t[k]).id == c && t[k].parent == Some(nid);
        if t[k].id == nid {
            let m = choose|m: int|
                0 <= m < t.len() && (#[trigger] t[m]).id == nid && t[m] == spec_node_by_id(
                    t,
                    nid,
                )->0;
            if k != m {
                assert(t[k].id == t[m].id);
                assert(false);
            }
            assert(t[k].parent == Some(pid));
            assert(false);
        }
        let j = choose|j: int|
            0 <= j < ft.len() && #[trigger] ft[j] == spec_repar(t[k], nid, pid);
        assert(ft[j].id == c && ft[j].parent == Some(pid));
        assert(spec_is_child(ft, c, pid));
    }
}

#[verifier::rlimit(100)]
proof fn lemma_flatten_ids(t: Seq<NodeV>, nid: u64, pid: u64, id: u64)
    requires
        spec_tree_wf(t),
        pid != nid,
    ensures
        id != nid ==> (spec_has_id(spec_flatten(t, t.len(), nid, pid), id) <==> spec_has_id(
            t,
            id,
        )),
        !spec_has_id(spec_flatten(t, t.len(), nid, pid), nid),
{
    let ft = spec_flatten(t, t.len(), nid, pid);
    lemma_flatten_membership(t, t.len(), nid, pid);
    if spec_has_id(ft, id) {
        let j = choose|j: int| 0 <= j < ft.len() && (#[trigger] ft[j]).id == id;
        let k = choose|k: int|
            0 <= k < t.len() && t[k].id != nid && #[trigger] ft[j] == spec_repar(t[k], nid, pid);
        assert(t[k].id == id);
        assert(spec_has_id(t, id));
        assert(id != nid);
    }
    if id != nid && spec_has_id(t, id) {
        let k = choose|k: int| 0 <= k < t.len() && (#[trigger] t[k]).id == id;
        let j = choose|j: int|
            0 <= j < ft.len() && #[trigger] ft[j] == spec_repar(t[k], nid, pid);
        assert(ft[j].id == id);
        assert(spec_has_id(ft, id));
    }
    if spec_has_id(ft, nid) {
        let j = choose|j: int| 0 <= j < ft.len() && (#[trigger] ft[j]).id == nid;
        let k = choose|k: int|
            0 <= k < t.len() && t[k].id != nid && #[trigger] ft[j] == spec_repar(t[k], nid, pid);
        assert(t[k].id == nid);
        assert(false);
    }
}

/// Flattening one node onto its parent gives the parent exactly its prior
/// children, less the flattened node, plus all of the flattened node's
/// children: nothing is lost, nothing is duplicated, and the flattened node
/// itself is gone while every other node survives.
pub proof fn lemma_flatten_preserves_children(t: Seq<NodeV>, nid: u64, pid: u64)
    requires
        spec_tree_wf(t),
        spec_node_by_id(t, nid) matches Some(n) && n.parent == Some(pid),
        pid != nid,
    ensures
        !spec_has_id(spec_flatten(t, t.len(), nid, pid), nid),
        forall|c: u64|
            #[trigger] spec_is_child(spec_flatten(t, t.len(), nid, pid), c, pid) <==> ((
            spec_is_child(t, c, pid) && c != nid) || spec_is_child(t, c, nid)),
        forall|id: u64|
            id != nid ==> (#[trigger] spec_has_id(spec_flatten(t, t.len(), nid, pid), id)
                <==> spec_has_id(t, id)),
        spec_tree_wf(spec_flatten(t, t.len(), nid, pid)),
{
    let ft = spec_flatten(t, t.len(), nid, pid);
    lemma_flatten_wf(t, t.len(), nid, pid);
    lemma_flatten_ids(t, nid, pid, nid);
    assert forall|c: u64| #[trigger] spec_is_child(ft, c, pid) implies ((spec_is_child(t, c, pid)
        && c != nid) || spec_is_child(t, c, nid)) by {
        lemma_flatten_child_forward(t, nid, pid, c);
    }
    assert forall|c: u64| ((spec_is_child(t, c, pid) && c != nid) || spec_is_child(
        t,
        c,
        nid,
    )) implies #[trigger] spec_is_child(ft, c, pid) by {
        lemma_flatten_child_backward(t, nid, pid, c);
    }
    assert forall|id: u64| id != nid implies (#[trigger] spec_has_id(ft, id) <==> spec_has_id(
        t,
        id,
    )) by {
        lemma_flatten_ids(t, nid, pid, id);
    }
}

/// A found identifier sits at some position, and under uniqueness the found
/// node is that position's node.
proof fn lemma_node_by_id_found(t: Seq<NodeV>, id: u64)
    requires
        spec_node_by_id(t, id) is Some,
    ensures
        exists|i: int|
            0 <= i < t.len() && (#[trigger] t[i]).id == id && t[i] == spec_node_by_id(t, id)->0,
    decreases t.len(),
{
    if t.len() > 0 {
        if t[0].id == id {
        } else {
            let tail = t.subrange(1, t.len() as int);
            lemma_node_by_id_found(tail, id);
            let i = choose|i: int|
                0 <= i < tail.len() && (#[trigger] tail[i]).id == id && tail[i]
                    == spec_node_by_id(tail, id)->0;
            assert(t[i + 1] == tail[i]);
        }
    }
}

} // verus!
