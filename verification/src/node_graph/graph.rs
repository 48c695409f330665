use vstd::prelude::*;
use vstd::std_specs::iter::IteratorSpec;
use std::collections::HashMap;
use super::contents::{AttributeID, NodeID, DataKind, AttributeContents, Attribute, NodeContents, ContentsView, Axis, views};

verus! {

/// The number of zoom levels of the node editor.
pub const ZOOM_LEVEL_COUNT: usize = 6;

broadcast use vstd::std_specs::hash::group_hash_axioms;

/// How serious a reported problem is.
#[derive(Debug, Clone, Copy, PartialEq, Eq, Structural)]
pub enum Severity {
    Warning,
    Error,
}

/// A problem found while processing a node, shown next to that node.
#[derive(Debug)]
pub struct GraphError {
    pub node_id: NodeID,
    pub severity: Severity,
    pub message: String,
}

/// A node of the graph. The position on the canvas is kept as the IEEE-754
/// bit patterns of its two coordinates.
#[derive(Debug)]
pub struct Node {
    pub title: String,
    pub position: [u32; 2],
    pub error: Option<GraphError>,
    pub contents: NodeContents,
}

impl Node {
    /// The kind of the node and the ids of its attributes.
    pub fn contents(&self) -> (r: &NodeContents)
        ensures
            *r == self.contents,
    {
        &self.contents
    }

    /// The ids of the attributes that the node owns, in the order in which it lists them.
    pub fn get_owned_attributes(&self) -> (v: Vec<AttributeID>)
        requires
            !(self.contents is Group),
        ensures
            v@ == self.contents.attr_list(),
    {
        self.contents.get_attribute_list()
    }
}

/// A seq of `n` distinct integers that all lie in `[0, n)` holds every integer of `[0, n)`.
pub proof fn lemma_distinct_in_range_covers(l: Seq<AttributeID>, n: int, k: int)
    requires
        l.len() == n,
        l.no_duplicates(),
        forall|j: int| 0 <= j < n ==> 0 <= #[trigger] l[j] < n,
        0 <= k < n,
    ensures
        l.contains(k as AttributeID),
{
    let m = l.map_values(|x: AttributeID| x as int);
    assert(m.no_duplicates()) by {
        assert forall|i: int, j: int| 0 <= i < m.len() && 0 <= j < m.len() && i != j implies m[i]
            != m[j] by {
            assert(l[i] != l[j]);
        }
    }
    m.unique_seq_to_set();
    vstd::set_lib::lemma_int_range(0, n);
    let r = vstd::set_lib::set_int_range(0, n);
    assert(m.to_set().subset_of(r)) by {
        assert forall|x: int| m.to_set().contains(x) implies r.contains(x) by {
            let j = choose|j: int| 0 <= j < m.len() && m[j] == x;
            assert(0 <= l[j] < n);
        }
    }
    vstd::set_lib::lemma_subset_equality(m.to_set(), r);
    assert(r.contains(k));
    assert(m.to_set().contains(k));
    let j = choose|j: int| 0 <= j < m.len() && m[j] == k;
    assert(l[j] == k as AttributeID);
}


/// The links of `links` whose two ends both lie outside `ids`.
/// The copy of attribute `x` among the pairs `m` of original and copy, or `x` itself
/// when it was not copied. Where `x` was copied more than once, its last copy counts.
pub open spec fn remap_attribute(m: Seq<(AttributeID, AttributeID)>, x: AttributeID) -> AttributeID
    decreases m.len(),
{
    if m.len() == 0 {
        x
    } else if m.last().0 == x {
        m.last().1
    } else {
        remap_attribute(m.drop_last(), x)
    }
}

/// Pair `t` of `m` is not the last one for its original: a later pair copies it again.
pub open spec fn superseded(m: Seq<(AttributeID, AttributeID)>, t: int) -> bool {
    exists|t2: int| t < t2 < m.len() && m[t2].0 == m[t].0
}

/// The copy of attribute `x` among `m` is `x` itself, or the copy of the last pair
/// whose original is `x`.
pub proof fn lemma_remap_attribute(m: Seq<(AttributeID, AttributeID)>, x: AttributeID)
    ensures
        remap_attribute(m, x) == x || exists|t: int| 0 <= t < m.len() && m[t].0 == x && m[t].1 == remap_attribute(m, x),
    decreases m.len(),
{
    if m.len() > 0 && m.last().0 != x {
        lemma_remap_attribute(m.drop_last(), x);
        if remap_attribute(m, x) != x {
            let t = choose|t: int|
                0 <= t < m.drop_last().len() && m.drop_last()[t].0 == x && m.drop_last()[t].1 == remap_attribute(
                    m.drop_last(),
                    x,
                );
            assert(m[t] == m.drop_last()[t]);
        }
    }
}

/// The copy of attribute `x` among the pairs `map` of original and copy, or `x`
/// itself when it was not copied.
pub fn lookup_attribute(map: &Vec<(AttributeID, AttributeID)>, x: AttributeID) -> (r: AttributeID)
    ensures
        r == remap_attribute(map@, x),
{
    let mut i: usize = map.len();
    assert(map@.take(i as int) =~= map@);
    while i > 0
        invariant
            i <= map@.len(),
            remap_attribute(map@, x) == remap_attribute(map@.take(i as int), x),
        decreases i,
    {
        assert(map@.take(i as int).drop_last() =~= map@.take(i - 1));
        assert(map@.take(i as int).last() == map@[i - 1]);
        if map[i - 1].0 == x {
            return map[i - 1].1;
        }
        i = i - 1;
    }
    x
}

/// Whether pair `t` of `map` is not the last one for its original.
fn is_superseded(map: &Vec<(AttributeID, AttributeID)>, t: usize) -> (r: bool)
    requires
        t < map@.len(),
    ensures
        r == superseded(map@, t as int),
{
    let mut i: usize = map.len();
    while i - 1 > t
        invariant
            t < i <= map@.len(),
            forall|t2: int| i <= t2 < map@.len() ==> (#[trigger] map@[t2]).0 != map@[t as int].0,
        decreases i,
    {
        if map[i - 1].0 == map[t].0 {
            return true;
        }
        i = i - 1;
    }
    false
}

pub open spec fn links_avoiding(
    links: Map<AttributeID, AttributeID>,
    ids: Seq<AttributeID>,
) -> Map<AttributeID, AttributeID> {
    Map::new(
        |k: AttributeID| links.contains_key(k) && !ids.contains(k) && !ids.contains(links[k]),
        |k: AttributeID| links[k],
    )
}

/// The keys of a map, each once.
fn map_keys(m: &HashMap<AttributeID, AttributeID>) -> (v: Vec<AttributeID>)
    ensures
        forall|k: AttributeID| m@.contains_key(k) <==> v@.contains(k),
        v@.no_duplicates(),
{
    let mut v: Vec<AttributeID> = Vec::new();
    for k in it: m.keys()
        invariant
            it.seq() == vstd::std_specs::hash::spec_keys_iter(m).remaining(),
            v@ == it.seq().take(it.index() as int).map_values(|r: &AttributeID| *r),
    {
        v.push(*k);
    }
    let ghost ks = vstd::std_specs::hash::spec_keys_iter(m).remaining();
    proof {
        assert(v@ =~= ks.map_values(|r: &AttributeID| *r));
        assert(ks.unref().to_set() == m@.dom());
        assert forall|k: AttributeID| m@.contains_key(k) implies v@.contains(k) by {
            assert(ks.unref().to_set().contains(k));
            let i = choose|i: int| 0 <= i < ks.unref().len() && ks.unref()[i] == k;
            assert(v@[i] == k);
        }
        assert forall|k: AttributeID| v@.contains(k) implies m@.contains_key(k) by {
            let i = choose|i: int| 0 <= i < v@.len() && v@[i] == k;
            assert(ks.unref()[i] == k);
            assert(ks.unref().to_set().contains(k));
        }
        assert(ks.no_duplicates());
        assert forall|i: int, j: int|
            0 <= i < v@.len() && 0 <= j < v@.len() && i != j implies v@[i] != v@[j] by {
            assert(*ks[i] == v@[i]);
            assert(*ks[j] == v@[j]);
        }
    }
    v
}

/// Removes from `links` every link with an end in `ids`.
fn remove_links_touching(links: &mut HashMap<AttributeID, AttributeID>, ids: &Vec<AttributeID>)
    ensures
        final(links)@ == links_avoiding(old(links)@, ids@),
{
    let ghost orig = links@;
    let keys = map_keys(links);
    let mut i: usize = 0;
    while i < keys.len()
        invariant
            0 <= i <= keys@.len(),
            keys@.no_duplicates(),
            forall|k: AttributeID| orig.contains_key(k) <==> keys@.contains(k),
            forall|k: AttributeID|
                #[trigger] links@.contains_key(k) ==> orig.contains_key(k) && links@[k] == orig[k],
            forall|k: AttributeID|
                orig.contains_key(k) && !keys@.subrange(0, i as int).contains(k)
                    ==> #[trigger] links@.contains_key(k),
            forall|k: AttributeID|
                keys@.subrange(0, i as int).contains(k) ==> (#[trigger] links@.contains_key(k)
                    <==> (!ids@.contains(k) && !ids@.contains(orig[k]))),
        decreases keys@.len() - i,
    {
        let k = keys[i];
        assert(orig.contains_key(k));
        assert(!keys@.subrange(0, i as int).contains(k));
        assert(links@.contains_key(k));
        let v = *links.get(&k).unwrap();
        if vec_contains(ids, k) || vec_contains(ids, v) {
            links.remove(&k);
        }
        let ghost sub1 = keys@.subrange(0, i + 1);
        let ghost sub0 = keys@.subrange(0, i as int);
        assert forall|k2: AttributeID|
            keys@.subrange(0, i + 1).contains(k2) implies (#[trigger] links@.contains_key(k2)
                <==> (!ids@.contains(k2) && !ids@.contains(orig[k2]))) by {
            if k2 != k {
                let j = choose|j: int| 0 <= j < sub1.len() && sub1[j] == k2;
                assert(j != i as int);
                assert(sub0[j] == k2);
            }
        }
        assert forall|k2: AttributeID|
            orig.contains_key(k2) && !keys@.subrange(0, i + 1).contains(k2)
                implies #[trigger] links@.contains_key(k2) by {
            assert(sub1[i as int] == k);
            assert(k2 != k);
            if keys@.subrange(0, i as int).contains(k2) {
                let j = choose|j: int| 0 <= j < sub0.len() && sub0[j] == k2;
                assert(sub1[j] == k2);
            }
        }
        i = i + 1;
    }
    assert(keys@.subrange(0, i as int) == keys@);
    assert(links@ =~= links_avoiding(orig, ids@));
}

/// Whether `v` holds `x`.
pub fn vec_contains(v: &Vec<AttributeID>, x: AttributeID) -> (r: bool)
    ensures
        r == v@.contains(x),
{
    let mut i: usize = 0;
    while i < v.len()
        invariant
            0 <= i <= v@.len(),
            forall|j: int| 0 <= j < i ==> v@[j] != x,
        decreases v@.len() - i,
    {
        if v[i] == x {
            return true;
        }
        i = i + 1;
    }
    false
}

impl Default for NodeGraph {
    /// An empty graph.
    fn default() -> (r: Self)
        ensures
            r.wf(),
            r.node_slots() == 0,
            r.attr_slots() == 0,
            r.link_map().is_empty(),
            r.free_nodes().len() == 0,
            r.free_attributes().len() == 0,
            r.editing() is None,
            r.zoom() == 0,
    {
        NodeGraph {
            nodes: Vec::new(),
            attributes: Vec::new(),
            links: HashMap::new(),
            free_nodes_list: Vec::new(),
            free_attributes_list: Vec::new(),
            zoom_level: 0,
            editing_node: None,
        }
    }
}

/// How two attributes can be joined by a link.
#[derive(Debug, Clone, Copy, PartialEq, Eq, Structural)]
pub enum PairInfo {
    FirstInputSecondOutput,
    FirstOutputSecondInput,
    NonCompatible,
}

/// How the attributes with contents `first` and `second` can be joined.
pub open spec fn pair_info(first: ContentsView, second: ContentsView) -> PairInfo {
    match (first, second) {
        (ContentsView::InputPin { kind: k1, .. }, ContentsView::OutputPin { kind: k2, .. }) =>
            if k1 == k2 {
                PairInfo::FirstInputSecondOutput
            } else {
                PairInfo::NonCompatible
            },
        (ContentsView::OutputPin { kind: k1, .. }, ContentsView::InputPin { kind: k2, .. }) =>
            if k1 == k2 {
                PairInfo::FirstOutputSecondInput
            } else {
                PairInfo::NonCompatible
            },
        _ => PairInfo::NonCompatible,
    }
}

/// The graph edited by the user: nodes, the attributes they own, and the links
/// from input pins to output pins. Freed slots are reused, last freed first.
#[derive(Debug)]
pub struct NodeGraph {
    nodes: Vec<Option<Node>>,
    attributes: Vec<Option<Attribute>>,
    links: HashMap<AttributeID, AttributeID>,
    free_nodes_list: Vec<NodeID>,
    free_attributes_list: Vec<AttributeID>,
    pub zoom_level: usize,
    editing_node: Option<NodeID>,
}

impl NodeGraph {
    /// The node stored at `id`, if `id` names a live node.
    pub closed spec fn node_at(&self, id: int) -> Option<Node> {
        if 0 <= id < self.nodes@.len() {
            self.nodes@[id]
        } else {
            None
        }
    }

    /// The attribute stored at `id`, if `id` names a live attribute.
    pub closed spec fn attr_at(&self, id: int) -> Option<Attribute> {
        if 0 <= id < self.attributes@.len() {
            self.attributes@[id]
        } else {
            None
        }
    }

    /// The number of node slots, live or free.
    pub closed spec fn node_slots(&self) -> nat {
        self.nodes@.len()
    }

    /// The number of attribute slots, live or free.
    pub closed spec fn attr_slots(&self) -> nat {
        self.attributes@.len()
    }

    /// The links, from input attribute to output attribute.
    pub closed spec fn link_map(&self) -> Map<AttributeID, AttributeID> {
        self.links@
    }

    /// The free node slots, in the order in which they were freed.
    pub closed spec fn free_nodes(&self) -> Seq<NodeID> {
        self.free_nodes_list@
    }

    /// The free attribute slots, in the order in which they were freed.
    pub closed spec fn free_attributes(&self) -> Seq<AttributeID> {
        self.free_attributes_list@
    }

    /// The two graphs differ at most in their zoom level.
    pub closed spec fn same_except_zoom(&self, other: Self) -> bool {
        &&& self.nodes@ == other.nodes@
        &&& self.attributes@ == other.attributes@
        &&& self.links@ == other.links@
        &&& self.free_nodes_list@ == other.free_nodes_list@
        &&& self.free_attributes_list@ == other.free_attributes_list@
        &&& self.editing_node == other.editing_node
    }

    /// The two graphs have the same nodes, attributes, links, free lists and zoom level.
    pub closed spec fn same_tables(&self, other: Self) -> bool {
        &&& self.nodes@ == other.nodes@
        &&& self.attributes@ == other.attributes@
        &&& self.links@ == other.links@
        &&& self.free_nodes_list@ == other.free_nodes_list@
        &&& self.free_attributes_list@ == other.free_attributes_list@
        &&& self.zoom_level == other.zoom_level
    }

    /// The zoom level of the editor.
    pub closed spec fn zoom(&self) -> usize {
        self.zoom_level
    }

    /// The node being edited, if any.
    pub closed spec fn editing(&self) -> Option<NodeID> {
        self.editing_node
    }

    /// The kind of the input pin at `id`, if `id` is a live input pin.
    pub closed spec fn input_kind(&self, id: int) -> Option<DataKind> {
        match self.attr_at(id) {
            Some(a) => match a.contents {
                AttributeContents::InputPin { kind, .. } => Some(kind),
                _ => None,
            },
            None => None,
        }
    }

    /// The kind of the output pin at `id`, if `id` is a live output pin.
    pub closed spec fn output_kind(&self, id: int) -> Option<DataKind> {
        match self.attr_at(id) {
            Some(a) => match a.contents {
                AttributeContents::OutputPin { kind, .. } => Some(kind),
                _ => None,
            },
            None => None,
        }
    }

    /// Node `i` is live and consistent with the attribute table.
    pub closed spec fn node_ok(&self, i: int) -> bool {
        let c = self.nodes@[i]->0.contents;
        &&& !(c is Group)
        &&& c.attr_list().no_duplicates()
        &&& forall|j: int|
            0 <= j < c.attr_list().len() ==> {
                let a = #[trigger] c.attr_list()[j];
                &&& 0 <= a < self.attributes@.len()
                &&& self.attributes@[a as int] is Some
                &&& self.attributes@[a as int]->0.node_id == i
            }
    }

    /// Attribute `a` is live and owned by a live node that lists it.
    pub closed spec fn attr_ok(&self, a: int) -> bool {
        let n = self.attributes@[a]->0.node_id;
        &&& 0 <= n < self.nodes@.len()
        &&& self.nodes@[n as int] is Some
        &&& self.nodes@[n as int]->0.contents.attr_list().contains(a as AttributeID)
    }

    /// The graph is consistent: ids fit, every live node owns live attributes that
    /// point back to it, free lists name distinct free slots, and every link goes
    /// from a live input pin to a live output pin of the same kind.
    pub closed spec fn wf(&self) -> bool {
        &&& self.nodes@.len() <= i32::MAX
        &&& self.attributes@.len() <= i32::MAX
        &&& forall|i: int| 0 <= i < self.nodes@.len() && #[trigger] self.nodes@[i] is Some ==> self.node_ok(i)
        &&& forall|a: int| 0 <= a < self.attributes@.len() && #[trigger] self.attributes@[a] is Some ==> self.attr_ok(a)
        &&& self.free_nodes_list@.no_duplicates()
        &&& forall|k: int|
            0 <= k < self.free_nodes_list@.len() ==> {
                let i = #[trigger] self.free_nodes_list@[k];
                0 <= i < self.nodes@.len() && self.nodes@[i as int] is None
            }
        &&& self.free_attributes_list@.no_duplicates()
        &&& forall|k: int|
            0 <= k < self.free_attributes_list@.len() ==> {
                let a = #[trigger] self.free_attributes_list@[k];
                0 <= a < self.attributes@.len() && self.attributes@[a as int] is None
            }
        &&& forall|k: AttributeID|
            #[trigger] self.links@.contains_key(k) ==> {
                &&& self.input_kind(k as int) is Some
                &&& self.output_kind(self.links@[k] as int) == self.input_kind(k as int)
            }
    }

    /// Zooms the editor out by one level, unless it is at the last of the
    /// `ZOOM_LEVEL_COUNT` levels; says whether the level changed.
    pub fn zoom_down_graph(&mut self) -> (changed: bool)
        ensures
            changed == (old(self).zoom() < ZOOM_LEVEL_COUNT - 1),
            final(self).zoom() == if changed { old(self).zoom() + 1 } else { old(self).zoom() as int },
            final(self).same_except_zoom(*old(self)),
            final(self).wf() == old(self).wf(),
    {
        if self.zoom_level < ZOOM_LEVEL_COUNT - 1 {
            self.zoom_level = self.zoom_level + 1;
            true
        } else {
            false
        }
    }

    /// Zooms the editor in by one level, unless it is at the first level; says whether
    /// the level changed.
    pub fn zoom_up_graph(&mut self) -> (changed: bool)
        ensures
            changed == (old(self).zoom() > 0),
            final(self).zoom() == if changed { old(self).zoom() - 1 } else { old(self).zoom() as int },
            final(self).same_except_zoom(*old(self)),
            final(self).wf() == old(self).wf(),
    {
        if self.zoom_level > 0 {
            self.zoom_level = self.zoom_level - 1;
            true
        } else {
            false
        }
    }

    /// Whether a node is being edited.
    pub fn currently_editing(&self) -> (r: bool)
        ensures
            r == (self.editing() is Some),
    {
        self.editing_node.is_some()
    }

    /// Forgets the node being edited.
    pub fn stop_editing(&mut self)
        ensures
            final(self).editing() is None,
            final(self).same_tables(*old(self)),
    {
        self.editing_node = None;
    }

    /// The node at `id`, if `id` names a live node.
    pub fn get_node(&self, id: NodeID) -> (r: Option<&Node>)
        ensures
            match r {
                Some(n) => self.node_at(id as int) == Some(*n),
                None => self.node_at(id as int) is None,
            },
    {
        if id < 0 {
            return None;
        }
        let idx = id as usize;
        if idx < self.nodes.len() {
            self.nodes[idx].as_ref()
        } else {
            None
        }
    }


    /// In `after`, `copy` is a node that was not live in `self`, with the title, the
    /// kind and the attribute contents of node `original` of `self`, no error, and
    /// placed at `position`.
    pub open spec fn copied_node(&self, after: Self, original: NodeID, copy: NodeID, position: [u32; 2]) -> bool {
        let o = self.node_at(original as int)->0;
        let c = after.node_at(copy as int)->0;
        &&& self.node_at(original as int) is Some
        &&& self.node_at(copy as int) is None
        &&& after.node_at(copy as int) is Some
        &&& c.title@ == o.title@
        &&& c.position == position
        &&& c.error is None
        &&& c.contents == o.contents.canonical().with_ids(c.contents.attr_list())
        &&& c.contents.attr_list().len() == o.contents.attr_list().len()
        &&& forall|j: int|
            0 <= j < c.contents.attr_list().len() ==> {
                let a = #[trigger] c.contents.attr_list()[j];
                &&& self.attr_at(a as int) is None
                &&& after.attr_at(a as int) is Some
                &&& after.attr_at(a as int)->0.node_id == copy
                &&& after.attr_at(a as int)->0.contents@ == self.attr_at(o.contents.attr_list()[j] as int)->0.contents@
            }
    }

    /// The id that the `j`-th attribute stored after `self` takes: the freed attribute
    /// slots first, last freed first, then new slots at the end of the table, in order.
    pub open spec fn fresh_attr_id(&self, j: int) -> int {
        let f = self.free_attributes();
        if j < f.len() {
            f[f.len() - 1 - j] as int
        } else {
            self.attr_slots() + (j - f.len())
        }
    }

    /// `self` is `old` with one node inserted at `id`: the node has the given title and
    /// position, no error, the kind of `contents`, and owns fresh attributes whose
    /// contents are `attrs`, attribute `j` of the node holding `attrs[contents.attr_list()[j]]`
    /// under the id `old.fresh_attr_id(contents.attr_list()[j])`.
    /// The id is the last freed node slot, or a new slot when none is free. Nothing
    /// else that was live changes, and the links stay as they were.
    pub closed spec fn inserted(
        &self,
        old: Self,
        id: NodeID,
        title: Seq<char>,
        position: [u32; 2],
        contents: NodeContents,
        attrs: Seq<ContentsView>,
    ) -> bool {
        let n = self.nodes@[id as int]->0;
        let l = contents.attr_list();
        &&& 0 <= id < self.nodes@.len()
        &&& old.free_nodes_list@.len() > 0 ==> {
            &&& id == old.free_nodes_list@.last()
            &&& self.nodes@.len() == old.nodes@.len()
            &&& self.free_nodes_list@ == old.free_nodes_list@.drop_last()
        }
        &&& old.free_nodes_list@.len() == 0 ==> {
            &&& id == old.nodes@.len()
            &&& self.nodes@.len() == old.nodes@.len() + 1
            &&& self.free_nodes_list@ == old.free_nodes_list@
        }
        &&& self.nodes@[id as int] is Some
        &&& n.title@ == title
        &&& n.position == position
        &&& n.error is None
        &&& n.contents == contents.with_ids(n.contents.attr_list())
        &&& n.contents.attr_list().len() == l.len()
        &&& forall|j: int|
            0 <= j < l.len() ==> {
                let a = #[trigger] n.contents.attr_list()[j];
                &&& old.attr_at(a as int) is None
                &&& self.attr_at(a as int) is Some
                &&& self.attr_at(a as int)->0.node_id == id
                &&& self.attr_at(a as int)->0.contents@ == attrs[l[j] as int]
                &&& a as int == old.fresh_attr_id(l[j] as int)
            }
        &&& forall|i: int| i != id ==> #[trigger] self.node_at(i) == old.node_at(i)
        &&& forall|a: int| #[trigger] old.attr_at(a) is Some ==> self.attr_at(a) == old.attr_at(a)
        &&& forall|a: int|
            #[trigger] self.attr_at(a) is Some && old.attr_at(a) is None
                ==> n.contents.attr_list().contains(a as AttributeID)
        &&& self.attributes@.len() >= old.attributes@.len()
        &&& self.attributes@.len() <= old.attributes@.len() + l.len()
        &&& self.links@ == old.links@
        &&& self.zoom_level == old.zoom_level
        &&& self.editing_node == old.editing_node
    }

    /// Inserts a node with the given title, position and contents; the attribute ids in
    /// `node_contents` are positions in `attributes_contents`, and are replaced by the
    /// ids of the freshly stored attributes. Returns the id of the new node.
    pub fn insert_node(
        &mut self,
        title: String,
        position: [u32; 2],
        node_contents: NodeContents,
        attributes_contents: Vec<AttributeContents>,
    ) -> (node_id: NodeID)
        requires
            old(self).wf(),
            !(node_contents is Group),
            node_contents.attr_list().len() == attributes_contents@.len(),
            node_contents.attr_list().no_duplicates(),
            forall|j: int|
                0 <= j < node_contents.attr_list().len() ==> 0 <= #[trigger] node_contents.attr_list()[j]
                    < attributes_contents@.len(),
            old(self).node_slots() < i32::MAX,
            old(self).attr_slots() + attributes_contents@.len() <= i32::MAX,
        ensures
            final(self).wf(),
            final(self).inserted(
                *old(self),
                node_id,
                title@,
                position,
                node_contents,
                views(attributes_contents@),
            ),
            final(self).inserted_facts(
                *old(self),
                node_id,
                title@,
                position,
                node_contents,
                views(attributes_contents@),
            ),
    {
        let ghost g_old = *self;
        let ghost title_view = title@;
        let ghost ac = attributes_contents@;
        let ghost l = node_contents.attr_list();
        let n_attrs = attributes_contents.len();
        let mut node = Node { title, position, error: None, contents: node_contents };
        let node_id = self.get_new_node_id();
        let ghost g0 = *self;
        let mut new_id_map = Vec::<AttributeID>::new();
        for contents in it: attributes_contents
            invariant
                it.seq() == ac,
                new_id_map@.len() == it.index(),
                self.nodes == g0.nodes,
                self.links == g0.links,
                self.free_nodes_list == g0.free_nodes_list,
                self.zoom_level == g0.zoom_level,
                self.editing_node == g0.editing_node,
                0 <= node_id < self.nodes@.len(),
                self.nodes@[node_id as int] is None,
                ac.len() == n_attrs,
                g0.attributes@.len() + n_attrs <= i32::MAX,
                self.attributes@.len() <= g0.attributes@.len() + new_id_map@.len(),
                self.attributes@.len() >= g0.attributes@.len(),
                new_id_map@.no_duplicates(),
                forall|j: int|
                    0 <= j < new_id_map@.len() ==> {
                        let a = #[trigger] new_id_map@[j];
                        &&& 0 <= a < self.attributes@.len()
                        &&& g0.attr_at(a as int) is None
                        &&& self.attributes@[a as int] is Some
                        &&& self.attributes@[a as int]->0.node_id == node_id
                        &&& self.attributes@[a as int]->0.contents@ == ac[j]@
                    },
                forall|a: int| #[trigger] g0.attr_at(a) is Some ==> self.attr_at(a) == g0.attr_at(a),
                forall|a: int|
                    #[trigger] self.attr_at(a) is Some && g0.attr_at(a) is None
                        ==> new_id_map@.contains(a as AttributeID),
                self.free_attributes_list@.no_duplicates(),
                forall|k: int|
                    0 <= k < self.free_attributes_list@.len() ==> {
                        let a = #[trigger] self.free_attributes_list@[k];
                        0 <= a < self.attributes@.len() && self.attributes@[a as int] is None
                    },
                self.free_attributes_list@.len() <= g0.free_attributes_list@.len(),
                self.free_attributes_list@ == g0.free_attributes_list@.subrange(0, self.free_attributes_list@.len() as int),
                g0.free_attributes_list@.len() >= new_id_map@.len() ==> self.free_attributes_list@.len() == g0.free_attributes_list@.len() - new_id_map@.len(),
                g0.free_attributes_list@.len() < new_id_map@.len() ==> self.free_attributes_list@.len() == 0,
                g0.free_attributes_list@.len() >= new_id_map@.len() ==> self.attributes@.len() == g0.attributes@.len(),
                g0.free_attributes_list@.len() < new_id_map@.len() ==> self.attributes@.len() == g0.attributes@.len()
                    + (new_id_map@.len() - g0.free_attributes_list@.len()),
                forall|j: int| 0 <= j < new_id_map@.len() ==> #[trigger] new_id_map@[j] as int == g0.fresh_attr_id(j),
        {
            let ghost before = *self;
            let ghost old_map = new_id_map@;
            let attribute_id = self.get_new_attribute_id();
            assert(self.attributes@[attribute_id as int] is None);
            assert(g0.attr_at(attribute_id as int) is None) by {
                if g0.attr_at(attribute_id as int) is Some {
                    assert(before.attr_at(attribute_id as int) == g0.attr_at(attribute_id as int));
                }
            }
            assert(!new_id_map@.contains(attribute_id)) by {
                if new_id_map@.contains(attribute_id) {
                    let j = choose|j: int| 0 <= j < new_id_map@.len() && new_id_map@[j] == attribute_id;
                    assert(before.attributes@[attribute_id as int] is Some);
                }
            }
            assert(attribute_id as int == g0.fresh_attr_id(old_map.len() as int)) by {
                if before.free_attributes_list@.len() > 0 {
                    assert(before.free_attributes_list@.last() == g0.free_attributes_list@[g0.free_attributes_list@.len()
                        - 1 - old_map.len()]);
                }
            }
            new_id_map.push(attribute_id);
            self.attributes.set(attribute_id as usize, Some(Attribute { node_id, contents }));
            assert forall|a: int|
                #[trigger] self.attr_at(a) is Some && g0.attr_at(a) is None
                    implies new_id_map@.contains(a as AttributeID) by {
                if a != attribute_id {
                    assert(before.attr_at(a) is Some);
                    assert(old_map.contains(a as AttributeID));
                    let j = choose|j: int| 0 <= j < old_map.len() && old_map[j] == a as AttributeID;
                    assert(new_id_map@[j] == a as AttributeID);
                } else {
                    assert(new_id_map@[new_id_map@.len() - 1] == a as AttributeID);
                }
            }
            assert forall|k2: int|
                0 <= k2 < self.free_attributes_list@.len() implies {
                    let a = #[trigger] self.free_attributes_list@[k2];
                    0 <= a < self.attributes@.len() && self.attributes@[a as int] is None
                } by {
                let a = self.free_attributes_list@[k2];
                if before.free_attributes_list@.len() > 0 {
                    assert(before.free_attributes_list@[k2] == a);
                    assert(before.free_attributes_list@.last() == attribute_id);
                    assert(a != attribute_id);
                } else {
                    assert(false);
                }
            }
        }
        proof {
            assert forall|j: int| 0 <= j < l.len() implies 0 <= #[trigger] l[j] < new_id_map@.len() by {
            }
        }
        let ghost g1 = *self;
        node.contents.remap_attribute_ids(&new_id_map);
        self.nodes.set(node_id as usize, Some(node));
        proof {
            assert(self.attributes == g1.attributes);
            assert forall|a: int| true implies #[trigger] self.attr_at(a) == g1.attr_at(a) by {}
            assert forall|a: int| true implies #[trigger] g0.attr_at(a) == g_old.attr_at(a) by {}
            let m = new_id_map@;
            let nl = l.map_values(|a: AttributeID| m[a as int]);
            node_contents.lemma_with_ids(nl);
            let nc = self.nodes@[node_id as int]->0.contents;
            assert(nc.attr_list() == nl);
            assert(m.len() == n_attrs);
            assert(nl.no_duplicates()) by {
                assert forall|i: int, j: int| 0 <= i < nl.len() && 0 <= j < nl.len() && i != j implies nl[i] != nl[j] by {
                    assert(l[i] != l[j]);
                    assert(0 <= l[i] < m.len());
                    assert(0 <= l[j] < m.len());
                }
            }
            assert(self.node_ok(node_id as int)) by {
                assert forall|j: int| 0 <= j < nc.attr_list().len() implies {
                    let a = #[trigger] nc.attr_list()[j];
                    &&& 0 <= a < self.attributes@.len()
                    &&& self.attributes@[a as int] is Some
                    &&& self.attributes@[a as int]->0.node_id == node_id
                } by {
                    assert(0 <= l[j] < m.len());
                    assert(nc.attr_list()[j] == m[l[j] as int]);
                }
            }
            assert forall|i: int| 0 <= i < self.nodes@.len() && #[trigger] self.nodes@[i] is Some implies self.node_ok(i) by {
                if i != node_id {
                    assert(g_old.nodes@[i] is Some);
                    assert(g_old.node_ok(i));
                    let c = self.nodes@[i]->0.contents;
                    assert forall|j: int| 0 <= j < c.attr_list().len() implies {
                        let a = #[trigger] c.attr_list()[j];
                        &&& 0 <= a < self.attributes@.len()
                        &&& self.attributes@[a as int] is Some
                        &&& self.attributes@[a as int]->0.node_id == i
                    } by {
                        let a = c.attr_list()[j];
                        assert(g0.attr_at(a as int) is Some);
                        assert(self.attr_at(a as int) == g0.attr_at(a as int));
                    }
                }
            }
            assert forall|a: int| 0 <= a < self.attributes@.len() && #[trigger] self.attributes@[a] is Some implies self.attr_ok(a) by {
                assert(self.attr_at(a) is Some);
                if g0.attr_at(a) is Some {
                    assert(g_old.attributes@[a] is Some);
                    assert(g_old.attr_ok(a));
                    let o = g_old.attributes@[a]->0.node_id;
                    assert(o != node_id);
                } else {
                    assert(g1.attr_at(a) is Some);
                    assert(m.contains(a as AttributeID));
                    let k = choose|k: int| 0 <= k < m.len() && m[k] == a as AttributeID;
                    lemma_distinct_in_range_covers(l, n_attrs as int, k);
                    let j = choose|j: int| 0 <= j < l.len() && l[j] == k as AttributeID;
                    assert(nl[j] == a as AttributeID);
                    assert(nc.attr_list().contains(a as AttributeID));
                }
            }
            assert forall|k: int| 0 <= k < self.free_nodes_list@.len() implies {
                let i = #[trigger] self.free_nodes_list@[k];
                0 <= i < self.nodes@.len() && self.nodes@[i as int] is None
            } by {
                let i = self.free_nodes_list@[k];
                if g_old.free_nodes_list@.len() > 0 {
                    assert(g_old.free_nodes_list@[k] == i);
                    assert(g_old.free_nodes_list@.last() == node_id);
                } else {
                    assert(g_old.free_nodes_list@[k] == i);
                }
            }
            assert(self.free_nodes_list@.no_duplicates());
            assert forall|k: AttributeID| #[trigger] self.links@.contains_key(k) implies {
                &&& self.input_kind(k as int) is Some
                &&& self.output_kind(self.links@[k] as int) == self.input_kind(k as int)
            } by {
                assert(g_old.links@.contains_key(k));
                assert(g_old.input_kind(k as int) is Some);
                assert(g_old.attr_at(k as int) is Some);
                assert(self.attr_at(k as int) == g_old.attr_at(k as int));
                let v = g_old.links@[k] as int;
                assert(g_old.attr_at(v) is Some);
                assert(self.attr_at(v) == g_old.attr_at(v));
            }
            assert(self.wf());
            let acv = views(ac);
            assert forall|j: int| 0 <= j < l.len() implies {
                let a = #[trigger] nc.attr_list()[j];
                &&& g_old.attr_at(a as int) is None
                &&& self.attr_at(a as int) is Some
                &&& self.attr_at(a as int)->0.node_id == node_id
                &&& self.attr_at(a as int)->0.contents@ == acv[l[j] as int]
                &&& a as int == g_old.fresh_attr_id(l[j] as int)
            } by {
                assert(0 <= l[j] < m.len());
                assert(nc.attr_list()[j] == m[l[j] as int]);
                assert(m[l[j] as int] as int == g0.fresh_attr_id(l[j] as int));
            }
            assert forall|i: int| i != node_id implies #[trigger] self.node_at(i) == g_old.node_at(i) by {
            }
            assert forall|a: int| #[trigger] g_old.attr_at(a) is Some implies self.attr_at(a) == g_old.attr_at(a) by {
                assert(g0.attr_at(a) == g_old.attr_at(a));
            }
            assert forall|a: int| #[trigger] self.attr_at(a) is Some && g_old.attr_at(a) is None implies nc.attr_list().contains(a as AttributeID) by {
                assert(g0.attr_at(a) is None);
                assert(m.contains(a as AttributeID));
                let k = choose|k: int| 0 <= k < m.len() && m[k] == a as AttributeID;
                lemma_distinct_in_range_covers(l, n_attrs as int, k);
                let j = choose|j: int| 0 <= j < l.len() && l[j] == k as AttributeID;
                assert(nl[j] == a as AttributeID);
            }
            assert(self.inserted(g_old, node_id, title_view, position, node_contents, acv));
            self.lemma_inserted_fresh(g_old, node_id, title_view, position, node_contents, acv);
        }
        node_id
    }

    /// `self` is `old` with live node `id` removed: its slot and the slots of its
    /// attributes are freed (pushed, in that order, onto the free lists), every link
    /// with an end among its attributes is dropped, and nothing else changes.
    pub closed spec fn removed(&self, old: Self, id: NodeID) -> bool {
        let l = old.nodes@[id as int]->0.contents.attr_list();
        &&& self.nodes@ == old.nodes@.update(id as int, None)
        &&& self.free_nodes_list@ == old.free_nodes_list@.push(id)
        &&& self.free_attributes_list@ == old.free_attributes_list@ + l
        &&& self.attributes@.len() == old.attributes@.len()
        &&& forall|a: int|
            0 <= a < old.attributes@.len() ==> #[trigger] self.attributes@[a] == if l.contains(
                a as AttributeID,
            ) {
                None
            } else {
                old.attributes@[a]
            }
        &&& self.links@ == links_avoiding(old.links@, l)
        &&& self.zoom_level == old.zoom_level
        &&& self.editing_node == old.editing_node
    }

    /// What removing live node `id` of `old` left in `self`, told through the graph's
    /// public accessors: the node and its attributes are gone, their ids pushed onto the
    /// free lists (the node's, then its attributes' in order), every link with an end
    /// among those attributes is dropped, and nothing else changes.
    pub open spec fn removed_facts(&self, old: Self, id: NodeID) -> bool {
        let l = old.node_at(id as int)->0.contents.attr_list();
        &&& self.node_at(id as int) is None
        &&& forall|i: int| i != id ==> #[trigger] self.node_at(i) == old.node_at(i)
        &&& self.node_slots() == old.node_slots()
        &&& self.attr_slots() == old.attr_slots()
        &&& self.free_nodes() == old.free_nodes().push(id)
        &&& self.free_attributes() == old.free_attributes() + l
        &&& forall|a: int| #[trigger] self.attr_at(a) == (if l.contains(a as AttributeID) && 0 <= a < old.attr_slots() {
            None
        } else {
            old.attr_at(a)
        })
        &&& self.link_map() == links_avoiding(old.link_map(), l)
        &&& self.zoom() == old.zoom()
        &&& self.editing() == old.editing()
    }

    /// After node `id` is removed, `removed_facts` holds.
    pub proof fn lemma_removed_nodes(&self, old: Self, id: NodeID)
        requires
            old.node_at(id as int) is Some,
            self.removed(old, id),
        ensures
            self.removed_facts(old, id),
    {
        let l = old.node_at(id as int)->0.contents.attr_list();
        assert forall|a: int| #[trigger] self.attr_at(a) == (if l.contains(a as AttributeID) && 0 <= a < old.attr_slots() {
            None
        } else {
            old.attr_at(a)
        }) by {
            if 0 <= a < old.attributes@.len() {
                assert(self.attributes@[a] == if l.contains(a as AttributeID) { None } else { old.attributes@[a] });
            }
        }
    }

    /// Removes node `node_id` with its attributes and every link that touches them.
    /// An id outside the node table is ignored.
    pub fn remove_node(&mut self, node_id: NodeID)
        requires
            old(self).wf(),
            !(0 <= node_id < old(self).node_slots() && old(self).node_at(node_id as int) is None),
        ensures
            final(self).wf(),
            old(self).node_at(node_id as int) is Some ==> final(self).removed(*old(self), node_id),
            old(self).node_at(node_id as int) is Some ==> final(self).removed_facts(*old(self), node_id),
            old(self).node_at(node_id as int) is None ==> *final(self) == *old(self),
    {
        if node_id < 0 || node_id as usize >= self.nodes.len() {
            return;
        }
        let ghost g_old = *self;
        let idx = node_id as usize;
        let old_node = self.nodes[idx].as_ref().unwrap();
        let list_of_attributes = old_node.get_owned_attributes();
        let ghost l = list_of_attributes@;
        proof {
            assert(g_old.node_ok(node_id as int));
        }
        self.nodes.set(idx, None);
        self.free_nodes_list.push(node_id);
        let mut i: usize = 0;
        while i < list_of_attributes.len()
            invariant
                l == list_of_attributes@,
                l == g_old.nodes@[node_id as int]->0.contents.attr_list(),
                l.no_duplicates(),
                g_old.attributes@.len() <= i32::MAX,
                0 <= node_id < g_old.nodes@.len(),
                forall|j: int| 0 <= j < l.len() ==> 0 <= #[trigger] l[j] < g_old.attributes@.len(),
                0 <= i <= l.len(),
                self.nodes@ == g_old.nodes@.update(node_id as int, None),
                self.free_nodes_list@ == g_old.free_nodes_list@.push(node_id),
                self.links == g_old.links,
                self.zoom_level == g_old.zoom_level,
                self.editing_node == g_old.editing_node,
                self.free_attributes_list@ == g_old.free_attributes_list@ + l.subrange(0, i as int),
                self.attributes@.len() == g_old.attributes@.len(),
                forall|a: int|
                    0 <= a < g_old.attributes@.len() ==> #[trigger] self.attributes@[a] == if l.subrange(
                        0,
                        i as int,
                    ).contains(a as AttributeID) {
                        None
                    } else {
                        g_old.attributes@[a]
                    },
            decreases l.len() - i,
        {
            let id = list_of_attributes[i];
            self.attributes.set(id as usize, None);
            self.free_attributes_list.push(id);
            proof {
                let s0 = l.subrange(0, i as int);
                let s1 = l.subrange(0, i + 1);
                assert(s1 == s0.push(id));
                assert(self.free_attributes_list@ =~= g_old.free_attributes_list@ + s1);
                assert forall|a: int| 0 <= a < g_old.attributes@.len() implies #[trigger] self.attributes@[a] == if s1.contains(a as AttributeID) {
                    None
                } else {
                    g_old.attributes@[a]
                } by {
                    if a == id as int {
                        assert(s1[i as int] == id);
                    } else {
                        assert(s1.contains(a as AttributeID) == s0.contains(a as AttributeID)) by {
                            if s1.contains(a as AttributeID) {
                                let j = choose|j: int| 0 <= j < s1.len() && s1[j] == a as AttributeID;
                                assert(j != i as int);
                                assert(s0[j] == a as AttributeID);
                            }
                        }
                    }
                }
            }
            i = i + 1;
        }
        remove_links_touching(&mut self.links, &list_of_attributes);
        proof {
            assert(l.subrange(0, l.len() as int) == l);
            // the attributes owned by the removed node are exactly those of `l`
            assert forall|a: int| 0 <= a < self.attributes@.len() && #[trigger] self.attributes@[a] is Some implies self.attr_ok(a) by {
                assert(!l.contains(a as AttributeID));
                assert(g_old.attributes@[a] is Some);
                assert(g_old.attr_ok(a));
                let o = g_old.attributes@[a]->0.node_id;
                if o == node_id {
                    assert(l.contains(a as AttributeID));
                }
            }
            assert forall|i2: int| 0 <= i2 < self.nodes@.len() && #[trigger] self.nodes@[i2] is Some implies self.node_ok(i2) by {
                assert(g_old.nodes@[i2] is Some);
                assert(g_old.node_ok(i2));
                let c = self.nodes@[i2]->0.contents;
                assert forall|j: int| 0 <= j < c.attr_list().len() implies {
                    let a = #[trigger] c.attr_list()[j];
                    &&& 0 <= a < self.attributes@.len()
                    &&& self.attributes@[a as int] is Some
                    &&& self.attributes@[a as int]->0.node_id == i2
                } by {
                    let a = c.attr_list()[j];
                    if l.contains(a) {
                        let j2 = choose|j2: int| 0 <= j2 < l.len() && l[j2] == a;
                        assert(g_old.attributes@[a as int]->0.node_id == node_id);
                    }
                }
            }
            assert(self.free_nodes_list@.no_duplicates()) by {
                assert(!g_old.free_nodes_list@.contains(node_id)) by {
                    if g_old.free_nodes_list@.contains(node_id) {
                        let k = choose|k: int| 0 <= k < g_old.free_nodes_list@.len() && g_old.free_nodes_list@[k] == node_id;
                        assert(g_old.nodes@[node_id as int] is None);
                    }
                }
            }
            assert forall|k: int| 0 <= k < self.free_nodes_list@.len() implies {
                let i2 = #[trigger] self.free_nodes_list@[k];
                0 <= i2 < self.nodes@.len() && self.nodes@[i2 as int] is None
            } by {
                if k < g_old.free_nodes_list@.len() {
                    assert(self.free_nodes_list@[k] == g_old.free_nodes_list@[k]);
                }
            }
            let fa = self.free_attributes_list@;
            let fo = g_old.free_attributes_list@;
            assert(fa == fo + l);
            assert forall|k: int| 0 <= k < fa.len() implies {
                let a = #[trigger] fa[k];
                0 <= a < self.attributes@.len() && self.attributes@[a as int] is None
            } by {
                if k < fo.len() {
                    assert(fa[k] == fo[k]);
                    let a = fo[k];
                    if l.contains(a) {
                    } else {
                        assert(g_old.attributes@[a as int] is None);
                    }
                } else {
                    assert(fa[k] == l[k - fo.len()]);
                    assert(l.contains(fa[k]));
                }
            }
            assert(fa.no_duplicates()) by {
                assert forall|x: int, y: int| 0 <= x < fa.len() && 0 <= y < fa.len() && x != y implies fa[x] != fa[y] by {
                    if x < fo.len() && y >= fo.len() {
                        assert(g_old.attributes@[fa[x] as int] is None);
                        assert(l.contains(fa[y]));
                        assert(g_old.attributes@[fa[y] as int] is Some);
                    } else if y < fo.len() && x >= fo.len() {
                        assert(g_old.attributes@[fa[y] as int] is None);
                        assert(l.contains(fa[x]));
                        assert(g_old.attributes@[fa[x] as int] is Some);
                    } else if x >= fo.len() && y >= fo.len() {
                        assert(fa[x] == l[x - fo.len()]);
                        assert(fa[y] == l[y - fo.len()]);
                    } else {
                        assert(fa[x] == fo[x]);
                        assert(fa[y] == fo[y]);
                    }
                }
            }
            assert forall|k: AttributeID| #[trigger] self.links@.contains_key(k) implies {
                &&& self.input_kind(k as int) is Some
                &&& self.output_kind(self.links@[k] as int) == self.input_kind(k as int)
            } by {
                assert(g_old.links@.contains_key(k));
                assert(!l.contains(k));
                assert(!l.contains(g_old.links@[k]));
                assert(g_old.input_kind(k as int) is Some);
                assert(self.attr_at(k as int) == g_old.attr_at(k as int));
                let v = g_old.links@[k] as int;
                assert(g_old.output_kind(v) is Some);
                assert(self.attr_at(v) == g_old.attr_at(v));
            }
        }
    }

    /// The live nodes with their ids, in increasing id order.
    pub fn get_nodes(&self) -> (r: Vec<(NodeID, &Node)>)
        requires
            self.wf(),
        ensures
            forall|k: int| 0 <= k < r@.len() ==> self.node_at(#[trigger] r@[k].0 as int) == Some(*r@[k].1),
            forall|k1: int, k2: int| 0 <= k1 < k2 < r@.len() ==> r@[k1].0 < r@[k2].0,
            forall|i: int| #[trigger] self.node_at(i) is Some ==> exists|k: int| 0 <= k < r@.len() && r@[k].0 == i,
    {
        let mut r: Vec<(NodeID, &Node)> = Vec::new();
        let mut i: usize = 0;
        while i < self.nodes.len()
            invariant
                self.wf(),
                0 <= i <= self.nodes@.len(),
                forall|k: int| 0 <= k < r@.len() ==> self.node_at(#[trigger] r@[k].0 as int) == Some(*r@[k].1),
                forall|k: int| 0 <= k < r@.len() ==> 0 <= #[trigger] r@[k].0 < i,
                forall|k1: int, k2: int| 0 <= k1 < k2 < r@.len() ==> r@[k1].0 < r@[k2].0,
                forall|j: int| 0 <= j < i && #[trigger] self.node_at(j) is Some ==> exists|k: int| 0 <= k < r@.len() && r@[k].0 == j,
            decreases self.nodes@.len() - i,
        {
            let ghost r0 = r@;
            if let Some(node) = self.nodes[i].as_ref() {
                r.push((i as NodeID, node));
                assert(r@[r@.len() - 1].0 == i as int);
            }
            assert forall|j: int| 0 <= j < i + 1 && #[trigger] self.node_at(j) is Some implies exists|k: int| 0 <= k < r@.len() && r@[k].0 == j by {
                if j < i {
                    let k = choose|k: int| 0 <= k < r0.len() && r0[k].0 == j;
                    assert(r@[k] == r0[k]);
                } else {
                    assert(r@[r@.len() - 1].0 == j);
                }
            }
            i = i + 1;
        }
        r
    }

    /// The value of an integer slider, or the selection of a mask, material or
    /// primitive picker, at `id`.
    pub open spec fn attr_usize(&self, id: int) -> Option<usize> {
        match self.attr_at(id) {
            Some(a) => match a.contents {
                AttributeContents::IntSlider { value, .. } => Some(value as usize),
                AttributeContents::PrimitiveKind { selected } => Some(selected),
                AttributeContents::Mask { selected } => Some(selected),
                AttributeContents::Material { selected } => Some(selected),
                _ => None,
            },
            None => None,
        }
    }

    /// The text of the text box at `id`.
    pub open spec fn attr_text(&self, id: int) -> Option<Seq<char>> {
        match self.attr_at(id) {
            Some(a) => match a.contents {
                AttributeContents::Text { string, .. } => Some(string@),
                _ => None,
            },
            None => None,
        }
    }

    /// The four cells of the matrix row at `id`.
    pub open spec fn attr_row(&self, id: int) -> Option<Seq<Seq<char>>> {
        match self.attr_at(id) {
            Some(a) => match a.contents {
                AttributeContents::MatrixRow { col_1, col_2, col_3, col_4 } => Some(
                    seq![col_1@, col_2@, col_3@, col_4@],
                ),
                _ => None,
            },
            None => None,
        }
    }

    /// The axis chosen at `id`.
    pub open spec fn attr_axis(&self, id: int) -> Option<Axis> {
        match self.attr_at(id) {
            Some(a) => match a.contents {
                AttributeContents::AxisSelect { axis } => Some(axis),
                _ => None,
            },
            None => None,
        }
    }

    /// The color chosen at `id`.
    pub open spec fn attr_color(&self, id: int) -> Option<[u32; 3]> {
        match self.attr_at(id) {
            Some(a) => match a.contents {
                AttributeContents::Color { color, .. } => Some(color),
                _ => None,
            },
            None => None,
        }
    }

    /// The output attribute linked to the input pin at `id`.
    pub open spec fn linked_output(&self, id: int) -> Option<AttributeID> {
        if self.input_kind(id) is Some && self.link_map().contains_key(id as AttributeID) {
            Some(self.link_map()[id as AttributeID])
        } else {
            None
        }
    }

    /// The node that owns the output attribute linked to the input pin at `id`.
    pub open spec fn linked_node(&self, id: int) -> Option<NodeID> {
        match self.linked_output(id) {
            Some(o) => Some(self.attr_at(o as int)->0.node_id),
            None => None,
        }
    }

    fn get_attribute(&self, attribute_id: AttributeID) -> (r: Option<&Attribute>)
        ensures
            match r {
                Some(a) => self.attr_at(attribute_id as int) == Some(*a),
                None => self.attr_at(attribute_id as int) is None,
            },
    {
        if attribute_id < 0 {
            return None;
        }
        let idx = attribute_id as usize;
        if idx < self.attributes.len() {
            self.attributes[idx].as_ref()
        } else {
            None
        }
    }

    /// The slider value, or the picker selection, stored at `attribute_id`.
    pub fn get_attribute_as_usize(&self, attribute_id: AttributeID) -> (r: Option<usize>)
        ensures
            r == self.attr_usize(attribute_id as int),
    {
        let attribute = self.get_attribute(attribute_id)?;
        match attribute.contents {
            AttributeContents::IntSlider { value, .. } => Some(value as usize),
            AttributeContents::PrimitiveKind { selected } => Some(selected),
            AttributeContents::Mask { selected } => Some(selected),
            AttributeContents::Material { selected } => Some(selected),
            _ => None,
        }
    }

    /// The color stored at `attribute_id`.
    pub fn get_attribute_as_color(&self, attribute_id: AttributeID) -> (r: Option<[u32; 3]>)
        ensures
            r == self.attr_color(attribute_id as int),
    {
        let attribute = self.get_attribute(attribute_id)?;
        if let AttributeContents::Color { color, .. } = attribute.contents {
            Some(color)
        } else {
            None
        }
    }

    /// A copy of the text stored at `attribute_id`.
    pub fn get_attribute_as_string(&self, attribute_id: AttributeID) -> (r: Option<String>)
        ensures
            match r {
                Some(s) => self.attr_text(attribute_id as int) == Some(s@),
                None => self.attr_text(attribute_id as int) is None,
            },
    {
        let attribute = self.get_attribute(attribute_id)?;
        if let AttributeContents::Text { string, .. } = &attribute.contents {
            Some(string.clone())
        } else {
            None
        }
    }

    /// A copy of the four cells of the matrix row stored at `attribute_id`.
    pub fn get_attribute_as_matrix_row(&self, attribute_id: AttributeID) -> (r: Option<[String; 4]>)
        ensures
            match r {
                Some(row) => self.attr_row(attribute_id as int) == Some(
                    seq![row[0]@, row[1]@, row[2]@, row[3]@],
                ),
                None => self.attr_row(attribute_id as int) is None,
            },
    {
        let attribute = self.get_attribute(attribute_id)?;
        if let AttributeContents::MatrixRow { col_1, col_2, col_3, col_4 } = &attribute.contents {
            Some([col_1.clone(), col_2.clone(), col_3.clone(), col_4.clone()])
        } else {
            None
        }
    }

    /// The axis stored at `attribute_id`.
    pub fn get_attribute_as_axis(&self, attribute_id: AttributeID) -> (r: Option<Axis>)
        ensures
            r == self.attr_axis(attribute_id as int),
    {
        let attribute = self.get_attribute(attribute_id)?;
        if let AttributeContents::AxisSelect { axis } = attribute.contents {
            Some(axis)
        } else {
            None
        }
    }

    /// The output attribute that the input pin at `attribute_id` is linked to.
    pub fn get_attribute_as_linked_output(&self, attribute_id: AttributeID) -> (r: Option<AttributeID>)
        requires
            self.wf(),
        ensures
            r == self.linked_output(attribute_id as int),
            r matches Some(o) ==> self.output_kind(o as int) == self.input_kind(attribute_id as int),
    {
        let attribute = self.get_attribute(attribute_id)?;
        if let AttributeContents::InputPin { .. } = &attribute.contents {
            let linked_output_id = self.links.get(&attribute_id)?;
            Some(*linked_output_id)
        } else {
            None
        }
    }

    /// The node owning the output attribute that the input pin at `attribute_id` is
    /// linked to.
    pub fn get_attribute_as_linked_node(&self, input_attribute_id: AttributeID) -> (r: Option<NodeID>)
        requires
            self.wf(),
        ensures
            r == self.linked_node(input_attribute_id as int),
            r matches Some(n) ==> self.node_at(n as int) is Some,
    {
        if let Some(output_attribute_id) = self.get_attribute_as_linked_output(input_attribute_id) {
            let attribute = self.get_attribute(output_attribute_id).unwrap();
            proof {
                assert(self.attributes@[output_attribute_id as int] is Some);
                assert(self.attr_ok(output_attribute_id as int));
            }
            Some(attribute.node_id)
        } else {
            None
        }
    }

    /// The two graphs differ at most in the titles, positions and errors of their nodes.
    pub closed spec fn same_shape(&self, other: Self) -> bool {
        &&& self.attributes@ == other.attributes@
        &&& self.links@ == other.links@
        &&& self.free_nodes_list@ == other.free_nodes_list@
        &&& self.free_attributes_list@ == other.free_attributes_list@
        &&& self.zoom_level == other.zoom_level
        &&& self.editing_node == other.editing_node
        &&& self.nodes@.len() == other.nodes@.len()
        &&& forall|i: int|
            0 <= i < self.nodes@.len() ==> (#[trigger] self.nodes@[i] is Some) == (
            other.nodes@[i] is Some)
        &&& forall|i: int|
            0 <= i < self.nodes@.len() && #[trigger] self.nodes@[i] is Some
                ==> self.nodes@[i]->0.contents == other.nodes@[i]->0.contents
    }

    /// Changing only titles, positions and errors keeps a graph consistent.
    pub proof fn lemma_same_shape_wf(&self, other: Self)
        requires
            other.wf(),
            self.same_shape(other),
        ensures
            self.wf(),
    {
        assert forall|i: int| 0 <= i < self.nodes@.len() && #[trigger] self.nodes@[i] is Some implies self.node_ok(i) by {
            assert(other.nodes@[i] is Some);
            assert(other.node_ok(i));
        }
        assert forall|a: int| 0 <= a < self.attributes@.len() && #[trigger] self.attributes@[a] is Some implies self.attr_ok(a) by {
            assert(other.attr_ok(a));
            let n = other.attributes@[a]->0.node_id;
            assert(other.nodes@[n as int] is Some);
        }
        assert forall|k: int| 0 <= k < self.free_nodes_list@.len() implies {
            let i = #[trigger] self.free_nodes_list@[k];
            0 <= i < self.nodes@.len() && self.nodes@[i as int] is None
        } by {
            let i = other.free_nodes_list@[k];
            assert(other.nodes@[i as int] is None);
        }
        assert forall|k: AttributeID| #[trigger] self.links@.contains_key(k) implies {
            &&& self.input_kind(k as int) is Some
            &&& self.output_kind(self.links@[k] as int) == self.input_kind(k as int)
        } by {
            assert(other.links@.contains_key(k));
        }
    }

    /// Sets the title of live node `id`.
    pub fn set_node_title(&mut self, id: NodeID, title: String)
        requires
            old(self).wf(),
            old(self).node_at(id as int) is Some,
        ensures
            final(self).wf(),
            final(self).same_shape(*old(self)),
            final(self).node_at(id as int)->0.title@ == title@,
            final(self).node_at(id as int)->0.position == old(self).node_at(id as int)->0.position,
            final(self).node_at(id as int)->0.error == old(self).node_at(id as int)->0.error,
            forall|i: int| i != id ==> #[trigger] final(self).node_at(i) == old(self).node_at(i),
    {
        let idx = id as usize;
        let ghost g_old = *self;
        let slot = &mut self.nodes[idx];
        if let Some(node) = slot {
            node.title = title;
        }
        proof {
            self.lemma_same_shape_wf(g_old);
        }
    }

    /// Sets the position of live node `id`.
    pub fn set_node_position(&mut self, id: NodeID, position: [u32; 2])
        requires
            old(self).wf(),
            old(self).node_at(id as int) is Some,
        ensures
            final(self).wf(),
            final(self).same_shape(*old(self)),
            final(self).node_at(id as int)->0.position == position,
            final(self).node_at(id as int)->0.title == old(self).node_at(id as int)->0.title,
            final(self).node_at(id as int)->0.error == old(self).node_at(id as int)->0.error,
            forall|i: int| i != id ==> #[trigger] final(self).node_at(i) == old(self).node_at(i),
    {
        let idx = id as usize;
        let ghost g_old = *self;
        let slot = &mut self.nodes[idx];
        if let Some(node) = slot {
            node.position = position;
        }
        proof {
            self.lemma_same_shape_wf(g_old);
        }
    }

    /// Attaches `error` to the node it names; an error naming no live node is dropped.
    pub fn mark_error(&mut self, error: GraphError)
        requires
            old(self).wf(),
        ensures
            final(self).wf(),
            final(self).same_shape(*old(self)),
            old(self).node_at(error.node_id as int) is Some ==> {
                let n = final(self).node_at(error.node_id as int)->0;
                let o = old(self).node_at(error.node_id as int)->0;
                &&& n.error == Some(error)
                &&& n.title == o.title
                &&& n.position == o.position
            },
            forall|i: int| i != error.node_id ==> #[trigger] final(self).node_at(i) == old(self).node_at(i),
            old(self).node_at(error.node_id as int) is None ==> *final(self) == *old(self),
    {
        let ghost g_old = *self;
        let id = error.node_id;
        if id >= 0 && (id as usize) < self.nodes.len() && self.nodes[id as usize].is_some() {
            let slot = &mut self.nodes[id as usize];
            if let Some(node) = slot {
                node.error = Some(error);
            }
        }
        proof {
            self.lemma_same_shape_wf(g_old);
        }
    }

    /// Removes the errors of all nodes.
    pub fn clear_all_errors(&mut self)
        requires
            old(self).wf(),
        ensures
            final(self).wf(),
            final(self).same_shape(*old(self)),
            forall|i: int|
                #[trigger] final(self).node_at(i) is Some ==> {
                    let n = final(self).node_at(i)->0;
                    let o = old(self).node_at(i)->0;
                    &&& n.error is None
                    &&& n.title == o.title
                    &&& n.position == o.position
                },
    {
        let ghost g_old = *self;
        let mut i: usize = 0;
        while i < self.nodes.len()
            invariant
                0 <= i <= self.nodes@.len(),
                g_old.wf(),
                self.same_shape(g_old),
                forall|j: int|
                    0 <= j < self.nodes@.len() && #[trigger] self.nodes@[j] is Some ==> {
                        let n = self.nodes@[j]->0;
                        let o = g_old.nodes@[j]->0;
                        &&& (j < i ==> n.error is None)
                        &&& (j >= i ==> n.error == o.error)
                        &&& n.title == o.title
                        &&& n.position == o.position
                    },
            decreases self.nodes@.len() - i,
        {
            let slot = &mut self.nodes[i];
            if let Some(node) = slot {
                node.error = None;
            }
            i = i + 1;
        }
        proof {
            self.lemma_same_shape_wf(g_old);
        }
    }

    /// The link that joining `first` and `second` would make, input end first: the two
    /// must be an input pin and an output pin of the same kind, in either order.
    pub open spec fn link_between(&self, first: int, second: int) -> Option<(AttributeID, AttributeID)> {
        if self.input_kind(first) is Some && self.output_kind(second) == self.input_kind(first) {
            Some((first as AttributeID, second as AttributeID))
        } else if self.output_kind(first) is Some && self.input_kind(second) == self.output_kind(
            first,
        ) {
            Some((second as AttributeID, first as AttributeID))
        } else {
            None
        }
    }

    /// Which of two pins is named first does not matter for the link between them,
    /// and a link always runs from a live input pin to a live output pin of its kind.
    pub proof fn lemma_link_between_symmetric(&self, a: AttributeID, b: AttributeID)
        ensures
            self.link_between(a as int, b as int) == self.link_between(b as int, a as int),
            self.link_between(a as int, b as int) matches Some((i, o)) ==> {
                &&& self.input_kind(i as int) is Some
                &&& self.output_kind(o as int) == self.input_kind(i as int)
                &&& (i == a && o == b || i == b && o == a)
            },
    {
    }

    fn check_pair_info(first_attribute: &Attribute, second_attribute: &Attribute) -> (r: PairInfo)
        ensures
            r == pair_info(first_attribute.contents@, second_attribute.contents@),
    {
        match &first_attribute.contents {
            AttributeContents::InputPin { kind: first_kind, .. } => {
                if let AttributeContents::OutputPin { kind: ref second_kind, .. } = second_attribute.contents {
                    if *first_kind == *second_kind {
                        PairInfo::FirstInputSecondOutput
                    } else {
                        PairInfo::NonCompatible
                    }
                } else {
                    PairInfo::NonCompatible
                }
            },
            AttributeContents::OutputPin { kind: first_kind, .. } => {
                if let AttributeContents::InputPin { kind: ref second_kind, .. } = second_attribute.contents {
                    if *first_kind == *second_kind {
                        PairInfo::FirstOutputSecondInput
                    } else {
                        PairInfo::NonCompatible
                    }
                } else {
                    PairInfo::NonCompatible
                }
            },
            _ => PairInfo::NonCompatible,
        }
    }

    /// Whether `id` is a live input pin.
    pub fn is_attribute_input(&self, id: AttributeID) -> (r: bool)
        ensures
            r == (self.input_kind(id as int) is Some),
    {
        match self.get_attribute(id) {
            Some(attribute) => match &attribute.contents {
                AttributeContents::InputPin { .. } => true,
                _ => false,
            },
            None => false,
        }
    }

    /// Checks whether `first_id` and `second_id` can be linked; if so, returns the pair
    /// with the input attribute first (the order of the two ids does not matter: see
    /// `lemma_link_between_symmetric`).
    pub fn check_link_creation(&self, first_id: AttributeID, second_id: AttributeID) -> (r: Option<(AttributeID, AttributeID)>)
        requires
            self.attr_at(first_id as int) is Some,
            self.attr_at(second_id as int) is Some,
        ensures
            r == self.link_between(first_id as int, second_id as int),
    {
        let first_attribute = self.get_attribute(first_id).unwrap();
        let second_attribute = self.get_attribute(second_id).unwrap();
        match Self::check_pair_info(first_attribute, second_attribute) {
            PairInfo::FirstInputSecondOutput => Some((first_id, second_id)),
            PairInfo::FirstOutputSecondInput => Some((second_id, first_id)),
            PairInfo::NonCompatible => None,
        }
    }

    /// Links `first_id` and `second_id` when they are an input and an output pin of the
    /// same kind; the input pin loses any link it had. Returns the link made, input first.
    pub fn create_link(&mut self, first_id: AttributeID, second_id: AttributeID) -> (r: Option<(AttributeID, AttributeID)>)
        requires
            old(self).wf(),
            old(self).attr_at(first_id as int) is Some,
            old(self).attr_at(second_id as int) is Some,
        ensures
            final(self).wf(),
            r == old(self).link_between(first_id as int, second_id as int),
            match r {
                Some((i, o)) => final(self).link_map() == old(self).link_map().insert(i, o),
                None => final(self).link_map() == old(self).link_map(),
            },
            final(self).same_nodes_and_attributes(*old(self)),
    {
        let maybe_link = self.check_link_creation(first_id, second_id);
        if let Some((input_id, output_id)) = maybe_link {
            self.links.insert(input_id, output_id);
        }
        maybe_link
    }

    /// Removes the link whose input end is `link_id`, if there is one.
    pub fn remove_link(&mut self, link_id: AttributeID)
        requires
            old(self).wf(),
        ensures
            final(self).wf(),
            final(self).link_map() == old(self).link_map().remove(link_id),
            final(self).same_nodes_and_attributes(*old(self)),
    {
        self.links.remove(&link_id);
    }

    /// The links, input end first.
    pub fn get_links(&self) -> (r: Vec<(AttributeID, AttributeID)>)
        ensures
            forall|k: int| 0 <= k < r@.len() ==> self.link_map().contains_key(#[trigger] r@[k].0)
                && self.link_map()[r@[k].0] == r@[k].1,
            forall|i: AttributeID| #[trigger] self.link_map().contains_key(i) ==> exists|k: int|
                0 <= k < r@.len() && r@[k].0 == i,
            r@.len() == self.link_map().dom().len(),
    {
        let keys = map_keys(&self.links);
        let mut r: Vec<(AttributeID, AttributeID)> = Vec::new();
        let mut i: usize = 0;
        while i < keys.len()
            invariant
                0 <= i <= keys@.len(),
                r@.len() == i,
                forall|k: AttributeID| self.links@.contains_key(k) <==> keys@.contains(k),
                keys@.no_duplicates(),
                forall|k: int| 0 <= k < i ==> #[trigger] r@[k] == (keys@[k], self.links@[keys@[k]]),
            decreases keys@.len() - i,
        {
            let k = keys[i];
            assert(keys@.contains(k));
            let v = *self.links.get(&k).unwrap();
            let ghost r0 = r@;
            r.push((k, v));
            assert(r@[i as int] == (keys@[i as int], self.links@[keys@[i as int]]));
            assert forall|k2: int| 0 <= k2 < i + 1 implies #[trigger] r@[k2] == (keys@[k2], self.links@[keys@[k2]]) by {
                if k2 < i {
                    assert(r@[k2] == r0[k2]);
                }
            }
            i = i + 1;
        }
        proof {
            assert forall|x: AttributeID| #[trigger] self.links@.contains_key(x) implies exists|k: int| 0 <= k < r@.len() && r@[k].0 == x by {
                assert(keys@.contains(x));
                let k = choose|k: int| 0 <= k < keys@.len() && keys@[k] == x;
                assert(0 <= k < i);
                assert(r@[k] == (keys@[k], self.links@[keys@[k]]));
            }
            keys@.unique_seq_to_set();
            assert(keys@.to_set() =~= self.links@.dom());
            assert forall|k: int| 0 <= k < r@.len() implies self.link_map().contains_key(#[trigger] r@[k].0)
                && self.link_map()[r@[k].0] == r@[k].1 by {
                assert(r@[k] == (keys@[k], self.links@[keys@[k]]));
                assert(keys@.contains(keys@[k]));
            }
        }
        r
    }

    /// Follows which node is being edited, given the attribute active in the editor in
    /// this frame, if any. Returns whether the end of an edit should be recorded: when
    /// editing moves from one node to another, or stops.
    pub fn update_editing(&mut self, active_attribute: Option<AttributeID>) -> (request_savestate: bool)
        requires
            old(self).wf(),
            active_attribute matches Some(a) ==> old(self).attr_at(a as int) is Some,
        ensures
            final(self).wf(),
            final(self).same_tables(*old(self)),
            (final(self).editing() is Some) == (active_attribute is Some),
            match active_attribute {
                Some(a) => {
                    let n = old(self).attr_at(a as int)->0.node_id;
                    &&& final(self).editing() == Some(n)
                    &&& request_savestate == (old(self).editing() is Some && old(self).editing() != Some(n))
                },
                None => {
                    &&& final(self).editing() is None
                    &&& request_savestate == (old(self).editing() is Some)
                },
            },
    {
        match active_attribute {
            Some(active) => {
                let editing_node_id = self.get_attribute(active).unwrap().node_id;
                match self.editing_node {
                    None => {
                        self.editing_node = Some(editing_node_id);
                        false
                    },
                    Some(old_id) => {
                        if old_id != editing_node_id {
                            self.editing_node = Some(editing_node_id);
                            true
                        } else {
                            false
                        }
                    },
                }
            },
            None => {
                match self.editing_node {
                    None => false,
                    Some(_old_id) => {
                        self.editing_node = None;
                        true
                    },
                }
            },
        }
    }

    /// The two graphs have the same nodes, attributes, free lists, zoom level and edited node.
    pub closed spec fn same_nodes_and_attributes(&self, other: Self) -> bool {
        &&& self.nodes@ == other.nodes@
        &&& self.attributes@ == other.attributes@
        &&& self.free_nodes_list@ == other.free_nodes_list@
        &&& self.free_attributes_list@ == other.free_attributes_list@
        &&& self.zoom_level == other.zoom_level
        &&& self.editing_node == other.editing_node
    }

    /// There is room for one more node owning `n` more attributes without the ids
    /// leaving the range of `i32`.
    pub open spec fn has_room(&self, n: nat) -> bool {
        &&& self.node_slots() < i32::MAX
        &&& self.attr_slots() + n <= i32::MAX
    }

    /// The contents of the attributes with ids `ids`, in order.
    pub open spec fn contents_of(&self, ids: Seq<AttributeID>) -> Seq<ContentsView> {
        ids.map_values(|a: AttributeID| self.attr_at(a as int)->0.contents@)
    }

    /// The nodes linked to the input pins among `ids`, in order.
    pub open spec fn linked_nodes(&self, ids: Seq<AttributeID>) -> Seq<NodeID>
        decreases ids.len(),
    {
        if ids.len() == 0 {
            seq![]
        } else {
            let rest = self.linked_nodes(ids.drop_last());
            match self.linked_node(ids.last() as int) {
                Some(n) => rest.push(n),
                None => rest,
            }
        }
    }

    /// Only ids of node slots can name live nodes.
    pub proof fn lemma_node_slots(&self, id: int)
        ensures
            !(0 <= id < self.node_slots()) ==> self.node_at(id) is None,
    {
    }

    /// Live node ids are not negative.
    pub proof fn lemma_live_id_nonnegative(&self, id: int)
        ensures
            self.node_at(id) is Some ==> id >= 0,
    {
    }

    /// In a consistent graph, the nodes linked to input pins are live.
    pub proof fn lemma_linked_nodes_live(&self, ids: Seq<AttributeID>, s: NodeID)
        requires
            self.wf(),
            self.linked_nodes(ids).contains(s),
        ensures
            self.node_at(s as int) is Some,
        decreases ids.len(),
    {
        let rest = self.linked_nodes(ids.drop_last());
        match self.linked_node(ids.last() as int) {
            Some(n) => {
                if rest.contains(s) {
                    self.lemma_linked_nodes_live(ids.drop_last(), s);
                } else {
                    assert(rest.push(n).last() == n);
                    assert(s == n) by {
                        let k = choose|k: int| 0 <= k < rest.push(n).len() && rest.push(n)[k] == s;
                        if k < rest.len() {
                            assert(rest[k] == s);
                        }
                    }
                    let i = ids.last();
                    let o = self.links@[i];
                    assert(self.links@.contains_key(i));
                    assert(self.output_kind(o as int) is Some);
                    assert(self.attributes@[o as int] is Some);
                    assert(self.attr_ok(o as int));
                }
            },
            None => {
                self.lemma_linked_nodes_live(ids.drop_last(), s);
            },
        }
    }

    /// The ids of the nodes linked to the input pins of node `node`, in attribute order.
    pub fn get_input_nodes(&self, node: &Node) -> (r: Vec<NodeID>)
        requires
            self.wf(),
            !(node.contents is Group),
        ensures
            r@ == self.linked_nodes(node.contents.attr_list()),
            forall|k: int| 0 <= k < r@.len() ==> #[trigger] self.node_at(r@[k] as int) is Some,
    {
        let ids = node.get_owned_attributes();
        let mut r: Vec<NodeID> = Vec::new();
        let mut i: usize = 0;
        while i < ids.len()
            invariant
                self.wf(),
                0 <= i <= ids@.len(),
                r@ == self.linked_nodes(ids@.take(i as int)),
                forall|k: int| 0 <= k < r@.len() ==> #[trigger] self.node_at(r@[k] as int) is Some,
            decreases ids@.len() - i,
        {
            assert(ids@.take(i + 1).drop_last() == ids@.take(i as int));
            if let Some(n) = self.get_attribute_as_linked_node(ids[i]) {
                r.push(n);
            }
            i = i + 1;
        }
        assert(ids@.take(i as int) == ids@);
        r
    }

    /// What is needed to insert a copy of live node `node_id`: its title and position, a
    /// fresh node of its kind, and copies of its attributes' contents, in order.
    pub fn clone_node(&self, node_id: NodeID) -> (r: Option<(String, [u32; 2], NodeContents, Vec<AttributeContents>)>)
        requires
            self.wf(),
        ensures
            self.node_at(node_id as int) is None <==> r is None,
            r matches Some((title, position, contents, attrs)) ==> {
                let n = self.node_at(node_id as int)->0;
                &&& title@ == n.title@
                &&& position == n.position
                &&& contents == n.contents.canonical()
                &&& views(attrs@) == self.contents_of(n.contents.attr_list())
            },
    {
        let node = self.get_node(node_id)?;
        proof {
            assert(self.node_ok(node_id as int));
        }
        let attributes_list = node.get_owned_attributes();
        let title = node.title.clone();
        let position = node.position;
        let cloned_contents = node.contents.default_same_kind();
        let mut cloned_attributes: Vec<AttributeContents> = Vec::new();
        let mut i: usize = 0;
        while i < attributes_list.len()
            invariant
                self.wf(),
                self.node_ok(node_id as int),
                self.nodes@[node_id as int] == Some(*node),
                attributes_list@ == node.contents.attr_list(),
                0 <= i <= attributes_list@.len(),
                views(cloned_attributes@) == self.contents_of(attributes_list@.take(i as int)),
            decreases attributes_list@.len() - i,
        {
            let a = attributes_list[i];
            assert(self.attributes@[a as int] is Some);
            let attribute = self.get_attribute(a).unwrap();
            let ghost c0 = cloned_attributes@;
            let cc = attribute.contents.clone_contents();
            assert(cc@ == self.attr_at(a as int)->0.contents@);
            cloned_attributes.push(cc);
            let ghost t0 = attributes_list@.take(i as int);
            let ghost t1 = attributes_list@.take(i + 1);
            assert(t1 == t0.push(a));
            assert(views(c0) == self.contents_of(t0));
            assert(views(c0).len() == c0.len());
            assert(self.contents_of(t0).len() == t0.len());
            assert(c0.len() == t0.len());
            assert forall|j: int| 0 <= j < t1.len() implies #[trigger] views(cloned_attributes@)[j] == self.contents_of(t1)[j] by {
                if j < t0.len() {
                    assert(cloned_attributes@[j] == c0[j]);
                    assert(views(c0)[j] == self.contents_of(t0)[j]);
                }
            }
            assert(views(cloned_attributes@) =~= self.contents_of(t1));
            i = i + 1;
        }
        assert(attributes_list@.take(i as int) == attributes_list@);
        Some((title, position, cloned_contents, cloned_attributes))
    }

    /// A canonical node's ids are distinct and lie in `[0, n)`.
    pub proof fn lemma_canonical_ids(c: NodeContents)
        ensures
            c.canonical().attr_list().len() == c.attr_list().len(),
            c.canonical().attr_list().no_duplicates(),
            forall|j: int|
                0 <= j < c.canonical().attr_list().len() ==> #[trigger] c.canonical().attr_list()[j]
                    == j,
    {
        let ids = Seq::new(c.attr_list().len(), |i: int| i as AttributeID);
        c.lemma_with_ids(ids);
    }

    /// Inserts a copy of live node `node_id`, without its links, at `position`.
    pub fn duplicate_node_no_links(&mut self, node_id: NodeID, position: [u32; 2]) -> (id: NodeID)
        requires
            old(self).wf(),
            old(self).node_at(node_id as int) is Some,
            old(self).has_room(6),
        ensures
            final(self).wf(),
            ({
                let n = old(self).node_at(node_id as int)->0;
                final(self).inserted(
                    *old(self),
                    id,
                    n.title@,
                    position,
                    n.contents.canonical(),
                    old(self).contents_of(n.contents.attr_list()),
                )
            }),
    {
        let (title, _orig_pos, cloned_contents, cloned_attributes) = self.clone_node(node_id).unwrap();
        proof {
            let n = self.node_at(node_id as int)->0;
            Self::lemma_canonical_ids(n.contents);
            assert(self.node_ok(node_id as int));
            assert(views(cloned_attributes@).len() == cloned_attributes@.len());
            assert(self.contents_of(n.contents.attr_list()).len() == n.contents.attr_list().len());
            assert(cloned_attributes@.len() == n.contents.attr_list().len());
            assert(n.contents.attr_list().len() <= 6);
        }
        self.insert_node(title, position, cloned_contents, cloned_attributes)
    }

    /// Adding a link from a live input pin to a live output pin of the same kind keeps
    /// the graph consistent.
    proof fn lemma_link_added_wf(&self, after: Self, i: AttributeID, o: AttributeID)
        requires
            self.wf(),
            self.input_kind(i as int) is Some,
            self.output_kind(o as int) == self.input_kind(i as int),
            after.links@ == self.links@.insert(i, o),
            after.nodes@ == self.nodes@,
            after.attributes@ == self.attributes@,
            after.free_nodes_list@ == self.free_nodes_list@,
            after.free_attributes_list@ == self.free_attributes_list@,
        ensures
            after.wf(),
    {
        assert forall|k: AttributeID| #[trigger] after.links@.contains_key(k) implies {
            &&& after.input_kind(k as int) is Some
            &&& after.output_kind(after.links@[k] as int) == after.input_kind(k as int)
        } by {
            if k != i {
                assert(self.links@.contains_key(k));
            }
        }
        assert forall|n: int| 0 <= n < after.nodes@.len() && #[trigger] after.nodes@[n] is Some implies after.node_ok(n) by {
            assert(self.node_ok(n));
        }
        assert forall|a: int| 0 <= a < after.attributes@.len() && #[trigger] after.attributes@[a] is Some implies after.attr_ok(a) by {
            assert(self.attr_ok(a));
        }
    }

    /// What inserting a node left in `self`, told through the graph's public accessors:
    /// the id is the last freed node slot (taken off the free list), or a new slot at the
    /// end of the table when none is free; the node has the given title and position, no
    /// error, the kind of `contents`, and its attribute `j` under the fresh id
    /// `old.fresh_attr_id(contents.attr_list()[j])`, empty before, owned by the node and
    /// holding `attrs[contents.attr_list()[j]]`. Nothing else that was live changes, and
    /// the links stay as they were.
    pub open spec fn inserted_facts(
        &self,
        old: Self,
        id: NodeID,
        title: Seq<char>,
        position: [u32; 2],
        contents: NodeContents,
        attrs: Seq<ContentsView>,
    ) -> bool {
        let n = self.node_at(id as int)->0;
        let l = contents.attr_list();
        &&& old.free_nodes().len() > 0 ==> {
            &&& id == old.free_nodes().last()
            &&& self.free_nodes() == old.free_nodes().drop_last()
            &&& self.node_slots() == old.node_slots()
        }
        &&& old.free_nodes().len() == 0 ==> {
            &&& id == old.node_slots()
            &&& self.free_nodes() == old.free_nodes()
            &&& self.node_slots() == old.node_slots() + 1
        }
        &&& old.node_at(id as int) is None
        &&& self.node_at(id as int) is Some
        &&& n.title@ == title
        &&& n.position == position
        &&& n.error is None
        &&& n.contents == contents.with_ids(n.contents.attr_list())
        &&& n.contents.attr_list().len() == l.len()
        &&& forall|j: int|
            0 <= j < l.len() ==> {
                let a = #[trigger] n.contents.attr_list()[j];
                &&& a as int == old.fresh_attr_id(l[j] as int)
                &&& old.attr_at(a as int) is None
                &&& self.attr_at(a as int) is Some
                &&& self.attr_at(a as int)->0.node_id == id
                &&& self.attr_at(a as int)->0.contents@ == attrs[l[j] as int]
            }
        &&& forall|i: int| i != id ==> #[trigger] self.node_at(i) == old.node_at(i)
        &&& forall|a: int| #[trigger] old.attr_at(a) is Some ==> self.attr_at(a) == old.attr_at(a)
        &&& forall|a: int|
            #[trigger] self.attr_at(a) is Some && old.attr_at(a) is None ==> n.contents.attr_list().contains(
                a as AttributeID,
            )
        &&& self.link_map() == old.link_map()
        &&& self.zoom() == old.zoom()
        &&& self.editing() == old.editing()
    }

    /// A freshly inserted node was not live before, the tables grew by at most the node
    /// and its attributes, and the node holds what was inserted: its attribute `j` under
    /// the fresh id `old.fresh_attr_id(contents.attr_list()[j])`.
    pub proof fn lemma_inserted_fresh(
        &self,
        old: Self,
        id: NodeID,
        title: Seq<char>,
        position: [u32; 2],
        contents: NodeContents,
        attrs: Seq<ContentsView>,
    )
        requires
            old.wf(),
            self.inserted(old, id, title, position, contents, attrs),
        ensures
            old.node_at(id as int) is None,
            self.node_at(id as int) is Some,
            self.node_slots() <= old.node_slots() + 1,
            self.attr_slots() <= old.attr_slots() + contents.attr_list().len(),
            self.link_map() == old.link_map(),
            forall|i: int| i != id ==> #[trigger] self.node_at(i) == old.node_at(i),
            forall|a: int| #[trigger] old.attr_at(a) is Some ==> self.attr_at(a) == old.attr_at(a),
            self.node_at(id as int)->0.title@ == title,
            self.node_at(id as int)->0.position == position,
            self.node_at(id as int)->0.error is None,
            self.node_at(id as int)->0.contents == contents.with_ids(self.node_at(id as int)->0.contents.attr_list()),
            self.node_at(id as int)->0.contents.attr_list().len() == contents.attr_list().len(),
            forall|j: int|
                0 <= j < contents.attr_list().len() ==> {
                    let a = #[trigger] self.node_at(id as int)->0.contents.attr_list()[j];
                    &&& a as int == old.fresh_attr_id(contents.attr_list()[j] as int)
                    &&& self.attr_at(a as int) is Some
                    &&& self.attr_at(a as int)->0.node_id == id
                    &&& self.attr_at(a as int)->0.contents@ == attrs[contents.attr_list()[j] as int]
                },
            self.inserted_facts(old, id, title, position, contents, attrs),
    {
        if old.free_nodes_list@.len() > 0 {
            let k = old.free_nodes_list@.len() - 1;
            assert(old.free_nodes_list@[k] == id);
        }
    }

    /// Attributes whose contents have the same value are pins of the same kinds.
    pub proof fn lemma_same_contents_kinds(&self, a: int, b: int)
        requires
            self.attr_at(a) is Some,
            self.attr_at(b) is Some,
            self.attr_at(a)->0.contents@ == self.attr_at(b)->0.contents@,
        ensures
            self.input_kind(a) == self.input_kind(b),
            self.output_kind(a) == self.output_kind(b),
    {
        let ca = self.attr_at(a)->0.contents;
        let cb = self.attr_at(b)->0.contents;
        match ca {
            AttributeContents::InputPin { .. } => {
                assert(cb is InputPin);
            },
            AttributeContents::OutputPin { .. } => {
                assert(cb is OutputPin);
            },
            _ => {
                assert(!(cb is InputPin) && !(cb is OutputPin));
            },
        }
    }

    /// Inserts a copy of each live node among `nodes_ids`, without links.
    #[verifier::loop_isolation(false)]
    #[verifier::rlimit(100)]
    #[verifier::spinoff_prover]
    fn copy_nodes(&mut self, nodes_ids: &Vec<NodeID>, positions: &Vec<[u32; 2]>) -> (r: (
        Vec<Option<NodeID>>,
        Vec<(AttributeID, AttributeID)>,
    ))
        requires
            old(self).wf(),
            positions@.len() == nodes_ids@.len(),
            old(self).node_slots() + nodes_ids@.len() < i32::MAX,
            old(self).attr_slots() + 6 * nodes_ids@.len() <= i32::MAX,
        ensures
            final(self).wf(),
            final(self).link_map() == old(self).link_map(),
            r.0@.len() == nodes_ids@.len(),
            forall|k: int|
                0 <= k < nodes_ids@.len() ==> (#[trigger] r.0@[k] is Some <==> old(self).node_at(
                    nodes_ids@[k] as int,
                ) is Some),
            forall|k: int|
                0 <= k < nodes_ids@.len() && #[trigger] r.0@[k] is Some ==> old(self).copied_node(
                    *final(self),
                    nodes_ids@[k],
                    r.0@[k]->0,
                    positions@[k],
                ),
            forall|i: int| #[trigger] old(self).node_at(i) is Some ==> final(self).node_at(i) == old(self).node_at(i),
            forall|a: int| #[trigger] old(self).attr_at(a) is Some ==> final(self).attr_at(a) == old(self).attr_at(a),
            forall|m: int|
                0 <= m < r.1@.len() ==> old(self).attr_at(#[trigger] r.1@[m].0 as int) is Some && old(self).attr_at(
                    r.1@[m].1 as int,
                ) is None && final(self).attr_at(r.1@[m].1 as int) is Some && final(self).attr_at(
                    r.1@[m].1 as int,
                )->0.contents@ == old(self).attr_at(r.1@[m].0 as int)->0.contents@,
            forall|m1: int, m2: int| 0 <= m1 < m2 < r.1@.len() ==> #[trigger] r.1@[m1].1 != #[trigger] r.1@[m2].1,
            forall|k: int, j: int|
                0 <= k < nodes_ids@.len() && #[trigger] r.0@[k] is Some && 0 <= j < old(self).node_at(
                    nodes_ids@[k] as int,
                )->0.contents.attr_list().len() ==> r.1@.contains(
                    (
                        #[trigger] old(self).node_at(nodes_ids@[k] as int)->0.contents.attr_list()[j],
                        final(self).node_at(r.0@[k]->0 as int)->0.contents.attr_list()[j],
                    ),
                ),
    {
        let ghost g0 = *self;
        let start_slots = self.nodes.len();
        let mut live: Vec<bool> = Vec::new();
        while live.len() < start_slots
            invariant
                live@.len() <= start_slots,
                start_slots == g0.node_slots(),
                *self == g0,
                g0.wf(),
                forall|i: int| 0 <= i < live@.len() ==> #[trigger] live@[i] == (g0.node_at(i) is Some),
            decreases start_slots - live@.len(),
        {
            let i = live.len();
            live.push(self.get_node(i as NodeID).is_some());
        }
        let mut clones: Vec<Option<NodeID>> = Vec::new();
        let mut map: Vec<(AttributeID, AttributeID)> = Vec::new();
        let ghost mut origin: Seq<(int, int)> = Seq::empty();
        let mut k: usize = 0;
        while k < nodes_ids.len()
            invariant
                g0.wf(),
                self.wf(),
                positions@.len() == nodes_ids@.len(),
                live@.len() == g0.node_slots(),
                forall|i: int| 0 <= i < live@.len() ==> #[trigger] live@[i] == (g0.node_at(i) is Some),
                g0.node_slots() + nodes_ids@.len() < i32::MAX,
                g0.attr_slots() + 6 * nodes_ids@.len() <= i32::MAX,
                k <= nodes_ids@.len(),
                clones@.len() == k,
                self.node_slots() <= g0.node_slots() + k,
                self.attr_slots() <= g0.attr_slots() + 6 * k,
                self.link_map() == g0.link_map(),
                forall|i: int| #[trigger] g0.node_at(i) is Some ==> self.node_at(i) == g0.node_at(i),
                forall|a: int| #[trigger] g0.attr_at(a) is Some ==> self.attr_at(a) == g0.attr_at(a),
                forall|j: int| 0 <= j < k ==> (#[trigger] clones@[j] is Some <==> g0.node_at(nodes_ids@[j] as int) is Some),
                forall|j: int|
                    0 <= j < k && #[trigger] clones@[j] is Some ==> g0.copied_node(
                        *self,
                        nodes_ids@[j],
                        clones@[j]->0,
                        positions@[j],
                    ),
                forall|m: int|
                    0 <= m < map@.len() ==> g0.attr_at(#[trigger] map@[m].0 as int) is Some && g0.attr_at(
                        map@[m].1 as int,
                    ) is None && self.attr_at(map@[m].1 as int) is Some && self.attr_at(map@[m].1 as int)->0.contents@
                        == g0.attr_at(map@[m].0 as int)->0.contents@,
                forall|m1: int, m2: int|
                    0 <= m1 < m2 < map@.len() ==> #[trigger] map@[m1].1 != #[trigger] map@[m2].1,
                forall|jj: int, j: int|
                    0 <= jj < k && #[trigger] clones@[jj] is Some && 0 <= j < g0.node_at(
                        nodes_ids@[jj] as int,
                    )->0.contents.attr_list().len() ==> map@.contains(
                        (
                            #[trigger] g0.node_at(nodes_ids@[jj] as int)->0.contents.attr_list()[j],
                            self.node_at(clones@[jj]->0 as int)->0.contents.attr_list()[j],
                        ),
                    ),
                origin.len() == map@.len(),
                forall|m: int|
                    0 <= m < map@.len() ==> {
                        let jj = #[trigger] origin[m].0;
                        let j = origin[m].1;
                        &&& 0 <= jj < k
                        &&& clones@[jj] is Some
                        &&& 0 <= j < g0.node_at(nodes_ids@[jj] as int)->0.contents.attr_list().len()
                        &&& map@[m] == (
                            g0.node_at(nodes_ids@[jj] as int)->0.contents.attr_list()[j],
                            self.node_at(clones@[jj]->0 as int)->0.contents.attr_list()[j],
                        )
                    },
            decreases nodes_ids@.len() - k,
        {
            let original_node_id = nodes_ids[k];
            if original_node_id < 0 || original_node_id as usize >= start_slots || !live[original_node_id as usize] {
                proof {
                    g0.lemma_node_slots(original_node_id as int);
                }
                let ghost clones0 = clones@;
                clones.push(None);
                assert forall|m: int| 0 <= m < map@.len() implies clones@[#[trigger] origin[m].0] == clones0[origin[m].0] by {}
            } else {
                let ghost before = *self;
                let ghost map0 = map@;
                let ghost clones0 = clones@;
                let ghost n = self.node_at(original_node_id as int)->0;
                proof {
                    assert(self.nodes@[original_node_id as int] is Some);
                    assert(self.node_ok(original_node_id as int));
                    assert(nodes_ids@[k as int] == original_node_id);
                    assert(g0.node_at(original_node_id as int) is Some);
                }
                let original_attributes_id = self.get_node(original_node_id).unwrap().get_owned_attributes();
                let cloned_node_id = self.duplicate_node_no_links(original_node_id, positions[k]);
                proof {
                    self.lemma_inserted_fresh(
                        before,
                        cloned_node_id,
                        n.title@,
                        positions@[k as int],
                        n.contents.canonical(),
                        before.contents_of(n.contents.attr_list()),
                    );
                    Self::lemma_canonical_ids(n.contents);
                    assert(self.nodes@[cloned_node_id as int] is Some);
                    assert(self.node_ok(cloned_node_id as int));
                }
                let cloned_attributes_id = self.get_node(cloned_node_id).unwrap().get_owned_attributes();
                let ghost c = self.node_at(cloned_node_id as int)->0;
                let ghost origin0 = origin;
                assert(original_attributes_id@.len() == cloned_attributes_id@.len());
                let mut j: usize = 0;
                while j < original_attributes_id.len()
                    invariant
                        j <= original_attributes_id@.len(),
                        original_attributes_id@.len() == cloned_attributes_id@.len(),
                        map@ == map0 + Seq::new(
                            j as nat,
                            |t: int| (original_attributes_id@[t], cloned_attributes_id@[t]),
                        ),
                        origin == origin0 + Seq::new(j as nat, |t: int| (k as int, t)),
                    decreases original_attributes_id@.len() - j,
                {
                    map.push((original_attributes_id[j], cloned_attributes_id[j]));
                    proof {
                        origin = origin.push((k as int, j as int));
                    }
                    j = j + 1;
                    assert(origin =~= origin0 + Seq::new(j as nat, |t: int| (k as int, t)));
                    assert(map@ =~= map0 + Seq::new(
                        j as nat,
                        |t: int| (original_attributes_id@[t], cloned_attributes_id@[t]),
                    ));
                }
                clones.push(Some(cloned_node_id));
                proof {
                    let ka = k as int;
                    let o = g0.node_at(original_node_id as int)->0;
                    assert(o == n);
                    assert(g0.node_ok(original_node_id as int));
                    assert(before.node_at(cloned_node_id as int) is None);
                    assert(g0.node_at(cloned_node_id as int) is None) by {
                        if g0.node_at(cloned_node_id as int) is Some {
                            assert(before.node_at(cloned_node_id as int) == g0.node_at(cloned_node_id as int));
                        }
                    }
                    assert(n.contents.attr_list().len() <= 6);
                    // the new copy
                    assert forall|j: int| 0 <= j < c.contents.attr_list().len() implies {
                        let a = #[trigger] c.contents.attr_list()[j];
                        &&& g0.attr_at(a as int) is None
                        &&& self.attr_at(a as int) is Some
                        &&& self.attr_at(a as int)->0.node_id == cloned_node_id
                        &&& self.attr_at(a as int)->0.contents@ == g0.attr_at(o.contents.attr_list()[j] as int)->0.contents@
                    } by {
                        let a = c.contents.attr_list()[j];
                        let l = n.contents.canonical().attr_list();
                        assert(l[j] == j);
                        assert(before.attr_at(a as int) is None);
                        if g0.attr_at(a as int) is Some {
                            assert(before.attr_at(a as int) == g0.attr_at(a as int));
                        }
                        let oa = o.contents.attr_list()[j];
                        assert(g0.attr_at(oa as int) is Some);
                        assert(before.attr_at(oa as int) == g0.attr_at(oa as int));
                        assert(before.contents_of(n.contents.attr_list())[j] == before.attr_at(oa as int)->0.contents@);
                    }
                    assert(g0.copied_node(*self, original_node_id, cloned_node_id, positions@[ka]));
                    // earlier copies are untouched
                    assert forall|jj: int| 0 <= jj < ka + 1 && #[trigger] clones@[jj] is Some implies g0.copied_node(
                        *self,
                        nodes_ids@[jj],
                        clones@[jj]->0,
                        positions@[jj],
                    ) by {
                        if jj < ka {
                            assert(clones@[jj] == clones0[jj]);
                            let cc = clones0[jj]->0;
                            assert(g0.copied_node(before, nodes_ids@[jj], cc, positions@[jj]));
                            assert(before.node_at(cc as int) is Some);
                            assert(self.node_at(cc as int) == before.node_at(cc as int));
                            let cn = before.node_at(cc as int)->0;
                            assert forall|j: int| 0 <= j < cn.contents.attr_list().len() implies
                                self.attr_at(#[trigger] cn.contents.attr_list()[j] as int) == before.attr_at(cn.contents.attr_list()[j] as int) by {
                                assert(before.attr_at(cn.contents.attr_list()[j] as int) is Some);
                            }
                        }
                    }
                    assert forall|i: int| #[trigger] g0.node_at(i) is Some implies self.node_at(i) == g0.node_at(i) by {
                        assert(before.node_at(i) == g0.node_at(i));
                    }
                    assert forall|a: int| #[trigger] g0.attr_at(a) is Some implies self.attr_at(a) == g0.attr_at(a) by {
                        assert(before.attr_at(a) == g0.attr_at(a));
                    }
                    assert(c.contents.attr_list() == cloned_attributes_id@);
                    assert(o.contents.attr_list() == original_attributes_id@);
                    assert(self.node_ok(cloned_node_id as int));
                    // the pairs
                    assert forall|m: int| 0 <= m < map@.len() implies g0.attr_at(#[trigger] map@[m].0 as int) is Some
                        && g0.attr_at(map@[m].1 as int) is None && self.attr_at(map@[m].1 as int) is Some
                        && self.attr_at(map@[m].1 as int)->0.contents@ == g0.attr_at(map@[m].0 as int)->0.contents@ by {
                        if m < map0.len() {
                            assert(map@[m] == map0[m]);
                            assert(before.attr_at(map0[m].1 as int) is Some);
                        } else {
                            let t = m - map0.len();
                            assert(map@[m] == (original_attributes_id@[t], cloned_attributes_id@[t]));
                        }
                    }
                    assert forall|m1: int, m2: int| 0 <= m1 < m2 < map@.len() implies #[trigger] map@[m1].1
                        != #[trigger] map@[m2].1 by {
                        if m2 < map0.len() {
                        } else if m1 >= map0.len() {
                            let t1 = m1 - map0.len();
                            let t2 = m2 - map0.len();
                            assert(cloned_attributes_id@[t1] != cloned_attributes_id@[t2]);
                        } else {
                            let t2 = m2 - map0.len();
                            assert(g0.attr_at(map0[m1].0 as int) is Some);
                            assert(before.attr_at(map0[m1].1 as int) is Some);
                            assert(before.attr_at(cloned_attributes_id@[t2] as int) is None);
                        }
                    }
                    assert forall|m: int| 0 <= m < map@.len() implies {
                        let jj = #[trigger] origin[m].0;
                        let j = origin[m].1;
                        &&& 0 <= jj < ka + 1
                        &&& clones@[jj] is Some
                        &&& 0 <= j < g0.node_at(nodes_ids@[jj] as int)->0.contents.attr_list().len()
                        &&& map@[m] == (
                            g0.node_at(nodes_ids@[jj] as int)->0.contents.attr_list()[j],
                            self.node_at(clones@[jj]->0 as int)->0.contents.attr_list()[j],
                        )
                    } by {
                        if m < map0.len() {
                            assert(origin[m] == origin0[m]);
                            let jj = origin0[m].0;
                            assert(clones@[jj] == clones0[jj]);
                            assert(before.node_at(clones0[jj]->0 as int) is Some);
                        } else {
                            let t = m - map0.len();
                            assert(origin[m] == (ka, t));
                        }
                    }
                    assert forall|jj: int, j: int| 0 <= jj < ka + 1 && #[trigger] clones@[jj] is Some && 0 <= j < g0.node_at(
                        nodes_ids@[jj] as int,
                    )->0.contents.attr_list().len() implies map@.contains(
                        (
                            #[trigger] g0.node_at(nodes_ids@[jj] as int)->0.contents.attr_list()[j],
                            self.node_at(clones@[jj]->0 as int)->0.contents.attr_list()[j],
                        ),
                    ) by {
                        if jj < ka {
                            assert(clones@[jj] == clones0[jj]);
                            assert(before.node_at(clones0[jj]->0 as int) is Some);
                            let pair = (
                                g0.node_at(nodes_ids@[jj] as int)->0.contents.attr_list()[j],
                                before.node_at(clones0[jj]->0 as int)->0.contents.attr_list()[j],
                            );
                            assert(map0.contains(pair));
                            let m = choose|m: int| 0 <= m < map0.len() && map0[m] == pair;
                            assert(map@[m] == pair);
                        } else {
                            assert(map@[map0.len() + j] == (original_attributes_id@[j], cloned_attributes_id@[j]));
                        }
                    }
                }
            }
            k = k + 1;
        }
        (clones, map)
    }

    /// Links the copied input pins: the copy `c` of an input pin `a` linked (in `g0`) to
    /// `o` is linked to the copy of `o`, or to `o` when `o` was not copied.
    #[verifier::rlimit(100)]
    #[verifier::spinoff_prover]
    fn copy_links(&mut self, map: &Vec<(AttributeID, AttributeID)>, Ghost(g0): Ghost<NodeGraph>)
        requires
            old(self).wf(),
            g0.wf(),
            old(self).link_map() == g0.link_map(),
            forall|t: int|
                0 <= t < map@.len() ==> g0.attr_at(#[trigger] map@[t].0 as int) is Some && g0.attr_at(
                    map@[t].1 as int,
                ) is None && old(self).attr_at(map@[t].1 as int) is Some && old(self).attr_at(
                    map@[t].1 as int,
                )->0.contents@ == g0.attr_at(map@[t].0 as int)->0.contents@,
            forall|m1: int, m2: int|
                0 <= m1 < m2 < map@.len() ==> #[trigger] map@[m1].1 != #[trigger] map@[m2].1,
            forall|a: int| #[trigger] g0.attr_at(a) is Some ==> old(self).attr_at(a) == g0.attr_at(a),
        ensures
            final(self).wf(),
            final(self).same_nodes_and_attributes(*old(self)),
            forall|a: AttributeID| #[trigger] g0.link_map().contains_key(a) ==> final(self).link_map().contains_key(a)
                && final(self).link_map()[a] == g0.link_map()[a],
            forall|t: int|
                0 <= t < map@.len() && g0.link_map().contains_key(#[trigger] map@[t].0) && !superseded(map@, t)
                    ==> final(self).link_map().contains_key(map@[t].1) && final(self).link_map()[map@[t].1]
                    == remap_attribute(map@, g0.link_map()[map@[t].0]),
            forall|t: int|
                0 <= t < map@.len() && (!g0.link_map().contains_key(#[trigger] map@[t].0) || superseded(map@, t))
                    ==> !final(self).link_map().contains_key(map@[t].1),
            forall|a: AttributeID| #[trigger] final(self).link_map().contains_key(a) ==> g0.link_map().contains_key(a)
                || exists|t: int| 0 <= t < map@.len() && map@[t].1 == a,
    {
        let ghost g1 = *self;
        proof {
            assert forall|t: int| 0 <= t < map@.len() implies !self.link_map().contains_key(#[trigger] map@[t].1) by {
                assert(g0.attr_at(map@[t].0 as int) is Some);
                if self.link_map().contains_key(map@[t].1) {
                    assert(g0.input_kind(map@[t].1 as int) is Some);
                }
            }
        }
        let ghost mapv = map@;
        let mut m: usize = 0;
        while m < map.len()
            invariant
                0 <= m <= map@.len(),
                map@ == mapv,
                g0.wf(),
                forall|t: int|
                    0 <= t < map@.len() ==> g0.attr_at(#[trigger] map@[t].0 as int) is Some && g0.attr_at(
                        map@[t].1 as int,
                    ) is None && g1.attr_at(map@[t].1 as int) is Some && g1.attr_at(map@[t].1 as int)->0.contents@
                        == g0.attr_at(map@[t].0 as int)->0.contents@,
                forall|m1: int, m2: int|
                    0 <= m1 < m2 < map@.len() ==> #[trigger] map@[m1].1 != #[trigger] map@[m2].1,
                forall|a: int| #[trigger] g0.attr_at(a) is Some ==> g1.attr_at(a) == g0.attr_at(a),
                self.wf(),
                self.nodes@ == g1.nodes@,
                self.attributes@ == g1.attributes@,
                self.free_nodes_list@ == g1.free_nodes_list@,
                self.free_attributes_list@ == g1.free_attributes_list@,
                self.zoom_level == g1.zoom_level,
                self.editing_node == g1.editing_node,
                forall|a: AttributeID| #[trigger] g0.link_map().contains_key(a) ==> self.link_map().contains_key(a)
                    && self.link_map()[a] == g0.link_map()[a],
                forall|t: int|
                    0 <= t < m && g0.link_map().contains_key(#[trigger] map@[t].0) && !superseded(map@, t)
                        ==> self.link_map().contains_key(map@[t].1) && self.link_map()[map@[t].1] == remap_attribute(
                        map@,
                        g0.link_map()[map@[t].0],
                    ),
                forall|t: int| m <= t < map@.len() ==> !self.link_map().contains_key(#[trigger] map@[t].1),
                forall|t: int|
                    0 <= t < m && (!g0.link_map().contains_key(#[trigger] map@[t].0) || superseded(map@, t))
                        ==> !self.link_map().contains_key(map@[t].1),
                forall|a: AttributeID| #[trigger] self.link_map().contains_key(a) ==> g0.link_map().contains_key(a)
                    || exists|t: int| 0 <= t < map@.len() && map@[t].1 == a,
            decreases map@.len() - m,
        {
            let (a, c) = map[m];
            let ghost l0 = self.link_map();
            let later = is_superseded(map, m);
            let found = if later {
                None
            } else {
                match self.links.get(&a) {
                    Some(o) => Some(*o),
                    None => None,
                }
            };
            match found {
                Some(o) => {
                    assert(g0.link_map().contains_key(a)) by {
                        if !g0.link_map().contains_key(a) {
                            let t = choose|t: int| 0 <= t < map@.len() && map@[t].1 == a;
                            assert(g0.attr_at(map@[t].0 as int) is Some);
                            assert(g0.attr_at(map@[t].1 as int) is None);
                            assert(g0.attr_at(map@[m as int].0 as int) is Some);
                        }
                    }
                    let target = lookup_attribute(&map, o);
                    proof {
                        lemma_remap_attribute(map@, o);
                        assert(g0.input_kind(a as int) is Some);
                        assert(g0.output_kind(o as int) == g0.input_kind(a as int));
                        assert(g0.attr_at(a as int) is Some);
                        self.lemma_same_contents_kinds(a as int, c as int);
                        assert(self.attr_at(a as int) == g0.attr_at(a as int));
                        assert(self.input_kind(a as int) == g0.input_kind(a as int));
                        assert(g0.attr_at(o as int) is Some);
                        assert(self.attr_at(o as int) == g0.attr_at(o as int));
                        if target != o {
                            let t = choose|t: int| 0 <= t < map@.len() && map@[t].0 == o && map@[t].1 == target;
                            self.lemma_same_contents_kinds(o as int, target as int);
                        }
                    }
                    let ghost l_prev = *self;
                    self.links.insert(c, target);
                    proof {
                        assert forall|t: int|
                            0 <= t < m + 1 && g0.link_map().contains_key(#[trigger] map@[t].0) && !superseded(map@, t)
                                implies self.link_map().contains_key(map@[t].1) && self.link_map()[map@[t].1]
                                == remap_attribute(map@, g0.link_map()[map@[t].0]) by {
                            if t < m {
                                assert(map@[t].1 != c);
                            }
                        }
                        assert forall|k2: AttributeID| #[trigger] g0.link_map().contains_key(k2) implies self.link_map().contains_key(k2)
                            && self.link_map()[k2] == g0.link_map()[k2] by {
                            assert(g0.input_kind(k2 as int) is Some);
                            assert(g0.attr_at(k2 as int) is Some);
                            assert(g0.attr_at(c as int) is None);
                        }
                        assert forall|k2: AttributeID| #[trigger] self.link_map().contains_key(k2) implies g0.link_map().contains_key(k2)
                            || exists|t: int| 0 <= t < map@.len() && map@[t].1 == k2 by {
                            if k2 == c {
                                assert(map@[m as int].1 == k2);
                            } else {
                                assert(l0.contains_key(k2));
                            }
                        }
                        l_prev.lemma_link_added_wf(*self, c, target);
                    }
                },
                None => {
                    assert(later || !g0.link_map().contains_key(a));
                },
            }
            let ghost m0 = m as int;
            m = m + 1;
            assert forall|t: int| m <= t < map@.len() implies !self.link_map().contains_key(#[trigger] map@[t].1) by {
                assert(map@[m0].1 != map@[t].1);
                assert(!l0.contains_key(map@[t].1));
            }
            assert forall|t: int|
                0 <= t < m && (!g0.link_map().contains_key(#[trigger] map@[t].0) || superseded(map@, t))
                    implies !self.link_map().contains_key(map@[t].1) by {
                if t < m0 {
                    assert(map@[t].1 != map@[m0].1);
                    assert(!l0.contains_key(map@[t].1));
                } else {
                    assert(!l0.contains_key(map@[m0].1));
                }
            }
        }
    }

    /// Duplicates the live nodes among `nodes_ids`, the copy of `nodes_ids[k]` placed
    /// at `positions[k]`; ids that name no live node (removed, or beyond the table) are
    /// skipped. Each copy gets the title, kind and attribute contents of its original.
    /// Links are copied too: an input pin of a copy is linked to the copy of its
    /// original's output, if that output's node was copied as well, and to the
    /// original's output otherwise. A node listed more than once is copied each time;
    /// its last copy is the one that counts: it alone gets the links, and links to the
    /// node's outputs go to it, while the earlier copies stay unlinked (`superseded`).
    /// Returns the copy of each id, and the pairs of original and copied attributes.
    #[verifier::rlimit(100)]
    #[verifier::spinoff_prover]
    pub fn duplicate_nodes(&mut self, nodes_ids: &Vec<NodeID>, positions: &Vec<[u32; 2]>) -> (r: (
        Vec<Option<NodeID>>,
        Vec<(AttributeID, AttributeID)>,
    ))
        requires
            old(self).wf(),
            positions@.len() == nodes_ids@.len(),
            old(self).node_slots() + nodes_ids@.len() < i32::MAX,
            old(self).attr_slots() + 6 * nodes_ids@.len() <= i32::MAX,
        ensures
            final(self).wf(),
            r.0@.len() == nodes_ids@.len(),
            forall|k: int|
                0 <= k < nodes_ids@.len() ==> (#[trigger] r.0@[k] is Some <==> old(self).node_at(
                    nodes_ids@[k] as int,
                ) is Some),
            forall|k: int|
                0 <= k < nodes_ids@.len() && #[trigger] r.0@[k] is Some ==> old(self).copied_node(
                    *final(self),
                    nodes_ids@[k],
                    r.0@[k]->0,
                    positions@[k],
                ),
            forall|i: int| #[trigger] old(self).node_at(i) is Some ==> final(self).node_at(i) == old(self).node_at(i),
            forall|a: int| #[trigger] old(self).attr_at(a) is Some ==> final(self).attr_at(a) == old(self).attr_at(a),
            forall|m: int|
                0 <= m < r.1@.len() ==> old(self).attr_at(#[trigger] r.1@[m].0 as int) is Some && old(self).attr_at(
                    r.1@[m].1 as int,
                ) is None,
            forall|k: int, j: int|
                0 <= k < nodes_ids@.len() && #[trigger] r.0@[k] is Some && 0 <= j < old(self).node_at(
                    nodes_ids@[k] as int,
                )->0.contents.attr_list().len() ==> r.1@.contains(
                    (
                        #[trigger] old(self).node_at(nodes_ids@[k] as int)->0.contents.attr_list()[j],
                        final(self).node_at(r.0@[k]->0 as int)->0.contents.attr_list()[j],
                    ),
                ),
            forall|a: AttributeID| #[trigger] old(self).link_map().contains_key(a) ==> final(self).link_map().contains_key(a)
                && final(self).link_map()[a] == old(self).link_map()[a],
            forall|m: int|
                0 <= m < r.1@.len() && old(self).link_map().contains_key(#[trigger] r.1@[m].0) && !superseded(r.1@, m)
                    ==> final(self).link_map().contains_key(r.1@[m].1) && final(self).link_map()[r.1@[m].1]
                    == remap_attribute(r.1@, old(self).link_map()[r.1@[m].0]),
            forall|m: int|
                0 <= m < r.1@.len() && (!old(self).link_map().contains_key(#[trigger] r.1@[m].0) || superseded(r.1@, m))
                    ==> !final(self).link_map().contains_key(r.1@[m].1),
            forall|a: AttributeID| #[trigger] final(self).link_map().contains_key(a) ==> old(self).link_map().contains_key(a)
                || exists|m: int| 0 <= m < r.1@.len() && r.1@[m].1 == a,
    {
        let ghost g0 = *self;
        let (clones, map) = self.copy_nodes(nodes_ids, positions);
        proof {
            assert(g0.wf());
        }
        let ghost g1 = *self;
        self.copy_links(&map, Ghost(g0));
        proof {
            assert forall|k: int| 0 <= k < nodes_ids@.len() && #[trigger] clones@[k] is Some implies g0.copied_node(
                *self,
                nodes_ids@[k],
                clones@[k]->0,
                positions@[k],
            ) by {
                assert(g0.copied_node(g1, nodes_ids@[k], clones@[k]->0, positions@[k]));
            }
        }
        (clones, map)
    }

    fn get_new_node_id(&mut self) -> (id: NodeID)
        requires
            old(self).nodes@.len() < i32::MAX,
            forall|k: int|
                0 <= k < old(self).free_nodes_list@.len() ==> 0 <= #[trigger] old(
                    self,
                ).free_nodes_list@[k] < old(self).nodes@.len(),
        ensures
            final(self).attributes == old(self).attributes,
            final(self).links == old(self).links,
            final(self).free_attributes_list == old(self).free_attributes_list,
            final(self).zoom_level == old(self).zoom_level,
            final(self).editing_node == old(self).editing_node,
            old(self).free_nodes_list@.len() > 0 ==> {
                &&& id == old(self).free_nodes_list@.last()
                &&& final(self).free_nodes_list@ == old(self).free_nodes_list@.drop_last()
                &&& final(self).nodes@ == old(self).nodes@
            },
            old(self).free_nodes_list@.len() == 0 ==> {
                &&& id == old(self).nodes@.len()
                &&& final(self).free_nodes_list@ == old(self).free_nodes_list@
                &&& final(self).nodes@ == old(self).nodes@.push(None)
            },
            0 <= id < final(self).nodes@.len(),
    {
        if let Some(id) = self.free_nodes_list.pop() {
            id
        } else {
            let id = self.nodes.len() as NodeID;
            self.nodes.push(None);
            id
        }
    }

    fn get_new_attribute_id(&mut self) -> (id: AttributeID)
        requires
            old(self).attributes@.len() < i32::MAX,
            forall|k: int|
                0 <= k < old(self).free_attributes_list@.len() ==> 0 <= #[trigger] old(
                    self,
                ).free_attributes_list@[k] < old(self).attributes@.len(),
        ensures
            final(self).nodes == old(self).nodes,
            final(self).links == old(self).links,
            final(self).free_nodes_list == old(self).free_nodes_list,
            final(self).zoom_level == old(self).zoom_level,
            final(self).editing_node == old(self).editing_node,
            old(self).free_attributes_list@.len() > 0 ==> {
                &&& id == old(self).free_attributes_list@.last()
                &&& final(self).free_attributes_list@
                    == old(self).free_attributes_list@.drop_last()
                &&& final(self).attributes@ == old(self).attributes@
            },
            old(self).free_attributes_list@.len() == 0 ==> {
                &&& id == old(self).attributes@.len()
                &&& final(self).free_attributes_list@ == old(self).free_attributes_list@
                &&& final(self).attributes@ == old(self).attributes@.push(None)
            },
            0 <= id < final(self).attributes@.len(),
    {
        if let Some(id) = self.free_attributes_list.pop() {
            id
        } else {
            let id = self.attributes.len() as AttributeID;
            self.attributes.push(None);
            id
        }
    }
}

} // verus!
