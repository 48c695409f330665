//! The guided-procedure panel's bookkeeping: how each step uses a global variable, and
//! the title under which a step is listed. The values themselves are whatever the
//! panel edits (numbers on screen); the rules here do not look into them.
use vstd::prelude::*;

use crate::node_graph::contents::NodeID;
use crate::node_graph::graph::NodeGraph;

verus! {

/// How a step uses a global variable.
#[derive(Debug, Clone, Copy, PartialEq, Eq)]
pub enum GlobalVarUsage<T> {
    /// The user sets it, at this value.
    User(T),
    /// It is held at this value.
    Still(T),
    /// It moves from the first value to the second.
    Animated(T, T),
}

/// The kinds of usage, as the panel's chooser offers them.
#[derive(Debug, Clone, Copy, PartialEq, Eq, Structural)]
pub enum VarUsageType {
    User,
    Still,
    Animated,
}

/// The kind of a usage.
pub open spec fn usage_type_of<T>(u: GlobalVarUsage<T>) -> VarUsageType {
    match u {
        GlobalVarUsage::User(_) => VarUsageType::User,
        GlobalVarUsage::Still(_) => VarUsageType::Still,
        GlobalVarUsage::Animated(_, _) => VarUsageType::Animated,
    }
}

/// The value a usage starts from: its value, or the start of its animation.
pub open spec fn start_value<T>(u: GlobalVarUsage<T>) -> T {
    match u {
        GlobalVarUsage::User(v) => v,
        GlobalVarUsage::Still(v) => v,
        GlobalVarUsage::Animated(s, _) => s,
    }
}

/// The usage after the user chose kind `selected`: unchanged when the kind stays;
/// otherwise of the new kind, starting from the old start value (an animation starts
/// and ends there).
pub open spec fn switched_usage<T>(u: GlobalVarUsage<T>, selected: VarUsageType) -> GlobalVarUsage<T> {
    if usage_type_of(u) == selected {
        u
    } else {
        match selected {
            VarUsageType::User => GlobalVarUsage::User(start_value(u)),
            VarUsageType::Still => GlobalVarUsage::Still(start_value(u)),
            VarUsageType::Animated => GlobalVarUsage::Animated(start_value(u), start_value(u)),
        }
    }
}

impl<T: Copy> GlobalVarUsage<T> {
    /// The kind of this usage.
    pub fn usage_type(&self) -> (r: VarUsageType)
        ensures
            r == usage_type_of(*self),
    {
        match self {
            GlobalVarUsage::User(_) => VarUsageType::User,
            GlobalVarUsage::Still(_) => VarUsageType::Still,
            GlobalVarUsage::Animated(_, _) => VarUsageType::Animated,
        }
    }

    /// The value that showing a step sets the variable to: its value, or the start of
    /// its animation.
    pub fn shown_value(&self) -> (r: T)
        ensures
            r == start_value(*self),
    {
        match self {
            GlobalVarUsage::User(v) => *v,
            GlobalVarUsage::Still(v) => *v,
            GlobalVarUsage::Animated(s, _) => *s,
        }
    }

    /// This usage after the user chose kind `selected` (see `switched_usage`).
    pub fn switch_to(self, selected: VarUsageType) -> (r: Self)
        ensures
            r == switched_usage(self, selected),
            usage_type_of(r) == selected,
    {
        match self {
            GlobalVarUsage::User(user_value) => match selected {
                VarUsageType::Still => GlobalVarUsage::Still(user_value),
                VarUsageType::Animated => GlobalVarUsage::Animated(user_value, user_value),
                VarUsageType::User => GlobalVarUsage::User(user_value),
            },
            GlobalVarUsage::Still(still_value) => match selected {
                VarUsageType::Still => GlobalVarUsage::Still(still_value),
                VarUsageType::Animated => GlobalVarUsage::Animated(still_value, still_value),
                VarUsageType::User => GlobalVarUsage::User(still_value),
            },
            GlobalVarUsage::Animated(start_value, end_value) => match selected {
                VarUsageType::Still => GlobalVarUsage::Still(start_value),
                VarUsageType::Animated => GlobalVarUsage::Animated(start_value, end_value),
                VarUsageType::User => GlobalVarUsage::User(start_value),
            },
        }
    }
}

/// The (name, value) pairs that showing a step sets, in the order of `usages`: every
/// Still or Animated variable at the value its usage starts from. Variables the user
/// controls are left out, so that their values stay as the user set them.
pub open spec fn shown_spec<T>(usages: Seq<(String, GlobalVarUsage<T>)>) -> Seq<(Seq<char>, T)>
    decreases usages.len(),
{
    if usages.len() == 0 {
        seq![]
    } else {
        let rest = shown_spec(usages.drop_last());
        match usages.last().1 {
            GlobalVarUsage::User(_) => rest,
            _ => rest.push((usages.last().0@, start_value(usages.last().1))),
        }
    }
}

/// The names and values of a list of pairs.
pub open spec fn pairs_view<T>(r: Seq<(String, T)>) -> Seq<(Seq<char>, T)> {
    r.map_values(|p: (String, T)| (p.0@, p.1))
}

/// The (name, value) pairs that showing a step sets (see `shown_spec`).
pub fn shown_pairs<T: Copy>(usages: &Vec<(String, GlobalVarUsage<T>)>) -> (r: Vec<(String, T)>)
    ensures
        pairs_view(r@) == shown_spec(usages@),
{
    let mut r: Vec<(String, T)> = Vec::new();
    let mut i: usize = 0;
    assert(pairs_view(r@) =~= shown_spec(usages@.take(0)));
    while i < usages.len()
        invariant
            i <= usages@.len(),
            pairs_view(r@) == shown_spec(usages@.take(i as int)),
        decreases usages@.len() - i,
    {
        assert(usages@.take(i + 1).drop_last() =~= usages@.take(i as int));
        match &usages[i].1 {
            GlobalVarUsage::User(_) => {},
            _ => {
                let value = usages[i].1.shown_value();
                let ghost before = r@;
                r.push((usages[i].0.clone(), value));
                assert(pairs_view(r@) =~= pairs_view(before).push((usages@[i as int].0@, value)));
            },
        }
        i = i + 1;
    }
    assert(usages@.take(usages@.len() as int) =~= usages@);
    r
}

/// Choosing the kind a usage already has leaves it as it is, and choosing twice is
/// choosing once.
pub proof fn lemma_switch_idempotent<T>(u: GlobalVarUsage<T>, selected: VarUsageType)
    ensures
        switched_usage(u, usage_type_of(u)) == u,
        switched_usage(switched_usage(u, selected), selected) == switched_usage(u, selected),
{
}

/// The title under which a step is listed: that of the first node it shows, if the
/// graph has it.
pub open spec fn step_title_of(graph: NodeGraph, renderables: Seq<NodeID>) -> Seq<char> {
    if renderables.len() == 0 {
        "No renderable in list"@
    } else {
        match graph.node_at(renderables[0] as int) {
            Some(node) => node.title@,
            None => "unknown node, check the frzp file"@,
        }
    }
}

/// The title under which a step that shows `renderables` is listed.
pub fn step_title(graph: &NodeGraph, renderables: &Vec<NodeID>) -> (r: String)
    ensures
        r@ == step_title_of(*graph, renderables@),
{
    if renderables.len() > 0 {
        match graph.get_node(renderables[0]) {
            Some(node) => node.title.clone(),
            None => String::from_str("unknown node, check the frzp file"),
        }
    } else {
        String::from_str("No renderable in list")
    }
}

} // verus!
