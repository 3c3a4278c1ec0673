//! The flow tree: which program points lead to which.
//!
//! A node points backwards, to the nodes that control comes from.

use vstd::prelude::*;

use crate::ids::{FlowId, LuaDeclId, LuaSyntaxId};
use crate::infer::InferFailReason;

verus! {

/// What happens at a flow node.  Syntax is named by its id.
#[derive(Debug, Clone, Copy)]
pub enum FlowNodeKind {
    Start,
    Unreachable,
    BranchLabel,
    LoopLabel,
    /// The target of a `goto`, by its interned name.
    NamedLabel(u32),
    Break,
    Return,
    /// The position from which on a declaration is in scope.
    DeclPosition(u32),
    Assignment(LuaSyntaxId),
    ImplFunc(LuaSyntaxId),
    TrueCondition(LuaSyntaxId),
    FalseCondition(LuaSyntaxId),
    ForIStat(LuaSyntaxId),
    TagCast(LuaSyntaxId),
}

/// Where control comes from.
#[derive(Debug)]
pub enum FlowAntecedent {
    Single(FlowId),
    Multiple(Vec<FlowId>),
}

#[derive(Debug)]
pub struct FlowNode {
    pub id: FlowId,
    pub kind: FlowNodeKind,
    pub antecedent: Option<FlowAntecedent>,
}

/// The one node that control comes from.
pub open spec fn single_antecedent(flow_node: FlowNode) -> Result<FlowId, InferFailReason> {
    match flow_node.antecedent {
        Some(FlowAntecedent::Single(id)) => Ok(id),
        _ => Err(InferFailReason::Nothing),
    }
}

/// All the nodes that control comes from, in order.
pub open spec fn multi_antecedents(flow_node: FlowNode) -> Result<Seq<FlowId>, InferFailReason> {
    match flow_node.antecedent {
        Some(FlowAntecedent::Single(id)) => Ok(seq![id]),
        Some(FlowAntecedent::Multiple(ids)) => Ok(ids@),
        None => Err(InferFailReason::Nothing),
    }
}

pub fn get_single_antecedent(flow_node: &FlowNode) -> (res: Result<FlowId, InferFailReason>)
    ensures
        res == single_antecedent(*flow_node),
{
    match &flow_node.antecedent {
        Some(FlowAntecedent::Single(id)) => Ok(*id),
        _ => Err(InferFailReason::Nothing),
    }
}

pub fn get_multi_antecedents(flow_node: &FlowNode) -> (res: Result<Vec<FlowId>, InferFailReason>)
    ensures
        match res {
            Ok(ids) => multi_antecedents(*flow_node) == Ok::<Seq<FlowId>, InferFailReason>(ids@),
            Err(e) => multi_antecedents(*flow_node) == Err::<Seq<FlowId>, InferFailReason>(e),
        },
{
    match &flow_node.antecedent {
        Some(FlowAntecedent::Single(id)) => {
            let mut ids: Vec<FlowId> = Vec::new();
            ids.push(*id);
            assert(ids@ =~= seq![*id]);
            Ok(ids)
        },
        Some(FlowAntecedent::Multiple(multiple)) => {
            let mut ids: Vec<FlowId> = Vec::new();
            let mut i: usize = 0;
            while i < multiple.len()
                invariant
                    i <= multiple@.len(),
                    ids@ == multiple@.take(i as int),
                decreases multiple@.len() - i,
            {
                ids.push(multiple[i]);
                i += 1;
                assert(ids@ =~= multiple@.take(i as int));
            }
            assert(ids@ =~= multiple@);
            Ok(ids)
        },
        None => Err(InferFailReason::Nothing),
    }
}

/// The first syntax id filed under `decl_id`.
pub open spec fn find_decl_expr(
    entries: Seq<(LuaDeclId, LuaSyntaxId)>,
    decl_id: LuaDeclId,
) -> Option<LuaSyntaxId>
    decreases entries.len(),
{
    if entries.len() == 0 {
        None
    } else if entries[0].0 == decl_id {
        Some(entries[0].1)
    } else {
        find_decl_expr(entries.drop_first(), decl_id)
    }
}

/// The flow tree of a file.
#[derive(Debug)]
pub struct FlowTree {
    pub nodes: Vec<FlowNode>,
    /// The expressions that declarations are bound to.
    pub decl_ref_exprs: Vec<(LuaDeclId, LuaSyntaxId)>,
    /// The declarations that are bound to one of several values of a call.
    pub multi_return_decls: Vec<LuaDeclId>,
}

impl FlowTree {
    /// A node stands at the place that its id says.
    pub open spec fn wf(self) -> bool {
        forall|i: int| 0 <= i < self.nodes@.len() ==> (#[trigger] self.nodes@[i]).id.0 == i
    }

    pub open spec fn node(self, flow_id: FlowId) -> Option<FlowNode> {
        if flow_id.0 < self.nodes@.len() {
            Some(self.nodes@[flow_id.0 as int])
        } else {
            None
        }
    }

    pub fn get_flow_node(&self, flow_id: FlowId) -> (node: Option<&FlowNode>)
        ensures
            match node {
                Some(n) => self.node(flow_id) == Some(*n),
                None => self.node(flow_id) is None,
            },
    {
        let index: usize = flow_id.0 as usize;
        if index < self.nodes.len() {
            Some(&self.nodes[index])
        } else {
            None
        }
    }

    pub fn get_decl_ref_expr(&self, decl_id: &LuaDeclId) -> (expr: Option<LuaSyntaxId>)
        ensures
            expr == find_decl_expr(self.decl_ref_exprs@, *decl_id),
    {
        let mut i: usize = 0;
        assert(self.decl_ref_exprs@.skip(0) =~= self.decl_ref_exprs@);
        while i < self.decl_ref_exprs.len()
            invariant
                i <= self.decl_ref_exprs@.len(),
                find_decl_expr(self.decl_ref_exprs@, *decl_id) == find_decl_expr(
                    self.decl_ref_exprs@.skip(i as int),
                    *decl_id,
                ),
            decreases self.decl_ref_exprs@.len() - i,
        {
            assert(self.decl_ref_exprs@.skip(i as int).drop_first() =~= self.decl_ref_exprs@.skip(
                i + 1,
            ));
            if self.decl_ref_exprs[i].0 == *decl_id {
                return Some(self.decl_ref_exprs[i].1);
            }
            i += 1;
        }
        None
    }

    pub fn has_decl_multi_return_refs(&self, decl_id: &LuaDeclId) -> (res: bool)
        ensures
            res == self.multi_return_decls@.contains(*decl_id),
    {
        let mut i: usize = 0;
        while i < self.multi_return_decls.len()
            invariant
                i <= self.multi_return_decls@.len(),
                forall|j: int| 0 <= j < i ==> self.multi_return_decls@[j] != *decl_id,
            decreases self.multi_return_decls@.len() - i,
        {
            if self.multi_return_decls[i] == *decl_id {
                return true;
            }
            i += 1;
        }
        false
    }
}

} // verus!
