//! What is worked out once for a flow node and then remembered: what a condition is about, which
//! references an assignment writes, and which points lead to a branch label.

use std::sync::Arc;

use vstd::prelude::*;

use crate::cache::{
    get_assignment_info, get_branch_inputs, get_condition_info, indexed_write_is_local,
    set_assignment_info, set_branch_inputs, set_condition_info, AssignmentView, CacheView,
    FlowAssignmentInfo, FlowConditionInfo, LuaInferCache,
};
use crate::db::{
    extends, lemma_extends_is_reflexive, lemma_extends_is_transitive, DbIndex, Log, Replay,
    SemanticModel,
};
use crate::flow_tree::{get_multi_antecedents, multi_antecedents, FlowNode, FlowNodeKind, FlowTree};
use crate::ids::{FlowId, LuaSyntaxId, VarRefId};
use crate::infer::InferFailReason;
use crate::keyed::{flow_id_set_contents, FlowIdSet};
use crate::syntax::{find_node, LuaChunk, LuaExpr, LuaVarExpr, UnaryOperator};
use crate::types::LuaType;

verus! {

broadcast use {lemma_extends_is_reflexive, lemma_extends_is_transitive};

/// The reference that an index expression under `not` and parentheses is, and the one that its
/// prefix is.
pub open spec fn condition_index_refs(condition: LuaExpr, rp: Replay) -> (
    (Option<VarRefId>, Option<VarRefId>),
    Replay,
)
    decreases condition,
{
    match condition {
        LuaExpr::IndexExpr(index_expr) => {
            let (index_ref, rp) = rp.get_var_expr_var_ref_id(condition);
            match (index_ref, index_expr.prefix_expr) {
                (Some(_), Some(prefix_expr)) => {
                    let (prefix_ref, rp) = rp.get_var_expr_var_ref_id(prefix_expr);
                    ((index_ref, prefix_ref), rp)
                },
                _ => ((index_ref, None), rp),
            }
        },
        LuaExpr::ParenExpr(paren_expr) => match paren_expr.expr {
            Some(expr) => condition_index_refs(expr, rp),
            None => ((None, None), rp),
        },
        LuaExpr::UnaryExpr(unary_expr) => if unary_expr.op == Some(UnaryOperator::OpNot) {
            match unary_expr.expr {
                Some(expr) => condition_index_refs(expr, rp),
                None => ((None, None), rp),
            }
        } else {
            ((None, None), rp)
        },
        _ => ((None, None), rp),
    }
}

pub fn get_condition_index_var_refs<M: SemanticModel>(
    db: &mut DbIndex<M>,
    cache: &mut LuaInferCache,
    condition: &LuaExpr,
) -> (res: (Option<VarRefId>, Option<VarRefId>))
    ensures
        final(db).steps() == old(db).steps(),
        extends(final(db).log(), old(db).log()),
        forall|full: Log| #[trigger]
            extends(full, final(db).log()) ==> condition_index_refs(
                *condition,
                old(db).replay(full, old(cache)@),
            ) == (res, final(db).replay(full, final(cache)@)),
    decreases *condition,
{
    match condition {
        LuaExpr::IndexExpr(index_expr) => {
            let index_var_ref_id = db.get_var_expr_var_ref_id(cache, condition);
            let index_prefix_var_ref_id = if index_var_ref_id.is_some() {
                match &index_expr.prefix_expr {
                    Some(prefix_expr) => db.get_var_expr_var_ref_id(cache, prefix_expr),
                    None => None,
                }
            } else {
                None
            };
            (index_var_ref_id, index_prefix_var_ref_id)
        },
        LuaExpr::ParenExpr(paren_expr) => match &paren_expr.expr {
            Some(expr) => get_condition_index_var_refs(db, cache, expr),
            None => (None, None),
        },
        LuaExpr::UnaryExpr(unary_expr) => {
            let op = match unary_expr.op {
                Some(op) => op,
                None => return (None, None),
            };
            if op != UnaryOperator::OpNot {
                return (None, None);
            }
            match &unary_expr.expr {
                Some(expr) => get_condition_index_var_refs(db, cache, expr),
                None => (None, None),
            }
        },
        _ => (None, None),
    }
}

/// What the condition at a flow node is about; once worked out it is remembered.
#[verifier::opaque]
pub open spec fn condition_info(
    root: LuaChunk,
    flow_id: FlowId,
    condition_id: LuaSyntaxId,
    rp: Replay,
) -> (Result<FlowConditionInfo, InferFailReason>, Replay) {
    match rp.cache.condition_info_of(flow_id) {
        Some(info) => (Ok(info), rp),
        None => match find_node(root.exprs@, condition_id) {
            None => (Err(InferFailReason::Nothing), rp),
            Some(expr) => {
                let ((index_var_ref_id, index_prefix_var_ref_id), rp) = condition_index_refs(
                    expr,
                    rp,
                );
                let info = FlowConditionInfo { expr, index_var_ref_id, index_prefix_var_ref_id };
                (Ok(info), rp.with_cache(rp.cache.with_condition_info(flow_id, info)))
            },
        },
    }
}

pub fn get_flow_condition_info<M: SemanticModel>(
    db: &mut DbIndex<M>,
    cache: &mut LuaInferCache,
    root: &LuaChunk,
    flow_id: FlowId,
    condition_id: LuaSyntaxId,
) -> (res: Result<Arc<FlowConditionInfo>, InferFailReason>)
    requires
        flow_id.0 < usize::MAX,
    ensures
        final(db).steps() == old(db).steps(),
        extends(final(db).log(), old(db).log()),
        forall|full: Log| #[trigger]
            extends(full, final(db).log()) ==> condition_info(
                *root,
                flow_id,
                condition_id,
                old(db).replay(full, old(cache)@),
            ) == (
                match res {
                    Ok(info) => Ok(*info),
                    Err(e) => Err(e),
                },
                final(db).replay(full, final(cache)@),
            ),
{
    proof {
        reveal(condition_info);
    }
    if let Some(info) = get_condition_info(cache, flow_id) {
        return Ok(info);
    }
    let expr = match root.find_expr(condition_id) {
        Some(expr) => expr,
        None => return Err(InferFailReason::Nothing),
    };
    let (index_var_ref_id, index_prefix_var_ref_id) = get_condition_index_var_refs(
        db,
        cache,
        &expr,
    );
    let info = Arc::new(FlowConditionInfo { expr, index_var_ref_id, index_prefix_var_ref_id });
    set_condition_info(cache, flow_id, info.clone());
    Ok(info)
}

/// `acc`, and the references that `vars` are, from `from` on.
pub open spec fn var_refs(
    vars: Seq<LuaVarExpr>,
    from: int,
    acc: Seq<Option<VarRefId>>,
    rp: Replay,
) -> (Seq<Option<VarRefId>>, Replay)
    decreases vars.len() - from,
{
    if from < 0 || from >= vars.len() {
        (acc, rp)
    } else {
        let (var_ref, rp) = rp.get_var_expr_var_ref_id(vars[from].as_expr());
        var_refs(vars, from + 1, acc.push(var_ref), rp)
    }
}

/// What the assignment at a flow node assigns, and to which references; once worked out it is
/// remembered.
#[verifier::opaque]
pub open spec fn assignment_info(
    root: LuaChunk,
    flow_id: FlowId,
    assign_id: LuaSyntaxId,
    rp: Replay,
) -> (Result<AssignmentView, InferFailReason>, Replay) {
    match rp.cache.assignment_info_of(flow_id) {
        Some(info) => (Ok(info), rp),
        None => match find_node(root.assign_stats@, assign_id) {
            None => (Err(InferFailReason::Nothing), rp),
            Some(assign_stat) => {
                let (var_ref_ids, rp) = var_refs(assign_stat.vars@, 0, Seq::empty(), rp);
                let info = AssignmentView { assign_stat: *assign_stat, var_ref_ids };
                (Ok(info), rp.with_cache(rp.cache.with_assignment_info(flow_id, info)))
            },
        },
    }
}

pub fn get_flow_assignment_info<M: SemanticModel>(
    db: &mut DbIndex<M>,
    cache: &mut LuaInferCache,
    root: &LuaChunk,
    flow_id: FlowId,
    assign_id: LuaSyntaxId,
) -> (res: Result<Arc<FlowAssignmentInfo>, InferFailReason>)
    requires
        flow_id.0 < usize::MAX,
    ensures
        final(db).steps() == old(db).steps(),
        extends(final(db).log(), old(db).log()),
        forall|full: Log| #[trigger]
            extends(full, final(db).log()) ==> assignment_info(
                *root,
                flow_id,
                assign_id,
                old(db).replay(full, old(cache)@),
            ) == (
                match res {
                    Ok(info) => Ok(info@),
                    Err(e) => Err(e),
                },
                final(db).replay(full, final(cache)@),
            ),
{
    proof {
        reveal(assignment_info);
    }
    if let Some(info) = get_assignment_info(cache, flow_id) {
        return Ok(info);
    }
    let assign_stat = match root.find_assign_stat(assign_id) {
        Some(assign_stat) => assign_stat,
        None => return Err(InferFailReason::Nothing),
    };
    let mut var_ref_ids: Vec<Option<VarRefId>> = Vec::new();
    let mut i: usize = 0;
    while i < assign_stat.vars.len()
        invariant
            i <= assign_stat.vars@.len(),
            db.steps() == old(db).steps(),
            extends(db.log(), old(db).log()),
            forall|full: Log| #[trigger]
                extends(full, db.log()) ==> var_refs(
                    assign_stat.vars@,
                    0,
                    Seq::empty(),
                    old(db).replay(full, old(cache)@),
                ) == var_refs(
                    assign_stat.vars@,
                    i as int,
                    var_ref_ids@,
                    db.replay(full, cache@),
                ),
        decreases assign_stat.vars@.len() - i,
    {
        let var_ref_id = db.get_var_expr_var_ref_id(cache, &assign_stat.vars[i].to_expr());
        var_ref_ids.push(var_ref_id);
        i += 1;
    }
    let info = Arc::new(FlowAssignmentInfo { assign_stat, var_ref_ids });
    set_assignment_info(cache, flow_id, info.clone());
    Ok(info)
}

/// How many of the first `n` numbers are not in `visited`.
pub open spec fn unvisited(n: nat, visited: Set<u32>) -> nat
    decreases n,
{
    if n == 0 {
        0
    } else {
        let below = unvisited((n - 1) as nat, visited);
        if n - 1 <= u32::MAX && visited.contains((n - 1) as u32) {
            below
        } else {
            below + 1
        }
    }
}

/// A number that is visited for the first time leaves fewer to visit.
pub proof fn lemma_visiting_leaves_fewer(n: nat, visited: Set<u32>, id: u32)
    ensures
        unvisited(n, visited.insert(id)) <= unvisited(n, visited),
        id < n && !visited.contains(id) ==> unvisited(n, visited.insert(id)) < unvisited(
            n,
            visited,
        ),
    decreases n,
{
    if n > 0 {
        lemma_visiting_leaves_fewer((n - 1) as nat, visited, id);
    }
}

/// The points that lead to a branch label: `acc`, and what is behind the `pending` nodes, where
/// branch labels are replaced by what leads to them.  Nodes are taken from the end; a label that
/// is met again adds nothing; inputs that `cache` knows are taken from there.
pub open spec fn flattened(
    tree: FlowTree,
    cache: CacheView,
    pending: Seq<FlowId>,
    visited: Set<u32>,
    acc: Seq<FlowId>,
) -> Result<Seq<FlowId>, InferFailReason>
    decreases unvisited(tree.nodes@.len(), visited), pending.len(),
{
    if pending.len() == 0 {
        Ok(acc)
    } else {
        let flow_id = pending.last();
        let rest = pending.drop_last();
        match tree.node(flow_id) {
            None => Err(InferFailReason::Nothing),
            Some(node) => if !(node.kind is BranchLabel) {
                flattened(tree, cache, rest, visited, acc.push(flow_id))
            } else if visited.contains(flow_id.0) {
                flattened(tree, cache, rest, visited, acc)
            } else {
                proof {
                    lemma_visiting_leaves_fewer(tree.nodes@.len(), visited, flow_id.0);
                }
                match cache.branch_inputs_of(flow_id) {
                    Some(inputs) => flattened(
                        tree,
                        cache,
                        rest,
                        visited.insert(flow_id.0),
                        acc + inputs,
                    ),
                    None => match multi_antecedents(node) {
                        Err(e) => Err(e),
                        Ok(antecedents) => flattened(
                            tree,
                            cache,
                            rest + antecedents,
                            visited.insert(flow_id.0),
                            acc,
                        ),
                    },
                }
            },
        }
    }
}

/// The points that lead to a branch label, and the cache once it knows them.
pub open spec fn branch_inputs(tree: FlowTree, flow_node: FlowNode, cache: CacheView) -> (
    Result<Seq<FlowId>, InferFailReason>,
    CacheView,
) {
    match cache.branch_inputs_of(flow_node.id) {
        Some(inputs) => (Ok(inputs), cache),
        None => match multi_antecedents(flow_node) {
            Err(e) => (Err(e), cache),
            Ok(antecedents) => match flattened(
                tree,
                cache,
                antecedents,
                Set::empty(),
                Seq::empty(),
            ) {
                Err(e) => (Err(e), cache),
                Ok(inputs) => (Ok(inputs), cache.with_branch_inputs(flow_node.id, inputs)),
            },
        },
    }
}

/// Adds `more` to the end of `ids`.
fn push_all(ids: &mut Vec<FlowId>, more: &Vec<FlowId>)
    ensures
        final(ids)@ == old(ids)@ + more@,
{
    let mut i: usize = 0;
    assert(ids@ =~= old(ids)@ + more@.take(0));
    while i < more.len()
        invariant
            i <= more@.len(),
            ids@ == old(ids)@ + more@.take(i as int),
        decreases more@.len() - i,
    {
        ids.push(more[i]);
        i += 1;
        assert(ids@ =~= old(ids)@ + more@.take(i as int));
    }
    assert(more@.take(i as int) =~= more@);
}

pub fn get_branch_label_flow_ids(
    tree: &FlowTree,
    cache: &mut LuaInferCache,
    flow_node: &FlowNode,
) -> (res: Result<Arc<Vec<FlowId>>, InferFailReason>)
    requires
        flow_node.id.0 < usize::MAX,
    ensures
        branch_inputs(*tree, *flow_node, old(cache)@) == (
            match res {
                Ok(ids) => Ok::<Seq<FlowId>, InferFailReason>(ids@),
                Err(e) => Err(e),
            },
            final(cache)@,
        ),
{
    if let Some(flow_ids) = get_branch_inputs(cache, flow_node.id) {
        return Ok(flow_ids);
    }
    let mut pending = match get_multi_antecedents(flow_node) {
        Ok(pending) => pending,
        Err(e) => return Err(e),
    };
    let ghost antecedents = pending@;
    let mut visited_labels = FlowIdSet::new();
    let mut branch_flow_ids: Vec<FlowId> = Vec::new();
    while pending.len() > 0
        invariant
            cache@ == old(cache)@,
            flattened(*tree, cache@, antecedents, Set::empty(), Seq::empty()) == flattened(
                *tree,
                cache@,
                pending@,
                flow_id_set_contents(visited_labels),
                branch_flow_ids@,
            ),
            cache@.branch_inputs_of(flow_node.id) is None,
            multi_antecedents(*flow_node) == Ok::<Seq<FlowId>, InferFailReason>(antecedents),
        decreases
            unvisited(tree.nodes@.len(), flow_id_set_contents(visited_labels)),
            pending@.len(),
    {
        let ghost before = pending@;
        let flow_id = pending.pop().unwrap();
        assert(pending@ =~= before.drop_last());
        let branch_flow_node = match tree.get_flow_node(flow_id) {
            Some(branch_flow_node) => branch_flow_node,
            None => return Err(InferFailReason::Nothing),
        };
        match &branch_flow_node.kind {
            FlowNodeKind::BranchLabel => {
                proof {
                    lemma_visiting_leaves_fewer(
                        tree.nodes@.len(),
                        flow_id_set_contents(visited_labels),
                        flow_id.0,
                    );
                }
                let ghost seen = flow_id_set_contents(visited_labels);
                if !visited_labels.insert(flow_id.0) {
                    assert(seen.insert(flow_id.0) =~= seen);
                    continue ;
                }
                match get_branch_inputs(cache, flow_id) {
                    Some(cached_flow_ids) => {
                        push_all(&mut branch_flow_ids, &*cached_flow_ids);
                    },
                    None => {
                        let more = match get_multi_antecedents(branch_flow_node) {
                            Ok(more) => more,
                            Err(e) => return Err(e),
                        };
                        push_all(&mut pending, &more);
                    },
                }
            },
            _ => {
                branch_flow_ids.push(flow_id);
            },
        }
    }
    // Merge fans repeat across many queries, so the flattened inputs are shared once known.
    let branch_flow_ids = Arc::new(branch_flow_ids);
    set_branch_inputs(cache, flow_node.id, branch_flow_ids.clone());
    Ok(branch_flow_ids)
}

/// The type of the initial value of a declaration that is a reference.
#[verifier::opaque]
pub open spec fn initializer_type(root: LuaChunk, var_ref_id: VarRefId, rp: Replay) -> (
    Result<Option<LuaType>, InferFailReason>,
    Replay,
) {
    match var_ref_id.decl_id() {
        None => (Ok(None), rp),
        Some(decl_id) => {
            let (decl, rp) = rp.get_decl(decl_id);
            match decl {
                None => (Err(InferFailReason::Nothing), rp),
                Some(decl) => match decl.value_syntax_id {
                    None => (Ok(None), rp),
                    Some(value_syntax_id) => match find_node(root.exprs@, value_syntax_id) {
                        None => (Ok(None), rp),
                        Some(expr) => {
                            let (expr_type, rp) = rp.infer_expr(expr);
                            match expr_type {
                                Err(e) => (Err(e), rp),
                                Ok(expr_type) => {
                                    let (typ, rp) = rp.get_result_slot_type(expr_type, 0);
                                    (Ok(typ), rp)
                                },
                            }
                        },
                    },
                },
            }
        },
    }
}

pub fn try_infer_decl_initializer_type<M: SemanticModel>(
    db: &mut DbIndex<M>,
    cache: &mut LuaInferCache,
    root: &LuaChunk,
    var_ref_id: &VarRefId,
) -> (res: Result<Option<LuaType>, InferFailReason>)
    ensures
        final(db).steps() == old(db).steps(),
        extends(final(db).log(), old(db).log()),
        forall|full: Log| #[trigger]
            extends(full, final(db).log()) ==> initializer_type(
                *root,
                *var_ref_id,
                old(db).replay(full, old(cache)@),
            ) == (res, final(db).replay(full, final(cache)@)),
{
    proof {
        reveal(initializer_type);
    }
    let decl_id = match var_ref_id.get_decl_id_ref() {
        Some(decl_id) => decl_id,
        None => return Ok(None),
    };
    let decl = match db.get_decl(decl_id) {
        Some(decl) => decl,
        None => return Err(InferFailReason::Nothing),
    };
    let value_syntax_id = match decl.value_syntax_id {
        Some(value_syntax_id) => value_syntax_id,
        None => return Ok(None),
    };
    let expr = match root.find_expr(value_syntax_id) {
        Some(expr) => expr,
        None => return Ok(None),
    };
    let expr_type = match db.infer_expr(cache, &expr) {
        Ok(expr_type) => expr_type,
        Err(e) => return Err(e),
    };
    Ok(db.get_result_slot_type(&expr_type, 0))
}

/// Whether a node is a branch label.
pub open spec fn is_label(tree: FlowTree, flow_id: FlowId) -> bool {
    tree.node(flow_id) matches Some(node) && node.kind is BranchLabel
}

/// Whether all of the nodes exist and none of them is a branch label.
pub open spec fn holds_no_labels(tree: FlowTree, flow_ids: Seq<FlowId>) -> bool {
    forall|i: int|
        0 <= i < flow_ids.len() ==> tree.node(#[trigger] flow_ids[i]) is Some && !is_label(
            tree,
            flow_ids[i],
        )
}

/// Whether none of the inputs that a cache knows is a branch label.
pub open spec fn knows_no_labels(tree: FlowTree, cache: CacheView) -> bool {
    forall|flow_id: FlowId|
        #![trigger cache.branch_inputs_of(flow_id)]
        cache.branch_inputs_of(flow_id) matches Some(inputs) ==> holds_no_labels(tree, inputs)
}

proof fn lemma_flattened_holds_no_labels(
    tree: FlowTree,
    cache: CacheView,
    pending: Seq<FlowId>,
    visited: Set<u32>,
    acc: Seq<FlowId>,
)
    requires
        knows_no_labels(tree, cache),
        holds_no_labels(tree, acc),
    ensures
        flattened(tree, cache, pending, visited, acc) matches Ok(inputs) ==> holds_no_labels(
            tree,
            inputs,
        ),
    decreases unvisited(tree.nodes@.len(), visited), pending.len(),
{
    if pending.len() > 0 {
        let flow_id = pending.last();
        let rest = pending.drop_last();
        if let Some(node) = tree.node(flow_id) {
            if !(node.kind is BranchLabel) {
                lemma_flattened_holds_no_labels(tree, cache, rest, visited, acc.push(flow_id));
            } else if visited.contains(flow_id.0) {
                lemma_flattened_holds_no_labels(tree, cache, rest, visited, acc);
            } else {
                lemma_visiting_leaves_fewer(tree.nodes@.len(), visited, flow_id.0);
                match cache.branch_inputs_of(flow_id) {
                    Some(inputs) => {
                        assert(holds_no_labels(tree, acc + inputs)) by {
                            assert forall|i: int| 0 <= i < (acc + inputs).len() implies tree.node(
                                #[trigger] (acc + inputs)[i],
                            ) is Some && !is_label(tree, (acc + inputs)[i]) by {
                                if i >= acc.len() {
                                    assert((acc + inputs)[i] == inputs[i - acc.len()]);
                                }
                            }
                        }
                        lemma_flattened_holds_no_labels(
                            tree,
                            cache,
                            rest,
                            visited.insert(flow_id.0),
                            acc + inputs,
                        );
                    },
                    None => {
                        if let Ok(antecedents) = multi_antecedents(node) {
                            lemma_flattened_holds_no_labels(
                                tree,
                                cache,
                                rest + antecedents,
                                visited.insert(flow_id.0),
                                acc,
                            );
                        }
                    },
                }
            }
        }
    }
}

/// The inputs of a branch label are never branch labels themselves.
pub proof fn branch_inputs_hold_no_labels(tree: FlowTree, flow_node: FlowNode, cache: CacheView)
    requires
        knows_no_labels(tree, cache),
    ensures
        branch_inputs(tree, flow_node, cache).0 matches Ok(inputs) ==> holds_no_labels(
            tree,
            inputs,
        ),
        knows_no_labels(tree, branch_inputs(tree, flow_node, cache).1),
{
    let (res, after) = branch_inputs(tree, flow_node, cache);
    if cache.branch_inputs_of(flow_node.id) is None {
        if let Ok(antecedents) = multi_antecedents(flow_node) {
            lemma_flattened_holds_no_labels(
                tree,
                cache,
                antecedents,
                Set::empty(),
                Seq::empty(),
            );
            if let Ok(inputs) = res {
                assert forall|flow_id: FlowId|
                    #![trigger after.branch_inputs_of(flow_id)]
                    after.branch_inputs_of(flow_id) matches Some(known) implies holds_no_labels(
                    tree,
                    after.branch_inputs_of(flow_id)->0,
                ) by {
                    indexed_write_is_local(
                        cache.branch_inputs,
                        flow_node.id.0 as nat,
                        Some(inputs),
                        flow_id.0 as nat,
                    );
                    assert(cache.branch_inputs_of(flow_id) matches Some(known) ==> holds_no_labels(
                        tree,
                        known,
                    ));
                }
            }
        }
    }
}

/// The inputs of a branch label are worked out once: to ask again changes nothing.
pub proof fn branch_inputs_are_remembered(tree: FlowTree, flow_node: FlowNode, cache: CacheView)
    ensures
        ({
            let (res, after) = branch_inputs(tree, flow_node, cache);
            res is Ok ==> branch_inputs(tree, flow_node, after) == (res, after)
        }),
{
    let (res, after) = branch_inputs(tree, flow_node, cache);
    if let Ok(inputs) = res {
        indexed_write_is_local(
            cache.branch_inputs,
            flow_node.id.0 as nat,
            Some(inputs),
            flow_node.id.0 as nat,
        );
    }
}

/// Whether control can come from a node to where the nodes `start` lead, with only branch labels
/// in between, `n` of them.
pub open spec fn leads_through(tree: FlowTree, start: Seq<FlowId>, flow_id: FlowId, n: nat) -> bool
    decreases n,
{
    if n == 0 {
        start.contains(flow_id)
    } else {
        exists|label: FlowId| #[trigger]
            is_input_of_label(tree, label, flow_id) && leads_through(
                tree,
                start,
                label,
                (n - 1) as nat,
            )
    }
}

/// Whether `flow_id` is one of the points that lead directly to a branch label.
pub open spec fn is_input_of_label(tree: FlowTree, label: FlowId, flow_id: FlowId) -> bool {
    &&& is_label(tree, label)
    &&& multi_antecedents(tree.node(label)->0) matches Ok(antecedents) && antecedents.contains(
        flow_id,
    )
}

/// Whether control can come from a node to where the nodes `start` lead, with only branch labels
/// in between.
pub open spec fn leads_to(tree: FlowTree, start: Seq<FlowId>, flow_id: FlowId) -> bool {
    exists|n: nat| leads_through(tree, start, flow_id, n)
}

/// Whether `inputs` are just the nodes that lead to where `antecedents` do and are no branch
/// labels.
pub open spec fn are_inputs(
    tree: FlowTree,
    antecedents: Seq<FlowId>,
    inputs: Seq<FlowId>,
) -> bool {
    forall|x: FlowId| #[trigger]
        inputs.contains(x) <==> leads_to(tree, antecedents, x) && !is_label(tree, x)
}

/// Whether all inputs of branch labels that a cache knows are right.
pub open spec fn knows_right_inputs(tree: FlowTree, cache: CacheView) -> bool {
    forall|label: FlowId|
        #![trigger cache.branch_inputs_of(label)]
        cache.branch_inputs_of(label) matches Some(inputs) ==> {
            &&& tree.node(label) is Some
            &&& multi_antecedents(tree.node(label)->0) is Ok
            &&& are_inputs(tree, multi_antecedents(tree.node(label)->0)->Ok_0, inputs)
        }
}

/// Whether every node that leads to a label and is no label itself is among the results.
spec fn is_settled(tree: FlowTree, label: FlowId, acc: Seq<FlowId>) -> bool {
    let antecedents = multi_antecedents(tree.node(label)->0);
    &&& is_label(tree, label)
    &&& antecedents is Ok ==> forall|x: FlowId| #[trigger]
        leads_to(tree, antecedents->Ok_0, x) && !is_label(tree, x) ==> acc.contains(x)
}

/// What leads to a label leads to where the label does.
proof fn lemma_leading_is_transitive(
    tree: FlowTree,
    start: Seq<FlowId>,
    label: FlowId,
    n: nat,
    flow_id: FlowId,
    m: nat,
)
    requires
        is_label(tree, label),
        multi_antecedents(tree.node(label)->0) is Ok,
        leads_through(tree, start, label, n),
        leads_through(tree, multi_antecedents(tree.node(label)->0)->Ok_0, flow_id, m),
    ensures
        leads_through(tree, start, flow_id, n + m + 1),
        leads_to(tree, start, flow_id),
    decreases m,
{
    let antecedents = multi_antecedents(tree.node(label)->0)->Ok_0;
    if m == 0 {
        assert(is_input_of_label(tree, label, flow_id));
        assert(leads_through(tree, start, label, ((n + m + 1) - 1) as nat));
    } else {
        let last = choose|last: FlowId| #[trigger]
            is_input_of_label(tree, last, flow_id) && leads_through(
                tree,
                antecedents,
                last,
                (m - 1) as nat,
            );
        lemma_leading_is_transitive(tree, start, label, n, last, (m - 1) as nat);
        assert(is_input_of_label(tree, last, flow_id));
        assert(leads_through(tree, start, last, ((n + m + 1) - 1) as nat));
    }
}

/// An input of a label that is settled is settled or among the results.
proof fn lemma_inputs_of_settled(tree: FlowTree, label: FlowId, acc: Seq<FlowId>, flow_id: FlowId)
    requires
        is_settled(tree, label, acc),
        is_input_of_label(tree, label, flow_id),
    ensures
        is_settled(tree, flow_id, acc) || !is_label(tree, flow_id) && acc.contains(flow_id),
{
    let start = multi_antecedents(tree.node(label)->0)->Ok_0;
    assert(leads_through(tree, start, flow_id, 0));
    if is_label(tree, flow_id) {
        let antecedents = multi_antecedents(tree.node(flow_id)->0);
        if antecedents is Ok {
            assert forall|x: FlowId| #[trigger]
                leads_to(tree, antecedents->Ok_0, x) && !is_label(
                    tree,
                    x,
                ) implies acc.contains(x) by {
                let m = choose|m: nat| leads_through(tree, antecedents->Ok_0, x, m);
                lemma_leading_is_transitive(tree, start, flow_id, 0, x, m);
            }
        }
    } else {
        assert(leads_to(tree, start, flow_id));
    }
}

/// Whether a node is taken care of: it is still to be looked at, a label that was looked at or
/// whose inputs are all found, or among the results.
spec fn is_covered(
    tree: FlowTree,
    pending: Seq<FlowId>,
    visited: Set<u32>,
    acc: Seq<FlowId>,
    flow_id: FlowId,
) -> bool {
    ||| pending.contains(flow_id)
    ||| is_label(tree, flow_id) && visited.contains(flow_id.0)
    ||| is_settled(tree, flow_id, acc)
    ||| !is_label(tree, flow_id) && acc.contains(flow_id)
}

/// Whether nothing that leads to `start` is forgotten, and nothing else was found.
spec fn is_complete(
    tree: FlowTree,
    start: Seq<FlowId>,
    pending: Seq<FlowId>,
    visited: Set<u32>,
    acc: Seq<FlowId>,
) -> bool {
    &&& forall|x: FlowId| #[trigger]
        start.contains(x) ==> is_covered(tree, pending, visited, acc, x)
    &&& forall|label: FlowId, x: FlowId|
        visited.contains(label.0) && #[trigger] is_input_of_label(tree, label, x) ==> is_covered(
            tree,
            pending,
            visited,
            acc,
            x,
        )
    &&& forall|x: FlowId| #[trigger] pending.contains(x) ==> leads_to(tree, start, x)
    &&& forall|x: FlowId| #[trigger]
        acc.contains(x) ==> leads_to(tree, start, x) && !is_label(tree, x)
}

proof fn lemma_flattened_is_complete(
    tree: FlowTree,
    cache: CacheView,
    start: Seq<FlowId>,
    pending: Seq<FlowId>,
    visited: Set<u32>,
    acc: Seq<FlowId>,
) -> (last_visited: Set<u32>)
    requires
        knows_right_inputs(tree, cache),
        is_complete(tree, start, pending, visited, acc),
    ensures
        flattened(tree, cache, pending, visited, acc) matches Ok(inputs) ==> is_complete(
            tree,
            start,
            Seq::empty(),
            last_visited,
            inputs,
        ),
    decreases unvisited(tree.nodes@.len(), visited), pending.len(),
{
    if pending.len() == 0 {
        assert(pending =~= Seq::empty());
        visited
    } else {
        let flow_id = pending.last();
        let rest = pending.drop_last();
        assert(pending =~= rest.push(flow_id));
        assert(pending.contains(flow_id));
        assert forall|x: FlowId| #[trigger] pending.contains(x) implies rest.contains(x) || x
            == flow_id by {
            let i = choose|i: int| 0 <= i < pending.len() && pending[i] == x;
            if i < rest.len() {
                assert(rest[i] == x);
            }
        }
        assert forall|x: FlowId| #[trigger] rest.contains(x) implies pending.contains(x) by {
            let i = choose|i: int| 0 <= i < rest.len() && rest[i] == x;
            assert(pending[i] == x);
        }
        match tree.node(flow_id) {
            None => visited,
            Some(node) => if !(node.kind is BranchLabel) {
                let more = acc.push(flow_id);
                assert(more[acc.len() as int] == flow_id);
                assert forall|x: FlowId| #[trigger] more.contains(x) <==> acc.contains(x) || x
                    == flow_id by {
                    if acc.contains(x) {
                        let i = choose|i: int| 0 <= i < acc.len() && acc[i] == x;
                        assert(more[i] == x);
                    }
                    if more.contains(x) {
                        let i = choose|i: int| 0 <= i < more.len() && more[i] == x;
                        if i < acc.len() {
                            assert(acc[i] == x);
                        }
                    }
                }
                lemma_flattened_is_complete(tree, cache, start, rest, visited, more)
            } else if visited.contains(flow_id.0) {
                lemma_flattened_is_complete(tree, cache, start, rest, visited, acc)
            } else {
                lemma_visiting_leaves_fewer(tree.nodes@.len(), visited, flow_id.0);
                match cache.branch_inputs_of(flow_id) {
                    Some(inputs) => {
                        lemma_known_inputs_are_complete(
                            tree,
                            start,
                            pending,
                            visited,
                            acc,
                            inputs,
                        );
                        lemma_flattened_is_complete(
                            tree,
                            cache,
                            start,
                            rest,
                            visited.insert(flow_id.0),
                            acc + inputs,
                        )
                    },
                    None => match multi_antecedents(node) {
                        Err(_) => visited,
                        Ok(antecedents) => {
                            let more = rest + antecedents;
                            assert forall|x: FlowId| #[trigger] more.contains(x) <==> rest.contains(
                                x,
                            ) || antecedents.contains(x) by {
                                lemma_contains_of_sum(rest, antecedents, x);
                            }
                            assert forall|x: FlowId| #[trigger] antecedents.contains(x) implies
                                leads_to(tree, start, x) by {
                                let n = choose|n: nat| leads_through(tree, start, flow_id, n);
                                assert(is_input_of_label(tree, flow_id, x));
                                assert(leads_through(tree, start, flow_id, ((n + 1) - 1) as nat));
                                assert(leads_through(tree, start, x, n + 1));
                            }
                            let seen = visited.insert(flow_id.0);
                            assert forall|label: FlowId, x: FlowId|
                                seen.contains(label.0) && #[trigger] is_input_of_label(
                                    tree,
                                    label,
                                    x,
                                ) implies is_covered(tree, more, seen, acc, x) by {
                                if label.0 == flow_id.0 {
                                    assert(label == flow_id);
                                    assert(antecedents.contains(x));
                                } else {
                                    assert(is_covered(tree, pending, visited, acc, x));
                                }
                            }
                            lemma_flattened_is_complete(tree, cache, start, more, seen, acc)
                        },
                    },
                }
            },
        }
    }
}

/// Nothing is forgotten, and nothing else is found, where a label gives way to inputs that are
/// right.
proof fn lemma_known_inputs_are_complete(
    tree: FlowTree,
    start: Seq<FlowId>,
    pending: Seq<FlowId>,
    visited: Set<u32>,
    acc: Seq<FlowId>,
    inputs: Seq<FlowId>,
)
    requires
        pending.len() > 0,
        is_complete(tree, start, pending, visited, acc),
        is_label(tree, pending.last()),
        multi_antecedents(tree.node(pending.last())->0) is Ok,
        are_inputs(tree, multi_antecedents(tree.node(pending.last())->0)->Ok_0, inputs),
    ensures
        is_complete(
            tree,
            start,
            pending.drop_last(),
            visited.insert(pending.last().0),
            acc + inputs,
        ),
{
    let flow_id = pending.last();
    let rest = pending.drop_last();
    let antecedents = multi_antecedents(tree.node(flow_id)->0)->Ok_0;
    let seen = visited.insert(flow_id.0);
    let more = acc + inputs;
    assert forall|x: FlowId| #[trigger] more.contains(x) <==> acc.contains(x) || inputs.contains(
        x,
    ) by {
        lemma_contains_of_sum(acc, inputs, x);
    }
    assert(pending.contains(flow_id));
    assert(is_settled(tree, flow_id, more)) by {
        assert forall|x: FlowId| #[trigger]
            leads_to(tree, antecedents, x) && !is_label(tree, x) implies more.contains(x) by {
            assert(inputs.contains(x));
        }
    }
    assert forall|x: FlowId| #[trigger]
        is_covered(tree, pending, visited, acc, x) implies is_covered(
        tree,
        rest,
        seen,
        more,
        x,
    ) by {
        if pending.contains(x) {
            let i = choose|i: int| 0 <= i < pending.len() && pending[i] == x;
            if i < rest.len() {
                assert(rest[i] == x);
            }
        }
    }
    assert forall|label: FlowId, x: FlowId|
        seen.contains(label.0) && #[trigger] is_input_of_label(tree, label, x) implies is_covered(
        tree,
        rest,
        seen,
        more,
        x,
    ) by {
        if label.0 == flow_id.0 {
            assert(label == flow_id);
            lemma_inputs_of_settled(tree, flow_id, more, x);
        } else {
            assert(is_covered(tree, pending, visited, acc, x));
        }
    }
    assert forall|x: FlowId| #[trigger] rest.contains(x) implies leads_to(tree, start, x) by {
        let i = choose|i: int| 0 <= i < rest.len() && rest[i] == x;
        assert(pending[i] == x);
        assert(pending.contains(x));
    }
    assert forall|x: FlowId| #[trigger] more.contains(x) implies leads_to(tree, start, x)
        && !is_label(tree, x) by {
        if !acc.contains(x) {
            assert(inputs.contains(x));
            let n = choose|n: nat| leads_through(tree, start, flow_id, n);
            let m = choose|m: nat| leads_through(tree, antecedents, x, m);
            lemma_leading_is_transitive(tree, start, flow_id, n, x, m);
        }
    }
}

proof fn lemma_contains_of_sum(a: Seq<FlowId>, b: Seq<FlowId>, x: FlowId)
    ensures
        (a + b).contains(x) == (a.contains(x) || b.contains(x)),
{
    if a.contains(x) {
        let i = choose|i: int| 0 <= i < a.len() && a[i] == x;
        assert((a + b)[i] == x);
    }
    if b.contains(x) {
        let i = choose|i: int| 0 <= i < b.len() && b[i] == x;
        assert((a + b)[a.len() + i] == x);
    }
    if (a + b).contains(x) {
        let i = choose|i: int| 0 <= i < (a + b).len() && (a + b)[i] == x;
        if i < a.len() {
            assert(a[i] == x);
        } else {
            assert(b[i - a.len()] == x);
        }
    }
}

proof fn lemma_leading_nodes_are_covered(
    tree: FlowTree,
    start: Seq<FlowId>,
    visited: Set<u32>,
    inputs: Seq<FlowId>,
    flow_id: FlowId,
    n: nat,
)
    requires
        is_complete(tree, start, Seq::empty(), visited, inputs),
        leads_through(tree, start, flow_id, n),
    ensures
        is_covered(tree, Seq::empty(), visited, inputs, flow_id),
    decreases n,
{
    if n > 0 {
        let label = choose|label: FlowId| #[trigger]
            is_input_of_label(tree, label, flow_id) && leads_through(
                tree,
                start,
                label,
                (n - 1) as nat,
            );
        lemma_leading_nodes_are_covered(tree, start, visited, inputs, label, (n - 1) as nat);
        if !visited.contains(label.0) {
            lemma_inputs_of_settled(tree, label, inputs, flow_id);
        }
    }
}

/// The inputs of a branch label are just the nodes from which control can come to it with only
/// branch labels in between, and which are no branch labels.  A cache that knows only right inputs
/// stays one, where it learns those of a label of the tree.
pub proof fn branch_inputs_are_what_leads_to_the_label(
    tree: FlowTree,
    flow_node: FlowNode,
    cache: CacheView,
)
    requires
        knows_right_inputs(tree, cache),
        cache.branch_inputs_of(flow_node.id) is Some ==> tree.node(flow_node.id) == Some(flow_node),
    ensures
        branch_inputs(tree, flow_node, cache).0 matches Ok(inputs) ==> multi_antecedents(
            flow_node,
        ) matches Ok(antecedents) && are_inputs(tree, antecedents, inputs),
        tree.node(flow_node.id) == Some(flow_node) ==> knows_right_inputs(
            tree,
            branch_inputs(tree, flow_node, cache).1,
        ),
{
    let (res, after) = branch_inputs(tree, flow_node, cache);
    if res is Ok && cache.branch_inputs_of(flow_node.id) is None {
        let inputs = res->Ok_0;
        let start = multi_antecedents(flow_node)->Ok_0;
        assert forall|x: FlowId| #[trigger] start.contains(x) implies leads_to(tree, start, x) by {
            assert(leads_through(tree, start, x, 0));
        }
        let visited = lemma_flattened_is_complete(
            tree,
            cache,
            start,
            start,
            Set::empty(),
            Seq::empty(),
        );
        assert forall|x: FlowId| #[trigger] inputs.contains(x) <==> leads_to(tree, start, x)
            && !is_label(tree, x) by {
            if leads_to(tree, start, x) && !is_label(tree, x) {
                let n = choose|n: nat| leads_through(tree, start, x, n);
                lemma_leading_nodes_are_covered(tree, start, visited, inputs, x, n);
            }
        }
        if tree.node(flow_node.id) == Some(flow_node) {
            assert forall|label: FlowId|
                #![trigger after.branch_inputs_of(label)]
                after.branch_inputs_of(label) matches Some(known) implies {
                &&& tree.node(label) is Some
                &&& multi_antecedents(tree.node(label)->0) is Ok
                &&& are_inputs(
                    tree,
                    multi_antecedents(tree.node(label)->0)->Ok_0,
                    after.branch_inputs_of(label)->0,
                )
            } by {
                indexed_write_is_local(
                    cache.branch_inputs,
                    flow_node.id.0 as nat,
                    Some(inputs),
                    label.0 as nat,
                );
                if label.0 == flow_node.id.0 {
                    assert(label == flow_node.id);
                } else {
                    assert(after.branch_inputs_of(label) == cache.branch_inputs_of(label));
                }
            }
        }
    }
}

/// A cache that knows no inputs of branch labels knows only right ones.
pub proof fn fresh_cache_knows_right_inputs(tree: FlowTree, cache: CacheView)
    requires
        forall|label: FlowId| cache.branch_inputs_of(label) is None,
    ensures
        knows_right_inputs(tree, cache),
{
}

/// What a condition is about is worked out once.
pub proof fn condition_info_is_remembered(
    root: LuaChunk,
    flow_id: FlowId,
    condition_id: LuaSyntaxId,
    rp: Replay,
)
    ensures
        ({
            let (info, after) = condition_info(root, flow_id, condition_id, rp);
            info is Ok ==> condition_info(root, flow_id, condition_id, after) == (info, after)
        }),
{
    reveal(condition_info);
    let (info, after) = condition_info(root, flow_id, condition_id, rp);
    if info is Ok && rp.cache.condition_info_of(flow_id) is None {
        let expr = find_node(root.exprs@, condition_id)->0;
        let cache = condition_index_refs(expr, rp).1.cache;
        indexed_write_is_local(
            cache.condition_info,
            flow_id.0 as nat,
            Some(info->Ok_0),
            flow_id.0 as nat,
        );
    }
}

/// Which references an assignment writes is worked out once.
pub proof fn assignment_info_is_remembered(
    root: LuaChunk,
    flow_id: FlowId,
    assign_id: LuaSyntaxId,
    rp: Replay,
)
    ensures
        ({
            let (info, after) = assignment_info(root, flow_id, assign_id, rp);
            info is Ok ==> assignment_info(root, flow_id, assign_id, after) == (info, after)
        }),
{
    reveal(assignment_info);
    let (info, after) = assignment_info(root, flow_id, assign_id, rp);
    if info is Ok && rp.cache.assignment_info_of(flow_id) is None {
        let assign_stat = find_node(root.assign_stats@, assign_id)->0;
        let cache = var_refs(assign_stat.vars@, 0, Seq::empty(), rp).1.cache;
        indexed_write_is_local(
            cache.assignment_info,
            flow_id.0 as nat,
            Some(info->Ok_0),
            flow_id.0 as nat,
        );
    }
}

} // verus!
