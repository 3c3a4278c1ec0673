//! Finds the type of a variable at a program point.
//!
//! What there is to find is in [`crate::flow_query`].  The walks of the branches that lead to a
//! label are kept on a stack of frames, so that long chains of branches need no deep recursion.

use std::sync::Arc;

use vstd::prelude::*;

use crate::allowance::lemma_type_at_is_bounded;
use crate::assignment_expr::{can_reuse_narrowed_assignment_source, preserves_assignment_expr_type};
use crate::cache::{
    get_condition_flow_cache_entry, get_condition_flow_cache_slot, get_flow_cache_var_ref_id,
    get_flow_node_cache_entry, get_flow_node_cache_slot, try_get_flow_cache_var_ref_id,
    AssignmentView, CacheEntry, FlowAssignmentInfo, FlowConditionInfo, LuaInferCache,
};
use crate::condition_flow::{
    check_array_len_fits, condition_action, get_type_at_condition_flow, resolve_condition_subquery,
    ConditionFlowAction, ConditionSubquery, InferConditionFlow, PendingConditionNarrow,
    PendingCorrelatedCondition,
};
use crate::db::{
    extends, lemma_extends_is_reflexive, lemma_extends_is_transitive, DbIndex, Log, Replay,
    SemanticModel,
};
use crate::flow_info::{
    assignment_info, condition_info, get_branch_label_flow_ids, get_flow_assignment_info,
    get_flow_condition_info, try_infer_decl_initializer_type,
};
use crate::flow_query::{
    answered, applied_narrows, assigned_index, assignment_result, cast_visit, decl_visit,
    evaluated, flow_type, func_visit, known_result, lemma_source_before, remembered_action,
    settled_entry, source_before, unnarrowed, FlowQuery, StepView, VisitView,
};
use crate::flow_tree::{
    get_multi_antecedents, get_single_antecedent, FlowNode, FlowNodeKind, FlowTree,
};
use crate::ids::{
    FlowId, LuaDeclId, LuaMemberId, LuaSignatureId, LuaSyntaxId, LuaTypeOwner, VarRefId,
};
use crate::infer::{InferFailReason, InferResult, LuaTypeCache, ResultTypeOrContinue, TypeOps};
use crate::markers::{leaves_no_marker, lemma_evaluated_settles};
use crate::syntax::{LuaChunk, LuaVarExpr};
use crate::types::LuaType;

verus! {

broadcast use {lemma_extends_is_reflexive, lemma_extends_is_transitive};

pub fn get_condition_flow_action<M: SemanticModel>(
    db: &mut DbIndex<M>,
    tree: &FlowTree,
    cache: &mut LuaInferCache,
    root: &LuaChunk,
    var_ref_id: &VarRefId,
    var_ref_cache_id: u32,
    flow_node: &FlowNode,
    condition_info: &FlowConditionInfo,
    condition_flow: InferConditionFlow,
) -> (res: Result<ConditionFlowAction, InferFailReason>)
    requires
        var_ref_cache_id < usize::MAX,
    ensures
        final(db).steps() <= old(db).steps(),
        extends(final(db).log(), old(db).log()),
        forall|full: Log| #[trigger]
            extends(full, final(db).log()) ==> remembered_action(
                FlowQuery {
                    tree: *tree,
                    root: *root,
                    var_ref_id: *var_ref_id,
                    var_ref_cache_id,
                },
                *flow_node,
                *condition_info,
                condition_flow,
                old(db).replay(full, old(cache)@),
            ) == (res, final(db).replay(full, final(cache)@)),
{
    proof {
        reveal(remembered_action);
    }
    if condition_info.index_var_ref_id.is_some() && !names(
        &condition_info.index_var_ref_id,
        var_ref_id,
    ) && !names(&condition_info.index_prefix_var_ref_id, var_ref_id) {
        return Ok(ConditionFlowAction::Continue);
    }
    let is_true_condition = matches!(condition_flow, InferConditionFlow::TrueCondition);
    if let Some(cache_entry) = get_condition_flow_cache_entry(
        cache,
        var_ref_cache_id,
        flow_node.id,
        is_true_condition,
    ) {
        return match cache_entry {
            CacheEntry::Cache(action) => Ok(action.clone()),
            CacheEntry::Ready => Err(InferFailReason::RecursiveInfer),
        };
    }
    *get_condition_flow_cache_slot(cache, var_ref_cache_id, flow_node.id, is_true_condition) =
    Some(CacheEntry::Ready);
    let result = get_type_at_condition_flow(
        db,
        tree,
        cache,
        root,
        var_ref_id,
        flow_node,
        condition_info.expr.clone(),
        condition_flow,
    );
    match &result {
        Ok(action) => {
            *get_condition_flow_cache_slot(
                cache,
                var_ref_cache_id,
                flow_node.id,
                is_true_condition,
            ) = Some(CacheEntry::Cache(action.clone()));
        },
        Err(_) => {
            *get_condition_flow_cache_slot(
                cache,
                var_ref_cache_id,
                flow_node.id,
                is_true_condition,
            ) = None;
        },
    }
    result
}

/// Whether `named` is the given reference.
fn names(named: &Option<VarRefId>, var_ref_id: &VarRefId) -> (res: bool)
    ensures
        res == (*named == Some(*var_ref_id)),
{
    match named {
        Some(named) => *named == *var_ref_id,
        None => false,
    }
}

pub fn apply_pending_condition_narrows<M: SemanticModel>(
    db: &mut DbIndex<M>,
    cache: &mut LuaInferCache,
    result_type: LuaType,
    pending_condition_narrows: &Vec<PendingConditionNarrow>,
) -> (res: LuaType)
    ensures
        final(db).steps() == old(db).steps(),
        extends(final(db).log(), old(db).log()),
        forall|full: Log| #[trigger]
            extends(full, final(db).log()) ==> applied_narrows(
                pending_condition_narrows@,
                result_type,
                old(db).replay(full, old(cache)@),
            ) == (res, final(db).replay(full, final(cache)@)),
{
    let mut typ = result_type;
    let mut i: usize = pending_condition_narrows.len();
    assert(pending_condition_narrows@.take(i as int) =~= pending_condition_narrows@);
    while i > 0
        invariant
            i <= pending_condition_narrows@.len(),
            db.steps() == old(db).steps(),
            extends(db.log(), old(db).log()),
            forall|full: Log| #[trigger]
                extends(full, db.log()) ==> applied_narrows(
                    pending_condition_narrows@,
                    result_type,
                    old(db).replay(full, old(cache)@),
                ) == applied_narrows(
                    pending_condition_narrows@.take(i as int),
                    typ,
                    db.replay(full, cache@),
                ),
        decreases i,
    {
        assert(pending_condition_narrows@.take(i as int).drop_last()
            =~= pending_condition_narrows@.take(i - 1));
        i -= 1;
        typ = pending_condition_narrows[i].apply(db, cache, typ);
    }
    typ
}

/// What a walk finds at a node.
enum FlowVisit {
    Done(LuaType),
    Union(Arc<Vec<FlowId>>),
    Pass,
    Narrow(PendingConditionNarrow),
}

spec fn visit_view(res: Result<FlowVisit, InferFailReason>) -> Result<VisitView, InferFailReason> {
    match res {
        Err(e) => Err(e),
        Ok(FlowVisit::Done(typ)) => Ok(VisitView::Done(typ)),
        Ok(FlowVisit::Union(ids)) => Ok(VisitView::Union(ids@)),
        Ok(FlowVisit::Pass) => Ok(VisitView::Pass),
        Ok(FlowVisit::Narrow(narrow)) => Ok(VisitView::Narrow(narrow)),
    }
}

/// Where a walk ends.
pub enum FlowEvalStep {
    Result(LuaType),
    Union {
        branch_flow_ids: Arc<Vec<FlowId>>,
        pending_condition_narrows: Vec<PendingConditionNarrow>,
    },
}

pub open spec fn step_view(res: Result<FlowEvalStep, InferFailReason>) -> Result<
    StepView,
    InferFailReason,
> {
    match res {
        Err(e) => Err(e),
        Ok(FlowEvalStep::Result(typ)) => Ok(StepView::Result(typ)),
        Ok(FlowEvalStep::Union { branch_flow_ids, pending_condition_narrows }) => Ok(
            StepView::Union {
                branch_flow_ids: branch_flow_ids@,
                narrows: pending_condition_narrows@,
            },
        ),
    }
}

fn visit_decl_position<M: SemanticModel>(
    db: &mut DbIndex<M>,
    cache: &mut LuaInferCache,
    root: &LuaChunk,
    var_ref_id: &VarRefId,
    position: u32,
) -> (res: Result<FlowVisit, InferFailReason>)
    ensures
        final(db).steps() == old(db).steps(),
        extends(final(db).log(), old(db).log()),
        forall|full: Log| #[trigger]
            extends(full, final(db).log()) ==> decl_visit(
                *root,
                *var_ref_id,
                position,
                old(db).replay(full, old(cache)@),
            ) == (visit_view(res), final(db).replay(full, final(cache)@)),
{
    proof {
        reveal(decl_visit);
    }
    if position <= var_ref_id.get_position() {
        match db.get_var_ref_type(cache, var_ref_id) {
            Ok(var_type) => Ok(FlowVisit::Done(var_type)),
            Err(err) => match try_infer_decl_initializer_type(db, cache, root, var_ref_id) {
                Ok(Some(init_type)) => Ok(FlowVisit::Done(init_type)),
                Ok(None) => Err(err),
                Err(e) => Err(e),
            },
        }
    } else {
        Ok(FlowVisit::Pass)
    }
}

fn visit_impl_func<M: SemanticModel>(
    db: &mut DbIndex<M>,
    cache: &mut LuaInferCache,
    root: &LuaChunk,
    var_ref_id: &VarRefId,
    func_id: LuaSyntaxId,
) -> (res: Result<FlowVisit, InferFailReason>)
    ensures
        final(db).steps() == old(db).steps(),
        extends(final(db).log(), old(db).log()),
        forall|full: Log| #[trigger]
            extends(full, final(db).log()) ==> func_visit(
                *root,
                *var_ref_id,
                func_id,
                old(db).replay(full, old(cache)@),
            ) == (visit_view(res), final(db).replay(full, final(cache)@)),
{
    proof {
        reveal(func_visit);
    }
    let func_stat = match root.find_func_stat(func_id) {
        Some(func_stat) => func_stat,
        None => return Err(InferFailReason::Nothing),
    };
    let func_name = match &func_stat.func_name {
        Some(func_name) => func_name,
        None => return Ok(FlowVisit::Pass),
    };
    let ref_id = match db.get_var_expr_var_ref_id(cache, &func_name.to_expr()) {
        Some(ref_id) => ref_id,
        None => return Ok(FlowVisit::Pass),
    };
    if ref_id != *var_ref_id {
        return Ok(FlowVisit::Pass);
    }
    match &func_stat.closure {
        Some(closure) => Ok(
            FlowVisit::Done(
                LuaType::Signature(
                    LuaSignatureId {
                        file_id: cache.get_file_id(),
                        position: closure.syntax_id.range.start,
                    },
                ),
            ),
        ),
        None => Err(InferFailReason::Nothing),
    }
}

/// [`FlowQuery::action_visit`], which is not unfolded where a condition is settled.
#[verifier::opaque]
spec fn settled(q: FlowQuery, flow_node: FlowNode, action: ConditionFlowAction, rp: Replay) -> (
    Result<VisitView, InferFailReason>,
    Replay,
) {
    q.action_visit(flow_node, action, rp)
}

/// What is left to be settled of an action once the model or a walk has answered.
spec fn settled_further(
    q: FlowQuery,
    flow_node: FlowNode,
    reply: (Result<ConditionFlowAction, InferFailReason>, Replay),
    limit: Replay,
) -> (Result<VisitView, InferFailReason>, Replay) {
    match reply.0 {
        Err(e) => (Err(e), reply.1),
        Ok(action) => settled(q, flow_node, action, reply.1.capped(limit)),
    }
}

/// A question about another reference, answered by a walk of its own.
spec fn settled_question(
    q: FlowQuery,
    flow_node: FlowNode,
    subquery: ConditionSubquery,
    rp: Replay,
) -> (Result<VisitView, InferFailReason>, Replay) {
    let start = rp.ticked();
    let (id, cache) = start.cache.number_var_ref(subquery.var_ref_id());
    if rp.steps == 0 {
        (Err(InferFailReason::LimitReached), rp)
    } else if id == u32::MAX {
        (Err(InferFailReason::LimitReached), start)
    } else {
        let (typ, after) = evaluated(
            q.about(subquery.var_ref_id(), id),
            subquery.antecedent_flow_id(),
            true,
            start.with_cache(cache),
        );
        settled_further(q, flow_node, answered(q, flow_node, subquery, typ, after), start)
    }
}

proof fn lemma_settled_question(
    q: FlowQuery,
    flow_node: FlowNode,
    subquery: ConditionSubquery,
    rp: Replay,
)
    ensures
        settled(q, flow_node, ConditionFlowAction::NeedSubquery(subquery), rp) == settled_question(
            q,
            flow_node,
            subquery,
            rp,
        ),
{
    reveal(settled);
    reveal(evaluated);
}

proof fn lemma_settled_correlated(
    q: FlowQuery,
    flow_node: FlowNode,
    pending: PendingCorrelatedCondition,
    rp: Replay,
)
    ensures
        settled(q, flow_node, ConditionFlowAction::NeedCorrelated(pending), rp) == if rp.steps
            == 0 {
            (Err(InferFailReason::LimitReached), rp)
        } else {
            settled_further(
                q,
                flow_node,
                rp.ticked().resume_correlated_condition(
                    q.tree,
                    q.root,
                    q.var_ref_id,
                    flow_node.id,
                    pending,
                ),
                rp.ticked(),
            )
        },
{
    reveal(settled);
}

/// Asks for the type of the reference that a question is about, and says what the condition tells
/// then.
fn answer_subquery<M: SemanticModel>(
    db: &mut DbIndex<M>,
    tree: &FlowTree,
    cache: &mut LuaInferCache,
    root: &LuaChunk,
    var_ref_id: &VarRefId,
    flow_node: &FlowNode,
    subquery: ConditionSubquery,
    Ghost(q): Ghost<FlowQuery>,
) -> (res: Result<ConditionFlowAction, InferFailReason>)
    requires
        tree.wf(),
        q.tree == *tree,
        q.root == *root,
        q.var_ref_id == *var_ref_id,
    ensures
        final(db).steps() <= old(db).steps(),
        extends(final(db).log(), old(db).log()),
        forall|full: Log| #[trigger]
            extends(full, final(db).log()) ==> ({
                let rp = old(db).replay(full, old(cache)@);
                let (id, numbered) = rp.cache.number_var_ref(subquery.var_ref_id());
                if id == u32::MAX {
                    (Err::<ConditionFlowAction, InferFailReason>(InferFailReason::LimitReached), rp)
                } else {
                    let (typ, after) = evaluated(
                        q.about(subquery.var_ref_id(), id),
                        subquery.antecedent_flow_id(),
                        true,
                        rp.with_cache(numbered),
                    );
                    answered(q, *flow_node, subquery, typ, after)
                }
            }) == (res, final(db).replay(full, final(cache)@)),
    decreases old(db).steps(), 0int, 5nat,
{
    let (asked, antecedent_flow_id) = subquery.get_question();
    let asked_cache_id = match try_get_flow_cache_var_ref_id(cache, &asked) {
        Some(asked_cache_id) => asked_cache_id,
        None => return Err(InferFailReason::LimitReached),
    };
    assert(q.about(asked, asked_cache_id) == (FlowQuery {
        tree: *tree,
        root: *root,
        var_ref_id: asked,
        var_ref_cache_id: asked_cache_id,
    }));
    let antecedent_type = match get_type_at_flow_internal(
        db,
        tree,
        cache,
        root,
        &asked,
        asked_cache_id,
        antecedent_flow_id,
        true,
    ) {
        Ok(antecedent_type) => antecedent_type,
        Err(e) => return Err(e),
    };
    if !check_array_len_fits(&subquery, &antecedent_type) {
        return Ok(ConditionFlowAction::Continue);
    }
    resolve_condition_subquery(
        db,
        tree,
        cache,
        root,
        var_ref_id,
        flow_node,
        subquery,
        antecedent_type,
    )
}

fn settle_action<M: SemanticModel>(
    db: &mut DbIndex<M>,
    tree: &FlowTree,
    cache: &mut LuaInferCache,
    root: &LuaChunk,
    var_ref_id: &VarRefId,
    var_ref_cache_id: u32,
    flow_node: &FlowNode,
    action: ConditionFlowAction,
) -> (res: Result<FlowVisit, InferFailReason>)
    requires
        tree.wf(),
        var_ref_cache_id < u32::MAX,
    ensures
        final(db).steps() <= old(db).steps(),
        extends(final(db).log(), old(db).log()),
        forall|full: Log| #[trigger]
            extends(full, final(db).log()) ==> settled(
                FlowQuery {
                    tree: *tree,
                    root: *root,
                    var_ref_id: *var_ref_id,
                    var_ref_cache_id,
                },
                *flow_node,
                action,
                old(db).replay(full, old(cache)@),
            ) == (visit_view(res), final(db).replay(full, final(cache)@)),
    decreases old(db).steps(), 2int, 0nat,
{
    let ghost q = FlowQuery {
        tree: *tree,
        root: *root,
        var_ref_id: *var_ref_id,
        var_ref_cache_id,
    };
    let mut current = action;
    loop
        invariant
            tree.wf(),
            var_ref_cache_id < u32::MAX,
            q == (FlowQuery {
                tree: *tree,
                root: *root,
                var_ref_id: *var_ref_id,
                var_ref_cache_id,
            }),
            db.steps() <= old(db).steps(),
            extends(db.log(), old(db).log()),
            forall|full: Log| #[trigger]
                extends(full, db.log()) ==> settled(
                    q,
                    *flow_node,
                    action,
                    old(db).replay(full, old(cache)@),
                ) == settled(q, *flow_node, current, db.replay(full, cache@)),
        decreases db.steps(),
    {
        let reply = match current {
            ConditionFlowAction::Pending(narrow) => {
                proof {
                    reveal(settled);
                }
                return Ok(FlowVisit::Narrow(narrow));
            },
            ConditionFlowAction::Result(condition_type) => {
                proof {
                    reveal(settled);
                }
                return Ok(FlowVisit::Done(condition_type));
            },
            ConditionFlowAction::Continue => {
                proof {
                    reveal(settled);
                }
                return Ok(FlowVisit::Pass);
            },
            ConditionFlowAction::NeedCorrelated(pending) => {
                proof {
                    assert forall|full: Log| #[trigger] extends(full, db.log()) implies settled(
                        q,
                        *flow_node,
                        current,
                        db.replay(full, cache@),
                    ) == if db.steps() == 0 {
                        (
                            Err::<VisitView, InferFailReason>(InferFailReason::LimitReached),
                            db.replay(full, cache@),
                        )
                    } else {
                        settled_further(
                            q,
                            *flow_node,
                            db.replay(full, cache@).ticked().resume_correlated_condition(
                                q.tree,
                                q.root,
                                q.var_ref_id,
                                flow_node.id,
                                pending,
                            ),
                            db.replay(full, cache@).ticked(),
                        )
                    } by {
                        lemma_settled_correlated(
                            q,
                            *flow_node,
                            pending,
                            db.replay(full, cache@),
                        );
                    }
                }
                if !db.tick() {
                    return Err(InferFailReason::LimitReached);
                }
                db.resume_correlated_condition(
                    cache,
                    tree,
                    root,
                    var_ref_id,
                    flow_node.id,
                    pending,
                )
            },
            ConditionFlowAction::NeedSubquery(subquery) => {
                proof {
                    assert forall|full: Log| #[trigger] extends(full, db.log()) implies settled(
                        q,
                        *flow_node,
                        current,
                        db.replay(full, cache@),
                    ) == settled_question(
                        q,
                        *flow_node,
                        subquery,
                        db.replay(full, cache@),
                    ) by {
                        lemma_settled_question(
                            q,
                            *flow_node,
                            subquery,
                            db.replay(full, cache@),
                        );
                    }
                }
                if !db.tick() {
                    return Err(InferFailReason::LimitReached);
                }
                answer_subquery(
                    db,
                    tree,
                    cache,
                    root,
                    var_ref_id,
                    flow_node,
                    subquery,
                    Ghost(q),
                )
            },
        };
        current =
        match reply {
            Ok(next) => next,
            Err(e) => return Err(e),
        };
    }
}

/// [`FlowQuery::condition_visit`], with the action left folded.
spec fn visited_condition(
    q: FlowQuery,
    use_condition_narrowing: bool,
    flow_node: FlowNode,
    condition_id: LuaSyntaxId,
    condition_flow: InferConditionFlow,
    rp: Replay,
) -> (Result<VisitView, InferFailReason>, Replay) {
    if !use_condition_narrowing {
        (Ok(VisitView::Pass), rp)
    } else {
        let (info, after) = condition_info(q.root, flow_node.id, condition_id, rp);
        match info {
            Err(e) => (Err(e), after),
            Ok(info) => settled_further(
                q,
                flow_node,
                remembered_action(q, flow_node, info, condition_flow, after),
                rp,
            ),
        }
    }
}

proof fn lemma_visited_condition(
    q: FlowQuery,
    use_condition_narrowing: bool,
    flow_node: FlowNode,
    condition_id: LuaSyntaxId,
    condition_flow: InferConditionFlow,
    rp: Replay,
)
    ensures
        q.condition_visit(use_condition_narrowing, flow_node, condition_id, condition_flow, rp)
            == visited_condition(
            q,
            use_condition_narrowing,
            flow_node,
            condition_id,
            condition_flow,
            rp,
        ),
{
    reveal(settled);
}

fn visit_condition<M: SemanticModel>(
    db: &mut DbIndex<M>,
    tree: &FlowTree,
    cache: &mut LuaInferCache,
    root: &LuaChunk,
    var_ref_id: &VarRefId,
    var_ref_cache_id: u32,
    use_condition_narrowing: bool,
    flow_node: &FlowNode,
    condition_id: LuaSyntaxId,
    condition_flow: InferConditionFlow,
) -> (res: Result<FlowVisit, InferFailReason>)
    requires
        tree.wf(),
        var_ref_cache_id < u32::MAX,
        flow_node.id.0 < usize::MAX,
    ensures
        final(db).steps() <= old(db).steps(),
        extends(final(db).log(), old(db).log()),
        forall|full: Log| #[trigger]
            extends(full, final(db).log()) ==> (FlowQuery {
                tree: *tree,
                root: *root,
                var_ref_id: *var_ref_id,
                var_ref_cache_id,
            }).condition_visit(
                use_condition_narrowing,
                *flow_node,
                condition_id,
                condition_flow,
                old(db).replay(full, old(cache)@),
            ) == (visit_view(res), final(db).replay(full, final(cache)@)),
    decreases old(db).steps(), 3int, 0nat,
{
    let ghost q = FlowQuery {
        tree: *tree,
        root: *root,
        var_ref_id: *var_ref_id,
        var_ref_cache_id,
    };
    proof {
        assert forall|full: Log| #[trigger] extends(full, db.log()) implies q.condition_visit(
            use_condition_narrowing,
            *flow_node,
            condition_id,
            condition_flow,
            db.replay(full, cache@),
        ) == visited_condition(
            q,
            use_condition_narrowing,
            *flow_node,
            condition_id,
            condition_flow,
            db.replay(full, cache@),
        ) by {
            lemma_visited_condition(
                q,
                use_condition_narrowing,
                *flow_node,
                condition_id,
                condition_flow,
                db.replay(full, cache@),
            );
        }
    }
    if !use_condition_narrowing {
        return Ok(FlowVisit::Pass);
    }
    let info = match get_flow_condition_info(db, cache, root, flow_node.id, condition_id) {
        Ok(info) => info,
        Err(e) => return Err(e),
    };
    let condition_action = match get_condition_flow_action(
        db,
        tree,
        cache,
        root,
        var_ref_id,
        var_ref_cache_id,
        flow_node,
        &*info,
        condition_flow,
    ) {
        Ok(condition_action) => condition_action,
        Err(e) => return Err(e),
    };
    settle_action(
        db,
        tree,
        cache,
        root,
        var_ref_id,
        var_ref_cache_id,
        flow_node,
        condition_action,
    )
}

fn visit_tag_cast<M: SemanticModel>(
    db: &mut DbIndex<M>,
    tree: &FlowTree,
    cache: &mut LuaInferCache,
    root: &LuaChunk,
    var_ref_id: &VarRefId,
    flow_node: &FlowNode,
    tag_cast_id: LuaSyntaxId,
) -> (res: Result<FlowVisit, InferFailReason>)
    ensures
        final(db).steps() == old(db).steps(),
        extends(final(db).log(), old(db).log()),
        forall|full: Log| #[trigger]
            extends(full, final(db).log()) ==> cast_visit(
                *tree,
                *root,
                *var_ref_id,
                *flow_node,
                tag_cast_id,
                old(db).replay(full, old(cache)@),
            ) == (visit_view(res), final(db).replay(full, final(cache)@)),
{
    proof {
        reveal(cast_visit);
    }
    let tag_cast = match root.find_tag_cast(tag_cast_id) {
        Some(tag_cast) => tag_cast,
        None => return Err(InferFailReason::Nothing),
    };
    match db.get_type_at_cast_flow(cache, tree, root, var_ref_id, flow_node.id, &*tag_cast) {
        Ok(ResultTypeOrContinue::Result(cast_type)) => Ok(FlowVisit::Done(cast_type)),
        Ok(ResultTypeOrContinue::Continue) => Ok(FlowVisit::Pass),
        Err(e) => Err(e),
    }
}

/// Whether one of `refs` is the given reference.
fn any_names(refs: &Vec<Option<VarRefId>>, var_ref_id: &VarRefId) -> (res: bool)
    ensures
        res == refs@.contains(Some(*var_ref_id)),
{
    let mut i: usize = 0;
    while i < refs.len()
        invariant
            i <= refs@.len(),
            forall|j: int| 0 <= j < i ==> refs@[j] != Some(*var_ref_id),
        decreases refs@.len() - i,
    {
        if names(&refs[i], var_ref_id) {
            return true;
        }
        i += 1;
    }
    false
}

/// [`FlowQuery::assigned`], which is not unfolded where a node is visited.
#[verifier::opaque]
spec fn after_assignment(
    q: FlowQuery,
    flow_node: FlowNode,
    info: AssignmentView,
    rp: Replay,
) -> (Result<ResultTypeOrContinue, InferFailReason>, Replay) {
    q.assigned(flow_node, info, rp)
}

/// What an assignment to the reference means for the walk.
spec fn assigned_visit(assigned: (Result<ResultTypeOrContinue, InferFailReason>, Replay)) -> (
    Result<VisitView, InferFailReason>,
    Replay,
) {
    match assigned.0 {
        Err(e) => (Err(e), assigned.1),
        Ok(ResultTypeOrContinue::Result(typ)) => (Ok(VisitView::Done(typ)), assigned.1),
        Ok(ResultTypeOrContinue::Continue) => (Ok(VisitView::Pass), assigned.1),
    }
}

/// [`FlowQuery::assignment_visit`], with the assignment left folded.
spec fn visited_assignment(
    q: FlowQuery,
    flow_node: FlowNode,
    assign_id: LuaSyntaxId,
    rp: Replay,
) -> (Result<VisitView, InferFailReason>, Replay) {
    let (info, after) = assignment_info(q.root, flow_node.id, assign_id, rp);
    match info {
        Err(e) => (Err(e), after),
        Ok(info) => if !info.var_ref_ids.contains(Some(q.var_ref_id)) {
            (Ok(VisitView::Pass), after)
        } else {
            assigned_visit(after_assignment(q, flow_node, info, after.capped(rp)))
        },
    }
}

proof fn lemma_visited_assignment(
    q: FlowQuery,
    flow_node: FlowNode,
    assign_id: LuaSyntaxId,
    rp: Replay,
)
    ensures
        q.assignment_visit(flow_node, assign_id, rp) == visited_assignment(
            q,
            flow_node,
            assign_id,
            rp,
        ),
{
    reveal(after_assignment);
}

#[verifier::spinoff_prover]
#[verifier::rlimit(40)]
fn visit_assignment<M: SemanticModel>(
    db: &mut DbIndex<M>,
    tree: &FlowTree,
    cache: &mut LuaInferCache,
    root: &LuaChunk,
    var_ref_id: &VarRefId,
    var_ref_cache_id: u32,
    flow_node: &FlowNode,
    assign_id: LuaSyntaxId,
) -> (res: Result<FlowVisit, InferFailReason>)
    requires
        tree.wf(),
        var_ref_cache_id < u32::MAX,
        flow_node.id.0 < usize::MAX,
    ensures
        final(db).steps() <= old(db).steps(),
        extends(final(db).log(), old(db).log()),
        forall|full: Log| #[trigger]
            extends(full, final(db).log()) ==> (FlowQuery {
                tree: *tree,
                root: *root,
                var_ref_id: *var_ref_id,
                var_ref_cache_id,
            }).assignment_visit(*flow_node, assign_id, old(db).replay(full, old(cache)@)) == (
                visit_view(res),
                final(db).replay(full, final(cache)@),
            ),
    decreases old(db).steps(), 3int, 0nat,
{
    let ghost q = FlowQuery {
        tree: *tree,
        root: *root,
        var_ref_id: *var_ref_id,
        var_ref_cache_id,
    };
    proof {
        assert forall|full: Log| #[trigger] extends(full, db.log()) implies q.assignment_visit(
            *flow_node,
            assign_id,
            db.replay(full, cache@),
        ) == visited_assignment(q, *flow_node, assign_id, db.replay(full, cache@)) by {
            lemma_visited_assignment(q, *flow_node, assign_id, db.replay(full, cache@));
        }
    }
    let info = match get_flow_assignment_info(db, cache, root, flow_node.id, assign_id) {
        Ok(info) => info,
        Err(e) => return Err(e),
    };
    if !any_names(&info.var_ref_ids, var_ref_id) {
        return Ok(FlowVisit::Pass);
    }
    match get_type_at_assign_stat(
        db,
        tree,
        cache,
        root,
        var_ref_id,
        var_ref_cache_id,
        flow_node,
        &*info,
    ) {
        Ok(ResultTypeOrContinue::Result(assign_type)) => Ok(FlowVisit::Done(assign_type)),
        Ok(ResultTypeOrContinue::Continue) => Ok(FlowVisit::Pass),
        Err(e) => Err(e),
    }
}

fn visit_flow_node<M: SemanticModel>(
    db: &mut DbIndex<M>,
    tree: &FlowTree,
    cache: &mut LuaInferCache,
    root: &LuaChunk,
    var_ref_id: &VarRefId,
    var_ref_cache_id: u32,
    flow_node: &FlowNode,
    use_condition_narrowing: bool,
) -> (res: Result<FlowVisit, InferFailReason>)
    requires
        tree.wf(),
        var_ref_cache_id < u32::MAX,
        flow_node.id.0 < usize::MAX,
    ensures
        final(db).steps() <= old(db).steps(),
        extends(final(db).log(), old(db).log()),
        forall|full: Log| #[trigger]
            extends(full, final(db).log()) ==> (FlowQuery {
                tree: *tree,
                root: *root,
                var_ref_id: *var_ref_id,
                var_ref_cache_id,
            }).visit(*flow_node, use_condition_narrowing, old(db).replay(full, old(cache)@)) == (
                visit_view(res),
                final(db).replay(full, final(cache)@),
            ),
    decreases old(db).steps(), 4int, 0nat,
{
    match &flow_node.kind {
        FlowNodeKind::Start | FlowNodeKind::Unreachable => match db.get_var_ref_type(
            cache,
            var_ref_id,
        ) {
            Ok(typ) => Ok(FlowVisit::Done(typ)),
            Err(e) => Err(e),
        },
        FlowNodeKind::LoopLabel | FlowNodeKind::Break | FlowNodeKind::Return
        | FlowNodeKind::ForIStat(_) => Ok(FlowVisit::Pass),
        FlowNodeKind::BranchLabel => match get_branch_label_flow_ids(tree, cache, flow_node) {
            Ok(branch_flow_ids) => Ok(FlowVisit::Union(branch_flow_ids)),
            Err(e) => Err(e),
        },
        FlowNodeKind::NamedLabel(_) => match get_multi_antecedents(flow_node) {
            Ok(branch_flow_ids) => Ok(FlowVisit::Union(Arc::new(branch_flow_ids))),
            Err(e) => Err(e),
        },
        FlowNodeKind::DeclPosition(position) => visit_decl_position(
            db,
            cache,
            root,
            var_ref_id,
            *position,
        ),
        FlowNodeKind::Assignment(assign_id) => visit_assignment(
            db,
            tree,
            cache,
            root,
            var_ref_id,
            var_ref_cache_id,
            flow_node,
            *assign_id,
        ),
        FlowNodeKind::ImplFunc(func_id) => visit_impl_func(
            db,
            cache,
            root,
            var_ref_id,
            *func_id,
        ),
        FlowNodeKind::TrueCondition(condition_id) => visit_condition(
            db,
            tree,
            cache,
            root,
            var_ref_id,
            var_ref_cache_id,
            use_condition_narrowing,
            flow_node,
            *condition_id,
            InferConditionFlow::TrueCondition,
        ),
        FlowNodeKind::FalseCondition(condition_id) => visit_condition(
            db,
            tree,
            cache,
            root,
            var_ref_id,
            var_ref_cache_id,
            use_condition_narrowing,
            flow_node,
            *condition_id,
            InferConditionFlow::FalseCondition,
        ),
        FlowNodeKind::TagCast(tag_cast_id) => visit_tag_cast(
            db,
            tree,
            cache,
            root,
            var_ref_id,
            flow_node,
            *tag_cast_id,
        ),
    }
}

/// The type of a variable after an expression was assigned to it.
fn get_assignment_result<M: SemanticModel>(
    db: &mut DbIndex<M>,
    cache: &mut LuaInferCache,
    var_ref_id: &VarRefId,
    explicit_var_type: Option<LuaType>,
    expr_type: LuaType,
    source_type: LuaType,
    reuse_source_narrowing: bool,
) -> (res: LuaType)
    ensures
        final(db).steps() == old(db).steps(),
        extends(final(db).log(), old(db).log()),
        forall|full: Log| #[trigger]
            extends(full, final(db).log()) ==> assignment_result(
                *var_ref_id,
                explicit_var_type,
                expr_type,
                source_type,
                reuse_source_narrowing,
                old(db).replay(full, old(cache)@),
            ) == (res, final(db).replay(full, final(cache)@)),
{
    proof {
        reveal(assignment_result);
    }
    let narrowed = if source_type == LuaType::Nil {
        None
    } else {
        let declared = match db.get_var_ref_type(cache, var_ref_id) {
            Ok(LuaType::Def(id)) => Some(LuaType::Def(id)),
            Ok(LuaType::Ref(id)) => Some(LuaType::Ref(id)),
            _ => None,
        };
        db.narrow_down_type(&source_type, &expr_type, declared)
    };
    if reuse_source_narrowing || preserves_assignment_expr_type(&expr_type) {
        match narrowed {
            Some(narrowed) => narrowed,
            None => match explicit_var_type {
                Some(explicit_var_type) => explicit_var_type,
                None => expr_type,
            },
        }
    } else {
        expr_type
    }
}

fn get_type_at_assign_stat<M: SemanticModel>(
    db: &mut DbIndex<M>,
    tree: &FlowTree,
    cache: &mut LuaInferCache,
    root: &LuaChunk,
    var_ref_id: &VarRefId,
    var_ref_cache_id: u32,
    flow_node: &FlowNode,
    assignment_info: &FlowAssignmentInfo,
) -> (res: Result<ResultTypeOrContinue, InferFailReason>)
    requires
        tree.wf(),
        var_ref_cache_id < u32::MAX,
    ensures
        final(db).steps() <= old(db).steps(),
        extends(final(db).log(), old(db).log()),
        forall|full: Log| #[trigger]
            extends(full, final(db).log()) ==> after_assignment(
                FlowQuery {
                    tree: *tree,
                    root: *root,
                    var_ref_id: *var_ref_id,
                    var_ref_cache_id,
                },
                *flow_node,
                assignment_info@,
                old(db).replay(full, old(cache)@),
            ) == (res, final(db).replay(full, final(cache)@)),
    decreases old(db).steps(), 2int, 0nat,
{
    let vars = &assignment_info.assign_stat.vars;
    let mut i: usize = 0;
    while i < vars.len() && i < assignment_info.var_ref_ids.len()
        invariant
            *vars == assignment_info@.assign_stat.vars,
            i <= vars@.len(),
            i <= assignment_info.var_ref_ids@.len(),
            assigned_index(assignment_info@, *var_ref_id, 0) == assigned_index(
                assignment_info@,
                *var_ref_id,
                i as int,
            ),
            *db == *old(db),
            *cache == *old(cache),
            tree.wf(),
            var_ref_cache_id < u32::MAX,
        decreases vars@.len() - i,
    {
        proof {
            reveal(after_assignment);
        }
        if !names(&assignment_info.var_ref_ids[i], var_ref_id) {
            i += 1;
            continue ;
        }
        // An explicit annotation counts, an inferred type does not.
        let var_id = match &vars[i] {
            LuaVarExpr::NameExpr(name_expr) => LuaTypeOwner::Decl(
                LuaDeclId::new(cache.get_file_id(), name_expr.syntax_id.range.start),
            ),
            LuaVarExpr::IndexExpr(index_expr) => LuaTypeOwner::Member(
                LuaMemberId::new(index_expr.syntax_id, cache.get_file_id()),
            ),
        };
        let explicit_var_type = match db.get_type_cache(var_id) {
            Some(LuaTypeCache::DocType(typ)) => Some(typ),
            _ => None,
        };
        let expr_type = match db.infer_expr_list_value_type_at(
            cache,
            &assignment_info.assign_stat.exprs,
            i,
        ) {
            Ok(Some(expr_type)) => expr_type,
            Ok(None) => return Ok(ResultTypeOrContinue::Continue),
            Err(e) => return Err(e),
        };
        let (source_type, reuse_source_narrowing) = match get_assignment_source(
            db,
            tree,
            cache,
            root,
            var_ref_id,
            var_ref_cache_id,
            flow_node,
            &explicit_var_type,
            &expr_type,
        ) {
            Ok(source) => source,
            Err(e) => return Err(e),
        };
        let result_type = get_assignment_result(
            db,
            cache,
            var_ref_id,
            explicit_var_type,
            expr_type,
            source_type,
            reuse_source_narrowing,
        );
        return Ok(ResultTypeOrContinue::Result(result_type));
    }
    proof {
        reveal(after_assignment);
    }
    Ok(ResultTypeOrContinue::Continue)
}

fn get_unnarrowed_source<M: SemanticModel>(
    db: &mut DbIndex<M>,
    tree: &FlowTree,
    cache: &mut LuaInferCache,
    root: &LuaChunk,
    var_ref_id: &VarRefId,
    var_ref_cache_id: u32,
    antecedent_flow_id: FlowId,
) -> (res: Result<(LuaType, bool), InferFailReason>)
    requires
        tree.wf(),
        var_ref_cache_id < u32::MAX,
    ensures
        final(db).steps() <= old(db).steps(),
        extends(final(db).log(), old(db).log()),
        forall|full: Log| #[trigger]
            extends(full, final(db).log()) ==> unnarrowed(
                evaluated(
                    FlowQuery {
                        tree: *tree,
                        root: *root,
                        var_ref_id: *var_ref_id,
                        var_ref_cache_id,
                    },
                    antecedent_flow_id,
                    false,
                    old(db).replay(full, old(cache)@),
                ),
            ) == (res, final(db).replay(full, final(cache)@)),
    decreases old(db).steps(), 0int, 3nat,
{
    match get_type_at_flow_internal(
        db,
        tree,
        cache,
        root,
        var_ref_id,
        var_ref_cache_id,
        antecedent_flow_id,
        false,
    ) {
        Ok(source_type) => Ok((source_type, false)),
        Err(e) => Err(e),
    }
}

fn get_source_before<M: SemanticModel>(
    db: &mut DbIndex<M>,
    tree: &FlowTree,
    cache: &mut LuaInferCache,
    root: &LuaChunk,
    var_ref_id: &VarRefId,
    var_ref_cache_id: u32,
    antecedent_flow_id: FlowId,
    expr_type: &LuaType,
) -> (res: Result<(LuaType, bool), InferFailReason>)
    requires
        tree.wf(),
        var_ref_cache_id < u32::MAX,
    ensures
        final(db).steps() <= old(db).steps(),
        extends(final(db).log(), old(db).log()),
        forall|full: Log| #[trigger]
            extends(full, final(db).log()) ==> source_before(
                FlowQuery {
                    tree: *tree,
                    root: *root,
                    var_ref_id: *var_ref_id,
                    var_ref_cache_id,
                },
                antecedent_flow_id,
                *expr_type,
                old(db).replay(full, old(cache)@),
            ) == (res, final(db).replay(full, final(cache)@)),
    decreases old(db).steps(), 0int, 4nat,
{
    if preserves_assignment_expr_type(expr_type) {
        let narrowed_source_type = match get_type_at_flow_internal(
            db,
            tree,
            cache,
            root,
            var_ref_id,
            var_ref_cache_id,
            antecedent_flow_id,
            true,
        ) {
            Ok(narrowed_source_type) => narrowed_source_type,
            Err(e) => return Err(e),
        };
        if can_reuse_narrowed_assignment_source(db, &narrowed_source_type, expr_type) {
            return Ok((narrowed_source_type, true));
        }
    }
    get_unnarrowed_source(
        db,
        tree,
        cache,
        root,
        var_ref_id,
        var_ref_cache_id,
        antecedent_flow_id,
    )
}

/// The type that a reference had before an assignment, and whether it can be built on.
fn get_assignment_source<M: SemanticModel>(
    db: &mut DbIndex<M>,
    tree: &FlowTree,
    cache: &mut LuaInferCache,
    root: &LuaChunk,
    var_ref_id: &VarRefId,
    var_ref_cache_id: u32,
    flow_node: &FlowNode,
    explicit_var_type: &Option<LuaType>,
    expr_type: &LuaType,
) -> (res: Result<(LuaType, bool), InferFailReason>)
    requires
        tree.wf(),
        var_ref_cache_id < u32::MAX,
    ensures
        final(db).steps() <= old(db).steps(),
        extends(final(db).log(), old(db).log()),
        forall|full: Log| #[trigger]
            extends(full, final(db).log()) ==> (FlowQuery {
                tree: *tree,
                root: *root,
                var_ref_id: *var_ref_id,
                var_ref_cache_id,
            }).assignment_source(
                *flow_node,
                *explicit_var_type,
                *expr_type,
                old(db).replay(full, old(cache)@),
            ) == (res, final(db).replay(full, final(cache)@)),
    decreases old(db).steps(), 1int, 0nat,
{
    let ghost q = FlowQuery {
        tree: *tree,
        root: *root,
        var_ref_id: *var_ref_id,
        var_ref_cache_id,
    };
    if let Some(explicit) = explicit_var_type {
        return Ok((explicit.clone(), true));
    }
    let antecedent_flow_id = match get_single_antecedent(flow_node) {
        Ok(antecedent_flow_id) => antecedent_flow_id,
        Err(e) => return Err(e),
    };
    proof {
        assert forall|full: Log| #[trigger] extends(full, db.log()) implies q.assignment_source(
            *flow_node,
            None,
            *expr_type,
            db.replay(full, cache@),
        ) == source_before(q, antecedent_flow_id, *expr_type, db.replay(full, cache@)) by {
            lemma_source_before(
                q,
                *flow_node,
                antecedent_flow_id,
                *expr_type,
                db.replay(full, cache@),
            );
        }
    }
    get_source_before(
        db,
        tree,
        cache,
        root,
        var_ref_id,
        var_ref_cache_id,
        antecedent_flow_id,
        expr_type,
    )
}

/// Walks back from a node to where the walk ends.
pub fn evaluate_flow_step<M: SemanticModel>(
    db: &mut DbIndex<M>,
    tree: &FlowTree,
    cache: &mut LuaInferCache,
    root: &LuaChunk,
    var_ref_id: &VarRefId,
    var_ref_cache_id: u32,
    flow_id: FlowId,
    use_condition_narrowing: bool,
) -> (res: Result<FlowEvalStep, InferFailReason>)
    requires
        tree.wf(),
        var_ref_cache_id < u32::MAX,
    ensures
        final(db).steps() <= old(db).steps(),
        extends(final(db).log(), old(db).log()),
        forall|full: Log| #[trigger]
            extends(full, final(db).log()) ==> (FlowQuery {
                tree: *tree,
                root: *root,
                var_ref_id: *var_ref_id,
                var_ref_cache_id,
            }).step(
                flow_id,
                use_condition_narrowing,
                Seq::empty(),
                old(db).replay(full, old(cache)@),
            ) == (step_view(res), final(db).replay(full, final(cache)@)),
    decreases old(db).steps(), 5int, 0nat,
{
    let ghost q = FlowQuery {
        tree: *tree,
        root: *root,
        var_ref_id: *var_ref_id,
        var_ref_cache_id,
    };
    let mut antecedent_flow_id = flow_id;
    let mut pending_condition_narrows: Vec<PendingConditionNarrow> = Vec::new();
    loop
        invariant
            tree.wf(),
            var_ref_cache_id < u32::MAX,
            q == (FlowQuery {
                tree: *tree,
                root: *root,
                var_ref_id: *var_ref_id,
                var_ref_cache_id,
            }),
            db.steps() <= old(db).steps(),
            extends(db.log(), old(db).log()),
            forall|full: Log| #[trigger]
                extends(full, db.log()) ==> q.step(
                    flow_id,
                    use_condition_narrowing,
                    Seq::empty(),
                    old(db).replay(full, old(cache)@),
                ) == q.step(
                    antecedent_flow_id,
                    use_condition_narrowing,
                    pending_condition_narrows@,
                    db.replay(full, cache@),
                ),
        decreases db.steps(),
    {
        if !db.tick() {
            return Err(InferFailReason::LimitReached);
        }
        let flow_node = match tree.get_flow_node(antecedent_flow_id) {
            Some(flow_node) => flow_node,
            None => return Err(InferFailReason::Nothing),
        };
        assert(flow_node.id == antecedent_flow_id);
        assert(tree.nodes.len() == tree.nodes@.len());
        match visit_flow_node(
            db,
            tree,
            cache,
            root,
            var_ref_id,
            var_ref_cache_id,
            flow_node,
            use_condition_narrowing,
        ) {
            Err(e) => return Err(e),
            Ok(FlowVisit::Done(result_type)) => {
                let result_type = if use_condition_narrowing {
                    apply_pending_condition_narrows(
                        db,
                        cache,
                        result_type,
                        &pending_condition_narrows,
                    )
                } else {
                    result_type
                };
                return Ok(FlowEvalStep::Result(result_type));
            },
            Ok(FlowVisit::Union(branch_flow_ids)) => {
                return Ok(FlowEvalStep::Union { branch_flow_ids, pending_condition_narrows });
            },
            Ok(FlowVisit::Pass) => {},
            Ok(FlowVisit::Narrow(narrow)) => {
                pending_condition_narrows.push(narrow);
            },
        }
        antecedent_flow_id =
        match get_single_antecedent(flow_node) {
            Ok(antecedent) => antecedent,
            Err(e) => return Err(e),
        };
    }
}

/// An evaluation that is still to be done.
enum FlowEvalFrame {
    Enter { flow_id: FlowId, use_condition_narrowing: bool },
    /// The type at the branch `next_pending_index` is being worked out; the branches before it
    /// are still to come.
    PendingUnion {
        flow_id: FlowId,
        use_condition_narrowing: bool,
        branch_flow_ids: Arc<Vec<FlowId>>,
        next_pending_index: usize,
        pending_condition_narrows: Vec<PendingConditionNarrow>,
        branch_result_type: LuaType,
    },
}

/// The mathematical content of a frame; `branch_flow_ids` are the branches that are to come.
enum FrameView {
    Enter { flow_id: FlowId, use_condition_narrowing: bool },
    PendingUnion {
        flow_id: FlowId,
        use_condition_narrowing: bool,
        branch_flow_ids: Seq<FlowId>,
        narrows: Seq<PendingConditionNarrow>,
        acc: LuaType,
    },
}

impl FlowEvalFrame {
    spec fn view(self) -> FrameView {
        match self {
            FlowEvalFrame::Enter { flow_id, use_condition_narrowing } => FrameView::Enter {
                flow_id,
                use_condition_narrowing,
            },
            FlowEvalFrame::PendingUnion {
                flow_id,
                use_condition_narrowing,
                branch_flow_ids,
                next_pending_index,
                pending_condition_narrows,
                branch_result_type,
            } => FrameView::PendingUnion {
                flow_id,
                use_condition_narrowing,
                branch_flow_ids: branch_flow_ids@.take(next_pending_index as int),
                narrows: pending_condition_narrows@,
                acc: branch_result_type,
            },
        }
    }

    /// The branch that is being worked out is one of the branches.
    spec fn wf(self) -> bool {
        match self {
            FlowEvalFrame::Enter { .. } => true,
            FlowEvalFrame::PendingUnion { branch_flow_ids, next_pending_index, .. } => {
                next_pending_index < branch_flow_ids@.len()
            },
        }
    }
}

spec fn frame_views(frames: Seq<FlowEvalFrame>) -> Seq<FrameView> {
    frames.map_values(|f: FlowEvalFrame| f@)
}

proof fn lemma_frame_views_push(frames: Seq<FlowEvalFrame>, frame: FlowEvalFrame)
    ensures
        frame_views(frames.push(frame)) == frame_views(frames).push(frame@),
        frame_views(frames).push(frame@).drop_last() == frame_views(frames),
{
    assert(frame_views(frames.push(frame)) =~= frame_views(frames).push(frame@));
    assert(frame_views(frames).push(frame@).drop_last() =~= frame_views(frames));
}

/// How many more frames an evaluation can visit before it uses up a step.
spec fn weight(frames: Seq<FrameView>) -> nat
    decreases frames.len(),
{
    if frames.len() == 0 {
        0
    } else {
        weight(frames.drop_last()) + match frames.last() {
            FrameView::Enter { .. } => 1,
            FrameView::PendingUnion { branch_flow_ids, .. } => 2 * (branch_flow_ids.len() + 1),
        }
    }
}

/// The union at a node, remembered there.
#[verifier::opaque]
spec fn united(
    q: FlowQuery,
    flow_id: FlowId,
    use_condition_narrowing: bool,
    branch_flow_ids: Seq<FlowId>,
    narrows: Seq<PendingConditionNarrow>,
    acc: LuaType,
    rp: Replay,
) -> (InferResult, Replay) {
    let (res, after) = q.merged(branch_flow_ids, use_condition_narrowing, narrows, acc, rp);
    (res, q.settle(flow_id, use_condition_narrowing, res, after))
}

/// What comes out of the evaluation of all the frames, from the last to the first.
#[verifier::opaque]
spec fn resumed(
    q: FlowQuery,
    frames: Seq<FrameView>,
    last_result: Option<InferResult>,
    rp: Replay,
) -> (InferResult, Replay)
    decreases frames.len(),
{
    if frames.len() == 0 {
        match last_result {
            Some(res) => (res, rp),
            None => (Err(InferFailReason::Nothing), rp),
        }
    } else {
        match frames.last() {
            FrameView::Enter { flow_id, use_condition_narrowing } => {
                let (res, rp) = evaluated(q, flow_id, use_condition_narrowing, rp);
                resumed(q, frames.drop_last(), Some(res), rp)
            },
            FrameView::PendingUnion {
                flow_id,
                use_condition_narrowing,
                branch_flow_ids,
                narrows,
                acc,
            } => match last_result {
                None => (
                    Err(InferFailReason::Nothing),
                    q.remember(flow_id, use_condition_narrowing, None, rp),
                ),
                Some(Err(e)) => resumed(
                    q,
                    frames.drop_last(),
                    last_result,
                    q.remember(flow_id, use_condition_narrowing, None, rp),
                ),
                Some(Ok(typ)) => {
                    let (acc, rp) = rp.apply_type_op(TypeOps::Union, acc, typ);
                    let (res, rp) = united(
                        q,
                        flow_id,
                        use_condition_narrowing,
                        branch_flow_ids,
                        narrows,
                        acc,
                        rp,
                    );
                    resumed(q, frames.drop_last(), Some(res), rp)
                },
            },
        }
    }
}

proof fn lemma_resumed_at_enter(
    q: FlowQuery,
    below: Seq<FrameView>,
    flow_id: FlowId,
    use_condition_narrowing: bool,
    last_result: Option<InferResult>,
    rp: Replay,
)
    ensures
        resumed(
            q,
            below.push(FrameView::Enter { flow_id, use_condition_narrowing }),
            last_result,
            rp,
        ) == ({
            let (res, after) = evaluated(q, flow_id, use_condition_narrowing, rp);
            resumed(q, below, Some(res), after)
        }),
{
    reveal(resumed);
    let enter = FrameView::Enter { flow_id, use_condition_narrowing };
    assert(below.push(enter).drop_last() =~= below);
}

proof fn lemma_resumed_at_union(
    q: FlowQuery,
    below: Seq<FrameView>,
    flow_id: FlowId,
    use_condition_narrowing: bool,
    branch_flow_ids: Seq<FlowId>,
    narrows: Seq<PendingConditionNarrow>,
    acc: LuaType,
    last_result: Option<InferResult>,
    rp: Replay,
)
    ensures
        resumed(
            q,
            below.push(
                FrameView::PendingUnion {
                    flow_id,
                    use_condition_narrowing,
                    branch_flow_ids,
                    narrows,
                    acc,
                },
            ),
            last_result,
            rp,
        ) == match last_result {
            None => (
                Err(InferFailReason::Nothing),
                q.remember(flow_id, use_condition_narrowing, None, rp),
            ),
            Some(Err(e)) => resumed(
                q,
                below,
                last_result,
                q.remember(flow_id, use_condition_narrowing, None, rp),
            ),
            Some(Ok(typ)) => {
                let (acc, rp) = rp.apply_type_op(TypeOps::Union, acc, typ);
                let (res, rp) = united(
                    q,
                    flow_id,
                    use_condition_narrowing,
                    branch_flow_ids,
                    narrows,
                    acc,
                    rp,
                );
                resumed(q, below, Some(res), rp)
            },
        },
{
    reveal(resumed);
    let pending = FrameView::PendingUnion {
        flow_id,
        use_condition_narrowing,
        branch_flow_ids,
        narrows,
        acc,
    };
    assert(below.push(pending).drop_last() =~= below);
}

/// To work out the last branch of a union and then go on is to work out the union.
proof fn lemma_united_branch_by_branch(
    q: FlowQuery,
    below: Seq<FrameView>,
    flow_id: FlowId,
    use_condition_narrowing: bool,
    branch_flow_ids: Seq<FlowId>,
    narrows: Seq<PendingConditionNarrow>,
    acc: LuaType,
    last_result: Option<InferResult>,
    rp: Replay,
)
    requires
        branch_flow_ids.len() > 0,
    ensures
        ({
            let (res, after) = united(
                q,
                flow_id,
                use_condition_narrowing,
                branch_flow_ids,
                narrows,
                acc,
                rp,
            );
            resumed(q, below, Some(res), after)
        }) == resumed(
            q,
            below.push(
                FrameView::PendingUnion {
                    flow_id,
                    use_condition_narrowing,
                    branch_flow_ids: branch_flow_ids.drop_last(),
                    narrows,
                    acc,
                },
            ).push(FrameView::Enter { flow_id: branch_flow_ids.last(), use_condition_narrowing }),
            last_result,
            rp,
        ),
{
    let last = branch_flow_ids.last();
    let rest = branch_flow_ids.drop_last();
    let pending = FrameView::PendingUnion {
        flow_id,
        use_condition_narrowing,
        branch_flow_ids: rest,
        narrows,
        acc,
    };
    lemma_resumed_at_enter(
        q,
        below.push(pending),
        last,
        use_condition_narrowing,
        last_result,
        rp,
    );
    let (branch, after) = evaluated(q, last, use_condition_narrowing, rp);
    lemma_resumed_at_union(
        q,
        below,
        flow_id,
        use_condition_narrowing,
        rest,
        narrows,
        acc,
        Some(branch),
        after,
    );
    assert(evaluated(q, last, use_condition_narrowing, rp) == q.type_at(
        last,
        use_condition_narrowing,
        rp,
    )) by {
        reveal(evaluated);
    }
    lemma_type_at_is_bounded(q, last, use_condition_narrowing, rp, 0);
    reveal(united);
}

/// What the evaluation of a node comes to before its branches are looked at.
enum EntryOutcome {
    Known(InferResult),
    Branches {
        branch_flow_ids: Arc<Vec<FlowId>>,
        pending_condition_narrows: Vec<PendingConditionNarrow>,
    },
}

/// What the evaluation of a node comes to in the end.
spec fn entry_result(
    q: FlowQuery,
    flow_id: FlowId,
    use_condition_narrowing: bool,
    outcome: EntryOutcome,
    rp: Replay,
) -> (InferResult, Replay) {
    match outcome {
        EntryOutcome::Known(res) => (res, rp),
        EntryOutcome::Branches { branch_flow_ids, pending_condition_narrows } => united(
            q,
            flow_id,
            use_condition_narrowing,
            branch_flow_ids@,
            pending_condition_narrows@,
            LuaType::Never,
            rp,
        ),
    }
}

/// Narrows the union of all branches of a node and remembers it.
fn finish_union<M: SemanticModel>(
    db: &mut DbIndex<M>,
    cache: &mut LuaInferCache,
    var_ref_cache_id: u32,
    flow_id: FlowId,
    use_condition_narrowing: bool,
    pending_condition_narrows: &Vec<PendingConditionNarrow>,
    branch_result_type: LuaType,
    Ghost(q): Ghost<FlowQuery>,
) -> (res: LuaType)
    requires
        var_ref_cache_id < u32::MAX,
        q.var_ref_cache_id == var_ref_cache_id,
    ensures
        final(db).steps() == old(db).steps(),
        extends(final(db).log(), old(db).log()),
        forall|full: Log| #[trigger]
            extends(full, final(db).log()) ==> united(
                q,
                flow_id,
                use_condition_narrowing,
                Seq::empty(),
                pending_condition_narrows@,
                branch_result_type,
                old(db).replay(full, old(cache)@),
            ) == (Ok::<LuaType, InferFailReason>(res), final(db).replay(full, final(cache)@)),
{
    proof {
        reveal(united);
    }
    let result_type = apply_pending_condition_narrows(
        db,
        cache,
        branch_result_type,
        pending_condition_narrows,
    );
    *get_flow_node_cache_slot(cache, var_ref_cache_id, flow_id, use_condition_narrowing) =
    Some(CacheEntry::Cache(result_type.clone()));
    result_type
}

fn evaluate_entry<M: SemanticModel>(
    db: &mut DbIndex<M>,
    tree: &FlowTree,
    cache: &mut LuaInferCache,
    root: &LuaChunk,
    var_ref_id: &VarRefId,
    var_ref_cache_id: u32,
    flow_id: FlowId,
    use_condition_narrowing: bool,
) -> (res: EntryOutcome)
    requires
        tree.wf(),
        var_ref_cache_id < u32::MAX,
    ensures
        final(db).steps() < old(db).steps() || final(db).steps() == old(db).steps()
            && res is Known,
        res matches EntryOutcome::Branches { branch_flow_ids, .. } ==> branch_flow_ids@.len() > 0,
        extends(final(db).log(), old(db).log()),
        forall|full: Log| #[trigger]
            extends(full, final(db).log()) ==> evaluated(
                FlowQuery {
                    tree: *tree,
                    root: *root,
                    var_ref_id: *var_ref_id,
                    var_ref_cache_id,
                },
                flow_id,
                use_condition_narrowing,
                old(db).replay(full, old(cache)@),
            ) == entry_result(
                FlowQuery {
                    tree: *tree,
                    root: *root,
                    var_ref_id: *var_ref_id,
                    var_ref_cache_id,
                },
                flow_id,
                use_condition_narrowing,
                res,
                final(db).replay(full, final(cache)@),
            ),
    decreases old(db).steps(), 0int, 1nat,
{
    let ghost q = FlowQuery {
        tree: *tree,
        root: *root,
        var_ref_id: *var_ref_id,
        var_ref_cache_id,
    };
    proof {
        reveal(evaluated);
    }
    if let Some(cache_entry) = get_flow_node_cache_entry(
        cache,
        var_ref_cache_id,
        flow_id,
        use_condition_narrowing,
    ) {
        return EntryOutcome::Known(
            match cache_entry {
                CacheEntry::Cache(narrow_type) => Ok(narrow_type.clone()),
                CacheEntry::Ready => Err(InferFailReason::RecursiveInfer),
            },
        );
    }
    if !db.tick() {
        return EntryOutcome::Known(Err(InferFailReason::LimitReached));
    }
    *get_flow_node_cache_slot(cache, var_ref_cache_id, flow_id, use_condition_narrowing) =
    Some(CacheEntry::Ready);
    match evaluate_flow_step(
        db,
        tree,
        cache,
        root,
        var_ref_id,
        var_ref_cache_id,
        flow_id,
        use_condition_narrowing,
    ) {
        Ok(FlowEvalStep::Result(result_type)) => {
            *get_flow_node_cache_slot(cache, var_ref_cache_id, flow_id, use_condition_narrowing) =
            Some(CacheEntry::Cache(result_type.clone()));
            EntryOutcome::Known(Ok(result_type))
        },
        Ok(FlowEvalStep::Union { branch_flow_ids, pending_condition_narrows }) => {
            if branch_flow_ids.len() == 0 {
                assert(branch_flow_ids@ =~= Seq::empty());
                let result_type = finish_union(
                    db,
                    cache,
                    var_ref_cache_id,
                    flow_id,
                    use_condition_narrowing,
                    &pending_condition_narrows,
                    LuaType::Never,
                    Ghost(q),
                );
                proof {
                    reveal(united);
                }
                EntryOutcome::Known(Ok(result_type))
            } else {
                proof {
                    reveal(united);
                }
                EntryOutcome::Branches { branch_flow_ids, pending_condition_narrows }
            }
        },
        Err(err) => {
            *get_flow_node_cache_slot(cache, var_ref_cache_id, flow_id, use_condition_narrowing) =
            None;
            EntryOutcome::Known(Err(err))
        },
    }
}

proof fn lemma_weight_push(frames: Seq<FrameView>, frame: FrameView)
    ensures
        weight(frames.push(frame)) == weight(frames) + match frame {
            FrameView::Enter { .. } => 1,
            FrameView::PendingUnion { branch_flow_ids, .. } => 2 * (branch_flow_ids.len() + 1),
        },
{
    assert(frames.push(frame).drop_last() =~= frames);
}

/// The type of the reference with a number at a node; [`evaluated`] is [`FlowQuery::type_at`].
pub fn get_type_at_flow_internal<M: SemanticModel>(
    db: &mut DbIndex<M>,
    tree: &FlowTree,
    cache: &mut LuaInferCache,
    root: &LuaChunk,
    var_ref_id: &VarRefId,
    var_ref_cache_id: u32,
    flow_id: FlowId,
    use_condition_narrowing: bool,
) -> (res: InferResult)
    requires
        tree.wf(),
        var_ref_cache_id < u32::MAX,
    ensures
        final(db).steps() <= old(db).steps(),
        extends(final(db).log(), old(db).log()),
        forall|full: Log| #[trigger]
            extends(full, final(db).log()) ==> evaluated(
                FlowQuery {
                    tree: *tree,
                    root: *root,
                    var_ref_id: *var_ref_id,
                    var_ref_cache_id,
                },
                flow_id,
                use_condition_narrowing,
                old(db).replay(full, old(cache)@),
            ) == (res, final(db).replay(full, final(cache)@)),
        match old(cache)@.node_entry(var_ref_cache_id, flow_id, use_condition_narrowing) {
            None => final(cache)@.node_entry(var_ref_cache_id, flow_id, use_condition_narrowing)
                == settled_entry(res),
            Some(known) => {
                &&& res == known_result(known)
                &&& final(cache)@ == old(cache)@
                &&& final(db).log() == old(db).log()
                &&& final(db).steps() == old(db).steps()
            },
        },
        leaves_no_marker(final(db).log(), old(cache)@, final(cache)@),
    decreases old(db).steps(), 0int, 2nat,
{
    let ghost q = FlowQuery {
        tree: *tree,
        root: *root,
        var_ref_id: *var_ref_id,
        var_ref_cache_id,
    };
    let ghost asked = (flow_id, use_condition_narrowing);
    let mut frames: Vec<FlowEvalFrame> = Vec::new();
    let ghost no_frames = frames@;
    frames.push(FlowEvalFrame::Enter { flow_id, use_condition_narrowing });
    let mut last_result: Option<InferResult> = None;
    proof {
        lemma_frame_views_push(no_frames, frames@.last());
        assert(frame_views(no_frames) =~= Seq::<FrameView>::empty());
        assert forall|full: Log| #[trigger] extends(full, db.log()) implies evaluated(
            q,
            flow_id,
            use_condition_narrowing,
            old(db).replay(full, old(cache)@),
        ) == resumed(q, frame_views(frames@), last_result, db.replay(full, cache@)) by {
            let rp = db.replay(full, cache@);
            lemma_resumed_at_enter(
                q,
                frame_views(no_frames),
                flow_id,
                use_condition_narrowing,
                last_result,
                rp,
            );
            reveal(resumed);
        }
    }
    while frames.len() > 0
        invariant
            tree.wf(),
            var_ref_cache_id < u32::MAX,
            q == (FlowQuery {
                tree: *tree,
                root: *root,
                var_ref_id: *var_ref_id,
                var_ref_cache_id,
            }),
            asked == (flow_id, use_condition_narrowing),
            forall|i: int| 0 <= i < frames@.len() ==> (#[trigger] frames@[i]).wf(),
            db.steps() <= old(db).steps(),
            extends(db.log(), old(db).log()),
            forall|full: Log| #[trigger]
                extends(full, db.log()) ==> evaluated(
                    q,
                    flow_id,
                    use_condition_narrowing,
                    old(db).replay(full, old(cache)@),
                ) == resumed(q, frame_views(frames@), last_result, db.replay(full, cache@)),
        decreases db.steps(), weight(frame_views(frames@)),
    {
        let ghost stacked = frames@;
        let ghost rp = |full: Log| db.replay(full, cache@);
        let ghost last = last_result;
        let frame = frames.pop().unwrap();
        let ghost bare = frames@;
        let ghost below = frame_views(bare);
        proof {
            assert(stacked =~= bare.push(frame));
            lemma_frame_views_push(bare, frame);
            lemma_weight_push(below, frame@);
            assert(frame.wf()) by {
                assert(stacked[stacked.len() - 1].wf());
            }
            assert forall|i: int| 0 <= i < bare.len() implies (#[trigger] bare[i]).wf() by {
                assert(stacked[i].wf());
            }
        }
        match frame {
            FlowEvalFrame::Enter { flow_id, use_condition_narrowing } => {
                proof {
                    assert forall|full: Log| #[trigger] extends(full, db.log()) implies resumed(
                        q,
                        frame_views(stacked),
                        last,
                        rp(full),
                    ) == ({
                        let (res, after) = evaluated(
                            q,
                            flow_id,
                            use_condition_narrowing,
                            rp(full),
                        );
                        resumed(q, below, Some(res), after)
                    }) by {
                        lemma_resumed_at_enter(
                            q,
                            below,
                            flow_id,
                            use_condition_narrowing,
                            last,
                            rp(full),
                        );
                    }
                }
                match evaluate_entry(
                    db,
                    tree,
                    cache,
                    root,
                    var_ref_id,
                    var_ref_cache_id,
                    flow_id,
                    use_condition_narrowing,
                ) {
                    EntryOutcome::Known(res) => {
                        last_result = Some(res);
                    },
                    EntryOutcome::Branches { branch_flow_ids, pending_condition_narrows } => {
                        let next_pending_index: usize = branch_flow_ids.len() - 1;
                        push_branch(
                            &mut frames,
                            flow_id,
                            use_condition_narrowing,
                            branch_flow_ids,
                            next_pending_index,
                            pending_condition_narrows,
                            LuaType::Never,
                        );
                        proof {
                            assert(branch_flow_ids@.take(branch_flow_ids@.len() as int)
                                =~= branch_flow_ids@);
                            assert forall|full: Log| #[trigger] extends(full, db.log()) implies ({
                                let (res, after) = united(
                                    q,
                                    flow_id,
                                    use_condition_narrowing,
                                    branch_flow_ids@,
                                    pending_condition_narrows@,
                                    LuaType::Never,
                                    db.replay(full, cache@),
                                );
                                resumed(q, below, Some(res), after)
                            }) == resumed(
                                q,
                                frame_views(frames@),
                                last_result,
                                db.replay(full, cache@),
                            ) by {
                                lemma_united_branch_by_branch(
                                    q,
                                    below,
                                    flow_id,
                                    use_condition_narrowing,
                                    branch_flow_ids@,
                                    pending_condition_narrows@,
                                    LuaType::Never,
                                    last_result,
                                    db.replay(full, cache@),
                                );
                            }
                        }
                    },
                }
            },
            FlowEvalFrame::PendingUnion {
                flow_id,
                use_condition_narrowing,
                branch_flow_ids,
                next_pending_index,
                pending_condition_narrows,
                branch_result_type,
            } => {
                proof {
                    assert forall|full: Log| #[trigger] extends(full, db.log()) implies resumed(
                        q,
                        frame_views(stacked),
                        last,
                        rp(full),
                    ) == match last {
                        None => (
                            Err::<LuaType, InferFailReason>(InferFailReason::Nothing),
                            q.remember(flow_id, use_condition_narrowing, None, rp(full)),
                        ),
                        Some(Err(e)) => resumed(
                            q,
                            below,
                            last,
                            q.remember(flow_id, use_condition_narrowing, None, rp(full)),
                        ),
                        Some(Ok(typ)) => {
                            let (acc, rp) = rp(full).apply_type_op(
                                TypeOps::Union,
                                branch_result_type,
                                typ,
                            );
                            let (res, rp) = united(
                                q,
                                flow_id,
                                use_condition_narrowing,
                                branch_flow_ids@.take(next_pending_index as int),
                                pending_condition_narrows@,
                                acc,
                                rp,
                            );
                            resumed(q, below, Some(res), rp)
                        },
                    } by {
                        lemma_resumed_at_union(
                            q,
                            below,
                            flow_id,
                            use_condition_narrowing,
                            branch_flow_ids@.take(next_pending_index as int),
                            pending_condition_narrows@,
                            branch_result_type,
                            last,
                            rp(full),
                        );
                    }
                }
                let branch_result = match last_result.take() {
                    Some(branch_result) => branch_result,
                    None => {
                        *get_flow_node_cache_slot(
                            cache,
                            var_ref_cache_id,
                            flow_id,
                            use_condition_narrowing,
                        ) = None;
                        proof {
                            assert(extends(db.log(), db.log()));
                            let rp = old(db).replay(db.log(), old(cache)@);
                            lemma_evaluated_settles(q, asked.0, asked.1, rp);
                            assert(db.log().len() == old(db).log().len() ==> db.log().take(
                                db.log().len() as int,
                            ) =~= db.log());
                        }
                        return Err(InferFailReason::Nothing);
                    },
                };
                match branch_result {
                    Ok(branch_type) => {
                        let branch_result_type = db.apply_type_op(
                            TypeOps::Union,
                            &branch_result_type,
                            &branch_type,
                        );
                        if next_pending_index > 0 {
                            let ghost ids = branch_flow_ids@.take(next_pending_index as int);
                            push_branch(
                                &mut frames,
                                flow_id,
                                use_condition_narrowing,
                                branch_flow_ids,
                                next_pending_index - 1,
                                pending_condition_narrows,
                                branch_result_type,
                            );
                            proof {
                                assert forall|full: Log| #[trigger]
                                    extends(full, db.log()) implies ({
                                    let (res, after) = united(
                                        q,
                                        flow_id,
                                        use_condition_narrowing,
                                        ids,
                                        pending_condition_narrows@,
                                        branch_result_type,
                                        db.replay(full, cache@),
                                    );
                                    resumed(q, below, Some(res), after)
                                }) == resumed(
                                    q,
                                    frame_views(frames@),
                                    last_result,
                                    db.replay(full, cache@),
                                ) by {
                                    lemma_united_branch_by_branch(
                                        q,
                                        below,
                                        flow_id,
                                        use_condition_narrowing,
                                        ids,
                                        pending_condition_narrows@,
                                        branch_result_type,
                                        last_result,
                                        db.replay(full, cache@),
                                    );
                                }
                            }
                        } else {
                            assert(branch_flow_ids@.take(0) =~= Seq::empty());
                            let result_type = finish_union(
                                db,
                                cache,
                                var_ref_cache_id,
                                flow_id,
                                use_condition_narrowing,
                                &pending_condition_narrows,
                                branch_result_type,
                                Ghost(q),
                            );
                            last_result = Some(Ok(result_type));
                        }
                    },
                    Err(err) => {
                        *get_flow_node_cache_slot(
                            cache,
                            var_ref_cache_id,
                            flow_id,
                            use_condition_narrowing,
                        ) = None;
                        last_result = Some(Err(err));
                    },
                }
            },
        }
    }
    proof {
        reveal(resumed);
        assert(extends(db.log(), db.log()));
        let rp = old(db).replay(db.log(), old(cache)@);
        lemma_evaluated_settles(q, flow_id, use_condition_narrowing, rp);
        assert(db.log().len() == old(db).log().len() ==> db.log().take(db.log().len() as int)
            =~= db.log());
    }
    match last_result {
        Some(res) => res,
        None => Err(InferFailReason::Nothing),
    }
}

/// Puts the branch `next_pending_index` on the stack, above a frame that goes on with the others.
fn push_branch(
    frames: &mut Vec<FlowEvalFrame>,
    flow_id: FlowId,
    use_condition_narrowing: bool,
    branch_flow_ids: Arc<Vec<FlowId>>,
    next_pending_index: usize,
    pending_condition_narrows: Vec<PendingConditionNarrow>,
    branch_result_type: LuaType,
)
    requires
        next_pending_index < branch_flow_ids@.len(),
        forall|i: int| 0 <= i < old(frames)@.len() ==> (#[trigger] old(frames)@[i]).wf(),
    ensures
        forall|i: int| 0 <= i < final(frames)@.len() ==> (#[trigger] final(frames)@[i]).wf(),
        ({
            let ids = branch_flow_ids@.take(next_pending_index + 1);
            &&& frame_views(final(frames)@) == frame_views(old(frames)@).push(
                FrameView::PendingUnion {
                    flow_id,
                    use_condition_narrowing,
                    branch_flow_ids: ids.drop_last(),
                    narrows: pending_condition_narrows@,
                    acc: branch_result_type,
                },
            ).push(FrameView::Enter { flow_id: ids.last(), use_condition_narrowing })
            &&& weight(frame_views(final(frames)@)) == weight(frame_views(old(frames)@)) + 2 * (
            next_pending_index + 1) + 1
        }),
{
    let next_flow_id = branch_flow_ids[next_pending_index];
    frames.push(
        FlowEvalFrame::PendingUnion {
            flow_id,
            use_condition_narrowing,
            branch_flow_ids,
            next_pending_index,
            pending_condition_narrows,
            branch_result_type,
        },
    );
    let ghost with_union = frames@;
    frames.push(FlowEvalFrame::Enter { flow_id: next_flow_id, use_condition_narrowing });
    proof {
        let ids = branch_flow_ids@.take(next_pending_index + 1);
        assert(branch_flow_ids@.take(next_pending_index as int) =~= ids.drop_last());
        lemma_frame_views_push(old(frames)@, with_union.last());
        lemma_frame_views_push(with_union, frames@.last());
        lemma_weight_push(frame_views(old(frames)@), with_union.last()@);
        lemma_weight_push(frame_views(with_union), frames@.last()@);
        assert(with_union.last().wf());
        assert(frames@.last().wf());
        assert forall|i: int| 0 <= i < frames@.len() implies (#[trigger] frames@[i]).wf() by {
            if i < old(frames)@.len() {
                assert(frames@[i] == old(frames)@[i]);
            }
        }
    }
}

pub fn get_type_at_flow<M: SemanticModel>(
    db: &mut DbIndex<M>,
    tree: &FlowTree,
    cache: &mut LuaInferCache,
    root: &LuaChunk,
    var_ref_id: &VarRefId,
    flow_id: FlowId,
) -> (res: InferResult)
    requires
        tree.wf(),
        old(cache)@.number_var_ref(*var_ref_id).0 < u32::MAX,
    ensures
        final(db).steps() <= old(db).steps(),
        extends(final(db).log(), old(db).log()),
        forall|full: Log| #[trigger]
            extends(full, final(db).log()) ==> flow_type(
                *tree,
                *root,
                *var_ref_id,
                flow_id,
                old(db).replay(full, old(cache)@),
            ) == (res, final(db).replay(full, final(cache)@)),
        leaves_no_marker(final(db).log(), old(cache)@, final(cache)@),
{
    proof {
        reveal(evaluated);
    }
    let var_ref_cache_id = get_flow_cache_var_ref_id(cache, var_ref_id);
    get_type_at_flow_internal(
        db,
        tree,
        cache,
        root,
        var_ref_id,
        var_ref_cache_id,
        flow_id,
        true,
    )
}

} // verus!
