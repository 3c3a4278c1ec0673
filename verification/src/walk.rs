//! How a walk goes from node to node.

use vstd::prelude::*;

use crate::allowance::{lemma_assignment_info_is_free, more_steps_walk_the_same, with_more_left};
use crate::condition_flow::PendingConditionNarrow;
use crate::db::Replay;
use crate::flow_info::assignment_info;
use crate::flow_query::{
    applied_narrows, cast_visit, decl_visit, func_visit, narrows_apply_last_to_first, FlowQuery,
    StepView, VisitView,
};
use crate::flow_tree::{single_antecedent, FlowNode, FlowNodeKind};
use crate::ids::{FlowId, LuaSyntaxId};
use crate::infer::InferFailReason;

verus! {

/// The outcome of a walk that met `narrows` before it began: they are applied to the type last, and
/// stand before those that are kept for a union.
pub open spec fn narrowed_step(
    narrows: Seq<PendingConditionNarrow>,
    step: (Result<StepView, InferFailReason>, Replay),
) -> (Result<StepView, InferFailReason>, Replay) {
    match step.0 {
        Err(e) => (Err(e), step.1),
        Ok(StepView::Result(typ)) => {
            let (typ, rp) = applied_narrows(narrows, typ, step.1);
            (Ok(StepView::Result(typ)), rp)
        },
        Ok(StepView::Union { branch_flow_ids, narrows: later }) => (
            Ok(StepView::Union { branch_flow_ids, narrows: narrows + later }),
            step.1,
        ),
    }
}

/// Narrowings that were met before a walk make no difference to where it goes and what it asks on
/// the way; they count after all that it meets.
pub proof fn narrowings_met_before_count_last(
    q: FlowQuery,
    flow_id: FlowId,
    before: Seq<PendingConditionNarrow>,
    narrows: Seq<PendingConditionNarrow>,
    rp: Replay,
)
    ensures
        q.step(flow_id, true, before + narrows, rp) == narrowed_step(
            before,
            q.step(flow_id, true, narrows, rp),
        ),
    decreases rp.steps,
{
    if rp.steps > 0 {
        if let Some(node) = q.tree.node(flow_id) {
            let start = rp.ticked();
            let (visit, after) = q.visit(node, true, start);
            let after = after.capped(start);
            match visit {
                Err(_) => {},
                Ok(VisitView::Done(typ)) => {
                    narrows_apply_last_to_first(before, narrows, typ, after);
                },
                Ok(VisitView::Union(_)) => {},
                Ok(VisitView::Pass) => {
                    if let Ok(antecedent) = single_antecedent(node) {
                        narrowings_met_before_count_last(q, antecedent, before, narrows, after);
                    }
                },
                Ok(VisitView::Narrow(narrow)) => {
                    if let Ok(antecedent) = single_antecedent(node) {
                        let later = narrows.push(narrow);
                        assert((before + narrows).push(narrow) =~= before + later);
                        narrowings_met_before_count_last(q, antecedent, before, later, after);
                    }
                },
            }
        }
    }
}

/// A walk from a node that gives a narrowing is the walk from the node before it, with that
/// narrowing applied last.
pub proof fn pending_narrowing_is_applied_last(
    q: FlowQuery,
    flow_id: FlowId,
    node: FlowNode,
    antecedent: FlowId,
    narrow: PendingConditionNarrow,
    narrows: Seq<PendingConditionNarrow>,
    after: Replay,
    rp: Replay,
)
    requires
        rp.steps > 0,
        q.tree.node(flow_id) == Some(node),
        q.visit(node, true, rp.ticked()) == (
            Ok::<VisitView, InferFailReason>(VisitView::Narrow(narrow)),
            after,
        ),
        single_antecedent(node) == Ok::<FlowId, InferFailReason>(antecedent),
    ensures
        q.step(flow_id, true, narrows, rp) == narrowed_step(
            narrows.push(narrow),
            q.step(antecedent, true, Seq::empty(), after.capped(rp.ticked())),
        ),
{
    let met = narrows.push(narrow);
    assert(met + Seq::empty() =~= met);
    narrowings_met_before_count_last(
        q,
        antecedent,
        met,
        Seq::empty(),
        after.capped(rp.ticked()),
    );
}

/// A walk from a node that has nothing to say is the walk from the node before it.
pub proof fn silent_node_is_passed_over(
    q: FlowQuery,
    flow_id: FlowId,
    node: FlowNode,
    antecedent: FlowId,
    use_condition_narrowing: bool,
    narrows: Seq<PendingConditionNarrow>,
    after: Replay,
    rp: Replay,
)
    requires
        rp.steps > 0,
        q.tree.node(flow_id) == Some(node),
        q.visit(node, use_condition_narrowing, rp.ticked()) == (
            Ok::<VisitView, InferFailReason>(VisitView::Pass),
            after,
        ),
        single_antecedent(node) == Ok::<FlowId, InferFailReason>(antecedent),
    ensures
        q.step(flow_id, use_condition_narrowing, narrows, rp) == q.step(
            antecedent,
            use_condition_narrowing,
            narrows,
            after.capped(rp.ticked()),
        ),
{
}

/// Whether nothing is asked at a node, and nothing found: the heads and ends of loops, `return`,
/// places from which on something is in scope that comes after the reference, and conditions where
/// they do not count.
pub open spec fn is_unasked(q: FlowQuery, node: FlowNode, use_condition_narrowing: bool) -> bool {
    match node.kind {
        FlowNodeKind::LoopLabel => true,
        FlowNodeKind::Break => true,
        FlowNodeKind::Return => true,
        FlowNodeKind::ForIStat(_) => true,
        FlowNodeKind::DeclPosition(position) => position > q.var_ref_id.position(),
        FlowNodeKind::TrueCondition(_) => !use_condition_narrowing,
        FlowNodeKind::FalseCondition(_) => !use_condition_narrowing,
        _ => false,
    }
}

/// A walk from a node where nothing is asked is the walk from the node before it with one step
/// less; where there is no such node, it fails.
pub proof fn unasked_node_takes_one_step(
    q: FlowQuery,
    flow_id: FlowId,
    node: FlowNode,
    use_condition_narrowing: bool,
    narrows: Seq<PendingConditionNarrow>,
    rp: Replay,
)
    requires
        rp.steps > 0,
        q.tree.node(flow_id) == Some(node),
        is_unasked(q, node, use_condition_narrowing),
    ensures
        q.step(flow_id, use_condition_narrowing, narrows, rp) == match single_antecedent(node) {
            Ok(antecedent) => q.step(antecedent, use_condition_narrowing, narrows, rp.ticked()),
            Err(e) => (Err(e), rp.ticked()),
        },
{
    let start = rp.ticked();
    reveal(decl_visit);
    let passed: (Result<VisitView, InferFailReason>, Replay) = (Ok(VisitView::Pass), start);
    assert(q.visit(node, use_condition_narrowing, start) == passed);
    assert(start.capped(start) == start);
}

/// A walk from an assignment to something else is the walk from the node before it, once what is
/// assigned to is known.
pub proof fn assignment_to_another_is_passed_over(
    q: FlowQuery,
    flow_id: FlowId,
    node: FlowNode,
    assign_id: LuaSyntaxId,
    antecedent: FlowId,
    use_condition_narrowing: bool,
    narrows: Seq<PendingConditionNarrow>,
    rp: Replay,
)
    requires
        rp.steps > 0,
        q.tree.node(flow_id) == Some(node),
        node.kind == FlowNodeKind::Assignment(assign_id),
        single_antecedent(node) == Ok::<FlowId, InferFailReason>(antecedent),
        assignment_info(q.root, node.id, assign_id, rp.ticked()).0 is Ok,
        !assignment_info(q.root, node.id, assign_id, rp.ticked()).0->Ok_0.var_ref_ids.contains(
            Some(q.var_ref_id),
        ),
    ensures
        q.step(flow_id, use_condition_narrowing, narrows, rp) == q.step(
            antecedent,
            use_condition_narrowing,
            narrows,
            assignment_info(q.root, node.id, assign_id, rp.ticked()).1.capped(rp.ticked()),
        ),
{
    let start = rp.ticked();
    let after = assignment_info(q.root, node.id, assign_id, start).1;
    let passed: (Result<VisitView, InferFailReason>, Replay) = (Ok(VisitView::Pass), after);
    assert(q.assignment_visit(node, assign_id, start) == passed);
    assert(q.visit(node, use_condition_narrowing, start) == passed);
}

/// Where steps are left in the end, a node where nothing is asked makes no difference to a walk:
/// from the node before it the same comes out, with one step more to spare.
pub proof fn unasked_node_makes_no_difference(
    q: FlowQuery,
    flow_id: FlowId,
    node: FlowNode,
    antecedent: FlowId,
    use_condition_narrowing: bool,
    narrows: Seq<PendingConditionNarrow>,
    rp: Replay,
)
    requires
        q.tree.node(flow_id) == Some(node),
        is_unasked(q, node, use_condition_narrowing),
        single_antecedent(node) == Ok::<FlowId, InferFailReason>(antecedent),
        q.step(flow_id, use_condition_narrowing, narrows, rp).1.steps > 0,
    ensures
        q.step(antecedent, use_condition_narrowing, narrows, rp) == with_more_left(
            q.step(flow_id, use_condition_narrowing, narrows, rp),
            1,
        ),
{
    unasked_node_takes_one_step(q, flow_id, node, use_condition_narrowing, narrows, rp);
    assert(rp.ticked().with_more(1) == rp);
    more_steps_walk_the_same(q, antecedent, use_condition_narrowing, narrows, rp.ticked(), 1);
}

/// Where steps are left in the end, an assignment to something else makes no difference to a walk
/// but that what is assigned to has to be known: from the node before it the same comes out, with
/// one step more to spare.
pub proof fn assignment_to_another_makes_no_difference(
    q: FlowQuery,
    flow_id: FlowId,
    node: FlowNode,
    assign_id: LuaSyntaxId,
    antecedent: FlowId,
    use_condition_narrowing: bool,
    narrows: Seq<PendingConditionNarrow>,
    rp: Replay,
)
    requires
        q.tree.node(flow_id) == Some(node),
        node.kind == FlowNodeKind::Assignment(assign_id),
        single_antecedent(node) == Ok::<FlowId, InferFailReason>(antecedent),
        assignment_info(q.root, node.id, assign_id, rp).0 is Ok,
        !assignment_info(q.root, node.id, assign_id, rp).0->Ok_0.var_ref_ids.contains(
            Some(q.var_ref_id),
        ),
        q.step(flow_id, use_condition_narrowing, narrows, rp).1.steps > 0,
    ensures
        q.step(
            antecedent,
            use_condition_narrowing,
            narrows,
            assignment_info(q.root, node.id, assign_id, rp).1,
        ) == with_more_left(q.step(flow_id, use_condition_narrowing, narrows, rp), 1),
{
    let start = rp.ticked();
    assert(start.with_more(1) == rp);
    lemma_assignment_info_is_free(q.root, node.id, assign_id, start, 1);
    assignment_to_another_is_passed_over(
        q,
        flow_id,
        node,
        assign_id,
        antecedent,
        use_condition_narrowing,
        narrows,
        rp,
    );
    let after = assignment_info(q.root, node.id, assign_id, start).1;
    assert(after.capped(start) == after);
    more_steps_walk_the_same(q, antecedent, use_condition_narrowing, narrows, after, 1);
}

/// Where conditions do not count, no node gives a narrowing.
pub proof fn no_narrowing_without_conditions(q: FlowQuery, node: FlowNode, rp: Replay)
    ensures
        !(q.visit(node, false, rp).0 matches Ok(VisitView::Narrow(_))),
{
    reveal(decl_visit);
    reveal(func_visit);
    reveal(cast_visit);
}

/// Where conditions do not count, a walk keeps no narrowing for a union but those that it began
/// with.
pub proof fn walk_without_conditions_narrows_nothing(
    q: FlowQuery,
    flow_id: FlowId,
    narrows: Seq<PendingConditionNarrow>,
    rp: Replay,
)
    ensures
        q.step(flow_id, false, narrows, rp).0 matches Ok(
            StepView::Union { narrows: kept, .. },
        ) ==> kept == narrows,
    decreases rp.steps,
{
    if rp.steps > 0 {
        if let Some(node) = q.tree.node(flow_id) {
            let start = rp.ticked();
            no_narrowing_without_conditions(q, node, start);
            let (visit, after) = q.visit(node, false, start);
            let after = after.capped(start);
            if let Ok(VisitView::Pass) = visit {
                if let Ok(antecedent) = single_antecedent(node) {
                    walk_without_conditions_narrows_nothing(q, antecedent, narrows, after);
                }
            }
        }
    }
}

/// A walk from where there is no node fails, and nothing is asked.
pub proof fn unknown_node_is_an_error(
    q: FlowQuery,
    flow_id: FlowId,
    use_condition_narrowing: bool,
    narrows: Seq<PendingConditionNarrow>,
    rp: Replay,
)
    requires
        rp.steps > 0,
        q.tree.node(flow_id) is None,
    ensures
        q.step(flow_id, use_condition_narrowing, narrows, rp) == (
            Err::<StepView, InferFailReason>(InferFailReason::Nothing),
            rp.ticked(),
        ),
{
}

} // verus!
