//! What a walk finds at a node, and what it makes of it.

use std::sync::Arc;

use vstd::prelude::*;

use crate::cache::{AssignmentView, CacheEntry, CacheView, FlowConditionInfo};
use crate::condition_flow::{
    condition_action, subquery_action, ConditionFlowAction, ConditionSubquery, InferConditionFlow,
    PendingConditionNarrow, PendingCorrelatedCondition,
};
use crate::db::{Call, Replay, Reply};
use crate::flow_info::{
    assignment_info, branch_inputs, condition_index_refs, condition_info, flattened,
    initializer_type, lemma_visiting_leaves_fewer, var_refs,
};
use crate::flow_query::{
    answered, applied_narrows, cast_visit, decl_visit, flow_type, func_visit, remembered_action,
    FlowQuery, StepView, VisitView,
};
use crate::flow_tree::{FlowAntecedent, FlowNode, FlowNodeKind, FlowTree};
use crate::ids::{FlowId, LuaDeclId, LuaSignatureId, LuaSyntaxId, VarRefId};
use crate::infer::{InferFailReason, LuaDecl, ResultTypeOrContinue, TypeOps};
use crate::syntax::{
    find_node, LuaChunk, LuaDocTagCast, LuaExpr, LuaFuncStat, LuaIndexExpr, LuaVarExpr,
    UnaryOperator,
};
use crate::types::LuaType;

verus! {

/// A walk that comes to the start, or to a place that cannot be reached, ends with the declared
/// type of the reference.
pub proof fn walk_ends_with_the_declared_type(
    q: FlowQuery,
    node: FlowNode,
    use_condition_narrowing: bool,
    typ: Result<LuaType, InferFailReason>,
    rp: Replay,
    asked: Replay,
)
    requires
        node.kind is Start || node.kind is Unreachable,
        rp.told_with_cache(
            Call::GetVarRefType { var_ref_id: q.var_ref_id },
            Reply::Infer(typ),
            asked,
        ),
    ensures
        q.visit(node, use_condition_narrowing, rp) == (
            match typ {
                Ok(typ) => Ok(VisitView::Done(typ)),
                Err(reason) => Err(reason),
            },
            asked,
        ),
{
}

/// Loops, jumps and numeric `for` statements say nothing about a reference.
pub proof fn other_nodes_are_passed_over(
    q: FlowQuery,
    node: FlowNode,
    use_condition_narrowing: bool,
    rp: Replay,
)
    requires
        node.kind is LoopLabel || node.kind is Break || node.kind is Return || node.kind
            is ForIStat,
    ensures
        q.visit(node, use_condition_narrowing, rp) == (
            Ok::<_, InferFailReason>(VisitView::Pass),
            rp,
        ),
{
}

/// A named label joins all the nodes that control comes from, in their order.
pub proof fn named_label_joins_its_antecedents(
    q: FlowQuery,
    node: FlowNode,
    use_condition_narrowing: bool,
    rp: Replay,
)
    requires
        node.kind is NamedLabel,
    ensures
        q.visit(node, use_condition_narrowing, rp) == (
            match node.antecedent {
                None => Err(InferFailReason::Nothing),
                Some(FlowAntecedent::Single(id)) => Ok(VisitView::Union(seq![id])),
                Some(FlowAntecedent::Multiple(ids)) => Ok(VisitView::Union(ids@)),
            },
            rp,
        ),
{
}

/// A branch label joins the points that lead to it.
pub proof fn branch_label_joins_its_inputs(
    q: FlowQuery,
    node: FlowNode,
    use_condition_narrowing: bool,
    rp: Replay,
)
    requires
        node.kind is BranchLabel,
    ensures
        q.visit(node, use_condition_narrowing, rp) == ({
            let (inputs, cache) = branch_inputs(q.tree, node, rp.cache);
            (
                match inputs {
                    Ok(inputs) => Ok(VisitView::Union(inputs)),
                    Err(reason) => Err(reason),
                },
                Replay { cache, ..rp },
            )
        }),
{
}

/// The points that lead to a branch label are those behind its antecedents, and are remembered once
/// they are known.
pub proof fn inputs_are_gathered_once(
    tree: FlowTree,
    node: FlowNode,
    antecedents: Seq<FlowId>,
    cache: CacheView,
)
    requires
        match node.antecedent {
            None => false,
            Some(FlowAntecedent::Single(id)) => antecedents == seq![id],
            Some(FlowAntecedent::Multiple(ids)) => antecedents == ids@,
        },
    ensures
        cache.branch_inputs_of(node.id) is None ==> branch_inputs(tree, node, cache)
            == match flattened(tree, cache, antecedents, Set::empty(), Seq::empty()) {
            Ok(inputs) => (Ok(inputs), cache.with_branch_inputs(node.id, inputs)),
            Err(reason) => (Err(reason), cache),
        },
        cache.branch_inputs_of(node.id) matches Some(inputs) ==> branch_inputs(tree, node, cache)
            == (Ok::<_, InferFailReason>(inputs), cache),
{
}

/// A branch label that nothing leads to is an error.
pub proof fn label_without_antecedents_is_an_error(
    tree: FlowTree,
    node: FlowNode,
    cache: CacheView,
)
    requires
        node.antecedent is None,
        cache.branch_inputs_of(node.id) is None,
    ensures
        branch_inputs(tree, node, cache) == (
            Err::<Seq<FlowId>, _>(InferFailReason::Nothing),
            cache,
        ),
{
}

/// Points are gathered from the last to the first: one that is no label is taken, a label that was
/// met already is left out, and any other label gives way to what leads to it.
pub proof fn inputs_are_gathered_from_the_end(
    tree: FlowTree,
    cache: CacheView,
    pending: Seq<FlowId>,
    flow_id: FlowId,
    visited: Set<u32>,
    acc: Seq<FlowId>,
)
    ensures
        flattened(tree, cache, Seq::empty(), visited, acc) == Ok::<_, InferFailReason>(acc),
        tree.node(flow_id) is None ==> flattened(tree, cache, pending.push(flow_id), visited, acc)
            == Err::<Seq<FlowId>, _>(InferFailReason::Nothing),
        tree.node(flow_id) matches Some(node) ==> {
            &&& !(node.kind is BranchLabel) ==> flattened(
                tree,
                cache,
                pending.push(flow_id),
                visited,
                acc,
            ) == flattened(tree, cache, pending, visited, acc.push(flow_id))
            &&& node.kind is BranchLabel && visited.contains(flow_id.0) ==> flattened(
                tree,
                cache,
                pending.push(flow_id),
                visited,
                acc,
            ) == flattened(tree, cache, pending, visited, acc)
            &&& node.kind is BranchLabel && !visited.contains(flow_id.0)
                && cache.branch_inputs_of(flow_id) is Some ==> flattened(
                tree,
                cache,
                pending.push(flow_id),
                visited,
                acc,
            ) == flattened(
                tree,
                cache,
                pending,
                visited.insert(flow_id.0),
                acc + cache.branch_inputs_of(flow_id)->0,
            )
            &&& node.kind is BranchLabel && !visited.contains(flow_id.0)
                && cache.branch_inputs_of(flow_id) is None ==> flattened(
                tree,
                cache,
                pending.push(flow_id),
                visited,
                acc,
            ) == match node.antecedent {
                None => Err(InferFailReason::Nothing),
                Some(FlowAntecedent::Single(id)) => flattened(
                    tree,
                    cache,
                    pending.push(id),
                    visited.insert(flow_id.0),
                    acc,
                ),
                Some(FlowAntecedent::Multiple(ids)) => flattened(
                    tree,
                    cache,
                    pending + ids@,
                    visited.insert(flow_id.0),
                    acc,
                ),
            }
        },
{
    let all = pending.push(flow_id);
    assert(all.last() == flow_id);
    assert(all.drop_last() =~= pending);
    lemma_visiting_leaves_fewer(tree.nodes@.len(), visited, flow_id.0);
    if let Some(node) = tree.node(flow_id) {
        if let Some(FlowAntecedent::Single(id)) = node.antecedent {
            assert(pending + seq![id] =~= pending.push(id));
        }
    }
}

/// Where a reference is declared at or behind the position, the walk ends with its declared type.
/// Where that is not known, the initial value gives the type.
pub proof fn declaration_ends_the_walk(
    q: FlowQuery,
    node: FlowNode,
    use_condition_narrowing: bool,
    position: u32,
    declared: Result<LuaType, InferFailReason>,
    rp: Replay,
    asked: Replay,
)
    requires
        node.kind == FlowNodeKind::DeclPosition(position),
        position <= match q.var_ref_id {
            VarRefId::VarRef(decl_id) => decl_id.position,
            VarRefId::Path { position, .. } => position,
        },
        rp.told_with_cache(
            Call::GetVarRefType { var_ref_id: q.var_ref_id },
            Reply::Infer(declared),
            asked,
        ),
    ensures
        q.visit(node, use_condition_narrowing, rp) == match declared {
            Ok(typ) => (Ok(VisitView::Done(typ)), asked),
            Err(reason) => {
                let (init_type, next) = initializer_type(q.root, q.var_ref_id, asked);
                (
                    match init_type {
                        Ok(Some(typ)) => Ok(VisitView::Done(typ)),
                        Ok(None) => Err(reason),
                        Err(init_reason) => Err(init_reason),
                    },
                    next,
                )
            },
        },
{
    reveal(decl_visit);
}

/// Declarations behind the reference are passed over.
pub proof fn later_declarations_are_passed_over(
    q: FlowQuery,
    node: FlowNode,
    use_condition_narrowing: bool,
    position: u32,
    rp: Replay,
)
    requires
        node.kind == FlowNodeKind::DeclPosition(position),
        position > match q.var_ref_id {
            VarRefId::VarRef(decl_id) => decl_id.position,
            VarRefId::Path { position, .. } => position,
        },
    ensures
        q.visit(node, use_condition_narrowing, rp) == (
            Ok::<_, InferFailReason>(VisitView::Pass),
            rp,
        ),
{
    reveal(decl_visit);
}

/// The initial value of a declaration gives the type of its first result.
pub proof fn initial_value_gives_its_first_result(
    root: LuaChunk,
    var_ref_id: VarRefId,
    decl_id: LuaDeclId,
    decl: LuaDecl,
    value_syntax_id: LuaSyntaxId,
    expr: LuaExpr,
    typ: Result<LuaType, InferFailReason>,
    slot: Option<LuaType>,
    rp: Replay,
    looked: Replay,
    inferred: Replay,
    asked: Replay,
)
    requires
        match var_ref_id {
            VarRefId::VarRef(id) => id == decl_id,
            VarRefId::Path { root, .. } => root == Some(decl_id),
        },
        rp.told(Call::GetDecl { decl_id }, Reply::Decl(Some(decl)), looked),
        decl.value_syntax_id == Some(value_syntax_id),
        find_node(root.exprs@, value_syntax_id) == Some(expr),
        looked.told_with_cache(Call::InferExpr { expr }, Reply::Infer(typ), inferred),
        typ matches Ok(typ) ==> inferred.told(
            Call::GetResultSlotType { typ, idx: 0 },
            Reply::OptType(slot),
            asked,
        ),
    ensures
        initializer_type(root, var_ref_id, rp) == match typ {
            Ok(_) => (Ok(slot), asked),
            Err(reason) => (Err(reason), inferred),
        },
{
    reveal(initializer_type);
}

/// A reference that is no declaration, or a declaration without a value, has no initial value; a
/// declaration that is not known is an error.
pub proof fn without_an_initial_value_there_is_no_type(
    root: LuaChunk,
    var_ref_id: VarRefId,
    decl: Option<LuaDecl>,
    rp: Replay,
    looked: Replay,
)
    requires
        match var_ref_id {
            VarRefId::VarRef(decl_id) => rp.told(
                Call::GetDecl { decl_id },
                Reply::Decl(decl),
                looked,
            ),
            VarRefId::Path { root: Some(decl_id), .. } => rp.told(
                Call::GetDecl { decl_id },
                Reply::Decl(decl),
                looked,
            ),
            VarRefId::Path { root: None, .. } => looked == rp,
        },
        decl matches Some(decl) ==> (decl.value_syntax_id matches Some(id) ==> find_node(
            root.exprs@,
            id,
        ) is None),
    ensures
        initializer_type(root, var_ref_id, rp) == (
            if decl is None && !(var_ref_id matches VarRefId::Path { root: None, .. }) {
                Err(InferFailReason::Nothing)
            } else {
                Ok(None::<LuaType>)
            },
            looked,
        ),
{
    reveal(initializer_type);
}

/// A function statement that names the reference ends the walk with the signature of its function;
/// one that names something else is passed over.
pub proof fn function_statement_gives_its_signature(
    q: FlowQuery,
    node: FlowNode,
    use_condition_narrowing: bool,
    func_id: LuaSyntaxId,
    func_stat: Arc<LuaFuncStat>,
    var: LuaVarExpr,
    named: Option<VarRefId>,
    rp: Replay,
    asked: Replay,
)
    requires
        node.kind == FlowNodeKind::ImplFunc(func_id),
        find_node(q.root.func_stats@, func_id) == Some(func_stat),
        func_stat.func_name == Some(var),
        rp.told_with_cache(
            Call::GetVarExprVarRefId {
                expr: match var {
                    LuaVarExpr::NameExpr(name_expr) => LuaExpr::NameExpr(name_expr),
                    LuaVarExpr::IndexExpr(index_expr) => LuaExpr::IndexExpr(index_expr),
                },
            },
            Reply::VarRef(named),
            asked,
        ),
    ensures
        q.visit(node, use_condition_narrowing, rp) == (
            if named != Some(q.var_ref_id) {
                Ok(VisitView::Pass)
            } else if func_stat.closure is None {
                Err(InferFailReason::Nothing)
            } else {
                Ok(
                    VisitView::Done(
                        LuaType::Signature(
                            LuaSignatureId {
                                file_id: asked.cache.file_id,
                                position: func_stat.closure->0.syntax_id.range.start,
                            },
                        ),
                    ),
                )
            },
            asked,
        ),
{
    reveal(func_visit);
}

/// A function statement without a name is passed over, and one that is not there is an error.
pub proof fn nameless_function_statement_is_passed_over(
    q: FlowQuery,
    node: FlowNode,
    use_condition_narrowing: bool,
    func_id: LuaSyntaxId,
    rp: Replay,
)
    requires
        node.kind == FlowNodeKind::ImplFunc(func_id),
        find_node(q.root.func_stats@, func_id) matches Some(func_stat) ==> func_stat.func_name
            is None,
    ensures
        q.visit(node, use_condition_narrowing, rp) == (
            if find_node(q.root.func_stats@, func_id) is None {
                Err(InferFailReason::Nothing)
            } else {
                Ok(VisitView::Pass)
            },
            rp,
        ),
{
    reveal(func_visit);
}

/// What a `@cast` tag makes of a reference is the model's: a type ends the walk.
pub proof fn tag_cast_ends_the_walk_with_its_type(
    q: FlowQuery,
    node: FlowNode,
    use_condition_narrowing: bool,
    tag_cast_id: LuaSyntaxId,
    tag_cast: Arc<LuaDocTagCast>,
    cast: Result<ResultTypeOrContinue, InferFailReason>,
    rp: Replay,
    asked: Replay,
)
    requires
        node.kind == FlowNodeKind::TagCast(tag_cast_id),
        find_node(q.root.tag_casts@, tag_cast_id) == Some(tag_cast),
        rp.told_with_cache(
            Call::GetTypeAtCastFlow {
                tree: q.tree,
                root: q.root,
                var_ref_id: q.var_ref_id,
                flow_id: node.id,
                tag_cast: *tag_cast,
            },
            Reply::Walk(cast),
            asked,
        ),
    ensures
        q.visit(node, use_condition_narrowing, rp) == (
            match cast {
                Ok(ResultTypeOrContinue::Result(typ)) => Ok(VisitView::Done(typ)),
                Ok(ResultTypeOrContinue::Continue) => Ok(VisitView::Pass),
                Err(reason) => Err(reason),
            },
            asked,
        ),
{
    reveal(cast_visit);
}

/// A tag that is not there is an error.
pub proof fn missing_tag_cast_is_an_error(
    q: FlowQuery,
    node: FlowNode,
    use_condition_narrowing: bool,
    tag_cast_id: LuaSyntaxId,
    rp: Replay,
)
    requires
        node.kind == FlowNodeKind::TagCast(tag_cast_id),
        find_node(q.root.tag_casts@, tag_cast_id) is None,
    ensures
        q.visit(node, use_condition_narrowing, rp) == (
            Err::<VisitView, _>(InferFailReason::Nothing),
            rp,
        ),
{
    reveal(cast_visit);
}

/// The outcome that a condition node stands for, and its condition.
pub open spec fn outcome_of(kind: FlowNodeKind) -> Option<(InferConditionFlow, LuaSyntaxId)> {
    match kind {
        FlowNodeKind::TrueCondition(id) => Some((InferConditionFlow::TrueCondition, id)),
        FlowNodeKind::FalseCondition(id) => Some((InferConditionFlow::FalseCondition, id)),
        _ => None,
    }
}

/// At a condition the walk goes by what the condition says about the reference, under the outcome
/// that the node stands for.
pub proof fn condition_node_says_what_its_condition_says(
    q: FlowQuery,
    node: FlowNode,
    condition_flow: InferConditionFlow,
    condition_id: LuaSyntaxId,
    rp: Replay,
)
    requires
        outcome_of(node.kind) == Some((condition_flow, condition_id)),
    ensures
        q.visit(node, true, rp) == ({
            let (info, informed) = condition_info(q.root, node.id, condition_id, rp);
            match info {
                Err(reason) => (Err(reason), informed),
                Ok(info) => {
                    let (action, acted) = remembered_action(
                        q,
                        node,
                        info,
                        condition_flow,
                        informed,
                    );
                    match action {
                        Err(reason) => (Err(reason), acted),
                        Ok(action) => q.action_visit(node, action, acted.capped(rp)),
                    }
                },
            }
        }),
{
}

/// What a condition is about is looked up in the file once; where it is not there, that is an
/// error.
pub proof fn condition_is_looked_up_once(
    root: LuaChunk,
    flow_id: FlowId,
    condition_id: LuaSyntaxId,
    rp: Replay,
)
    ensures
        rp.cache.condition_info_of(flow_id) matches Some(info) ==> condition_info(
            root,
            flow_id,
            condition_id,
            rp,
        ) == (Ok::<_, InferFailReason>(info), rp),
        rp.cache.condition_info_of(flow_id) is None ==> match find_node(
            root.exprs@,
            condition_id,
        ) {
            None => condition_info(root, flow_id, condition_id, rp) == (
                Err::<FlowConditionInfo, _>(InferFailReason::Nothing),
                rp,
            ),
            Some(expr) => {
                let ((index_var_ref_id, index_prefix_var_ref_id), next) = condition_index_refs(
                    expr,
                    rp,
                );
                let info = FlowConditionInfo { expr, index_var_ref_id, index_prefix_var_ref_id };
                condition_info(root, flow_id, condition_id, rp) == (
                    Ok::<_, InferFailReason>(info),
                    Replay { cache: next.cache.with_condition_info(flow_id, info), ..next },
                )
            },
        },
{
    reveal(condition_info);
}

/// An index expression as a condition is about what it names and about what its prefix names.
pub proof fn index_condition_is_about_itself_and_its_prefix(
    index_expr: Arc<LuaIndexExpr>,
    named: Option<VarRefId>,
    prefix: Option<VarRefId>,
    rp: Replay,
    asked: Replay,
    prefixed: Replay,
)
    requires
        rp.told_with_cache(
            Call::GetVarExprVarRefId { expr: LuaExpr::IndexExpr(index_expr) },
            Reply::VarRef(named),
            asked,
        ),
        named is Some && index_expr.prefix_expr is Some ==> asked.told_with_cache(
            Call::GetVarExprVarRefId { expr: index_expr.prefix_expr->0 },
            Reply::VarRef(prefix),
            prefixed,
        ),
    ensures
        condition_index_refs(LuaExpr::IndexExpr(index_expr), rp) == if named is Some
            && index_expr.prefix_expr is Some {
            ((named, prefix), prefixed)
        } else {
            ((named, None), asked)
        },
{
}

/// Parentheses and `not` do not change what a condition is about, and other conditions are about no
/// index expression.
pub proof fn negated_condition_is_about_the_same(condition: LuaExpr, rp: Replay)
    ensures
        condition matches LuaExpr::ParenExpr(paren_expr) ==> (paren_expr.expr matches Some(expr)
            ==> condition_index_refs(condition, rp) == condition_index_refs(expr, rp)),
        condition matches LuaExpr::UnaryExpr(unary_expr) ==> unary_expr.op == Some(
            UnaryOperator::OpNot,
        ) ==> (unary_expr.expr matches Some(expr) ==> condition_index_refs(condition, rp)
            == condition_index_refs(expr, rp)),
        match condition {
            LuaExpr::IndexExpr(_) => false,
            LuaExpr::ParenExpr(paren_expr) => paren_expr.expr is None,
            LuaExpr::UnaryExpr(unary_expr) => unary_expr.expr is None || unary_expr.op != Some(
                UnaryOperator::OpNot,
            ),
            _ => true,
        } ==> condition_index_refs(condition, rp) == (
            (None::<VarRefId>, None::<VarRefId>),
            rp,
        ),
{
    reveal_with_fuel(condition_index_refs, 2);
}

/// What a condition says under one outcome is remembered apart from what it says under the other.
/// Where it is not known, the condition itself is asked, and must not be needed meanwhile.
pub proof fn outcomes_are_remembered_apart(
    q: FlowQuery,
    node: FlowNode,
    info: FlowConditionInfo,
    condition_flow: InferConditionFlow,
    rp: Replay,
)
    requires
        info.index_var_ref_id is None || info.index_var_ref_id == Some(q.var_ref_id)
            || info.index_prefix_var_ref_id == Some(q.var_ref_id),
    ensures
        ({
            let is_true = condition_flow is TrueCondition;
            let id = q.var_ref_cache_id;
            let res = remembered_action(q, node, info, condition_flow, rp);
            match rp.cache.condition_entry(id, node.id, is_true) {
                Some(CacheEntry::Cache(action)) => res == (Ok::<_, InferFailReason>(action), rp),
                Some(CacheEntry::Ready) => res == (
                    Err::<ConditionFlowAction, _>(InferFailReason::RecursiveInfer),
                    rp,
                ),
                None => {
                    let marked = rp.cache.with_condition(
                        id,
                        node.id,
                        is_true,
                        Some(CacheEntry::Ready),
                    );
                    let (action, next) = condition_action(
                        q.tree,
                        q.root,
                        q.var_ref_id,
                        node,
                        info.expr,
                        condition_flow,
                        Replay { cache: marked, ..rp },
                    );
                    let settled = next.cache.with_condition(
                        id,
                        node.id,
                        is_true,
                        match action {
                            Ok(action) => Some(CacheEntry::Cache(action)),
                            Err(_) => None,
                        },
                    );
                    res == (action, Replay { cache: settled, ..next })
                },
            }
        }),
{
    reveal(remembered_action);
}

/// A condition on an index expression that is neither the reference nor a field of it says nothing,
/// and nothing is asked.
pub proof fn condition_on_another_field_says_nothing(
    q: FlowQuery,
    node: FlowNode,
    info: FlowConditionInfo,
    condition_flow: InferConditionFlow,
    rp: Replay,
)
    requires
        info.index_var_ref_id is Some,
        info.index_var_ref_id != Some(q.var_ref_id),
        info.index_prefix_var_ref_id != Some(q.var_ref_id),
    ensures
        remembered_action(q, node, info, condition_flow, rp) == (
            Ok::<_, InferFailReason>(ConditionFlowAction::Continue),
            rp,
        ),
{
    reveal(remembered_action);
}

/// A condition that says nothing is passed over, one that gives a type ends the walk, and one that
/// narrows is kept.
pub proof fn condition_decides_how_the_walk_goes_on(
    q: FlowQuery,
    node: FlowNode,
    typ: LuaType,
    narrow: PendingConditionNarrow,
    rp: Replay,
)
    ensures
        q.action_visit(node, ConditionFlowAction::Continue, rp) == (
            Ok::<_, InferFailReason>(VisitView::Pass),
            rp,
        ),
        q.action_visit(node, ConditionFlowAction::Result(typ), rp) == (
            Ok::<_, InferFailReason>(VisitView::Done(typ)),
            rp,
        ),
        q.action_visit(node, ConditionFlowAction::Pending(narrow), rp) == (
            Ok::<_, InferFailReason>(VisitView::Narrow(narrow)),
            rp,
        ),
{
}

/// A correlated condition is resumed by the model, and the walk goes by what it then says.
pub proof fn correlated_condition_is_resumed(
    q: FlowQuery,
    node: FlowNode,
    pending: PendingCorrelatedCondition,
    action: Result<ConditionFlowAction, InferFailReason>,
    rp: Replay,
    asked: Replay,
)
    requires
        rp.steps > 0,
        rp.ticked().told_with_cache(
            Call::ResumeCorrelatedCondition {
                tree: q.tree,
                root: q.root,
                var_ref_id: q.var_ref_id,
                flow_id: node.id,
                pending,
            },
            Reply::Action(action),
            asked,
        ),
    ensures
        q.action_visit(node, ConditionFlowAction::NeedCorrelated(pending), rp) == match action {
            Ok(action) => q.action_visit(node, action, asked),
            Err(reason) => (Err(reason), asked),
        },
{
    reveal_with_fuel(FlowQuery::action_visit, 2);
}

/// The reference that a question is about, and where.
pub open spec fn asks_about(subquery: ConditionSubquery) -> (VarRefId, FlowId) {
    match subquery {
        ConditionSubquery::ArrayLen { var_ref_id, antecedent_flow_id, .. } => {
            (var_ref_id, antecedent_flow_id)
        },
        ConditionSubquery::FieldLiteralEq { var_ref_id, antecedent_flow_id, .. } => {
            (var_ref_id, antecedent_flow_id)
        },
        ConditionSubquery::Correlated { var_ref_id, antecedent_flow_id, .. } => {
            (var_ref_id, antecedent_flow_id)
        },
    }
}

/// A question about another reference is answered by the narrowed type of that reference where the
/// question is asked, and the walk goes by what the condition then says.
pub proof fn question_is_answered_by_a_walk_of_its_own(
    q: FlowQuery,
    node: FlowNode,
    subquery: ConditionSubquery,
    number: u32,
    cache: CacheView,
    typ: Result<LuaType, InferFailReason>,
    action: Result<ConditionFlowAction, InferFailReason>,
    rp: Replay,
    walked: Replay,
    said: Replay,
)
    requires
        rp.steps > 0,
        rp.cache.number_var_ref(asks_about(subquery).0) == (number, cache),
        number != u32::MAX,
        (FlowQuery {
            tree: q.tree,
            root: q.root,
            var_ref_id: asks_about(subquery).0,
            var_ref_cache_id: number,
        }).type_at(asks_about(subquery).1, true, Replay { cache, ..rp.ticked() }) == (
            typ,
            walked,
        ),
        answered(q, node, subquery, typ, walked) == (action, said),
    ensures
        q.action_visit(node, ConditionFlowAction::NeedSubquery(subquery), rp) == match action {
            Ok(action) => q.action_visit(node, action, said.capped(rp.ticked())),
            Err(reason) => (Err(reason), said),
        },
{
    reveal_with_fuel(FlowQuery::action_visit, 2);
    assert(q.about(asks_about(subquery).0, number) == (FlowQuery {
        tree: q.tree,
        root: q.root,
        var_ref_id: asks_about(subquery).0,
        var_ref_cache_id: number,
    }));
}

/// An answer goes to the condition that asked, about the reference of the walk; a walk that failed
/// answers nothing.
pub proof fn answer_goes_to_the_condition(
    q: FlowQuery,
    node: FlowNode,
    subquery: ConditionSubquery,
    typ: LuaType,
    reason: InferFailReason,
    rp: Replay,
)
    ensures
        answered(q, node, subquery, Err(reason), rp) == (
            Err::<ConditionFlowAction, _>(reason),
            rp,
        ),
        !(subquery is ArrayLen) || !(typ is Array) || !(subquery->ArrayLen_right_expr_type
            is IntegerConst || subquery->ArrayLen_right_expr_type is DocIntegerConst) ==> answered(
            q,
            node,
            subquery,
            Ok(typ),
            rp,
        ) == subquery_action(q.tree, q.root, q.var_ref_id, node, subquery, typ, rp),
{
}

/// A length that does not fit says nothing, and one that fits is the length.
pub proof fn length_that_does_not_fit_says_nothing(
    q: FlowQuery,
    node: FlowNode,
    subject: VarRefId,
    antecedent_flow_id: FlowId,
    condition_flow: InferConditionFlow,
    right_expr_type: LuaType,
    number: i64,
    max_adjustment: i64,
    typ: LuaType,
    rp: Replay,
)
    requires
        typ is Array,
        right_expr_type == LuaType::IntegerConst(number) || right_expr_type
            == LuaType::DocIntegerConst(number),
    ensures
        ({
            let subquery = ConditionSubquery::ArrayLen {
                var_ref_id: subject,
                antecedent_flow_id,
                subquery_condition_flow: condition_flow,
                right_expr_type,
                max_adjustment,
            };
            answered(q, node, subquery, Ok(typ), rp) == if condition_flow is TrueCondition
                && i64::MIN <= number + max_adjustment <= i64::MAX {
                subquery_action(q.tree, q.root, q.var_ref_id, node, subquery, typ, rp)
            } else {
                (Ok::<_, InferFailReason>(ConditionFlowAction::Continue), rp)
            }
        }),
{
}

/// An assignment that assigns to the reference ends the walk with the type that it gives, or passes
/// on where it gives none; one that does not is passed over.
pub proof fn assignment_node_gives_what_is_assigned(
    q: FlowQuery,
    node: FlowNode,
    use_condition_narrowing: bool,
    assign_id: LuaSyntaxId,
    info: AssignmentView,
    rp: Replay,
    informed: Replay,
)
    requires
        node.kind == FlowNodeKind::Assignment(assign_id),
        assignment_info(q.root, node.id, assign_id, rp) == (
            Ok::<_, InferFailReason>(info),
            informed,
        ),
    ensures
        (forall|i: int|
            0 <= i < info.var_ref_ids.len() ==> #[trigger] info.var_ref_ids[i] != Some(
                q.var_ref_id,
            )) ==> q.visit(node, use_condition_narrowing, rp) == (
            Ok::<_, InferFailReason>(VisitView::Pass),
            informed,
        ),
        (exists|i: int|
            0 <= i < info.var_ref_ids.len() && #[trigger] info.var_ref_ids[i] == Some(
                q.var_ref_id,
            )) ==> q.visit(node, use_condition_narrowing, rp) == ({
            let (assigned, next) = q.assigned(node, info, informed.capped(rp));
            (
                match assigned {
                    Ok(ResultTypeOrContinue::Result(typ)) => Ok(VisitView::Done(typ)),
                    Ok(ResultTypeOrContinue::Continue) => Ok(VisitView::Pass),
                    Err(reason) => Err(reason),
                },
                next,
            )
        }),
{
    if exists|i: int|
        0 <= i < info.var_ref_ids.len() && #[trigger] info.var_ref_ids[i] == Some(q.var_ref_id) {
        assert(info.var_ref_ids.contains(Some(q.var_ref_id)));
    }
}

/// What an assignment assigns to is looked up once, variable by variable.
pub proof fn assignment_is_looked_up_once(
    root: LuaChunk,
    flow_id: FlowId,
    assign_id: LuaSyntaxId,
    rp: Replay,
)
    ensures
        rp.cache.assignment_info_of(flow_id) matches Some(info) ==> assignment_info(
            root,
            flow_id,
            assign_id,
            rp,
        ) == (Ok::<_, InferFailReason>(info), rp),
        rp.cache.assignment_info_of(flow_id) is None ==> match find_node(
            root.assign_stats@,
            assign_id,
        ) {
            None => assignment_info(root, flow_id, assign_id, rp) == (
                Err::<AssignmentView, _>(InferFailReason::Nothing),
                rp,
            ),
            Some(assign_stat) => {
                let (var_ref_ids, next) = var_refs(assign_stat.vars@, 0, Seq::empty(), rp);
                let info = AssignmentView { assign_stat: *assign_stat, var_ref_ids };
                assignment_info(root, flow_id, assign_id, rp) == (
                    Ok::<_, InferFailReason>(info),
                    Replay { cache: next.cache.with_assignment_info(flow_id, info), ..next },
                )
            },
        },
{
    reveal(assignment_info);
}

proof fn lemma_var_refs_push(
    vars: Seq<LuaVarExpr>,
    var: LuaVarExpr,
    from: int,
    acc: Seq<Option<VarRefId>>,
    rp: Replay,
)
    requires
        0 <= from <= vars.len(),
    ensures
        var_refs(vars.push(var), from, acc, rp) == ({
            let (refs, next) = var_refs(vars, from, acc, rp);
            var_refs(vars.push(var), vars.len() as int, refs, next)
        }),
    decreases vars.len() - from,
{
    if from < vars.len() {
        assert(vars.push(var)[from] == vars[from]);
        let (var_ref, next) = rp.get_var_expr_var_ref_id(vars[from].as_expr());
        lemma_var_refs_push(vars, var, from + 1, acc.push(var_ref), next);
    }
}

/// The references that the variables of an assignment are stand in the order of the variables.
pub proof fn references_stand_in_the_order_of_the_variables(
    vars: Seq<LuaVarExpr>,
    var: LuaVarExpr,
    named: Option<VarRefId>,
    rp: Replay,
    asked: Replay,
)
    requires
        var_refs(vars, 0, Seq::empty(), rp).1.told_with_cache(
            Call::GetVarExprVarRefId {
                expr: match var {
                    LuaVarExpr::NameExpr(name_expr) => LuaExpr::NameExpr(name_expr),
                    LuaVarExpr::IndexExpr(index_expr) => LuaExpr::IndexExpr(index_expr),
                },
            },
            Reply::VarRef(named),
            asked,
        ),
    ensures
        var_refs(vars.push(var), 0, Seq::empty(), rp) == (
            var_refs(vars, 0, Seq::empty(), rp).0.push(named),
            asked,
        ),
        var_refs(Seq::empty(), 0, Seq::empty(), rp) == (Seq::<Option<VarRefId>>::empty(), rp),
{
    lemma_var_refs_push(vars, var, 0, Seq::empty(), rp);
    reveal_with_fuel(var_refs, 2);
    assert(vars.push(var)[vars.len() as int] == var);
}

/// A walk that ends with a type applies the narrowings that it met, where conditions count.
pub proof fn walk_ends_with_the_narrowed_type(
    q: FlowQuery,
    flow_id: FlowId,
    node: FlowNode,
    use_condition_narrowing: bool,
    narrows: Seq<PendingConditionNarrow>,
    typ: LuaType,
    rp: Replay,
    visited: Replay,
)
    requires
        rp.steps > 0,
        flow_id.0 < q.tree.nodes@.len(),
        q.tree.nodes@[flow_id.0 as int] == node,
        q.visit(node, use_condition_narrowing, rp.ticked()) == (
            Ok::<_, InferFailReason>(VisitView::Done(typ)),
            visited,
        ),
    ensures
        q.step(flow_id, use_condition_narrowing, narrows, rp) == ({
            let (typ, next) = if use_condition_narrowing {
                applied_narrows(narrows, typ, visited.capped(rp.ticked()))
            } else {
                (typ, visited.capped(rp.ticked()))
            };
            (Ok::<_, InferFailReason>(StepView::Result(typ)), next)
        }),
{
    reveal_with_fuel(FlowQuery::step, 2);
}

/// A walk that comes to where several points lead stops there with the narrowings that it met, and
/// a failure ends it.
pub proof fn walk_stops_at_joins_and_failures(
    q: FlowQuery,
    flow_id: FlowId,
    node: FlowNode,
    use_condition_narrowing: bool,
    narrows: Seq<PendingConditionNarrow>,
    visit: Result<Seq<FlowId>, InferFailReason>,
    rp: Replay,
    visited: Replay,
)
    requires
        rp.steps > 0,
        flow_id.0 < q.tree.nodes@.len(),
        q.tree.nodes@[flow_id.0 as int] == node,
        q.visit(node, use_condition_narrowing, rp.ticked()) == (
            match visit {
                Ok(branch_flow_ids) => Ok(VisitView::Union(branch_flow_ids)),
                Err(reason) => Err(reason),
            },
            visited,
        ),
    ensures
        q.step(flow_id, use_condition_narrowing, narrows, rp) == (
            match visit {
                Ok(branch_flow_ids) => Ok(StepView::Union { branch_flow_ids, narrows }),
                Err(reason) => Err(reason),
            },
            visited.capped(rp.ticked()),
        ),
{
    reveal_with_fuel(FlowQuery::step, 2);
}

/// A walk that is passed on goes on at the one node before, with the narrowing that it met.
pub proof fn walk_goes_on_at_the_node_before(
    q: FlowQuery,
    flow_id: FlowId,
    node: FlowNode,
    use_condition_narrowing: bool,
    narrows: Seq<PendingConditionNarrow>,
    met: Option<PendingConditionNarrow>,
    rp: Replay,
    visited: Replay,
)
    requires
        rp.steps > 0,
        flow_id.0 < q.tree.nodes@.len(),
        q.tree.nodes@[flow_id.0 as int] == node,
        q.visit(node, use_condition_narrowing, rp.ticked()) == (
            Ok::<_, InferFailReason>(
                match met {
                    Some(narrow) => VisitView::Narrow(narrow),
                    None => VisitView::Pass,
                },
            ),
            visited,
        ),
    ensures
        q.step(flow_id, use_condition_narrowing, narrows, rp) == match node.antecedent {
            Some(FlowAntecedent::Single(antecedent)) => q.step(
                antecedent,
                use_condition_narrowing,
                match met {
                    Some(narrow) => narrows.push(narrow),
                    None => narrows,
                },
                visited.capped(rp.ticked()),
            ),
            _ => (Err(InferFailReason::Nothing), visited.capped(rp.ticked())),
        },
{
    reveal_with_fuel(FlowQuery::step, 2);
}

/// The narrowing that was met last is applied first.
pub proof fn last_narrowing_is_applied_first(
    narrows: Seq<PendingConditionNarrow>,
    last: PendingConditionNarrow,
    typ: LuaType,
    rp: Replay,
)
    ensures
        applied_narrows(narrows.push(last), typ, rp) == ({
            let (typ, next) = last.applied(typ, rp);
            applied_narrows(narrows, typ, next)
        }),
        applied_narrows(Seq::empty(), typ, rp) == (typ, rp),
{
    assert(narrows.push(last).drop_last() =~= narrows);
}

/// The types at several points are united one after the other, from the last point to the first, to
/// what is there already.
pub proof fn types_of_branches_are_united(
    q: FlowQuery,
    flow_ids: Seq<FlowId>,
    last: FlowId,
    use_condition_narrowing: bool,
    narrows: Seq<PendingConditionNarrow>,
    acc: LuaType,
    typ: Result<LuaType, InferFailReason>,
    union: LuaType,
    rp: Replay,
    walked: Replay,
    united: Replay,
)
    requires
        q.type_at(last, use_condition_narrowing, rp) == (typ, walked),
        typ matches Ok(typ) ==> walked.capped(rp).told(
            Call::ApplyTypeOp { op: TypeOps::Union, left: acc, right: typ },
            Reply::Type(union),
            united,
        ),
    ensures
        q.merged(flow_ids.push(last), use_condition_narrowing, narrows, acc, rp) == match typ {
            Ok(_) => q.merged(flow_ids, use_condition_narrowing, narrows, union, united),
            Err(reason) => (Err(reason), walked.capped(rp)),
        },
{
    assert(flow_ids.push(last).drop_last() =~= flow_ids);
    reveal_with_fuel(FlowQuery::merged, 2);
}

/// The union of the branches is narrowed by what was met behind the join.
pub proof fn united_type_is_narrowed(
    q: FlowQuery,
    use_condition_narrowing: bool,
    narrows: Seq<PendingConditionNarrow>,
    acc: LuaType,
    rp: Replay,
)
    ensures
        q.merged(Seq::empty(), use_condition_narrowing, narrows, acc, rp) == ({
            let (typ, next) = applied_narrows(narrows, acc, rp);
            (Ok::<_, InferFailReason>(typ), next)
        }),
{
}

/// The type at a node that is not known yet is what a walk from the node gives, and is remembered
/// for the reference, the node and the kind of walk.  Where the walk stops at a join, the types of
/// the branches are united, beginning with none.
pub proof fn type_at_a_node_is_what_the_walk_gives(
    q: FlowQuery,
    flow_id: FlowId,
    use_condition_narrowing: bool,
    step: Result<StepView, InferFailReason>,
    typ: Result<LuaType, InferFailReason>,
    rp: Replay,
    walked: Replay,
    done: Replay,
)
    requires
        rp.cache.node_entry(q.var_ref_cache_id, flow_id, use_condition_narrowing) is None,
        rp.steps > 0,
        q.step(
            flow_id,
            use_condition_narrowing,
            Seq::empty(),
            Replay {
                cache: rp.cache.with_node(
                    q.var_ref_cache_id,
                    flow_id,
                    use_condition_narrowing,
                    Some(CacheEntry::Ready),
                ),
                ..rp.ticked()
            },
        ) == (step, walked),
        match step {
            Err(reason) => typ == Err::<LuaType, _>(reason) && done == walked.capped(rp.ticked()),
            Ok(StepView::Result(result)) => typ == Ok::<_, InferFailReason>(result) && done
                == walked.capped(rp.ticked()),
            Ok(StepView::Union { branch_flow_ids, narrows }) => q.merged(
                branch_flow_ids,
                use_condition_narrowing,
                narrows,
                LuaType::Never,
                walked.capped(rp.ticked()),
            ) == (typ, done),
        },
    ensures
        q.type_at(flow_id, use_condition_narrowing, rp) == (
            typ,
            Replay {
                cache: done.cache.with_node(
                    q.var_ref_cache_id,
                    flow_id,
                    use_condition_narrowing,
                    match typ {
                        Ok(typ) => Some(CacheEntry::Cache(typ)),
                        Err(_) => None,
                    },
                ),
                ..done
            },
        ),
{
    reveal_with_fuel(FlowQuery::type_at, 2);
}

/// The type of a reference at a point is the narrowed type there, under the number of the
/// reference.
pub proof fn type_at_a_point_is_narrowed(
    tree: FlowTree,
    root: LuaChunk,
    var_ref_id: VarRefId,
    flow_id: FlowId,
    number: u32,
    cache: CacheView,
    rp: Replay,
)
    requires
        rp.cache.number_var_ref(var_ref_id) == (number, cache),
    ensures
        flow_type(tree, root, var_ref_id, flow_id, rp) == (FlowQuery {
            tree,
            root,
            var_ref_id,
            var_ref_cache_id: number,
        }).type_at(flow_id, true, Replay { cache, ..rp }),
{
}

/// A walk that has used its steps up is cut off, and so is a question that it asks; nothing is
/// asked and nothing is remembered.
pub proof fn walk_without_steps_is_cut_off(
    q: FlowQuery,
    node: FlowNode,
    flow_id: FlowId,
    use_condition_narrowing: bool,
    narrows: Seq<PendingConditionNarrow>,
    subquery: ConditionSubquery,
    pending: PendingCorrelatedCondition,
    rp: Replay,
)
    requires
        rp.steps == 0,
    ensures
        rp.cache.node_entry(q.var_ref_cache_id, flow_id, use_condition_narrowing) is None
            ==> q.type_at(flow_id, use_condition_narrowing, rp) == (
            Err::<LuaType, _>(InferFailReason::LimitReached),
            rp,
        ),
        q.step(flow_id, use_condition_narrowing, narrows, rp) == (
            Err::<StepView, _>(InferFailReason::LimitReached),
            rp,
        ),
        q.action_visit(node, ConditionFlowAction::NeedSubquery(subquery), rp) == (
            Err::<VisitView, _>(InferFailReason::LimitReached),
            rp,
        ),
        q.action_visit(node, ConditionFlowAction::NeedCorrelated(pending), rp) == (
            Err::<VisitView, _>(InferFailReason::LimitReached),
            rp,
        ),
{
}

/// Where there is no number left for the reference that a question is about, the walk is cut off.
pub proof fn question_without_a_number_is_cut_off(
    q: FlowQuery,
    node: FlowNode,
    subquery: ConditionSubquery,
    rp: Replay,
)
    requires
        rp.steps > 0,
        rp.cache.number_var_ref(asks_about(subquery).0).0 == u32::MAX,
    ensures
        q.action_visit(node, ConditionFlowAction::NeedSubquery(subquery), rp) == (
            Err::<VisitView, _>(InferFailReason::LimitReached),
            rp.ticked(),
        ),
{
}

} // verus!
