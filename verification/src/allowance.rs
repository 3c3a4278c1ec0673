//! The allowance of steps bounds a walk and decides nothing else.
//!
//! As long as steps are left at the end, it makes no difference how many there were: with more of
//! them the same questions are asked in the same order, and the same comes out.

use std::sync::Arc;

use vstd::prelude::*;

use crate::assignment_expr::{
    find_member, members_compatible, partial_compatible, preserves, reuses_source,
};
use crate::cache::{AssignmentView, CacheEntry, FlowConditionInfo};
use crate::condition_flow::call_flow::{
    alias_call_action, call_action, callee, known_callee_action, signature_param_action,
    signature_self_action, type_guard_action, Callee,
};
use crate::condition_flow::index_flow::index_action;
use crate::condition_flow::{
    bound_name_meaning, condition_action, last_literal_member, literal_equal, narrowed_by_field,
    narrowed_by_method, narrowed_discriminant, opposite_flow, signature_casted, subquery_action,
    truthy_members, ConditionFlowAction, ConditionSubquery, CorrelatedDiscriminantNarrow,
    InferConditionFlow, NameMeaning, PendingConditionNarrow,
};
use crate::db::Replay;
use crate::flow_info::{
    assignment_info, condition_index_refs, condition_info, initializer_type, var_refs,
};
use crate::flow_query::{
    answered, applied_narrows, assigned_at, assigned_index, assigned_owner, assignment_result,
    cast_visit, decl_visit, evaluated, explicit_type, flow_type, func_visit, lemma_assigned_at,
    lemma_source_before, remembered_action, source_before, sourced, FlowQuery, StepView, VisitView,
};
use crate::flow_tree::{single_antecedent, FlowNode, FlowNodeKind, FlowTree};
use crate::ids::{FlowId, LuaSignatureId, LuaSyntaxId, VarRefId};
use crate::infer::{doc_func, return_type, InferResult, LuaMemberInfo, LuaSignatureCast, TypeOps};
use crate::syntax::{
    find_node, LuaCallExpr, LuaChunk, LuaExpr, LuaIndexExpr, LuaIndexMemberExpr, LuaVarExpr,
};
use crate::types::{LuaAliasCallType, LuaFunctionType, LuaType};

verus! {

/// An outcome with more steps left.
pub open spec fn with_more_left<T>(outcome: (T, Replay), extra: nat) -> (T, Replay) {
    (outcome.0, outcome.1.with_more(extra))
}

/// Whether something that was done on `rp` used up no steps, and came out the same with `extra`
/// more of them.
pub open spec fn free<T>(outcome: (T, Replay), more: (T, Replay), rp: Replay, extra: nat) -> bool {
    &&& outcome.1.steps == rp.steps
    &&& more == with_more_left(outcome, extra)
}

/// Whether something that was done on `rp` used up steps at most, and, where some are left, came
/// out the same with `extra` more of them.
pub open spec fn bounded<T>(
    outcome: (T, Replay),
    more: (T, Replay),
    rp: Replay,
    extra: nat,
) -> bool {
    &&& outcome.1.steps <= rp.steps
    &&& outcome.1.steps > 0 ==> more == with_more_left(outcome, extra)
}

proof fn lemma_truthy_members_is_free(
    types: Seq<LuaType>,
    idx: LuaIndexMemberExpr,
    acc: Seq<LuaType>,
    rp: Replay,
    extra: nat,
)
    ensures
        free(
            truthy_members(types, idx, acc, rp),
            truthy_members(types, idx, acc, rp.with_more(extra)),
            rp,
            extra,
        ),
    decreases types.len(),
{
    if types.len() > 0 {
        let (member_type, after) = rp.infer_member_by_member_key(types[0], idx);
        match member_type {
            Err(_) => {
                lemma_truthy_members_is_free(types.drop_first(), idx, acc, after, extra);
            },
            Ok(member_type) => {
                let (falsy, after) = after.is_always_falsy(member_type);
                let acc = if falsy {
                    acc
                } else {
                    acc.push(types[0])
                };
                lemma_truthy_members_is_free(types.drop_first(), idx, acc, after, extra);
            },
        }
    }
}

proof fn lemma_signature_casted_is_free(
    typ: LuaType,
    signature_id: LuaSignatureId,
    signature_cast: Arc<LuaSignatureCast>,
    condition_flow: InferConditionFlow,
    rp: Replay,
    extra: nat,
)
    ensures
        free(
            signature_casted(typ, signature_id, *signature_cast, condition_flow, rp),
            signature_casted(
                typ,
                signature_id,
                *signature_cast,
                condition_flow,
                rp.with_more(extra),
            ),
            rp,
            extra,
        ),
{
}

proof fn lemma_narrowed_by_method_is_free(
    typ: LuaType,
    idx: LuaIndexMemberExpr,
    condition_flow: InferConditionFlow,
    rp: Replay,
    extra: nat,
)
    ensures
        free(
            narrowed_by_method(typ, idx, condition_flow, rp),
            narrowed_by_method(typ, idx, condition_flow, rp.with_more(extra)),
            rp,
            extra,
        ),
{
    let (member_type, after) = rp.infer_member_by_member_key(typ, idx);
    if let Ok(LuaType::Signature(signature_id)) = member_type {
        let (signature_cast, after) = after.get_signature_cast(signature_id);
        if let Some(signature_cast) = signature_cast {
            lemma_signature_casted_is_free(
                typ,
                signature_id,
                signature_cast,
                condition_flow,
                after,
                extra,
            );
        }
    }
}

proof fn lemma_narrowed_by_field_is_free(
    typ: LuaType,
    idx: LuaIndexMemberExpr,
    condition_flow: InferConditionFlow,
    rp: Replay,
    extra: nat,
)
    ensures
        free(
            narrowed_by_field(typ, idx, condition_flow, rp),
            narrowed_by_field(typ, idx, condition_flow, rp.with_more(extra)),
            rp,
            extra,
        ),
{
    if let LuaType::Union(types) = typ {
        lemma_truthy_members_is_free(types@, idx, Seq::empty(), rp, extra);
    }
}

/// A narrowing uses up no steps.
proof fn lemma_applied_is_free(
    narrow: PendingConditionNarrow,
    typ: LuaType,
    rp: Replay,
    extra: nat,
)
    ensures
        free(narrow.applied(typ, rp), narrow.applied(typ, rp.with_more(extra)), rp, extra),
{
    match narrow {
        PendingConditionNarrow::FieldTruthy { idx, condition_flow } => {
            lemma_narrowed_by_field_is_free(typ, idx, condition_flow, rp, extra);
        },
        PendingConditionNarrow::SameVarColonCall { idx, condition_flow } => {
            lemma_narrowed_by_method_is_free(typ, idx, condition_flow, rp, extra);
        },
        PendingConditionNarrow::SignatureCast { signature_id, condition_flow } => {
            let (signature_cast, after) = rp.get_signature_cast(signature_id);
            if let Some(signature_cast) = signature_cast {
                lemma_signature_casted_is_free(
                    typ,
                    signature_id,
                    signature_cast,
                    condition_flow,
                    after,
                    extra,
                );
            }
        },
        _ => {},
    }
}

proof fn lemma_applied_narrows_is_free(
    narrows: Seq<PendingConditionNarrow>,
    typ: LuaType,
    rp: Replay,
    extra: nat,
)
    ensures
        free(
            applied_narrows(narrows, typ, rp),
            applied_narrows(narrows, typ, rp.with_more(extra)),
            rp,
            extra,
        ),
    decreases narrows.len(),
{
    if narrows.len() > 0 {
        lemma_applied_is_free(narrows.last(), typ, rp, extra);
        let (typ, after) = narrows.last().applied(typ, rp);
        lemma_applied_narrows_is_free(narrows.drop_last(), typ, after, extra);
    }
}

proof fn lemma_condition_index_refs_is_free(condition: LuaExpr, rp: Replay, extra: nat)
    ensures
        free(
            condition_index_refs(condition, rp),
            condition_index_refs(condition, rp.with_more(extra)),
            rp,
            extra,
        ),
    decreases condition,
{
    match condition {
        LuaExpr::ParenExpr(paren_expr) => {
            if let Some(expr) = paren_expr.expr {
                lemma_condition_index_refs_is_free(expr, rp, extra);
            }
        },
        LuaExpr::UnaryExpr(unary_expr) => {
            if let Some(expr) = unary_expr.expr {
                lemma_condition_index_refs_is_free(expr, rp, extra);
            }
        },
        _ => {},
    }
}

proof fn lemma_condition_info_is_free(
    root: LuaChunk,
    flow_id: FlowId,
    condition_id: LuaSyntaxId,
    rp: Replay,
    extra: nat,
)
    ensures
        free(
            condition_info(root, flow_id, condition_id, rp),
            condition_info(root, flow_id, condition_id, rp.with_more(extra)),
            rp,
            extra,
        ),
{
    reveal(condition_info);
    if let Some(expr) = find_node(root.exprs@, condition_id) {
        lemma_condition_index_refs_is_free(expr, rp, extra);
    }
}

proof fn lemma_var_refs_is_free(
    vars: Seq<LuaVarExpr>,
    from: int,
    acc: Seq<Option<VarRefId>>,
    rp: Replay,
    extra: nat,
)
    ensures
        free(
            var_refs(vars, from, acc, rp),
            var_refs(vars, from, acc, rp.with_more(extra)),
            rp,
            extra,
        ),
    decreases vars.len() - from,
{
    if 0 <= from < vars.len() {
        let (var_ref, after) = rp.get_var_expr_var_ref_id(vars[from].as_expr());
        lemma_var_refs_is_free(vars, from + 1, acc.push(var_ref), after, extra);
    }
}

/// To find out what an assignment assigns uses up no steps.
pub proof fn lemma_assignment_info_is_free(
    root: LuaChunk,
    flow_id: FlowId,
    assign_id: LuaSyntaxId,
    rp: Replay,
    extra: nat,
)
    ensures
        free(
            assignment_info(root, flow_id, assign_id, rp),
            assignment_info(root, flow_id, assign_id, rp.with_more(extra)),
            rp,
            extra,
        ),
{
    reveal(assignment_info);
    if let Some(assign_stat) = find_node(root.assign_stats@, assign_id) {
        lemma_var_refs_is_free(assign_stat.vars@, 0, Seq::empty(), rp, extra);
    }
}

proof fn lemma_initializer_type_is_free(
    root: LuaChunk,
    var_ref_id: VarRefId,
    rp: Replay,
    extra: nat,
)
    ensures
        free(
            initializer_type(root, var_ref_id, rp),
            initializer_type(root, var_ref_id, rp.with_more(extra)),
            rp,
            extra,
        ),
{
    reveal(initializer_type);
}

proof fn lemma_decl_visit_is_free(
    root: LuaChunk,
    var_ref_id: VarRefId,
    position: u32,
    rp: Replay,
    extra: nat,
)
    ensures
        free(
            decl_visit(root, var_ref_id, position, rp),
            decl_visit(root, var_ref_id, position, rp.with_more(extra)),
            rp,
            extra,
        ),
{
    reveal(decl_visit);
    let (_, after) = rp.get_var_ref_type(var_ref_id);
    lemma_initializer_type_is_free(root, var_ref_id, after, extra);
}

proof fn lemma_func_visit_is_free(
    root: LuaChunk,
    var_ref_id: VarRefId,
    func_id: LuaSyntaxId,
    rp: Replay,
    extra: nat,
)
    ensures
        free(
            func_visit(root, var_ref_id, func_id, rp),
            func_visit(root, var_ref_id, func_id, rp.with_more(extra)),
            rp,
            extra,
        ),
{
    reveal(func_visit);
}

proof fn lemma_cast_visit_is_free(
    tree: FlowTree,
    root: LuaChunk,
    var_ref_id: VarRefId,
    flow_node: FlowNode,
    tag_cast_id: LuaSyntaxId,
    rp: Replay,
    extra: nat,
)
    ensures
        free(
            cast_visit(tree, root, var_ref_id, flow_node, tag_cast_id, rp),
            cast_visit(tree, root, var_ref_id, flow_node, tag_cast_id, rp.with_more(extra)),
            rp,
            extra,
        ),
{
    reveal(cast_visit);
}

proof fn lemma_assignment_result_is_free(
    var_ref_id: VarRefId,
    explicit: Option<LuaType>,
    expr_type: LuaType,
    source_type: LuaType,
    reuse: bool,
    rp: Replay,
    extra: nat,
)
    ensures
        free(
            assignment_result(var_ref_id, explicit, expr_type, source_type, reuse, rp),
            assignment_result(
                var_ref_id,
                explicit,
                expr_type,
                source_type,
                reuse,
                rp.with_more(extra),
            ),
            rp,
            extra,
        ),
{
    reveal(assignment_result);
}

proof fn lemma_callee_is_free(
    var_ref_id: VarRefId,
    is_colon_call: bool,
    prefix_expr: LuaExpr,
    rp: Replay,
    extra: nat,
)
    ensures
        free(
            callee(var_ref_id, is_colon_call, prefix_expr, rp),
            callee(var_ref_id, is_colon_call, prefix_expr, rp.with_more(extra)),
            rp,
            extra,
        ),
{
}

proof fn lemma_type_guard_action_is_free(
    var_ref_id: VarRefId,
    call_expr: Arc<LuaCallExpr>,
    func_type: Arc<LuaFunctionType>,
    condition_flow: InferConditionFlow,
    rp: Replay,
    extra: nat,
)
    ensures
        free(
            type_guard_action(var_ref_id, *call_expr, *func_type, condition_flow, rp),
            type_guard_action(
                var_ref_id,
                *call_expr,
                *func_type,
                condition_flow,
                rp.with_more(extra),
            ),
            rp,
            extra,
        ),
{
    reveal(type_guard_action);
}

proof fn lemma_alias_call_action_is_free(
    var_ref_id: VarRefId,
    call_expr: Arc<LuaCallExpr>,
    alias_call: Arc<LuaAliasCallType>,
    condition_flow: InferConditionFlow,
    rp: Replay,
    extra: nat,
)
    ensures
        free(
            alias_call_action(var_ref_id, call_expr, *alias_call, condition_flow, rp),
            alias_call_action(
                var_ref_id,
                call_expr,
                *alias_call,
                condition_flow,
                rp.with_more(extra),
            ),
            rp,
            extra,
        ),
{
    reveal(alias_call_action);
}

proof fn lemma_signature_self_action_is_free(
    var_ref_id: VarRefId,
    call_prefix: LuaExpr,
    signature_id: LuaSignatureId,
    condition_flow: InferConditionFlow,
    rp: Replay,
    extra: nat,
)
    ensures
        free(
            signature_self_action(var_ref_id, call_prefix, signature_id, condition_flow, rp),
            signature_self_action(
                var_ref_id,
                call_prefix,
                signature_id,
                condition_flow,
                rp.with_more(extra),
            ),
            rp,
            extra,
        ),
{
    reveal(signature_self_action);
}

proof fn lemma_signature_param_action_is_free(
    var_ref_id: VarRefId,
    call_expr: Arc<LuaCallExpr>,
    signature_id: LuaSignatureId,
    name: Seq<char>,
    condition_flow: InferConditionFlow,
    rp: Replay,
    extra: nat,
)
    ensures
        free(
            signature_param_action(var_ref_id, *call_expr, signature_id, name, condition_flow, rp),
            signature_param_action(
                var_ref_id,
                *call_expr,
                signature_id,
                name,
                condition_flow,
                rp.with_more(extra),
            ),
            rp,
            extra,
        ),
{
    reveal(signature_param_action);
}

proof fn lemma_known_callee_action_is_free(
    var_ref_id: VarRefId,
    call_expr: Arc<LuaCallExpr>,
    prefix_expr: LuaExpr,
    func: LuaType,
    condition_flow: InferConditionFlow,
    rp: Replay,
    extra: nat,
)
    ensures
        free(
            known_callee_action(var_ref_id, call_expr, prefix_expr, func, condition_flow, rp),
            known_callee_action(
                var_ref_id,
                call_expr,
                prefix_expr,
                func,
                condition_flow,
                rp.with_more(extra),
            ),
            rp,
            extra,
        ),
{
    match func {
        LuaType::DocFunction(f) => {
            lemma_type_guard_action_is_free(var_ref_id, call_expr, f, condition_flow, rp, extra);
        },
        LuaType::Signature(signature_id) => {
            let (signature, after) = rp.get_signature(signature_id);
            if let Some(signature) = signature {
                match return_type(signature) {
                    LuaType::TypeGuard(_) => {
                        lemma_type_guard_action_is_free(
                            var_ref_id,
                            call_expr,
                            doc_func(signature),
                            condition_flow,
                            after,
                            extra,
                        );
                    },
                    LuaType::Call(call) => {
                        lemma_alias_call_action_is_free(
                            var_ref_id,
                            call_expr,
                            call,
                            condition_flow,
                            after,
                            extra,
                        );
                    },
                    _ => {
                        let (signature_cast, after) = after.get_signature_cast(signature_id);
                        if let Some(signature_cast) = signature_cast {
                            lemma_signature_self_action_is_free(
                                var_ref_id,
                                prefix_expr,
                                signature_id,
                                condition_flow,
                                after,
                                extra,
                            );
                            lemma_signature_param_action_is_free(
                                var_ref_id,
                                call_expr,
                                signature_id,
                                signature_cast.name@,
                                condition_flow,
                                after,
                                extra,
                            );
                        }
                    },
                }
            }
        },
        _ => {},
    }
}

proof fn lemma_call_action_is_free(
    var_ref_id: VarRefId,
    call_expr: Arc<LuaCallExpr>,
    condition_flow: InferConditionFlow,
    rp: Replay,
    extra: nat,
)
    ensures
        free(
            call_action(var_ref_id, call_expr, condition_flow, rp),
            call_action(var_ref_id, call_expr, condition_flow, rp.with_more(extra)),
            rp,
            extra,
        ),
{
    if let Some(prefix_expr) = call_expr.prefix_expr {
        lemma_callee_is_free(var_ref_id, call_expr.is_colon_call, prefix_expr, rp, extra);
        let (func, after) = callee(var_ref_id, call_expr.is_colon_call, prefix_expr, rp);
        if let Ok(Callee::Known(func)) = func {
            lemma_known_callee_action_is_free(
                var_ref_id,
                call_expr,
                prefix_expr,
                func,
                condition_flow,
                after,
                extra,
            );
        }
    }
}

proof fn lemma_index_action_is_free(
    var_ref_id: VarRefId,
    index_expr: Arc<LuaIndexExpr>,
    condition_flow: InferConditionFlow,
    rp: Replay,
    extra: nat,
)
    ensures
        free(
            index_action(var_ref_id, index_expr, condition_flow, rp),
            index_action(var_ref_id, index_expr, condition_flow, rp.with_more(extra)),
            rp,
            extra,
        ),
{
}

proof fn lemma_last_literal_member_is_free(
    types: Seq<LuaType>,
    from: int,
    idx: LuaIndexMemberExpr,
    right_expr_type: LuaType,
    found: Option<int>,
    rp: Replay,
    extra: nat,
)
    ensures
        free(
            last_literal_member(types, from, idx, right_expr_type, found, rp),
            last_literal_member(types, from, idx, right_expr_type, found, rp.with_more(extra)),
            rp,
            extra,
        ),
    decreases types.len() - from,
{
    if 0 <= from < types.len() {
        let (member_type, after) = rp.infer_member_by_member_key(types[from], idx);
        let found = match member_type {
            Ok(member_type) => if literal_equal(member_type, right_expr_type) {
                Some(from)
            } else {
                found
            },
            Err(_) => found,
        };
        lemma_last_literal_member_is_free(
            types,
            from + 1,
            idx,
            right_expr_type,
            found,
            after,
            extra,
        );
    }
}

proof fn lemma_partial_compatible_is_bounded(
    source_type: LuaType,
    expr_type: LuaType,
    rp: Replay,
    extra: nat,
)
    ensures
        bounded(
            partial_compatible(source_type, expr_type, rp),
            partial_compatible(source_type, expr_type, rp.with_more(extra)),
            rp,
            extra,
        ),
    decreases rp.steps, 1int, 0nat,
{
    let (_, after) = rp.is_type_compatible(source_type, expr_type);
    let (expr_members, after) = after.find_members(expr_type);
    if let Some(expr_members) = expr_members {
        let (source_members, after) = after.find_members(source_type);
        if let Some(source_members) = source_members {
            lemma_members_compatible_is_bounded(source_members, expr_members, 0, after, extra);
        }
    }
}

proof fn lemma_members_compatible_is_bounded(
    source_members: Seq<LuaMemberInfo>,
    expr_members: Seq<LuaMemberInfo>,
    from: int,
    rp: Replay,
    extra: nat,
)
    ensures
        bounded(
            members_compatible(source_members, expr_members, from, rp),
            members_compatible(source_members, expr_members, from, rp.with_more(extra)),
            rp,
            extra,
        ),
    decreases rp.steps, 0int, expr_members.len() - from,
{
    if 0 <= from < expr_members.len() {
        match find_member(source_members, expr_members[from].key, 0) {
            None => {
                lemma_members_compatible_is_bounded(
                    source_members,
                    expr_members,
                    from + 1,
                    rp,
                    extra,
                );
            },
            Some(source_member) => {
                if rp.steps > 0 {
                    let start = rp.ticked();
                    assert(rp.with_more(extra).ticked() == start.with_more(extra));
                    lemma_partial_compatible_is_bounded(
                        source_member.typ,
                        expr_members[from].typ,
                        start,
                        extra,
                    );
                    let (compatible, after) = partial_compatible(
                        source_member.typ,
                        expr_members[from].typ,
                        start,
                    );
                    lemma_members_compatible_is_bounded(
                        source_members,
                        expr_members,
                        from + 1,
                        after.capped(start),
                        extra,
                    );
                }
            },
        }
    }
}

proof fn lemma_reuses_source_is_bounded(
    source_type: LuaType,
    expr_type: LuaType,
    rp: Replay,
    extra: nat,
)
    ensures
        bounded(
            reuses_source(source_type, expr_type, rp),
            reuses_source(source_type, expr_type, rp.with_more(extra)),
            rp,
            extra,
        ),
{
    reveal(reuses_source);
    lemma_partial_compatible_is_bounded(source_type, expr_type, rp, extra);
}

proof fn lemma_condition_action_is_bounded(
    tree: FlowTree,
    root: LuaChunk,
    var_ref_id: VarRefId,
    flow_node: FlowNode,
    condition: LuaExpr,
    condition_flow: InferConditionFlow,
    rp: Replay,
    extra: nat,
)
    ensures
        bounded(
            condition_action(tree, root, var_ref_id, flow_node, condition, condition_flow, rp),
            condition_action(
                tree,
                root,
                var_ref_id,
                flow_node,
                condition,
                condition_flow,
                rp.with_more(extra),
            ),
            rp,
            extra,
        ),
    decreases rp.steps, condition,
{
    match condition {
        LuaExpr::NameExpr(name_expr) => {
            let (_, after) = rp.get_var_expr_var_ref_id(condition);
            let range = name_expr.syntax_id.range;
            let (decl_id, after) = after.get_var_reference_decl(after.cache.file_id, range);
            if let Some(decl_id) = decl_id {
                let meaning = bound_name_meaning(
                    tree,
                    root,
                    var_ref_id,
                    flow_node,
                    decl_id,
                    range.start,
                    condition_flow,
                );
                if let NameMeaning::Stands(expr) = meaning {
                    if after.steps > 0 {
                        assert(after.with_more(extra).ticked() == after.ticked().with_more(extra));
                        lemma_condition_action_is_bounded(
                            tree,
                            root,
                            var_ref_id,
                            flow_node,
                            expr,
                            condition_flow,
                            after.ticked(),
                            extra,
                        );
                    }
                }
            }
        },
        LuaExpr::CallExpr(call_expr) => {
            lemma_call_action_is_free(var_ref_id, call_expr, condition_flow, rp, extra);
        },
        LuaExpr::IndexExpr(index_expr) => {
            lemma_index_action_is_free(var_ref_id, index_expr, condition_flow, rp, extra);
        },
        LuaExpr::UnaryExpr(unary_expr) => {
            if let Some(inner_expr) = unary_expr.expr {
                lemma_condition_action_is_bounded(
                    tree,
                    root,
                    var_ref_id,
                    flow_node,
                    inner_expr,
                    opposite_flow(condition_flow),
                    rp,
                    extra,
                );
            }
        },
        LuaExpr::ParenExpr(paren_expr) => {
            if let Some(inner_expr) = paren_expr.expr {
                lemma_condition_action_is_bounded(
                    tree,
                    root,
                    var_ref_id,
                    flow_node,
                    inner_expr,
                    condition_flow,
                    rp,
                    extra,
                );
            }
        },
        _ => {},
    }
}

proof fn lemma_narrowed_discriminant_is_free(
    typ: LuaType,
    narrow: CorrelatedDiscriminantNarrow,
    condition_flow: InferConditionFlow,
    rp: Replay,
    extra: nat,
)
    ensures
        free(
            narrowed_discriminant(typ, narrow, condition_flow, rp),
            narrowed_discriminant(typ, narrow, condition_flow, rp.with_more(extra)),
            rp,
            extra,
        ),
{
    reveal(narrowed_discriminant);
}

proof fn lemma_subquery_action_is_bounded(
    tree: FlowTree,
    root: LuaChunk,
    var_ref_id: VarRefId,
    flow_node: FlowNode,
    subquery: ConditionSubquery,
    antecedent_type: LuaType,
    rp: Replay,
    extra: nat,
)
    ensures
        bounded(
            subquery_action(tree, root, var_ref_id, flow_node, subquery, antecedent_type, rp),
            subquery_action(
                tree,
                root,
                var_ref_id,
                flow_node,
                subquery,
                antecedent_type,
                rp.with_more(extra),
            ),
            rp,
            extra,
        ),
{
    match subquery {
        ConditionSubquery::FieldLiteralEq { idx, right_expr_type, .. } => {
            if let LuaType::Union(types) = antecedent_type {
                lemma_last_literal_member_is_free(
                    types@,
                    0,
                    idx,
                    right_expr_type,
                    None,
                    rp,
                    extra,
                );
            }
        },
        ConditionSubquery::Correlated {
            antecedent_flow_id,
            subquery_condition_flow,
            discriminant_decl_id,
            condition_position,
            narrow,
            fallback_expr,
            ..
        } => {
            lemma_narrowed_discriminant_is_free(
                antecedent_type,
                narrow,
                subquery_condition_flow,
                rp,
                extra,
            );
            let (discriminant_type, after) = narrowed_discriminant(
                antecedent_type,
                narrow,
                subquery_condition_flow,
                rp,
            );
            let (_, after) = after.prepare_var_from_return_overload_condition(
                tree,
                root,
                var_ref_id,
                discriminant_decl_id,
                condition_position,
                antecedent_flow_id,
                discriminant_type,
            );
            if let Some(fallback_expr) = fallback_expr {
                lemma_condition_action_is_bounded(
                    tree,
                    root,
                    var_ref_id,
                    flow_node,
                    fallback_expr,
                    subquery_condition_flow,
                    after,
                    extra,
                );
            }
        },
        _ => {},
    }
}

proof fn lemma_remembered_action_is_bounded(
    q: FlowQuery,
    flow_node: FlowNode,
    info: FlowConditionInfo,
    condition_flow: InferConditionFlow,
    rp: Replay,
    extra: nat,
)
    ensures
        bounded(
            remembered_action(q, flow_node, info, condition_flow, rp),
            remembered_action(q, flow_node, info, condition_flow, rp.with_more(extra)),
            rp,
            extra,
        ),
{
    reveal(remembered_action);
    let flag = condition_flow == InferConditionFlow::TrueCondition;
    let marked = rp.with_cache(
        rp.cache.with_condition(
            q.var_ref_cache_id,
            flow_node.id,
            flag,
            Some(CacheEntry::Ready),
        ),
    );
    lemma_condition_action_is_bounded(
        q.tree,
        q.root,
        q.var_ref_id,
        flow_node,
        info.expr,
        condition_flow,
        marked,
        extra,
    );
}

proof fn lemma_answered_is_bounded(
    q: FlowQuery,
    flow_node: FlowNode,
    subquery: ConditionSubquery,
    typ: InferResult,
    rp: Replay,
    extra: nat,
)
    ensures
        bounded(
            answered(q, flow_node, subquery, typ, rp),
            answered(q, flow_node, subquery, typ, rp.with_more(extra)),
            rp,
            extra,
        ),
{
    if let Ok(typ) = typ {
        lemma_subquery_action_is_bounded(
            q.tree,
            q.root,
            q.var_ref_id,
            flow_node,
            subquery,
            typ,
            rp,
            extra,
        );
    }
}

/// The type of a reference at a node, with more steps.
pub proof fn lemma_type_at_is_bounded(
    q: FlowQuery,
    flow_id: FlowId,
    use_condition_narrowing: bool,
    rp: Replay,
    extra: nat,
)
    ensures
        bounded(
            q.type_at(flow_id, use_condition_narrowing, rp),
            q.type_at(flow_id, use_condition_narrowing, rp.with_more(extra)),
            rp,
            extra,
        ),
    decreases rp.steps, 0int, 0nat,
{
    if rp.steps > 0 {
        let start = rp.ticked();
        assert(rp.with_more(extra).ticked() == start.with_more(extra));
        if q.entry(flow_id, use_condition_narrowing, start) is None {
            let marked = q.remember(
                flow_id,
                use_condition_narrowing,
                Some(CacheEntry::Ready),
                start,
            );
            lemma_step_is_bounded(
                q,
                flow_id,
                use_condition_narrowing,
                Seq::empty(),
                marked,
                extra,
            );
            let (step, after) = q.step(flow_id, use_condition_narrowing, Seq::empty(), marked);
            if let Ok(StepView::Union { branch_flow_ids, narrows }) = step {
                lemma_merged_is_bounded(
                    q,
                    branch_flow_ids,
                    use_condition_narrowing,
                    narrows,
                    LuaType::Never,
                    after.capped(start),
                    extra,
                );
            }
        }
    }
}

proof fn lemma_merged_is_bounded(
    q: FlowQuery,
    flow_ids: Seq<FlowId>,
    use_condition_narrowing: bool,
    narrows: Seq<PendingConditionNarrow>,
    acc: LuaType,
    rp: Replay,
    extra: nat,
)
    ensures
        bounded(
            q.merged(flow_ids, use_condition_narrowing, narrows, acc, rp),
            q.merged(flow_ids, use_condition_narrowing, narrows, acc, rp.with_more(extra)),
            rp,
            extra,
        ),
    decreases rp.steps, 6int, flow_ids.len(),
{
    if flow_ids.len() == 0 {
        lemma_applied_narrows_is_free(narrows, acc, rp, extra);
    } else {
        lemma_type_at_is_bounded(q, flow_ids.last(), use_condition_narrowing, rp, extra);
        let (branch, after) = q.type_at(flow_ids.last(), use_condition_narrowing, rp);
        if let Ok(typ) = branch {
            let (acc, after) = after.capped(rp).apply_type_op(TypeOps::Union, acc, typ);
            lemma_merged_is_bounded(
                q,
                flow_ids.drop_last(),
                use_condition_narrowing,
                narrows,
                acc,
                after,
                extra,
            );
        }
    }
}

/// The walk from a node, with more steps.
pub proof fn lemma_step_is_bounded(
    q: FlowQuery,
    flow_id: FlowId,
    use_condition_narrowing: bool,
    narrows: Seq<PendingConditionNarrow>,
    rp: Replay,
    extra: nat,
)
    ensures
        bounded(
            q.step(flow_id, use_condition_narrowing, narrows, rp),
            q.step(flow_id, use_condition_narrowing, narrows, rp.with_more(extra)),
            rp,
            extra,
        ),
    decreases rp.steps, 5int, 0nat,
{
    if rp.steps > 0 {
        let start = rp.ticked();
        assert(rp.with_more(extra).ticked() == start.with_more(extra));
        if let Some(node) = q.tree.node(flow_id) {
            lemma_visit_is_bounded(q, node, use_condition_narrowing, start, extra);
            let (visit, after) = q.visit(node, use_condition_narrowing, start);
            let after = after.capped(start);
            match visit {
                Ok(VisitView::Done(typ)) => {
                    lemma_applied_narrows_is_free(narrows, typ, after, extra);
                },
                Ok(onward) => {
                    if let Ok(antecedent) = single_antecedent(node) {
                        let narrows = match onward {
                            VisitView::Narrow(narrow) => narrows.push(narrow),
                            _ => narrows,
                        };
                        lemma_step_is_bounded(
                            q,
                            antecedent,
                            use_condition_narrowing,
                            narrows,
                            after,
                            extra,
                        );
                    }
                },
                Err(_) => {},
            }
        }
    }
}

#[verifier::rlimit(30)]
proof fn lemma_visit_is_bounded(
    q: FlowQuery,
    flow_node: FlowNode,
    use_condition_narrowing: bool,
    rp: Replay,
    extra: nat,
)
    ensures
        bounded(
            q.visit(flow_node, use_condition_narrowing, rp),
            q.visit(flow_node, use_condition_narrowing, rp.with_more(extra)),
            rp,
            extra,
        ),
    decreases rp.steps, 4int, 0nat,
{
    match flow_node.kind {
        FlowNodeKind::DeclPosition(position) => {
            lemma_decl_visit_is_free(q.root, q.var_ref_id, position, rp, extra);
        },
        FlowNodeKind::Assignment(assign_id) => {
            lemma_assignment_visit_is_bounded(q, flow_node, assign_id, rp, extra);
        },
        FlowNodeKind::ImplFunc(func_id) => {
            lemma_func_visit_is_free(q.root, q.var_ref_id, func_id, rp, extra);
        },
        FlowNodeKind::TrueCondition(condition_id) => {
            lemma_condition_visit_is_bounded(
                q,
                use_condition_narrowing,
                flow_node,
                condition_id,
                InferConditionFlow::TrueCondition,
                rp,
                extra,
            );
        },
        FlowNodeKind::FalseCondition(condition_id) => {
            lemma_condition_visit_is_bounded(
                q,
                use_condition_narrowing,
                flow_node,
                condition_id,
                InferConditionFlow::FalseCondition,
                rp,
                extra,
            );
        },
        FlowNodeKind::TagCast(tag_cast_id) => {
            lemma_cast_visit_is_free(
                q.tree,
                q.root,
                q.var_ref_id,
                flow_node,
                tag_cast_id,
                rp,
                extra,
            );
        },
        _ => {},
    }
}

proof fn lemma_condition_visit_is_bounded(
    q: FlowQuery,
    use_condition_narrowing: bool,
    flow_node: FlowNode,
    condition_id: LuaSyntaxId,
    condition_flow: InferConditionFlow,
    rp: Replay,
    extra: nat,
)
    ensures
        bounded(
            q.condition_visit(
                use_condition_narrowing,
                flow_node,
                condition_id,
                condition_flow,
                rp,
            ),
            q.condition_visit(
                use_condition_narrowing,
                flow_node,
                condition_id,
                condition_flow,
                rp.with_more(extra),
            ),
            rp,
            extra,
        ),
    decreases rp.steps, 3int, 0nat,
{
    lemma_condition_info_is_free(q.root, flow_node.id, condition_id, rp, extra);
    let (info, after) = condition_info(q.root, flow_node.id, condition_id, rp);
    if let Ok(info) = info {
        lemma_remembered_action_is_bounded(q, flow_node, info, condition_flow, after, extra);
        let (action, after) = remembered_action(q, flow_node, info, condition_flow, after);
        if let Ok(action) = action {
            lemma_action_visit_is_bounded(q, flow_node, action, after.capped(rp), extra);
        }
    }
}

proof fn lemma_action_visit_is_bounded(
    q: FlowQuery,
    flow_node: FlowNode,
    action: ConditionFlowAction,
    rp: Replay,
    extra: nat,
)
    ensures
        bounded(
            q.action_visit(flow_node, action, rp),
            q.action_visit(flow_node, action, rp.with_more(extra)),
            rp,
            extra,
        ),
    decreases rp.steps, 2int, 0nat,
{
    if rp.steps > 0 {
        let start = rp.ticked();
        assert(rp.with_more(extra).ticked() == start.with_more(extra));
        match action {
            ConditionFlowAction::NeedCorrelated(pending) => {
                let (action, after) = start.resume_correlated_condition(
                    q.tree,
                    q.root,
                    q.var_ref_id,
                    flow_node.id,
                    pending,
                );
                if let Ok(action) = action {
                    lemma_action_visit_is_bounded(q, flow_node, action, after, extra);
                }
            },
            ConditionFlowAction::NeedSubquery(subquery) => {
                let (id, cache) = start.cache.number_var_ref(subquery.var_ref_id());
                let asked = q.about(subquery.var_ref_id(), id);
                let numbered = start.with_cache(cache);
                lemma_type_at_is_bounded(
                    asked,
                    subquery.antecedent_flow_id(),
                    true,
                    numbered,
                    extra,
                );
                let (typ, after) = asked.type_at(subquery.antecedent_flow_id(), true, numbered);
                lemma_answered_is_bounded(q, flow_node, subquery, typ, after, extra);
                let (action, after) = answered(q, flow_node, subquery, typ, after);
                if let Ok(action) = action {
                    lemma_action_visit_is_bounded(q, flow_node, action, after.capped(start), extra);
                }
            },
            _ => {},
        }
    }
}

proof fn lemma_assignment_visit_is_bounded(
    q: FlowQuery,
    flow_node: FlowNode,
    assign_id: LuaSyntaxId,
    rp: Replay,
    extra: nat,
)
    ensures
        bounded(
            q.assignment_visit(flow_node, assign_id, rp),
            q.assignment_visit(flow_node, assign_id, rp.with_more(extra)),
            rp,
            extra,
        ),
    decreases rp.steps, 3int, 0nat,
{
    lemma_assignment_info_is_free(q.root, flow_node.id, assign_id, rp, extra);
    let (info, after) = assignment_info(q.root, flow_node.id, assign_id, rp);
    if let Ok(info) = info {
        lemma_assigned_is_bounded(q, flow_node, info, after.capped(rp), extra);
    }
}

proof fn lemma_assigned_is_bounded(
    q: FlowQuery,
    flow_node: FlowNode,
    info: AssignmentView,
    rp: Replay,
    extra: nat,
)
    ensures
        bounded(
            q.assigned(flow_node, info, rp),
            q.assigned(flow_node, info, rp.with_more(extra)),
            rp,
            extra,
        ),
    decreases rp.steps, 2int, 0nat,
{
    lemma_assigned_at(q, flow_node, info, rp);
    lemma_assigned_at(q, flow_node, info, rp.with_more(extra));
    if let Some(i) = assigned_index(info, q.var_ref_id, 0) {
        lemma_assigned_at_is_bounded(q, flow_node, info, i, rp, extra);
    }
}

proof fn lemma_assigned_at_is_bounded(
    q: FlowQuery,
    flow_node: FlowNode,
    info: AssignmentView,
    i: int,
    rp: Replay,
    extra: nat,
)
    ensures
        bounded(
            assigned_at(q, flow_node, info, i, rp),
            assigned_at(q, flow_node, info, i, rp.with_more(extra)),
            rp,
            extra,
        ),
    decreases rp.steps, 1int, 2nat,
{
    let (held, after) = rp.get_type_cache(assigned_owner(info.assign_stat.vars@[i], rp));
    let explicit = explicit_type(held);
    let (expr_type, after) = after.infer_expr_list_value_type_at(
        info.assign_stat.exprs@,
        i as usize,
    );
    if let Ok(Some(expr_type)) = expr_type {
        lemma_sourced_is_bounded(q, flow_node, explicit, expr_type, after, extra);
        let (source, after) = sourced(q, flow_node, explicit, expr_type, after);
        if let Ok((source_type, reuse)) = source {
            lemma_assignment_result_is_free(
                q.var_ref_id,
                explicit,
                expr_type,
                source_type,
                reuse,
                after,
                extra,
            );
        }
    }
}

proof fn lemma_sourced_is_bounded(
    q: FlowQuery,
    flow_node: FlowNode,
    explicit: Option<LuaType>,
    expr_type: LuaType,
    rp: Replay,
    extra: nat,
)
    ensures
        bounded(
            sourced(q, flow_node, explicit, expr_type, rp),
            sourced(q, flow_node, explicit, expr_type, rp.with_more(extra)),
            rp,
            extra,
        ),
    decreases rp.steps, 1int, 1nat,
{
    reveal(sourced);
    lemma_assignment_source_is_bounded(q, flow_node, explicit, expr_type, rp, extra);
}

proof fn lemma_assignment_source_is_bounded(
    q: FlowQuery,
    flow_node: FlowNode,
    explicit: Option<LuaType>,
    expr_type: LuaType,
    rp: Replay,
    extra: nat,
)
    ensures
        bounded(
            q.assignment_source(flow_node, explicit, expr_type, rp),
            q.assignment_source(flow_node, explicit, expr_type, rp.with_more(extra)),
            rp,
            extra,
        ),
    decreases rp.steps, 1int, 0nat,
{
    if explicit is None {
        if let Ok(antecedent) = single_antecedent(flow_node) {
            lemma_source_before(q, flow_node, antecedent, expr_type, rp);
            lemma_source_before(q, flow_node, antecedent, expr_type, rp.with_more(extra));
            lemma_source_before_is_bounded(q, antecedent, expr_type, rp, extra);
        }
    }
}

proof fn lemma_source_before_is_bounded(
    q: FlowQuery,
    antecedent: FlowId,
    expr_type: LuaType,
    rp: Replay,
    extra: nat,
)
    ensures
        bounded(
            source_before(q, antecedent, expr_type, rp),
            source_before(q, antecedent, expr_type, rp.with_more(extra)),
            rp,
            extra,
        ),
    decreases rp.steps, 0int, 2nat,
{
    if !preserves(expr_type) {
        lemma_evaluated_is_bounded(q, antecedent, false, rp, extra);
    } else {
        lemma_evaluated_is_bounded(q, antecedent, true, rp, extra);
        let (narrowed, after) = evaluated(q, antecedent, true, rp);
        if let Ok(narrowed) = narrowed {
            lemma_reuses_source_is_bounded(narrowed, expr_type, after, extra);
            let (_, after) = reuses_source(narrowed, expr_type, after);
            lemma_evaluated_is_bounded(q, antecedent, false, after.capped(rp), extra);
        }
    }
}

proof fn lemma_evaluated_is_bounded(
    q: FlowQuery,
    flow_id: FlowId,
    use_condition_narrowing: bool,
    rp: Replay,
    extra: nat,
)
    ensures
        bounded(
            evaluated(q, flow_id, use_condition_narrowing, rp),
            evaluated(q, flow_id, use_condition_narrowing, rp.with_more(extra)),
            rp,
            extra,
        ),
    decreases rp.steps, 0int, 1nat,
{
    reveal(evaluated);
    lemma_type_at_is_bounded(q, flow_id, use_condition_narrowing, rp, extra);
}

/// Where steps are left after a walk, more of them would have made no difference: the same
/// questions are asked, the same is remembered, and the same type or error comes out.
pub proof fn more_steps_make_no_difference(
    tree: FlowTree,
    root: LuaChunk,
    var_ref_id: VarRefId,
    flow_id: FlowId,
    rp: Replay,
    extra: nat,
)
    requires
        flow_type(tree, root, var_ref_id, flow_id, rp).1.steps > 0,
    ensures
        flow_type(tree, root, var_ref_id, flow_id, rp.with_more(extra)) == with_more_left(
            flow_type(tree, root, var_ref_id, flow_id, rp),
            extra,
        ),
{
    let (var_ref_cache_id, cache) = rp.cache.number_var_ref(var_ref_id);
    lemma_type_at_is_bounded(
        FlowQuery { tree, root, var_ref_id, var_ref_cache_id },
        flow_id,
        true,
        rp.with_cache(cache),
        extra,
    );
}

/// Where steps are left when a walk is at its end, more of them would have made no difference to
/// where it ends and what it asked on the way.
pub proof fn more_steps_walk_the_same(
    q: FlowQuery,
    flow_id: FlowId,
    use_condition_narrowing: bool,
    narrows: Seq<PendingConditionNarrow>,
    rp: Replay,
    extra: nat,
)
    requires
        q.step(flow_id, use_condition_narrowing, narrows, rp).1.steps > 0,
    ensures
        q.step(flow_id, use_condition_narrowing, narrows, rp.with_more(extra)) == with_more_left(
            q.step(flow_id, use_condition_narrowing, narrows, rp),
            extra,
        ),
{
    lemma_step_is_bounded(q, flow_id, use_condition_narrowing, narrows, rp, extra);
}

/// A walk only ever uses steps up.
pub proof fn walks_use_steps_up(
    tree: FlowTree,
    root: LuaChunk,
    var_ref_id: VarRefId,
    flow_id: FlowId,
    rp: Replay,
)
    ensures
        flow_type(tree, root, var_ref_id, flow_id, rp).1.steps <= rp.steps,
{
    let (var_ref_cache_id, cache) = rp.cache.number_var_ref(var_ref_id);
    lemma_type_at_is_bounded(
        FlowQuery { tree, root, var_ref_id, var_ref_cache_id },
        flow_id,
        true,
        rp.with_cache(cache),
        0,
    );
}

/// Where steps are left after a condition was looked at, more of them would have made no
/// difference to what it says.
pub proof fn more_steps_say_the_same(
    tree: FlowTree,
    root: LuaChunk,
    var_ref_id: VarRefId,
    flow_node: FlowNode,
    condition: LuaExpr,
    condition_flow: InferConditionFlow,
    rp: Replay,
    extra: nat,
)
    requires
        condition_action(
            tree,
            root,
            var_ref_id,
            flow_node,
            condition,
            condition_flow,
            rp,
        ).1.steps > 0,
    ensures
        condition_action(
            tree,
            root,
            var_ref_id,
            flow_node,
            condition,
            condition_flow,
            rp.with_more(extra),
        ) == with_more_left(
            condition_action(tree, root, var_ref_id, flow_node, condition, condition_flow, rp),
            extra,
        ),
{
    lemma_condition_action_is_bounded(
        tree,
        root,
        var_ref_id,
        flow_node,
        condition,
        condition_flow,
        rp,
        extra,
    );
}

/// Where steps are left after a table literal was compared with a type, more of them would have
/// made no difference to whether it fits.
pub proof fn more_steps_fit_the_same(
    source_type: LuaType,
    expr_type: LuaType,
    rp: Replay,
    extra: nat,
)
    requires
        partial_compatible(source_type, expr_type, rp).1.steps > 0,
    ensures
        partial_compatible(source_type, expr_type, rp.with_more(extra)) == with_more_left(
            partial_compatible(source_type, expr_type, rp),
            extra,
        ),
{
    lemma_partial_compatible_is_bounded(source_type, expr_type, rp, extra);
}

} // verus!
