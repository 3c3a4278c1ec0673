//! A walk leaves no marker behind.
//!
//! While a type or what a condition says is being worked out, a marker stands in the cache.  It is
//! gone when the work is done, whatever came out; so nothing is taken to be under way for ever.

use std::sync::Arc;

use vstd::prelude::*;

use crate::assignment_expr::{
    find_member, members_compatible, partial_compatible, preserves, reuses_source,
};
use crate::cache::{dense_write_is_local, AssignmentView, CacheEntry, CacheView, FlowConditionInfo};
use crate::condition_flow::call_flow::{
    alias_call_action, call_action, callee, known_callee_action, signature_param_action,
    signature_self_action, type_guard_action, Callee,
};
use crate::condition_flow::index_flow::index_action;
use crate::condition_flow::{
    bound_name_meaning, condition_action, last_literal_member, literal_equal, narrowed_by_field,
    narrowed_by_method, narrowed_discriminant, opposite_flow, signature_casted, subquery_action,
    truthy_members, ConditionFlowAction, ConditionSubquery, CorrelatedDiscriminantNarrow,
    InferConditionFlow, NameMeaning, PendingConditionNarrow,
};
use crate::db::{Log, Replay};
use crate::flow_info::{
    assignment_info, condition_index_refs, condition_info, initializer_type, var_refs,
};
use crate::flow_query::{
    answered, applied_narrows, assigned_at, assigned_index, assigned_owner, assignment_result,
    cast_visit, decl_visit, evaluated, explicit_type, failure_is_forgotten, flow_type, func_visit,
    known_result, lemma_assigned_at, lemma_source_before, remembered_action, settled_entry,
    source_before, sourced, type_is_remembered, FlowQuery, StepView, VisitView,
};
use crate::flow_tree::{single_antecedent, FlowNode, FlowNodeKind, FlowTree};
use crate::ids::{FlowId, LuaSignatureId, LuaSyntaxId, VarRefId};
use crate::infer::{doc_func, return_type, InferResult, LuaMemberInfo, LuaSignatureCast, TypeOps};
use crate::syntax::{
    find_node, LuaCallExpr, LuaChunk, LuaExpr, LuaIndexExpr, LuaIndexMemberExpr, LuaVarExpr,
};
use crate::types::{LuaAliasCallType, LuaFunctionType, LuaType};

verus! {

/// A place of the cache that can hold a marker: the type of a reference at a node, or what the
/// condition at a node says about a reference.
pub enum Marker {
    Node { var_ref_cache_id: u32, flow_id: FlowId, flag: bool },
    Condition { var_ref_cache_id: u32, flow_id: FlowId, flag: bool },
}

impl Marker {
    /// Whether the place holds a marker.
    pub open spec fn is_set(self, cache: CacheView) -> bool {
        match self {
            Marker::Node { var_ref_cache_id, flow_id, flag } => cache.node_entry(
                var_ref_cache_id,
                flow_id,
                flag,
            ) == Some(CacheEntry::<LuaType>::Ready),
            Marker::Condition { var_ref_cache_id, flow_id, flag } => cache.condition_entry(
                var_ref_cache_id,
                flow_id,
                flag,
            ) == Some(CacheEntry::<ConditionFlowAction>::Ready),
        }
    }

    /// Whether no call in a log sets the marker.
    pub open spec fn is_left_by(self, log: Log) -> bool {
        forall|i: int|
            #![trigger log[i]]
            0 <= i < log.len() && log[i].cache is Some && self.is_set((log[i].cache->0).1)
                ==> self.is_set((log[i].cache->0).0)
    }
}

/// Whether there is no marker afterwards that was not there before, but for those that calls in a
/// log set.
pub open spec fn leaves_no_marker(log: Log, before: CacheView, after: CacheView) -> bool {
    forall|marker: Marker| #[trigger]
        marker.is_set(after) && marker.is_left_by(log) ==> marker.is_set(before)
}

/// Whether something that was done on `rp` sets no marker, as long as the calls of the model do
/// not.
pub open spec fn quiet<T>(outcome: (T, Replay), rp: Replay, marker: Marker) -> bool {
    &&& outcome.1.log == rp.log
    &&& marker.is_left_by(rp.log) && marker.is_set(outcome.1.cache) ==> marker.is_set(rp.cache)
}

proof fn lemma_truthy_members_is_quiet(
    types: Seq<LuaType>,
    idx: LuaIndexMemberExpr,
    acc: Seq<LuaType>,
    rp: Replay,
    marker: Marker,
)
    ensures
        quiet(truthy_members(types, idx, acc, rp), rp, marker),
    decreases types.len(),
{
    if types.len() > 0 {
        let (member_type, after) = rp.infer_member_by_member_key(types[0], idx);
        match member_type {
            Err(_) => {
                lemma_truthy_members_is_quiet(types.drop_first(), idx, acc, after, marker);
            },
            Ok(member_type) => {
                let (falsy, after) = after.is_always_falsy(member_type);
                let acc = if falsy {
                    acc
                } else {
                    acc.push(types[0])
                };
                lemma_truthy_members_is_quiet(types.drop_first(), idx, acc, after, marker);
            },
        }
    }
}

proof fn lemma_signature_casted_is_quiet(
    typ: LuaType,
    signature_id: LuaSignatureId,
    signature_cast: Arc<LuaSignatureCast>,
    condition_flow: InferConditionFlow,
    rp: Replay,
    marker: Marker,
)
    ensures
        quiet(signature_casted(typ, signature_id, *signature_cast, condition_flow, rp), rp, marker),
{
}

proof fn lemma_narrowed_by_method_is_quiet(
    typ: LuaType,
    idx: LuaIndexMemberExpr,
    condition_flow: InferConditionFlow,
    rp: Replay,
    marker: Marker,
)
    ensures
        quiet(narrowed_by_method(typ, idx, condition_flow, rp), rp, marker),
{
    let (member_type, after) = rp.infer_member_by_member_key(typ, idx);
    if let Ok(LuaType::Signature(signature_id)) = member_type {
        let (signature_cast, after) = after.get_signature_cast(signature_id);
        if let Some(signature_cast) = signature_cast {
            lemma_signature_casted_is_quiet(
                typ,
                signature_id,
                signature_cast,
                condition_flow,
                after,
                marker,
            );
        }
    }
}

proof fn lemma_narrowed_by_field_is_quiet(
    typ: LuaType,
    idx: LuaIndexMemberExpr,
    condition_flow: InferConditionFlow,
    rp: Replay,
    marker: Marker,
)
    ensures
        quiet(narrowed_by_field(typ, idx, condition_flow, rp), rp, marker),
{
    if let LuaType::Union(types) = typ {
        lemma_truthy_members_is_quiet(types@, idx, Seq::empty(), rp, marker);
    }
}

proof fn lemma_applied_is_quiet(
    narrow: PendingConditionNarrow,
    typ: LuaType,
    rp: Replay,
    marker: Marker,
)
    ensures
        quiet(narrow.applied(typ, rp), rp, marker),
{
    match narrow {
        PendingConditionNarrow::FieldTruthy { idx, condition_flow } => {
            lemma_narrowed_by_field_is_quiet(typ, idx, condition_flow, rp, marker);
        },
        PendingConditionNarrow::SameVarColonCall { idx, condition_flow } => {
            lemma_narrowed_by_method_is_quiet(typ, idx, condition_flow, rp, marker);
        },
        PendingConditionNarrow::SignatureCast { signature_id, condition_flow } => {
            let (signature_cast, after) = rp.get_signature_cast(signature_id);
            if let Some(signature_cast) = signature_cast {
                lemma_signature_casted_is_quiet(
                    typ,
                    signature_id,
                    signature_cast,
                    condition_flow,
                    after,
                    marker,
                );
            }
        },
        _ => {},
    }
}

proof fn lemma_applied_narrows_is_quiet(
    narrows: Seq<PendingConditionNarrow>,
    typ: LuaType,
    rp: Replay,
    marker: Marker,
)
    ensures
        quiet(applied_narrows(narrows, typ, rp), rp, marker),
    decreases narrows.len(),
{
    if narrows.len() > 0 {
        lemma_applied_is_quiet(narrows.last(), typ, rp, marker);
        let (typ, after) = narrows.last().applied(typ, rp);
        lemma_applied_narrows_is_quiet(narrows.drop_last(), typ, after, marker);
    }
}

proof fn lemma_condition_index_refs_is_quiet(condition: LuaExpr, rp: Replay, marker: Marker)
    ensures
        quiet(condition_index_refs(condition, rp), rp, marker),
    decreases condition,
{
    match condition {
        LuaExpr::ParenExpr(paren_expr) => {
            if let Some(expr) = paren_expr.expr {
                lemma_condition_index_refs_is_quiet(expr, rp, marker);
            }
        },
        LuaExpr::UnaryExpr(unary_expr) => {
            if let Some(expr) = unary_expr.expr {
                lemma_condition_index_refs_is_quiet(expr, rp, marker);
            }
        },
        _ => {},
    }
}

proof fn lemma_condition_info_is_quiet(
    root: LuaChunk,
    flow_id: FlowId,
    condition_id: LuaSyntaxId,
    rp: Replay,
    marker: Marker,
)
    ensures
        quiet(condition_info(root, flow_id, condition_id, rp), rp, marker),
{
    reveal(condition_info);
    if let Some(expr) = find_node(root.exprs@, condition_id) {
        lemma_condition_index_refs_is_quiet(expr, rp, marker);
    }
}

proof fn lemma_var_refs_is_quiet(
    vars: Seq<LuaVarExpr>,
    from: int,
    acc: Seq<Option<VarRefId>>,
    rp: Replay,
    marker: Marker,
)
    ensures
        quiet(var_refs(vars, from, acc, rp), rp, marker),
    decreases vars.len() - from,
{
    if 0 <= from < vars.len() {
        let (var_ref, after) = rp.get_var_expr_var_ref_id(vars[from].as_expr());
        lemma_var_refs_is_quiet(vars, from + 1, acc.push(var_ref), after, marker);
    }
}

proof fn lemma_assignment_info_is_quiet(
    root: LuaChunk,
    flow_id: FlowId,
    assign_id: LuaSyntaxId,
    rp: Replay,
    marker: Marker,
)
    ensures
        quiet(assignment_info(root, flow_id, assign_id, rp), rp, marker),
{
    reveal(assignment_info);
    if let Some(assign_stat) = find_node(root.assign_stats@, assign_id) {
        lemma_var_refs_is_quiet(assign_stat.vars@, 0, Seq::empty(), rp, marker);
    }
}

proof fn lemma_initializer_type_is_quiet(
    root: LuaChunk,
    var_ref_id: VarRefId,
    rp: Replay,
    marker: Marker,
)
    ensures
        quiet(initializer_type(root, var_ref_id, rp), rp, marker),
{
    reveal(initializer_type);
}

proof fn lemma_decl_visit_is_quiet(
    root: LuaChunk,
    var_ref_id: VarRefId,
    position: u32,
    rp: Replay,
    marker: Marker,
)
    ensures
        quiet(decl_visit(root, var_ref_id, position, rp), rp, marker),
{
    reveal(decl_visit);
    let (_, after) = rp.get_var_ref_type(var_ref_id);
    lemma_initializer_type_is_quiet(root, var_ref_id, after, marker);
}

proof fn lemma_func_visit_is_quiet(
    root: LuaChunk,
    var_ref_id: VarRefId,
    func_id: LuaSyntaxId,
    rp: Replay,
    marker: Marker,
)
    ensures
        quiet(func_visit(root, var_ref_id, func_id, rp), rp, marker),
{
    reveal(func_visit);
}

proof fn lemma_cast_visit_is_quiet(
    tree: FlowTree,
    root: LuaChunk,
    var_ref_id: VarRefId,
    flow_node: FlowNode,
    tag_cast_id: LuaSyntaxId,
    rp: Replay,
    marker: Marker,
)
    ensures
        quiet(cast_visit(tree, root, var_ref_id, flow_node, tag_cast_id, rp), rp, marker),
{
    reveal(cast_visit);
}

proof fn lemma_assignment_result_is_quiet(
    var_ref_id: VarRefId,
    explicit: Option<LuaType>,
    expr_type: LuaType,
    source_type: LuaType,
    reuse: bool,
    rp: Replay,
    marker: Marker,
)
    ensures
        quiet(
            assignment_result(var_ref_id, explicit, expr_type, source_type, reuse, rp),
            rp,
            marker,
        ),
{
    reveal(assignment_result);
}

proof fn lemma_callee_is_quiet(
    var_ref_id: VarRefId,
    is_colon_call: bool,
    prefix_expr: LuaExpr,
    rp: Replay,
    marker: Marker,
)
    ensures
        quiet(callee(var_ref_id, is_colon_call, prefix_expr, rp), rp, marker),
{
}

proof fn lemma_type_guard_action_is_quiet(
    var_ref_id: VarRefId,
    call_expr: Arc<LuaCallExpr>,
    func_type: Arc<LuaFunctionType>,
    condition_flow: InferConditionFlow,
    rp: Replay,
    marker: Marker,
)
    ensures
        quiet(
            type_guard_action(var_ref_id, *call_expr, *func_type, condition_flow, rp),
            rp,
            marker,
        ),
{
    reveal(type_guard_action);
}

proof fn lemma_alias_call_action_is_quiet(
    var_ref_id: VarRefId,
    call_expr: Arc<LuaCallExpr>,
    alias_call: Arc<LuaAliasCallType>,
    condition_flow: InferConditionFlow,
    rp: Replay,
    marker: Marker,
)
    ensures
        quiet(
            alias_call_action(var_ref_id, call_expr, *alias_call, condition_flow, rp),
            rp,
            marker,
        ),
{
    reveal(alias_call_action);
}

proof fn lemma_signature_self_action_is_quiet(
    var_ref_id: VarRefId,
    call_prefix: LuaExpr,
    signature_id: LuaSignatureId,
    condition_flow: InferConditionFlow,
    rp: Replay,
    marker: Marker,
)
    ensures
        quiet(
            signature_self_action(var_ref_id, call_prefix, signature_id, condition_flow, rp),
            rp,
            marker,
        ),
{
    reveal(signature_self_action);
}

proof fn lemma_signature_param_action_is_quiet(
    var_ref_id: VarRefId,
    call_expr: Arc<LuaCallExpr>,
    signature_id: LuaSignatureId,
    name: Seq<char>,
    condition_flow: InferConditionFlow,
    rp: Replay,
    marker: Marker,
)
    ensures
        quiet(
            signature_param_action(var_ref_id, *call_expr, signature_id, name, condition_flow, rp),
            rp,
            marker,
        ),
{
    reveal(signature_param_action);
}

proof fn lemma_known_callee_action_is_quiet(
    var_ref_id: VarRefId,
    call_expr: Arc<LuaCallExpr>,
    prefix_expr: LuaExpr,
    func: LuaType,
    condition_flow: InferConditionFlow,
    rp: Replay,
    marker: Marker,
)
    ensures
        quiet(
            known_callee_action(var_ref_id, call_expr, prefix_expr, func, condition_flow, rp),
            rp,
            marker,
        ),
{
    match func {
        LuaType::DocFunction(f) => {
            lemma_type_guard_action_is_quiet(var_ref_id, call_expr, f, condition_flow, rp, marker);
        },
        LuaType::Signature(signature_id) => {
            let (signature, after) = rp.get_signature(signature_id);
            if let Some(signature) = signature {
                match return_type(signature) {
                    LuaType::TypeGuard(_) => {
                        lemma_type_guard_action_is_quiet(
                            var_ref_id,
                            call_expr,
                            doc_func(signature),
                            condition_flow,
                            after,
                            marker,
                        );
                    },
                    LuaType::Call(call) => {
                        lemma_alias_call_action_is_quiet(
                            var_ref_id,
                            call_expr,
                            call,
                            condition_flow,
                            after,
                            marker,
                        );
                    },
                    _ => {
                        let (signature_cast, after) = after.get_signature_cast(signature_id);
                        if let Some(signature_cast) = signature_cast {
                            lemma_signature_self_action_is_quiet(
                                var_ref_id,
                                prefix_expr,
                                signature_id,
                                condition_flow,
                                after,
                                marker,
                            );
                            lemma_signature_param_action_is_quiet(
                                var_ref_id,
                                call_expr,
                                signature_id,
                                signature_cast.name@,
                                condition_flow,
                                after,
                                marker,
                            );
                        }
                    },
                }
            }
        },
        _ => {},
    }
}

proof fn lemma_call_action_is_quiet(
    var_ref_id: VarRefId,
    call_expr: Arc<LuaCallExpr>,
    condition_flow: InferConditionFlow,
    rp: Replay,
    marker: Marker,
)
    ensures
        quiet(call_action(var_ref_id, call_expr, condition_flow, rp), rp, marker),
{
    if let Some(prefix_expr) = call_expr.prefix_expr {
        lemma_callee_is_quiet(var_ref_id, call_expr.is_colon_call, prefix_expr, rp, marker);
        let (func, after) = callee(var_ref_id, call_expr.is_colon_call, prefix_expr, rp);
        if let Ok(Callee::Known(func)) = func {
            lemma_known_callee_action_is_quiet(
                var_ref_id,
                call_expr,
                prefix_expr,
                func,
                condition_flow,
                after,
                marker,
            );
        }
    }
}

proof fn lemma_index_action_is_quiet(
    var_ref_id: VarRefId,
    index_expr: Arc<LuaIndexExpr>,
    condition_flow: InferConditionFlow,
    rp: Replay,
    marker: Marker,
)
    ensures
        quiet(index_action(var_ref_id, index_expr, condition_flow, rp), rp, marker),
{
}

proof fn lemma_last_literal_member_is_quiet(
    types: Seq<LuaType>,
    from: int,
    idx: LuaIndexMemberExpr,
    right_expr_type: LuaType,
    found: Option<int>,
    rp: Replay,
    marker: Marker,
)
    ensures
        quiet(last_literal_member(types, from, idx, right_expr_type, found, rp), rp, marker),
    decreases types.len() - from,
{
    if 0 <= from < types.len() {
        let (member_type, after) = rp.infer_member_by_member_key(types[from], idx);
        let found = match member_type {
            Ok(member_type) => if literal_equal(member_type, right_expr_type) {
                Some(from)
            } else {
                found
            },
            Err(_) => found,
        };
        lemma_last_literal_member_is_quiet(
            types,
            from + 1,
            idx,
            right_expr_type,
            found,
            after,
            marker,
        );
    }
}

proof fn lemma_partial_compatible_is_quiet(
    source_type: LuaType,
    expr_type: LuaType,
    rp: Replay,
    marker: Marker,
)
    ensures
        quiet(partial_compatible(source_type, expr_type, rp), rp, marker),
    decreases rp.steps, 1int, 0nat,
{
    let (_, after) = rp.is_type_compatible(source_type, expr_type);
    let (expr_members, after) = after.find_members(expr_type);
    if let Some(expr_members) = expr_members {
        let (source_members, after) = after.find_members(source_type);
        if let Some(source_members) = source_members {
            lemma_members_compatible_is_quiet(source_members, expr_members, 0, after, marker);
        }
    }
}

proof fn lemma_members_compatible_is_quiet(
    source_members: Seq<LuaMemberInfo>,
    expr_members: Seq<LuaMemberInfo>,
    from: int,
    rp: Replay,
    marker: Marker,
)
    ensures
        quiet(members_compatible(source_members, expr_members, from, rp), rp, marker),
    decreases rp.steps, 0int, expr_members.len() - from,
{
    if 0 <= from < expr_members.len() {
        match find_member(source_members, expr_members[from].key, 0) {
            None => {
                lemma_members_compatible_is_quiet(
                    source_members,
                    expr_members,
                    from + 1,
                    rp,
                    marker,
                );
            },
            Some(source_member) => {
                if rp.steps > 0 {
                    let start = rp.ticked();
                    lemma_partial_compatible_is_quiet(
                        source_member.typ,
                        expr_members[from].typ,
                        start,
                        marker,
                    );
                    let (compatible, after) = partial_compatible(
                        source_member.typ,
                        expr_members[from].typ,
                        start,
                    );
                    lemma_members_compatible_is_quiet(
                        source_members,
                        expr_members,
                        from + 1,
                        after.capped(start),
                        marker,
                    );
                }
            },
        }
    }
}

proof fn lemma_reuses_source_is_quiet(
    source_type: LuaType,
    expr_type: LuaType,
    rp: Replay,
    marker: Marker,
)
    ensures
        quiet(reuses_source(source_type, expr_type, rp), rp, marker),
{
    reveal(reuses_source);
    lemma_partial_compatible_is_quiet(source_type, expr_type, rp, marker);
}

proof fn lemma_condition_action_is_quiet(
    tree: FlowTree,
    root: LuaChunk,
    var_ref_id: VarRefId,
    flow_node: FlowNode,
    condition: LuaExpr,
    condition_flow: InferConditionFlow,
    rp: Replay,
    marker: Marker,
)
    ensures
        quiet(
            condition_action(tree, root, var_ref_id, flow_node, condition, condition_flow, rp),
            rp,
            marker,
        ),
    decreases rp.steps, condition,
{
    match condition {
        LuaExpr::NameExpr(name_expr) => {
            let (_, after) = rp.get_var_expr_var_ref_id(condition);
            let range = name_expr.syntax_id.range;
            let (decl_id, after) = after.get_var_reference_decl(after.cache.file_id, range);
            if let Some(decl_id) = decl_id {
                let meaning = bound_name_meaning(
                    tree,
                    root,
                    var_ref_id,
                    flow_node,
                    decl_id,
                    range.start,
                    condition_flow,
                );
                if let NameMeaning::Stands(expr) = meaning {
                    if after.steps > 0 {
                        lemma_condition_action_is_quiet(
                            tree,
                            root,
                            var_ref_id,
                            flow_node,
                            expr,
                            condition_flow,
                            after.ticked(),
                            marker,
                        );
                    }
                }
            }
        },
        LuaExpr::CallExpr(call_expr) => {
            lemma_call_action_is_quiet(var_ref_id, call_expr, condition_flow, rp, marker);
        },
        LuaExpr::IndexExpr(index_expr) => {
            lemma_index_action_is_quiet(var_ref_id, index_expr, condition_flow, rp, marker);
        },
        LuaExpr::UnaryExpr(unary_expr) => {
            if let Some(inner_expr) = unary_expr.expr {
                lemma_condition_action_is_quiet(
                    tree,
                    root,
                    var_ref_id,
                    flow_node,
                    inner_expr,
                    opposite_flow(condition_flow),
                    rp,
                    marker,
                );
            }
        },
        LuaExpr::ParenExpr(paren_expr) => {
            if let Some(inner_expr) = paren_expr.expr {
                lemma_condition_action_is_quiet(
                    tree,
                    root,
                    var_ref_id,
                    flow_node,
                    inner_expr,
                    condition_flow,
                    rp,
                    marker,
                );
            }
        },
        _ => {},
    }
}

proof fn lemma_narrowed_discriminant_is_quiet(
    typ: LuaType,
    narrow: CorrelatedDiscriminantNarrow,
    condition_flow: InferConditionFlow,
    rp: Replay,
    marker: Marker,
)
    ensures
        quiet(narrowed_discriminant(typ, narrow, condition_flow, rp), rp, marker),
{
    reveal(narrowed_discriminant);
}

proof fn lemma_subquery_action_is_quiet(
    tree: FlowTree,
    root: LuaChunk,
    var_ref_id: VarRefId,
    flow_node: FlowNode,
    subquery: ConditionSubquery,
    antecedent_type: LuaType,
    rp: Replay,
    marker: Marker,
)
    ensures
        quiet(
            subquery_action(tree, root, var_ref_id, flow_node, subquery, antecedent_type, rp),
            rp,
            marker,
        ),
{
    match subquery {
        ConditionSubquery::FieldLiteralEq { idx, right_expr_type, .. } => {
            if let LuaType::Union(types) = antecedent_type {
                lemma_last_literal_member_is_quiet(
                    types@,
                    0,
                    idx,
                    right_expr_type,
                    None,
                    rp,
                    marker,
                );
            }
        },
        ConditionSubquery::Correlated {
            antecedent_flow_id,
            subquery_condition_flow,
            discriminant_decl_id,
            condition_position,
            narrow,
            fallback_expr,
            ..
        } => {
            lemma_narrowed_discriminant_is_quiet(
                antecedent_type,
                narrow,
                subquery_condition_flow,
                rp,
                marker,
            );
            let (discriminant_type, after) = narrowed_discriminant(
                antecedent_type,
                narrow,
                subquery_condition_flow,
                rp,
            );
            let (_, after) = after.prepare_var_from_return_overload_condition(
                tree,
                root,
                var_ref_id,
                discriminant_decl_id,
                condition_position,
                antecedent_flow_id,
                discriminant_type,
            );
            if let Some(fallback_expr) = fallback_expr {
                lemma_condition_action_is_quiet(
                    tree,
                    root,
                    var_ref_id,
                    flow_node,
                    fallback_expr,
                    subquery_condition_flow,
                    after,
                    marker,
                );
            }
        },
        _ => {},
    }
}

/// A write to the cached types sets the marker at its place, or takes it away, and touches no
/// other.
proof fn lemma_node_write(
    cache: CacheView,
    var_ref_cache_id: u32,
    flow_id: FlowId,
    flag: bool,
    entry: Option<CacheEntry<LuaType>>,
    marker: Marker,
)
    ensures
        marker.is_set(cache.with_node(var_ref_cache_id, flow_id, flag, entry)) == if marker
            == (Marker::Node { var_ref_cache_id, flow_id, flag }) {
            entry == Some(CacheEntry::<LuaType>::Ready)
        } else {
            marker.is_set(cache)
        },
{
    if let Marker::Node { var_ref_cache_id: id, flow_id: at, flag: on } = marker {
        dense_write_is_local(
            cache.flow_node,
            var_ref_cache_id as nat,
            flow_id.0,
            flag,
            entry,
            id as nat,
            at.0,
            on,
        );
    }
}

/// A write to what conditions say sets the marker at its place, or takes it away, and touches no
/// other.
proof fn lemma_condition_write(
    cache: CacheView,
    var_ref_cache_id: u32,
    flow_id: FlowId,
    flag: bool,
    entry: Option<CacheEntry<ConditionFlowAction>>,
    marker: Marker,
)
    ensures
        marker.is_set(cache.with_condition(var_ref_cache_id, flow_id, flag, entry)) == if marker
            == (Marker::Condition { var_ref_cache_id, flow_id, flag }) {
            entry == Some(CacheEntry::<ConditionFlowAction>::Ready)
        } else {
            marker.is_set(cache)
        },
{
    if let Marker::Condition { var_ref_cache_id: id, flow_id: at, flag: on } = marker {
        dense_write_is_local(
            cache.condition_flow,
            var_ref_cache_id as nat,
            flow_id.0,
            flag,
            entry,
            id as nat,
            at.0,
            on,
        );
    }
}

proof fn lemma_remembered_action_is_quiet(
    q: FlowQuery,
    flow_node: FlowNode,
    info: FlowConditionInfo,
    condition_flow: InferConditionFlow,
    rp: Replay,
    marker: Marker,
)
    ensures
        quiet(remembered_action(q, flow_node, info, condition_flow, rp), rp, marker),
{
    reveal(remembered_action);
    let flag = condition_flow == InferConditionFlow::TrueCondition;
    let marked = rp.with_cache(
        rp.cache.with_condition(
            q.var_ref_cache_id,
            flow_node.id,
            flag,
            Some(CacheEntry::Ready),
        ),
    );
    lemma_condition_action_is_quiet(
        q.tree,
        q.root,
        q.var_ref_id,
        flow_node,
        info.expr,
        condition_flow,
        marked,
        marker,
    );
    let (res, after) = condition_action(
        q.tree,
        q.root,
        q.var_ref_id,
        flow_node,
        info.expr,
        condition_flow,
        marked,
    );
    let entry: Option<CacheEntry<ConditionFlowAction>> = match res {
        Ok(action) => Some(CacheEntry::Cache(action)),
        Err(_) => None,
    };
    let id = q.var_ref_cache_id;
    lemma_condition_write(rp.cache, id, flow_node.id, flag, Some(CacheEntry::Ready), marker);
    lemma_condition_write(after.cache, id, flow_node.id, flag, entry, marker);
}

proof fn lemma_answered_is_quiet(
    q: FlowQuery,
    flow_node: FlowNode,
    subquery: ConditionSubquery,
    typ: InferResult,
    rp: Replay,
    marker: Marker,
)
    ensures
        quiet(answered(q, flow_node, subquery, typ, rp), rp, marker),
{
    if let Ok(typ) = typ {
        lemma_subquery_action_is_quiet(
            q.tree,
            q.root,
            q.var_ref_id,
            flow_node,
            subquery,
            typ,
            rp,
            marker,
        );
    }
}

proof fn lemma_type_at_is_quiet(
    q: FlowQuery,
    flow_id: FlowId,
    use_condition_narrowing: bool,
    rp: Replay,
    marker: Marker,
)
    ensures
        quiet(q.type_at(flow_id, use_condition_narrowing, rp), rp, marker),
    decreases rp.steps, 0int, 0nat,
{
    if rp.steps > 0 {
        let start = rp.ticked();
        if q.entry(flow_id, use_condition_narrowing, start) is None {
            let marked = q.remember(
                flow_id,
                use_condition_narrowing,
                Some(CacheEntry::Ready),
                start,
            );
            lemma_step_is_quiet(
                q,
                flow_id,
                use_condition_narrowing,
                Seq::empty(),
                marked,
                marker,
            );
            let (step, after) = q.step(flow_id, use_condition_narrowing, Seq::empty(), marked);
            let stepped = after.capped(start);
            let (res, merged) = match step {
                Err(e) => (Err(e), stepped),
                Ok(StepView::Result(typ)) => (Ok(typ), stepped),
                Ok(StepView::Union { branch_flow_ids, narrows }) => q.merged(
                    branch_flow_ids,
                    use_condition_narrowing,
                    narrows,
                    LuaType::Never,
                    stepped,
                ),
            };
            if let Ok(StepView::Union { branch_flow_ids, narrows }) = step {
                lemma_merged_is_quiet(
                    q,
                    branch_flow_ids,
                    use_condition_narrowing,
                    narrows,
                    LuaType::Never,
                    stepped,
                    marker,
                );
            }
            let entry: Option<CacheEntry<LuaType>> = match res {
                Ok(typ) => Some(CacheEntry::Cache(typ)),
                Err(_) => None,
            };
            assert(q.type_at(flow_id, use_condition_narrowing, rp) == (
                res,
                q.settle(flow_id, use_condition_narrowing, res, merged),
            ));
            let id = q.var_ref_cache_id;
            let flag = use_condition_narrowing;
            lemma_node_write(start.cache, id, flow_id, flag, Some(CacheEntry::Ready), marker);
            lemma_node_write(merged.cache, id, flow_id, flag, entry, marker);
        }
    }
}

proof fn lemma_merged_is_quiet(
    q: FlowQuery,
    flow_ids: Seq<FlowId>,
    use_condition_narrowing: bool,
    narrows: Seq<PendingConditionNarrow>,
    acc: LuaType,
    rp: Replay,
    marker: Marker,
)
    ensures
        quiet(q.merged(flow_ids, use_condition_narrowing, narrows, acc, rp), rp, marker),
    decreases rp.steps, 6int, flow_ids.len(),
{
    if flow_ids.len() == 0 {
        lemma_applied_narrows_is_quiet(narrows, acc, rp, marker);
    } else {
        lemma_type_at_is_quiet(q, flow_ids.last(), use_condition_narrowing, rp, marker);
        let (branch, after) = q.type_at(flow_ids.last(), use_condition_narrowing, rp);
        if let Ok(typ) = branch {
            let (acc, after) = after.capped(rp).apply_type_op(TypeOps::Union, acc, typ);
            lemma_merged_is_quiet(
                q,
                flow_ids.drop_last(),
                use_condition_narrowing,
                narrows,
                acc,
                after,
                marker,
            );
        }
    }
}

proof fn lemma_step_is_quiet(
    q: FlowQuery,
    flow_id: FlowId,
    use_condition_narrowing: bool,
    narrows: Seq<PendingConditionNarrow>,
    rp: Replay,
    marker: Marker,
)
    ensures
        quiet(q.step(flow_id, use_condition_narrowing, narrows, rp), rp, marker),
    decreases rp.steps, 5int, 0nat,
{
    if rp.steps > 0 {
        let start = rp.ticked();
        if let Some(node) = q.tree.node(flow_id) {
            lemma_visit_is_quiet(q, node, use_condition_narrowing, start, marker);
            let (visit, after) = q.visit(node, use_condition_narrowing, start);
            let after = after.capped(start);
            match visit {
                Ok(VisitView::Done(typ)) => {
                    lemma_applied_narrows_is_quiet(narrows, typ, after, marker);
                },
                Ok(onward) => {
                    if let Ok(antecedent) = single_antecedent(node) {
                        let narrows = match onward {
                            VisitView::Narrow(narrow) => narrows.push(narrow),
                            _ => narrows,
                        };
                        lemma_step_is_quiet(
                            q,
                            antecedent,
                            use_condition_narrowing,
                            narrows,
                            after,
                            marker,
                        );
                    }
                },
                Err(_) => {},
            }
        }
    }
}

proof fn lemma_visit_is_quiet(
    q: FlowQuery,
    flow_node: FlowNode,
    use_condition_narrowing: bool,
    rp: Replay,
    marker: Marker,
)
    ensures
        quiet(q.visit(flow_node, use_condition_narrowing, rp), rp, marker),
    decreases rp.steps, 4int, 0nat,
{
    match flow_node.kind {
        FlowNodeKind::DeclPosition(position) => {
            lemma_decl_visit_is_quiet(q.root, q.var_ref_id, position, rp, marker);
        },
        FlowNodeKind::Assignment(assign_id) => {
            lemma_assignment_visit_is_quiet(q, flow_node, assign_id, rp, marker);
        },
        FlowNodeKind::ImplFunc(func_id) => {
            lemma_func_visit_is_quiet(q.root, q.var_ref_id, func_id, rp, marker);
        },
        FlowNodeKind::TrueCondition(condition_id) => {
            lemma_condition_visit_is_quiet(
                q,
                use_condition_narrowing,
                flow_node,
                condition_id,
                InferConditionFlow::TrueCondition,
                rp,
                marker,
            );
        },
        FlowNodeKind::FalseCondition(condition_id) => {
            lemma_condition_visit_is_quiet(
                q,
                use_condition_narrowing,
                flow_node,
                condition_id,
                InferConditionFlow::FalseCondition,
                rp,
                marker,
            );
        },
        FlowNodeKind::TagCast(tag_cast_id) => {
            lemma_cast_visit_is_quiet(
                q.tree,
                q.root,
                q.var_ref_id,
                flow_node,
                tag_cast_id,
                rp,
                marker,
            );
        },
        _ => {},
    }
}

proof fn lemma_condition_visit_is_quiet(
    q: FlowQuery,
    use_condition_narrowing: bool,
    flow_node: FlowNode,
    condition_id: LuaSyntaxId,
    condition_flow: InferConditionFlow,
    rp: Replay,
    marker: Marker,
)
    ensures
        quiet(
            q.condition_visit(use_condition_narrowing, flow_node, condition_id, condition_flow, rp),
            rp,
            marker,
        ),
    decreases rp.steps, 3int, 0nat,
{
    lemma_condition_info_is_quiet(q.root, flow_node.id, condition_id, rp, marker);
    let (info, after) = condition_info(q.root, flow_node.id, condition_id, rp);
    if let Ok(info) = info {
        lemma_remembered_action_is_quiet(q, flow_node, info, condition_flow, after, marker);
        let (action, after) = remembered_action(q, flow_node, info, condition_flow, after);
        if let Ok(action) = action {
            lemma_action_visit_is_quiet(q, flow_node, action, after.capped(rp), marker);
        }
    }
}

proof fn lemma_action_visit_is_quiet(
    q: FlowQuery,
    flow_node: FlowNode,
    action: ConditionFlowAction,
    rp: Replay,
    marker: Marker,
)
    ensures
        quiet(q.action_visit(flow_node, action, rp), rp, marker),
    decreases rp.steps, 2int, 0nat,
{
    if rp.steps > 0 {
        let start = rp.ticked();
        match action {
            ConditionFlowAction::NeedCorrelated(pending) => {
                let (action, after) = start.resume_correlated_condition(
                    q.tree,
                    q.root,
                    q.var_ref_id,
                    flow_node.id,
                    pending,
                );
                if let Ok(action) = action {
                    lemma_action_visit_is_quiet(q, flow_node, action, after, marker);
                }
            },
            ConditionFlowAction::NeedSubquery(subquery) => {
                let (id, cache) = start.cache.number_var_ref(subquery.var_ref_id());
                let asked = q.about(subquery.var_ref_id(), id);
                let numbered = start.with_cache(cache);
                lemma_type_at_is_quiet(
                    asked,
                    subquery.antecedent_flow_id(),
                    true,
                    numbered,
                    marker,
                );
                let (typ, after) = asked.type_at(subquery.antecedent_flow_id(), true, numbered);
                lemma_answered_is_quiet(q, flow_node, subquery, typ, after, marker);
                let (action, after) = answered(q, flow_node, subquery, typ, after);
                if let Ok(action) = action {
                    lemma_action_visit_is_quiet(q, flow_node, action, after.capped(start), marker);
                }
            },
            _ => {},
        }
    }
}

proof fn lemma_assignment_visit_is_quiet(
    q: FlowQuery,
    flow_node: FlowNode,
    assign_id: LuaSyntaxId,
    rp: Replay,
    marker: Marker,
)
    ensures
        quiet(q.assignment_visit(flow_node, assign_id, rp), rp, marker),
    decreases rp.steps, 3int, 0nat,
{
    lemma_assignment_info_is_quiet(q.root, flow_node.id, assign_id, rp, marker);
    let (info, after) = assignment_info(q.root, flow_node.id, assign_id, rp);
    if let Ok(info) = info {
        lemma_assigned_is_quiet(q, flow_node, info, after.capped(rp), marker);
    }
}

proof fn lemma_assigned_is_quiet(
    q: FlowQuery,
    flow_node: FlowNode,
    info: AssignmentView,
    rp: Replay,
    marker: Marker,
)
    ensures
        quiet(q.assigned(flow_node, info, rp), rp, marker),
    decreases rp.steps, 2int, 0nat,
{
    lemma_assigned_at(q, flow_node, info, rp);
    if let Some(i) = assigned_index(info, q.var_ref_id, 0) {
        lemma_assigned_at_is_quiet(q, flow_node, info, i, rp, marker);
    }
}

proof fn lemma_assigned_at_is_quiet(
    q: FlowQuery,
    flow_node: FlowNode,
    info: AssignmentView,
    i: int,
    rp: Replay,
    marker: Marker,
)
    ensures
        quiet(assigned_at(q, flow_node, info, i, rp), rp, marker),
    decreases rp.steps, 1int, 2nat,
{
    let (held, after) = rp.get_type_cache(assigned_owner(info.assign_stat.vars@[i], rp));
    let explicit = explicit_type(held);
    let (expr_type, after) = after.infer_expr_list_value_type_at(
        info.assign_stat.exprs@,
        i as usize,
    );
    if let Ok(Some(expr_type)) = expr_type {
        lemma_sourced_is_quiet(q, flow_node, explicit, expr_type, after, marker);
        let (source, after) = sourced(q, flow_node, explicit, expr_type, after);
        if let Ok((source_type, reuse)) = source {
            lemma_assignment_result_is_quiet(
                q.var_ref_id,
                explicit,
                expr_type,
                source_type,
                reuse,
                after,
                marker,
            );
        }
    }
}

proof fn lemma_sourced_is_quiet(
    q: FlowQuery,
    flow_node: FlowNode,
    explicit: Option<LuaType>,
    expr_type: LuaType,
    rp: Replay,
    marker: Marker,
)
    ensures
        quiet(sourced(q, flow_node, explicit, expr_type, rp), rp, marker),
    decreases rp.steps, 1int, 1nat,
{
    reveal(sourced);
    lemma_assignment_source_is_quiet(q, flow_node, explicit, expr_type, rp, marker);
}

proof fn lemma_assignment_source_is_quiet(
    q: FlowQuery,
    flow_node: FlowNode,
    explicit: Option<LuaType>,
    expr_type: LuaType,
    rp: Replay,
    marker: Marker,
)
    ensures
        quiet(q.assignment_source(flow_node, explicit, expr_type, rp), rp, marker),
    decreases rp.steps, 1int, 0nat,
{
    if explicit is None {
        if let Ok(antecedent) = single_antecedent(flow_node) {
            lemma_source_before(q, flow_node, antecedent, expr_type, rp);
            lemma_source_before_is_quiet(q, antecedent, expr_type, rp, marker);
        }
    }
}

proof fn lemma_source_before_is_quiet(
    q: FlowQuery,
    antecedent: FlowId,
    expr_type: LuaType,
    rp: Replay,
    marker: Marker,
)
    ensures
        quiet(source_before(q, antecedent, expr_type, rp), rp, marker),
    decreases rp.steps, 0int, 2nat,
{
    if !preserves(expr_type) {
        lemma_evaluated_is_quiet(q, antecedent, false, rp, marker);
    } else {
        lemma_evaluated_is_quiet(q, antecedent, true, rp, marker);
        let (narrowed, after) = evaluated(q, antecedent, true, rp);
        if let Ok(narrowed) = narrowed {
            lemma_reuses_source_is_quiet(narrowed, expr_type, after, marker);
            let (_, after) = reuses_source(narrowed, expr_type, after);
            lemma_evaluated_is_quiet(q, antecedent, false, after.capped(rp), marker);
        }
    }
}

proof fn lemma_evaluated_is_quiet(
    q: FlowQuery,
    flow_id: FlowId,
    use_condition_narrowing: bool,
    rp: Replay,
    marker: Marker,
)
    ensures
        quiet(evaluated(q, flow_id, use_condition_narrowing, rp), rp, marker),
    decreases rp.steps, 0int, 1nat,
{
    reveal(evaluated);
    lemma_type_at_is_quiet(q, flow_id, use_condition_narrowing, rp, marker);
}

/// To find the type of a reference at a node leaves no marker behind, at any node and about any
/// reference, whether conditions count or not, as long as the calls of the model do not.
pub proof fn type_at_leaves_no_marker(
    q: FlowQuery,
    flow_id: FlowId,
    use_condition_narrowing: bool,
    marker: Marker,
    rp: Replay,
)
    requires
        marker.is_left_by(rp.log),
        !marker.is_set(rp.cache),
    ensures
        !marker.is_set(q.type_at(flow_id, use_condition_narrowing, rp).1.cache),
{
    lemma_type_at_is_quiet(q, flow_id, use_condition_narrowing, rp, marker);
}

/// What a walk leaves in the cache: the type that it found, or nothing at its node where it failed,
/// and no marker.  Where something is remembered at its node, it changes nothing.
pub proof fn lemma_evaluated_settles(
    q: FlowQuery,
    flow_id: FlowId,
    use_condition_narrowing: bool,
    rp: Replay,
)
    ensures
        ({
            let (res, after) = evaluated(q, flow_id, use_condition_narrowing, rp);
            &&& leaves_no_marker(rp.log, rp.cache, after.cache)
            &&& match q.entry(flow_id, use_condition_narrowing, rp) {
                None => q.entry(flow_id, use_condition_narrowing, after) == settled_entry(res),
                Some(known) => (res, after) == (known_result(known), rp),
            }
        }),
{
    let after = evaluated(q, flow_id, use_condition_narrowing, rp).1;
    assert forall|marker: Marker| #[trigger]
        marker.is_set(after.cache) && marker.is_left_by(rp.log) implies marker.is_set(
        rp.cache,
    ) by {
        lemma_evaluated_is_quiet(q, flow_id, use_condition_narrowing, rp, marker);
    }
    reveal(evaluated);
    type_is_remembered(q, flow_id, use_condition_narrowing, rp);
    if q.entry(flow_id, use_condition_narrowing, rp) is None {
        failure_is_forgotten(q, flow_id, use_condition_narrowing, rp);
    }
}

/// The walk to where it ends leaves no marker behind.
pub proof fn lemma_step_leaves_no_marker(
    q: FlowQuery,
    flow_id: FlowId,
    use_condition_narrowing: bool,
    narrows: Seq<PendingConditionNarrow>,
    rp: Replay,
)
    ensures
        leaves_no_marker(
            rp.log,
            rp.cache,
            q.step(flow_id, use_condition_narrowing, narrows, rp).1.cache,
        ),
{
    let after = q.step(flow_id, use_condition_narrowing, narrows, rp).1;
    assert forall|marker: Marker| #[trigger]
        marker.is_set(after.cache) && marker.is_left_by(rp.log) implies marker.is_set(
        rp.cache,
    ) by {
        lemma_step_is_quiet(q, flow_id, use_condition_narrowing, narrows, rp, marker);
    }
}

/// To look at a condition leaves no marker behind, as long as the calls of the model do not.
pub proof fn condition_leaves_no_marker(
    q: FlowQuery,
    flow_node: FlowNode,
    info: FlowConditionInfo,
    condition_flow: InferConditionFlow,
    marker: Marker,
    rp: Replay,
)
    requires
        marker.is_left_by(rp.log),
        !marker.is_set(rp.cache),
    ensures
        !marker.is_set(remembered_action(q, flow_node, info, condition_flow, rp).1.cache),
{
    lemma_remembered_action_is_quiet(q, flow_node, info, condition_flow, rp, marker);
}

/// A walk leaves no marker of its own behind, at any node and about any reference, as long as the
/// calls of the model do not.
pub proof fn walk_leaves_no_marker(
    tree: FlowTree,
    root: LuaChunk,
    var_ref_id: VarRefId,
    flow_id: FlowId,
    marker: Marker,
    rp: Replay,
)
    requires
        marker.is_left_by(rp.log),
        !marker.is_set(rp.cache),
    ensures
        !marker.is_set(flow_type(tree, root, var_ref_id, flow_id, rp).1.cache),
{
    let (var_ref_cache_id, cache) = rp.cache.number_var_ref(var_ref_id);
    lemma_type_at_is_quiet(
        FlowQuery { tree, root, var_ref_id, var_ref_cache_id },
        flow_id,
        true,
        rp.with_cache(cache),
        marker,
    );
}

} // verus!
