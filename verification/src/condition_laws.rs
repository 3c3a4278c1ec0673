//! What conditions say about a reference.

use std::sync::Arc;

use vstd::prelude::*;

use crate::condition_flow::call_flow::{
    alias_call_action, argument_of, is_callable, known_callee_action, needs_antecedent,
    signature_param_action, signature_self_action, type_guard_action, union_members,
};
use crate::condition_flow::{
    condition_action, last_literal_member, literal_equal, narrowed_discriminant, subquery_action,
    ConditionFlowAction, ConditionSubquery, CorrelatedDiscriminantNarrow, InferConditionFlow,
    PendingConditionNarrow,
};
use crate::db::{Call, Replay, Reply};
use crate::flow_tree::{find_decl_expr, FlowAntecedent, FlowNode, FlowTree};
use crate::ids::{FlowId, LuaDeclId, LuaSignatureId, LuaSyntaxId, VarRefId};
use crate::infer::{
    doc_func, find_name, return_type, InferFailReason, LuaSignature, LuaSignatureCast,
};
use crate::syntax::{
    find_node, LuaBinaryExpr, LuaCallExpr, LuaChunk, LuaExpr, LuaIndexExpr, LuaIndexMemberExpr,
    LuaNameExpr, LuaUnaryExpr, UnaryOperator,
};
use crate::types::{
    same_type, LuaAliasCallKind, LuaAliasCallType, LuaArrayLen, LuaFunctionType, LuaType,
};

verus! {

/// Where `not expr` comes out true `expr` comes out false, and the other way round.
pub proof fn negation_swaps_true_and_false(
    tree: FlowTree,
    root: LuaChunk,
    var_ref_id: VarRefId,
    flow_node: FlowNode,
    unary_expr: Arc<LuaUnaryExpr>,
    expr: LuaExpr,
    rp: Replay,
)
    requires
        unary_expr.op == Some(UnaryOperator::OpNot),
        unary_expr.expr == Some(expr),
    ensures
        condition_action(
            tree,
            root,
            var_ref_id,
            flow_node,
            LuaExpr::UnaryExpr(unary_expr),
            InferConditionFlow::TrueCondition,
            rp,
        ) == condition_action(
            tree,
            root,
            var_ref_id,
            flow_node,
            expr,
            InferConditionFlow::FalseCondition,
            rp,
        ),
        condition_action(
            tree,
            root,
            var_ref_id,
            flow_node,
            LuaExpr::UnaryExpr(unary_expr),
            InferConditionFlow::FalseCondition,
            rp,
        ) == condition_action(
            tree,
            root,
            var_ref_id,
            flow_node,
            expr,
            InferConditionFlow::TrueCondition,
            rp,
        ),
{
    reveal_with_fuel(condition_action, 2);
}

/// Whether a condition can say nothing: a table, a literal, a function, an operator other than
/// `not`, and an operator or parentheses with nothing in them.
pub open spec fn says_nothing(condition: LuaExpr) -> bool {
    match condition {
        LuaExpr::TableExpr(_) => true,
        LuaExpr::LiteralExpr(_) => true,
        LuaExpr::ClosureExpr(_) => true,
        LuaExpr::UnaryExpr(unary_expr) => unary_expr.expr is None || unary_expr.op != Some(
            UnaryOperator::OpNot,
        ),
        LuaExpr::ParenExpr(paren_expr) => paren_expr.expr is None,
        _ => false,
    }
}

/// Such a condition says nothing and asks nothing.
pub proof fn other_conditions_say_nothing(
    tree: FlowTree,
    root: LuaChunk,
    var_ref_id: VarRefId,
    flow_node: FlowNode,
    condition: LuaExpr,
    condition_flow: InferConditionFlow,
    rp: Replay,
)
    requires
        says_nothing(condition),
    ensures
        condition_action(tree, root, var_ref_id, flow_node, condition, condition_flow, rp) == (
            Ok::<_, InferFailReason>(ConditionFlowAction::Continue),
            rp,
        ),
{
}

/// What a binary operation says is the model's.
pub proof fn binary_conditions_are_handed_on(
    tree: FlowTree,
    root: LuaChunk,
    var_ref_id: VarRefId,
    flow_node: FlowNode,
    binary_expr: Arc<LuaBinaryExpr>,
    condition_flow: InferConditionFlow,
    action: Result<ConditionFlowAction, InferFailReason>,
    rp: Replay,
    done: Replay,
)
    requires
        rp.told_with_cache(
            Call::GetTypeAtBinaryExpr {
                tree,
                root,
                var_ref_id,
                flow_id: flow_node.id,
                binary_expr: *binary_expr,
                condition_flow,
            },
            Reply::Action(action),
            done,
        ),
    ensures
        condition_action(
            tree,
            root,
            var_ref_id,
            flow_node,
            LuaExpr::BinaryExpr(binary_expr),
            condition_flow,
            rp,
        ) == (action, done),
{
}

/// The reference itself as a condition narrows by its truth; a name that is no reference says
/// nothing.
pub proof fn reference_narrows_by_its_own_truth(
    tree: FlowTree,
    root: LuaChunk,
    var_ref_id: VarRefId,
    flow_node: FlowNode,
    name_expr: Arc<LuaNameExpr>,
    condition_flow: InferConditionFlow,
    named: Option<VarRefId>,
    rp: Replay,
    asked: Replay,
)
    requires
        rp.told_with_cache(
            Call::GetVarExprVarRefId { expr: LuaExpr::NameExpr(name_expr) },
            Reply::VarRef(named),
            asked,
        ),
        named is None || named == Some(var_ref_id),
    ensures
        condition_action(
            tree,
            root,
            var_ref_id,
            flow_node,
            LuaExpr::NameExpr(name_expr),
            condition_flow,
            rp,
        ) == (
            Ok::<_, InferFailReason>(
                if named is Some {
                    ConditionFlowAction::Pending(PendingConditionNarrow::Truthiness(condition_flow))
                } else {
                    ConditionFlowAction::Continue
                },
            ),
            asked,
        ),
{
}

/// Whether a name is another reference than the one in question, and is declared by `decl_id`.
pub open spec fn is_declared_elsewhere(
    var_ref_id: VarRefId,
    name_expr: Arc<LuaNameExpr>,
    named: VarRefId,
    decl_id: Option<LuaDeclId>,
    rp: Replay,
    asked: Replay,
    declared: Replay,
) -> bool {
    &&& rp.told_with_cache(
        Call::GetVarExprVarRefId { expr: LuaExpr::NameExpr(name_expr) },
        Reply::VarRef(Some(named)),
        asked,
    )
    &&& named != var_ref_id
    &&& asked.told(
        Call::GetVarReferenceDecl {
            file_id: asked.cache.file_id,
            range: name_expr.syntax_id.range,
        },
        Reply::DeclId(decl_id),
        declared,
    )
}

/// The expression that a declaration is bound to.
pub open spec fn bound_to(tree: FlowTree, root: LuaChunk, decl_id: LuaDeclId) -> Option<LuaExpr> {
    match find_decl_expr(tree.decl_ref_exprs@, decl_id) {
        Some(id) => find_node(root.exprs@, id),
        None => None,
    }
}

/// Of several expressions that a declaration is bound to the first counts.
pub proof fn first_bound_expression_counts(
    entries: Seq<(LuaDeclId, LuaSyntaxId)>,
    decl_id: LuaDeclId,
    k: int,
)
    requires
        0 <= k <= entries.len(),
        forall|i: int| 0 <= i < k ==> (#[trigger] entries[i]).0 != decl_id,
        k < entries.len() ==> entries[k].0 == decl_id,
    ensures
        find_decl_expr(entries, decl_id) == if k < entries.len() {
            Some(entries[k].1)
        } else {
            None
        },
    decreases k,
{
    if k > 0 {
        let rest = entries.drop_first();
        assert(entries[0].0 != decl_id);
        assert forall|i: int| 0 <= i < k - 1 implies (#[trigger] rest[i]).0 != decl_id by {
            assert(rest[i] == entries[i + 1]);
        }
        first_bound_expression_counts(rest, decl_id, k - 1);
    }
}

/// Whether two variables get their values from one call.
pub open spec fn come_from_one_call(
    tree: FlowTree,
    var_ref_id: VarRefId,
    decl_id: LuaDeclId,
) -> bool {
    let target = match var_ref_id {
        VarRefId::VarRef(target) => Some(target),
        VarRefId::Path { root, .. } => root,
    };
    &&& target is Some
    &&& tree.multi_return_decls@.contains(decl_id)
    &&& tree.multi_return_decls@.contains(target->0)
}

/// A name whose declaration is not known says nothing, and neither does one that is bound to
/// nothing and has nothing to do with the reference.
pub proof fn unbound_name_says_nothing(
    tree: FlowTree,
    root: LuaChunk,
    var_ref_id: VarRefId,
    flow_node: FlowNode,
    name_expr: Arc<LuaNameExpr>,
    condition_flow: InferConditionFlow,
    named: VarRefId,
    decl_id: Option<LuaDeclId>,
    rp: Replay,
    asked: Replay,
    declared: Replay,
)
    requires
        is_declared_elsewhere(var_ref_id, name_expr, named, decl_id, rp, asked, declared),
        decl_id matches Some(decl_id) ==> !come_from_one_call(tree, var_ref_id, decl_id)
            && bound_to(tree, root, decl_id) is None,
    ensures
        condition_action(
            tree,
            root,
            var_ref_id,
            flow_node,
            LuaExpr::NameExpr(name_expr),
            condition_flow,
            rp,
        ) == (Ok::<_, InferFailReason>(ConditionFlowAction::Continue), declared),
{
}

/// A name that is bound to an expression says what the expression says.
pub proof fn bound_name_stands_for_its_expression(
    tree: FlowTree,
    root: LuaChunk,
    var_ref_id: VarRefId,
    flow_node: FlowNode,
    name_expr: Arc<LuaNameExpr>,
    condition_flow: InferConditionFlow,
    named: VarRefId,
    decl_id: LuaDeclId,
    expr: LuaExpr,
    rp: Replay,
    asked: Replay,
    declared: Replay,
)
    requires
        is_declared_elsewhere(var_ref_id, name_expr, named, Some(decl_id), rp, asked, declared),
        !come_from_one_call(tree, var_ref_id, decl_id),
        bound_to(tree, root, decl_id) == Some(expr),
        rp.steps > 0,
    ensures
        condition_action(
            tree,
            root,
            var_ref_id,
            flow_node,
            LuaExpr::NameExpr(name_expr),
            condition_flow,
            rp,
        ) == condition_action(
            tree,
            root,
            var_ref_id,
            flow_node,
            expr,
            condition_flow,
            declared.ticked(),
        ),
{
    reveal_with_fuel(condition_action, 2);
}

/// A name that gets its value from the call that gives the reference its own asks for the type of
/// that name at the node before, to tell which results go together.
pub proof fn correlated_name_asks_for_its_own_type(
    tree: FlowTree,
    root: LuaChunk,
    var_ref_id: VarRefId,
    flow_node: FlowNode,
    name_expr: Arc<LuaNameExpr>,
    condition_flow: InferConditionFlow,
    named: VarRefId,
    decl_id: LuaDeclId,
    rp: Replay,
    asked: Replay,
    declared: Replay,
)
    requires
        is_declared_elsewhere(var_ref_id, name_expr, named, Some(decl_id), rp, asked, declared),
        come_from_one_call(tree, var_ref_id, decl_id),
    ensures
        condition_action(
            tree,
            root,
            var_ref_id,
            flow_node,
            LuaExpr::NameExpr(name_expr),
            condition_flow,
            rp,
        ) == (
            match flow_node.antecedent {
                Some(FlowAntecedent::Single(antecedent_flow_id)) => Ok(
                    ConditionFlowAction::NeedSubquery(
                        ConditionSubquery::Correlated {
                            var_ref_id: VarRefId::VarRef(decl_id),
                            antecedent_flow_id,
                            subquery_condition_flow: condition_flow,
                            discriminant_decl_id: decl_id,
                            condition_position: name_expr.syntax_id.range.start,
                            narrow: CorrelatedDiscriminantNarrow::Truthiness,
                            fallback_expr: bound_to(tree, root, decl_id),
                        },
                    ),
                ),
                _ => Err(InferFailReason::Nothing),
            },
            declared,
        ),
{
}

/// An index expression narrows by its truth where it is the reference, and by the truth of the
/// field where its prefix is; otherwise it says nothing.
pub proof fn index_narrows_itself_or_its_prefix(
    tree: FlowTree,
    root: LuaChunk,
    var_ref_id: VarRefId,
    flow_node: FlowNode,
    index_expr: Arc<LuaIndexExpr>,
    condition_flow: InferConditionFlow,
    named: Option<VarRefId>,
    prefix: Option<VarRefId>,
    rp: Replay,
    asked: Replay,
    prefixed: Replay,
)
    requires
        rp.told_with_cache(
            Call::GetVarExprVarRefId { expr: LuaExpr::IndexExpr(index_expr) },
            Reply::VarRef(named),
            asked,
        ),
        named is Some && named != Some(var_ref_id) ==> (index_expr.prefix_expr matches Some(
            prefix_expr,
        ) ==> asked.told_with_cache(
            Call::GetVarExprVarRefId { expr: prefix_expr },
            Reply::VarRef(prefix),
            prefixed,
        )),
    ensures
        condition_action(
            tree,
            root,
            var_ref_id,
            flow_node,
            LuaExpr::IndexExpr(index_expr),
            condition_flow,
            rp,
        ) == if named == Some(var_ref_id) {
            (
                Ok::<_, InferFailReason>(
                    ConditionFlowAction::Pending(
                        PendingConditionNarrow::Truthiness(condition_flow),
                    ),
                ),
                asked,
            )
        } else if named is None || index_expr.prefix_expr is None {
            (Ok(ConditionFlowAction::Continue), asked)
        } else if prefix == Some(var_ref_id) {
            (
                Ok(
                    ConditionFlowAction::Pending(
                        PendingConditionNarrow::FieldTruthy {
                            idx: LuaIndexMemberExpr::IndexExpr(index_expr),
                            condition_flow,
                        },
                    ),
                ),
                prefixed,
            )
        } else {
            (Ok(ConditionFlowAction::Continue), prefixed)
        },
{
}

/// Whether a call is one of a method of the reference itself: it is written with `:`, and what
/// stands before the `:` is the reference.
pub open spec fn is_own_method(
    var_ref_id: VarRefId,
    call_expr: Arc<LuaCallExpr>,
    index_expr: Arc<LuaIndexExpr>,
    rp: Replay,
    asked: Replay,
) -> bool {
    &&& call_expr.prefix_expr == Some(LuaExpr::IndexExpr(index_expr))
    &&& call_expr.is_colon_call
    &&& index_expr.prefix_expr is Some
    &&& rp.told_with_cache(
        Call::GetVarExprVarRefId { expr: index_expr.prefix_expr->0 },
        Reply::VarRef(Some(var_ref_id)),
        asked,
    )
}

/// Whether a call is one of an expression of its own, which is asked for from `asked` on.
pub open spec fn is_plain_call(
    var_ref_id: VarRefId,
    call_expr: Arc<LuaCallExpr>,
    named: Option<VarRefId>,
    rp: Replay,
    asked: Replay,
) -> bool {
    &&& call_expr.prefix_expr is Some
    &&& if call_expr.is_colon_call && (call_expr.prefix_expr->0 matches LuaExpr::IndexExpr(
        index_expr,
    ) && index_expr.prefix_expr is Some) {
        &&& rp.told_with_cache(
            Call::GetVarExprVarRefId {
                expr: call_expr.prefix_expr->0->IndexExpr_0.prefix_expr->0,
            },
            Reply::VarRef(named),
            asked,
        )
        &&& named != Some(var_ref_id)
    } else {
        asked == rp
    }
}

/// The members of a union, however it is written.
pub open spec fn candidates(typ: LuaType) -> Seq<LuaType> {
    match typ {
        LuaType::Union(types) => types@,
        LuaType::MultiLineUnion(union) => match *union {
            LuaType::Union(types) => types@,
            _ => Seq::empty(),
        },
        _ => Seq::empty(),
    }
}

/// Whether a type has several members of which one can be called.
pub open spec fn has_callable_candidates(typ: LuaType) -> bool {
    &&& candidates(typ).len() > 1
    &&& exists|i: int|
        0 <= i < candidates(typ).len() && (#[trigger] candidates(typ)[i] is DocFunction
            || candidates(typ)[i] is Signature || candidates(typ)[i] is Call)
}

proof fn lemma_candidates(typ: LuaType)
    ensures
        has_callable_candidates(typ) == needs_antecedent(typ),
{
    let types = candidates(typ);
    if has_callable_candidates(typ) {
        assert(union_members(typ) == Some(types));
        let i = choose|i: int|
            0 <= i < types.len() && (#[trigger] types[i] is DocFunction || types[i] is Signature
                || types[i] is Call);
        assert(is_callable(types[i]));
    }
    if needs_antecedent(typ) {
        assert(union_members(typ) == Some(types));
        let i = choose|i: int| 0 <= i < types.len() && is_callable(#[trigger] types[i]);
        assert(candidates(typ)[i] is DocFunction || types[i] is Signature || types[i] is Call);
    }
}

/// A call without a callee says nothing.
pub proof fn call_of_nothing_says_nothing(
    tree: FlowTree,
    root: LuaChunk,
    var_ref_id: VarRefId,
    flow_node: FlowNode,
    call_expr: Arc<LuaCallExpr>,
    condition_flow: InferConditionFlow,
    rp: Replay,
)
    requires
        call_expr.prefix_expr is None,
    ensures
        condition_action(
            tree,
            root,
            var_ref_id,
            flow_node,
            LuaExpr::CallExpr(call_expr),
            condition_flow,
            rp,
        ) == (Ok::<_, InferFailReason>(ConditionFlowAction::Continue), rp),
{
}

/// A call of an expression says what the type of the expression says; where the type is not known,
/// nothing is.
pub proof fn plain_call_goes_by_the_type_of_its_callee(
    tree: FlowTree,
    root: LuaChunk,
    var_ref_id: VarRefId,
    flow_node: FlowNode,
    call_expr: Arc<LuaCallExpr>,
    condition_flow: InferConditionFlow,
    named: Option<VarRefId>,
    func: Result<LuaType, InferFailReason>,
    rp: Replay,
    asked: Replay,
    inferred: Replay,
)
    requires
        is_plain_call(var_ref_id, call_expr, named, rp, asked),
        asked.told_with_cache(
            Call::InferExpr { expr: call_expr.prefix_expr->0 },
            Reply::Infer(func),
            inferred,
        ),
    ensures
        condition_action(
            tree,
            root,
            var_ref_id,
            flow_node,
            LuaExpr::CallExpr(call_expr),
            condition_flow,
            rp,
        ) == match func {
            Ok(func) => known_callee_action(
                var_ref_id,
                call_expr,
                call_expr.prefix_expr->0,
                func,
                condition_flow,
                inferred,
            ),
            Err(reason) => (Err(reason), inferred),
        },
{
}

/// A call of a method of the reference itself is left for later where the type of the reference
/// offers several candidates and one of them can be called; otherwise it says what the type of the
/// method says.
pub proof fn own_method_with_candidates_is_left_for_later(
    tree: FlowTree,
    root: LuaChunk,
    var_ref_id: VarRefId,
    flow_node: FlowNode,
    call_expr: Arc<LuaCallExpr>,
    index_expr: Arc<LuaIndexExpr>,
    condition_flow: InferConditionFlow,
    self_type: Result<LuaType, InferFailReason>,
    member_type: Result<LuaType, InferFailReason>,
    rp: Replay,
    asked: Replay,
    typed: Replay,
    looked: Replay,
)
    requires
        is_own_method(var_ref_id, call_expr, index_expr, rp, asked),
        asked.told_with_cache(Call::GetVarRefType { var_ref_id }, Reply::Infer(self_type), typed),
        self_type matches Ok(self_type) ==> typed.told_with_cache(
            Call::InferMemberByMemberKey {
                prefix_type: self_type,
                idx: LuaIndexMemberExpr::IndexExpr(index_expr),
            },
            Reply::Infer(member_type),
            looked,
        ),
    ensures
        condition_action(
            tree,
            root,
            var_ref_id,
            flow_node,
            LuaExpr::CallExpr(call_expr),
            condition_flow,
            rp,
        ) == match (self_type, member_type) {
            (Err(reason), _) => (Err(reason), typed),
            (_, Err(reason)) => (Err(reason), looked),
            (Ok(_), Ok(member_type)) => if has_callable_candidates(member_type) {
                (
                    Ok(
                        ConditionFlowAction::Pending(
                            PendingConditionNarrow::SameVarColonCall {
                                idx: LuaIndexMemberExpr::IndexExpr(index_expr),
                                condition_flow,
                            },
                        ),
                    ),
                    looked,
                )
            } else {
                known_callee_action(
                    var_ref_id,
                    call_expr,
                    LuaExpr::IndexExpr(index_expr),
                    member_type,
                    condition_flow,
                    looked,
                )
            },
        },
{
    if let Ok(member_type) = member_type {
        lemma_candidates(member_type);
    }
}

/// A callee that is no function, and a documented function that is no guard, say nothing.
pub proof fn other_callees_say_nothing(
    var_ref_id: VarRefId,
    call_expr: Arc<LuaCallExpr>,
    prefix_expr: LuaExpr,
    func: LuaType,
    condition_flow: InferConditionFlow,
    rp: Replay,
)
    requires
        !(func is Signature),
        func matches LuaType::DocFunction(f) ==> !(f.ret is TypeGuard),
    ensures
        known_callee_action(var_ref_id, call_expr, prefix_expr, func, condition_flow, rp) == (
            Ok::<_, InferFailReason>(ConditionFlowAction::Continue),
            rp,
        ),
{
}

/// A documented guard says what a guard says.
pub proof fn documented_guard_is_a_guard(
    var_ref_id: VarRefId,
    call_expr: Arc<LuaCallExpr>,
    prefix_expr: LuaExpr,
    func: Arc<LuaFunctionType>,
    condition_flow: InferConditionFlow,
    rp: Replay,
)
    requires
        func.ret is TypeGuard,
    ensures
        known_callee_action(
            var_ref_id,
            call_expr,
            prefix_expr,
            LuaType::DocFunction(func),
            condition_flow,
            rp,
        ) == type_guard_action(var_ref_id, *call_expr, *func, condition_flow, rp),
{
}

/// A guard says that its first argument has the guarded type, where the argument is the reference.
pub proof fn guard_speaks_of_its_first_argument(
    var_ref_id: VarRefId,
    call_expr: LuaCallExpr,
    func_type: LuaFunctionType,
    condition_flow: InferConditionFlow,
    guarded: Option<VarRefId>,
    generic: bool,
    instance: Result<Arc<LuaFunctionType>, InferFailReason>,
    rp: Replay,
    named: Replay,
    asked: Replay,
    instantiated: Replay,
)
    requires
        call_expr.args matches Some(args) && args@.len() > 0,
        rp.told_with_cache(
            Call::GetVarExprVarRefId { expr: call_expr.args->0@[0] },
            Reply::VarRef(guarded),
            named,
        ),
        guarded is Some ==> named.told(
            Call::ContainTpl { typ: func_type.ret },
            Reply::Truth(generic),
            asked,
        ),
        guarded is Some && generic ==> asked.told_with_cache(
            Call::InferCallExprFunc { call_expr, func_type },
            Reply::Func(instance),
            instantiated,
        ),
    ensures
        type_guard_action(var_ref_id, call_expr, func_type, condition_flow, rp)
            == if guarded is None {
            (Ok(ConditionFlowAction::Continue), named)
        } else if !generic {
            (
                Ok(
                    if func_type.ret is TypeGuard && guarded == Some(var_ref_id) {
                        ConditionFlowAction::Pending(
                            PendingConditionNarrow::TypeGuard {
                                narrow: *func_type.ret->TypeGuard_0,
                                condition_flow,
                            },
                        )
                    } else {
                        ConditionFlowAction::Continue
                    },
                ),
                asked,
            )
        } else {
            match instance {
                Err(reason) => (Err(reason), instantiated),
                Ok(instance) => (
                    Ok(
                        if instance.ret is TypeGuard && guarded == Some(var_ref_id) {
                            ConditionFlowAction::Pending(
                                PendingConditionNarrow::TypeGuard {
                                    narrow: *instance.ret->TypeGuard_0,
                                    condition_flow,
                                },
                            )
                        } else {
                            ConditionFlowAction::Continue
                        },
                    ),
                    instantiated,
                ),
            }
        },
{
    reveal(type_guard_action);
}

/// A guard without arguments says nothing.
pub proof fn guard_without_arguments_says_nothing(
    var_ref_id: VarRefId,
    call_expr: LuaCallExpr,
    func_type: LuaFunctionType,
    condition_flow: InferConditionFlow,
    rp: Replay,
)
    requires
        call_expr.args matches Some(args) ==> args@.len() == 0,
    ensures
        type_guard_action(var_ref_id, call_expr, func_type, condition_flow, rp) == (
            Ok::<_, InferFailReason>(ConditionFlowAction::Continue),
            rp,
        ),
{
    reveal(type_guard_action);
}

/// A signature that is not known says nothing; one that returns a guard is a guard, one that
/// returns a type operator goes by the operator.
pub proof fn signature_goes_by_what_it_returns(
    var_ref_id: VarRefId,
    call_expr: Arc<LuaCallExpr>,
    prefix_expr: LuaExpr,
    signature_id: LuaSignatureId,
    signature: Option<Arc<LuaSignature>>,
    condition_flow: InferConditionFlow,
    rp: Replay,
    known: Replay,
)
    requires
        rp.told(Call::GetSignature { signature_id }, Reply::Signature(signature), known),
    ensures
        signature is None ==> known_callee_action(
            var_ref_id,
            call_expr,
            prefix_expr,
            LuaType::Signature(signature_id),
            condition_flow,
            rp,
        ) == (Ok::<_, InferFailReason>(ConditionFlowAction::Continue), known),
        signature matches Some(signature) ==> return_type(signature) is TypeGuard
            ==> known_callee_action(
            var_ref_id,
            call_expr,
            prefix_expr,
            LuaType::Signature(signature_id),
            condition_flow,
            rp,
        ) == type_guard_action(
            var_ref_id,
            *call_expr,
            *doc_func(signature),
            condition_flow,
            known,
        ),
        signature matches Some(signature) ==> (return_type(signature) matches LuaType::Call(call)
            ==> known_callee_action(
            var_ref_id,
            call_expr,
            prefix_expr,
            LuaType::Signature(signature_id),
            condition_flow,
            rp,
        ) == alias_call_action(var_ref_id, call_expr, *call, condition_flow, known)),
{
}

/// A call of `rawget` that is the reference gives the part of its own type that comes out that way;
/// other type operators say nothing.
pub proof fn raw_access_gives_its_own_type(
    var_ref_id: VarRefId,
    call_expr: Arc<LuaCallExpr>,
    alias_call: LuaAliasCallType,
    condition_flow: InferConditionFlow,
    named: Option<VarRefId>,
    typ: Result<LuaType, InferFailReason>,
    narrowed: LuaType,
    rp: Replay,
    asked: Replay,
    inferred: Replay,
    done: Replay,
)
    requires
        rp.told_with_cache(
            Call::GetVarExprVarRefId { expr: LuaExpr::CallExpr(call_expr) },
            Reply::VarRef(named),
            asked,
        ),
        named == Some(var_ref_id) && alias_call.call_kind == LuaAliasCallKind::RawGet ==> {
            &&& asked.told_with_cache(
                Call::InferExpr { expr: LuaExpr::CallExpr(call_expr) },
                Reply::Infer(typ),
                inferred,
            )
            &&& typ matches Ok(typ) ==> inferred.told(
                match condition_flow {
                    InferConditionFlow::TrueCondition => Call::RemoveFalseOrNil { typ },
                    InferConditionFlow::FalseCondition => Call::NarrowFalseOrNil { typ },
                },
                Reply::Type(narrowed),
                done,
            )
        },
    ensures
        alias_call_action(var_ref_id, call_expr, alias_call, condition_flow, rp) == if named
            == Some(var_ref_id) && alias_call.call_kind == LuaAliasCallKind::RawGet {
            match typ {
                Ok(_) => (Ok(ConditionFlowAction::Result(narrowed)), done),
                Err(reason) => (Err(reason), inferred),
            }
        } else {
            (Ok(ConditionFlowAction::Continue), asked)
        },
{
    reveal(alias_call_action);
}

/// A signature without a cast says nothing; one with a cast goes by its `self` or by the parameter
/// that it names.
pub proof fn signature_goes_by_its_cast(
    var_ref_id: VarRefId,
    call_expr: Arc<LuaCallExpr>,
    prefix_expr: LuaExpr,
    signature_id: LuaSignatureId,
    signature: Arc<LuaSignature>,
    signature_cast: Option<Arc<LuaSignatureCast>>,
    condition_flow: InferConditionFlow,
    rp: Replay,
    known: Replay,
    asked: Replay,
)
    requires
        rp.told(Call::GetSignature { signature_id }, Reply::Signature(Some(signature)), known),
        !(return_type(signature) is TypeGuard),
        !(return_type(signature) is Call),
        known.told(
            Call::GetSignatureCast { signature_id },
            Reply::SignatureCast(signature_cast),
            asked,
        ),
    ensures
        ({
            let action = known_callee_action(
                var_ref_id,
                call_expr,
                prefix_expr,
                LuaType::Signature(signature_id),
                condition_flow,
                rp,
            );
            match signature_cast {
                None => action == (
                    Ok::<_, InferFailReason>(ConditionFlowAction::Continue),
                    asked,
                ),
                Some(signature_cast) => {
                    let (said, next) = if signature_cast.name@ == "self"@ {
                        signature_self_action(
                            var_ref_id,
                            prefix_expr,
                            signature_id,
                            condition_flow,
                            asked,
                        )
                    } else {
                        signature_param_action(
                            var_ref_id,
                            *call_expr,
                            signature_id,
                            signature_cast.name@,
                            condition_flow,
                            asked,
                        )
                    };
                    action == (Ok::<_, InferFailReason>(said), next)
                },
            }
        }),
{
}

/// A method that casts `self` narrows the reference where the reference stands before the method's
/// name.
pub proof fn cast_of_self_narrows_the_prefix(
    var_ref_id: VarRefId,
    index_expr: Arc<LuaIndexExpr>,
    signature_id: LuaSignatureId,
    condition_flow: InferConditionFlow,
    self_expr: LuaExpr,
    named: Option<VarRefId>,
    rp: Replay,
    asked: Replay,
)
    requires
        index_expr.prefix_expr == Some(self_expr),
        rp.told_with_cache(
            Call::GetVarExprVarRefId { expr: self_expr },
            Reply::VarRef(named),
            asked,
        ),
    ensures
        signature_self_action(
            var_ref_id,
            LuaExpr::IndexExpr(index_expr),
            signature_id,
            condition_flow,
            rp,
        ) == (
            if named == Some(var_ref_id) {
                ConditionFlowAction::Pending(
                    PendingConditionNarrow::SignatureCast { signature_id, condition_flow },
                )
            } else {
                ConditionFlowAction::Continue
            },
            asked,
        ),
{
    reveal(signature_self_action);
}

/// Without something before the name of the method a cast of `self` says nothing.
pub proof fn cast_of_self_without_a_prefix_says_nothing(
    var_ref_id: VarRefId,
    prefix_expr: LuaExpr,
    signature_id: LuaSignatureId,
    condition_flow: InferConditionFlow,
    rp: Replay,
)
    requires
        prefix_expr matches LuaExpr::IndexExpr(index_expr) ==> index_expr.prefix_expr is None,
    ensures
        signature_self_action(var_ref_id, prefix_expr, signature_id, condition_flow, rp) == (
            ConditionFlowAction::Continue,
            rp,
        ),
{
    reveal(signature_self_action);
}

/// The first parameter of a name counts.
pub proof fn first_parameter_of_the_name_counts(
    names: Seq<String>,
    name: Seq<char>,
    from: int,
    k: int,
)
    requires
        0 <= from <= k <= names.len(),
        forall|i: int| from <= i < k ==> (#[trigger] names[i])@ != name,
        k < names.len() ==> names[k]@ == name,
    ensures
        find_name(names, name, from) == if k < names.len() {
            Some(k)
        } else {
            None
        },
    decreases k - from,
{
    if from < k {
        assert(names[from]@ != name);
        first_parameter_of_the_name_counts(names, name, from + 1, k);
    }
}

/// Parameter `k` of a signature gets argument `k` of the call.  Where the call passes its object
/// with `:` to a function that is not defined with `:`, the object is the first parameter and is no
/// argument; where a function with `:` is called without it, the first argument is its `self`.
pub proof fn parameter_gets_the_argument_at_its_place(
    args: Seq<LuaExpr>,
    params: Seq<String>,
    name: Seq<char>,
    k: int,
    colon_call: bool,
    colon_define: bool,
)
    requires
        0 <= k < params.len(),
        params[k]@ == name,
        forall|i: int| 0 <= i < k ==> (#[trigger] params[i])@ != name,
    ensures
        ({
            let place = if colon_call == colon_define {
                k
            } else if colon_call {
                k - 1
            } else {
                k + 1
            };
            argument_of(args, params, name, colon_call, colon_define) == if 0 <= place
                < args.len() {
                Some(args[place])
            } else {
                None
            }
        }),
{
    first_parameter_of_the_name_counts(params, name, 0, k);
}

/// A name that no parameter has gets no argument.
pub proof fn unknown_parameter_gets_no_argument(
    args: Seq<LuaExpr>,
    params: Seq<String>,
    name: Seq<char>,
    colon_call: bool,
    colon_define: bool,
)
    requires
        forall|i: int| 0 <= i < params.len() ==> (#[trigger] params[i])@ != name,
    ensures
        argument_of(args, params, name, colon_call, colon_define) is None,
{
    first_parameter_of_the_name_counts(params, name, 0, params.len() as int);
}

/// A function that casts a parameter narrows the reference where the reference is the argument that
/// the parameter gets.
pub proof fn cast_of_a_parameter_narrows_its_argument(
    var_ref_id: VarRefId,
    call_expr: LuaCallExpr,
    signature_id: LuaSignatureId,
    name: Seq<char>,
    condition_flow: InferConditionFlow,
    signature: Option<Arc<LuaSignature>>,
    argument: Option<LuaExpr>,
    named: Option<VarRefId>,
    rp: Replay,
    known: Replay,
    asked: Replay,
)
    requires
        call_expr.args is Some,
        rp.told(Call::GetSignature { signature_id }, Reply::Signature(signature), known),
        signature matches Some(signature) ==> argument == argument_of(
            call_expr.args->0@,
            signature.params@,
            name,
            call_expr.is_colon_call,
            signature.is_colon_define,
        ),
        signature is None ==> argument is None,
        argument matches Some(argument) ==> known.told_with_cache(
            Call::GetVarExprVarRefId { expr: argument },
            Reply::VarRef(named),
            asked,
        ),
    ensures
        signature_param_action(var_ref_id, call_expr, signature_id, name, condition_flow, rp)
            == if argument is None {
            (ConditionFlowAction::Continue, known)
        } else if named == Some(var_ref_id) {
            (
                ConditionFlowAction::Pending(
                    PendingConditionNarrow::SignatureCast { signature_id, condition_flow },
                ),
                asked,
            )
        } else {
            (ConditionFlowAction::Continue, asked)
        },
{
    reveal(signature_param_action);
}

/// A call without arguments says nothing about a parameter.
pub proof fn call_without_arguments_says_nothing_of_a_parameter(
    var_ref_id: VarRefId,
    call_expr: LuaCallExpr,
    signature_id: LuaSignatureId,
    name: Seq<char>,
    condition_flow: InferConditionFlow,
    rp: Replay,
)
    requires
        call_expr.args is None,
    ensures
        signature_param_action(var_ref_id, call_expr, signature_id, name, condition_flow, rp) == (
            ConditionFlowAction::Continue,
            rp,
        ),
{
    reveal(signature_param_action);
}

/// Literals are equal by their values, whether they were written in code or in a comment, and
/// literals of different kinds are not equal.
pub proof fn literals_are_equal_by_their_values(
    text: Arc<String>,
    other_text: Arc<String>,
    truth: bool,
    other_truth: bool,
    number: i64,
    other_number: i64,
)
    ensures
        literal_equal(LuaType::StringConst(text), LuaType::StringConst(other_text)) == (text@
            == other_text@),
        literal_equal(LuaType::StringConst(text), LuaType::DocStringConst(other_text)) == (text@
            == other_text@),
        literal_equal(LuaType::DocStringConst(text), LuaType::StringConst(other_text)) == (text@
            == other_text@),
        literal_equal(LuaType::DocStringConst(text), LuaType::DocStringConst(other_text)) == (text@
            == other_text@),
        literal_equal(LuaType::BooleanConst(truth), LuaType::BooleanConst(other_truth)) == (truth
            == other_truth),
        literal_equal(LuaType::BooleanConst(truth), LuaType::DocBooleanConst(other_truth)) == (truth
            == other_truth),
        literal_equal(LuaType::DocBooleanConst(truth), LuaType::BooleanConst(other_truth)) == (truth
            == other_truth),
        literal_equal(LuaType::DocBooleanConst(truth), LuaType::DocBooleanConst(other_truth)) == (
        truth == other_truth),
        literal_equal(LuaType::IntegerConst(number), LuaType::IntegerConst(other_number)) == (number
            == other_number),
        literal_equal(LuaType::IntegerConst(number), LuaType::DocIntegerConst(other_number)) == (
        number == other_number),
        literal_equal(LuaType::DocIntegerConst(number), LuaType::IntegerConst(other_number)) == (
        number == other_number),
        literal_equal(LuaType::DocIntegerConst(number), LuaType::DocIntegerConst(other_number)) == (
        number == other_number),
        !literal_equal(LuaType::StringConst(text), LuaType::BooleanConst(truth)),
        !literal_equal(LuaType::StringConst(text), LuaType::IntegerConst(number)),
        !literal_equal(LuaType::IntegerConst(number), LuaType::BooleanConst(truth)),
{
}

/// Whether the type is a literal that comparisons look into.
pub open spec fn is_compared_by_value(typ: LuaType) -> bool {
    ||| typ is StringConst
    ||| typ is DocStringConst
    ||| typ is BooleanConst
    ||| typ is DocBooleanConst
    ||| typ is IntegerConst
    ||| typ is DocIntegerConst
}

/// A union equals a literal where all of its members do, and other types where they are the same.
pub proof fn other_types_are_equal_where_they_are_the_same(left: LuaType, right: LuaType)
    ensures
        left matches LuaType::Union(types) ==> literal_equal(left, right) == (forall|i: int|
            0 <= i < types@.len() ==> literal_equal(#[trigger] types@[i], right)),
        !(left is Union) ==> (right matches LuaType::Union(types) ==> literal_equal(left, right)
            == (forall|i: int|
            0 <= i < types@.len() ==> literal_equal(left, #[trigger] types@[i]))),
        !(left is Union) && !(right is Union) && !(is_compared_by_value(left)
            && is_compared_by_value(right)) ==> literal_equal(left, right) == same_type(
            left,
            right,
        ),
{
}

/// The types are asked for their member one after the other, and the last one whose member is the
/// literal counts.
pub proof fn last_type_with_the_literal_counts(
    types: Seq<LuaType>,
    last: LuaType,
    idx: LuaIndexMemberExpr,
    right_expr_type: LuaType,
    member_type: Result<LuaType, InferFailReason>,
    rp: Replay,
    inferred: Replay,
)
    requires
        last_literal_member(types, 0, idx, right_expr_type, None, rp).1.told_with_cache(
            Call::InferMemberByMemberKey { prefix_type: last, idx },
            Reply::Infer(member_type),
            inferred,
        ),
    ensures
        last_literal_member(types.push(last), 0, idx, right_expr_type, None, rp) == (
            if member_type is Ok && literal_equal(member_type->Ok_0, right_expr_type) {
                Some(types.len() as int)
            } else {
                last_literal_member(types, 0, idx, right_expr_type, None, rp).0
            },
            inferred,
        ),
        last_literal_member(Seq::empty(), 0, idx, right_expr_type, None, rp) == (None::<int>, rp),
{
    lemma_literal_push(types, last, 0, idx, right_expr_type, None, rp);
    reveal_with_fuel(last_literal_member, 2);
    assert(types.push(last)[types.len() as int] == last);
}

proof fn lemma_literal_push(
    types: Seq<LuaType>,
    last: LuaType,
    from: int,
    idx: LuaIndexMemberExpr,
    right_expr_type: LuaType,
    found: Option<int>,
    rp: Replay,
)
    requires
        0 <= from <= types.len(),
    ensures
        last_literal_member(types.push(last), from, idx, right_expr_type, found, rp) == ({
            let (found, next) = last_literal_member(types, from, idx, right_expr_type, found, rp);
            last_literal_member(
                types.push(last),
                types.len() as int,
                idx,
                right_expr_type,
                found,
                next,
            )
        }),
    decreases types.len() - from,
{
    if from < types.len() {
        assert(types.push(last)[from] == types[from]);
        let (member_type, next) = rp.infer_member_by_member_key(types[from], idx);
        let found = match member_type {
            Ok(member_type) => if literal_equal(member_type, right_expr_type) {
                Some(from)
            } else {
                found
            },
            Err(_) => found,
        };
        lemma_literal_push(types, last, from + 1, idx, right_expr_type, found, next);
    }
}

/// A comparison of a field with a literal that came out true leaves the member that has the
/// literal, one that came out false leaves the others; of other types than unions, and of unions
/// without such a member, it says nothing.
pub proof fn literal_field_picks_its_member(
    tree: FlowTree,
    root: LuaChunk,
    var_ref_id: VarRefId,
    flow_node: FlowNode,
    subject: VarRefId,
    antecedent_flow_id: FlowId,
    condition_flow: InferConditionFlow,
    idx: LuaIndexMemberExpr,
    right_expr_type: LuaType,
    antecedent_type: LuaType,
    found: Option<int>,
    rest: LuaType,
    rp: Replay,
    looked: Replay,
    made: Replay,
)
    requires
        antecedent_type matches LuaType::Union(types) ==> last_literal_member(
            types@,
            0,
            idx,
            right_expr_type,
            None,
            rp,
        ) == (found, looked),
        antecedent_type is Union && found is Some && condition_flow is FalseCondition
            ==> looked.told(
            Call::TypeFromVec { types: antecedent_type->Union_0@.remove(found->0) },
            Reply::Type(rest),
            made,
        ),
    ensures
        subquery_action(
            tree,
            root,
            var_ref_id,
            flow_node,
            (ConditionSubquery::FieldLiteralEq {
                var_ref_id: subject,
                antecedent_flow_id,
                subquery_condition_flow: condition_flow,
                idx,
                right_expr_type,
            }),
            antecedent_type,
            rp,
        ) == if !(antecedent_type is Union) {
            (Ok::<_, InferFailReason>(ConditionFlowAction::Continue), rp)
        } else if found is None {
            (Ok(ConditionFlowAction::Continue), looked)
        } else if condition_flow is TrueCondition {
            (Ok(ConditionFlowAction::Result(antecedent_type->Union_0@[found->0])), looked)
        } else {
            (Ok(ConditionFlowAction::Result(rest)), made)
        },
{
}

/// A comparison of the length of an array with a number that came out true gives the array that
/// length, shifted by what the comparison leaves open; any other says nothing.
pub proof fn compared_length_is_the_length(
    tree: FlowTree,
    root: LuaChunk,
    var_ref_id: VarRefId,
    flow_node: FlowNode,
    subject: VarRefId,
    antecedent_flow_id: FlowId,
    condition_flow: InferConditionFlow,
    right_expr_type: LuaType,
    max_adjustment: i64,
    antecedent_type: LuaType,
    rp: Replay,
)
    ensures
        ({
            let action = subquery_action(
                tree,
                root,
                var_ref_id,
                flow_node,
                ConditionSubquery::ArrayLen {
                    var_ref_id: subject,
                    antecedent_flow_id,
                    subquery_condition_flow: condition_flow,
                    right_expr_type,
                    max_adjustment,
                },
                antecedent_type,
                rp,
            );
            match (antecedent_type, right_expr_type, condition_flow) {
                (
                    LuaType::Array(array),
                    LuaType::IntegerConst(number),
                    InferConditionFlow::TrueCondition,
                ) => is_array_of_length(action, array.base, number + max_adjustment, rp),
                (
                    LuaType::Array(array),
                    LuaType::DocIntegerConst(number),
                    InferConditionFlow::TrueCondition,
                ) => is_array_of_length(action, array.base, number + max_adjustment, rp),
                _ => action == (Ok::<_, InferFailReason>(ConditionFlowAction::Continue), rp),
            }
        }),
{
}

/// Whether an action gives an array type with the base and the length.
pub open spec fn is_array_of_length(
    action: (Result<ConditionFlowAction, InferFailReason>, Replay),
    base: LuaType,
    len: int,
    rp: Replay,
) -> bool {
    &&& action.1 == rp
    &&& action.0 matches Ok(ConditionFlowAction::Result(LuaType::Array(array)))
    &&& array.base == base
    &&& i64::MIN <= len <= i64::MAX ==> array.len == LuaArrayLen::Max(len as i64)
}

/// The type of a variable that a correlated condition tests is narrowed as the condition alone
/// would narrow it.
pub proof fn tested_variable_is_narrowed_as_by_itself(
    typ: LuaType,
    narrow: LuaType,
    right_expr_type: LuaType,
    allow_literal_equivalence: bool,
    condition_flow: InferConditionFlow,
    narrowed: LuaType,
    rp: Replay,
    done: Replay,
)
    requires
        rp.told(
            Call::NarrowEqCondition {
                typ,
                right_expr_type,
                condition_flow,
                allow_literal_equivalence,
            },
            Reply::Type(narrowed),
            done,
        ),
    ensures
        narrowed_discriminant(
            typ,
            CorrelatedDiscriminantNarrow::Eq { right_expr_type, allow_literal_equivalence },
            condition_flow,
            rp,
        ) == (narrowed, done),
{
    reveal(narrowed_discriminant);
}

/// So is one that is tested for its truth, or by a guard.
pub proof fn tested_truth_and_guards_narrow_as_by_themselves(
    typ: LuaType,
    narrow: LuaType,
    condition_flow: InferConditionFlow,
    rp: Replay,
)
    ensures
        narrowed_discriminant(typ, CorrelatedDiscriminantNarrow::Truthiness, condition_flow, rp)
            == PendingConditionNarrow::Truthiness(condition_flow).applied(typ, rp),
        narrowed_discriminant(
            typ,
            CorrelatedDiscriminantNarrow::TypeGuard { narrow },
            condition_flow,
            rp,
        ) == (PendingConditionNarrow::TypeGuard { narrow, condition_flow }).applied(typ, rp),
{
    reveal(narrowed_discriminant);
}

/// A correlated condition hands the narrowed type of the tested variable to the model.  Where the
/// model has nothing to say, the expression that the variable is bound to says what it can.
pub proof fn correlated_condition_asks_for_the_rows_that_are_left(
    tree: FlowTree,
    root: LuaChunk,
    var_ref_id: VarRefId,
    flow_node: FlowNode,
    subject: VarRefId,
    antecedent_flow_id: FlowId,
    condition_flow: InferConditionFlow,
    discriminant_decl_id: LuaDeclId,
    condition_position: u32,
    narrow: CorrelatedDiscriminantNarrow,
    fallback_expr: Option<LuaExpr>,
    antecedent_type: LuaType,
    discriminant_type: LuaType,
    action: Result<ConditionFlowAction, InferFailReason>,
    rp: Replay,
    narrowed: Replay,
    asked: Replay,
)
    requires
        narrowed_discriminant(antecedent_type, narrow, condition_flow, rp) == (
            discriminant_type,
            narrowed,
        ),
        narrowed.told_with_cache(
            Call::PrepareVarFromReturnOverloadCondition {
                tree,
                root,
                var_ref_id,
                discriminant_decl_id,
                condition_position,
                antecedent_flow_id,
                discriminant_type,
            },
            Reply::Action(action),
            asked,
        ),
    ensures
        subquery_action(
            tree,
            root,
            var_ref_id,
            flow_node,
            (ConditionSubquery::Correlated {
                var_ref_id: subject,
                antecedent_flow_id,
                subquery_condition_flow: condition_flow,
                discriminant_decl_id,
                condition_position,
                narrow,
                fallback_expr,
            }),
            antecedent_type,
            rp,
        ) == if action == Ok::<_, InferFailReason>(ConditionFlowAction::Continue) && fallback_expr
            is Some {
            condition_action(
                tree,
                root,
                var_ref_id,
                flow_node,
                fallback_expr->0,
                condition_flow,
                asked,
            )
        } else {
            (action, asked)
        },
{
}

/// A name that stands for an expression is cut off where no steps are left.
pub proof fn bound_name_without_steps_is_cut_off(
    tree: FlowTree,
    root: LuaChunk,
    var_ref_id: VarRefId,
    flow_node: FlowNode,
    name_expr: Arc<LuaNameExpr>,
    condition_flow: InferConditionFlow,
    named: VarRefId,
    decl_id: LuaDeclId,
    expr: LuaExpr,
    rp: Replay,
    asked: Replay,
    declared: Replay,
)
    requires
        is_declared_elsewhere(var_ref_id, name_expr, named, Some(decl_id), rp, asked, declared),
        !come_from_one_call(tree, var_ref_id, decl_id),
        bound_to(tree, root, decl_id) == Some(expr),
        rp.steps == 0,
    ensures
        condition_action(
            tree,
            root,
            var_ref_id,
            flow_node,
            LuaExpr::NameExpr(name_expr),
            condition_flow,
            rp,
        ) == (Err::<ConditionFlowAction, _>(InferFailReason::LimitReached), declared),
{
}

} // verus!
