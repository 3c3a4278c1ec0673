//! What casts and narrowings make of a type.

use std::sync::Arc;

use vstd::prelude::*;

use crate::cast_flow::{cast, cast_all, inline_cast};
use crate::condition_flow::{
    truthy_members, CorrelatedConditionNarrowing, InferConditionFlow, PendingConditionNarrow,
};
use crate::db::{Call, Replay, Reply};
use crate::flow_tree::{FlowNode, FlowNodeKind, FlowTree};
use crate::ids::{FileId, FlowId, LuaSignatureId, LuaSyntaxId, LuaTypeOwner};
use crate::infer::{InferFailReason, LuaSignatureCast, LuaTypeCache, TypeOps};
use crate::syntax::{find_node, BinaryOperator, LuaChunk, LuaDocOpType, LuaIndexMemberExpr};
use crate::types::LuaType;

verus! {

/// Of several nodes with one id the first is found.
pub proof fn first_node_with_the_id_is_found<T>(
    nodes: Seq<(LuaSyntaxId, T)>,
    id: LuaSyntaxId,
    k: int,
)
    requires
        0 <= k < nodes.len(),
        nodes[k].0 == id,
        forall|i: int| 0 <= i < k ==> (#[trigger] nodes[i]).0 != id,
    ensures
        find_node(nodes, id) == Some(nodes[k].1),
    decreases k,
{
    if k > 0 {
        let rest = nodes.drop_first();
        assert forall|i: int| 0 <= i < k - 1 implies (#[trigger] rest[i]).0 != id by {
            assert(rest[i] == nodes[i + 1]);
        }
        assert(nodes[0].0 != id);
        first_node_with_the_id_is_found(rest, id, k - 1);
    }
}

/// Where no node has the id, none is found.
pub proof fn no_node_without_the_id_is_found<T>(nodes: Seq<(LuaSyntaxId, T)>, id: LuaSyntaxId)
    requires
        forall|i: int| 0 <= i < nodes.len() ==> (#[trigger] nodes[i]).0 != id,
    ensures
        find_node(nodes, id) is None,
    decreases nodes.len(),
{
    if nodes.len() > 0 {
        let rest = nodes.drop_first();
        assert forall|i: int| 0 <= i < rest.len() implies (#[trigger] rest[i]).0 != id by {
            assert(rest[i] == nodes[i + 1]);
        }
        assert(nodes[0].0 != id);
        no_node_without_the_id_is_found(rest, id);
    }
}

/// The type that a type cache holds, whether it was written or inferred.
pub open spec fn held_type(type_cache: LuaTypeCache) -> LuaType {
    match type_cache {
        LuaTypeCache::DocType(typ) => typ,
        LuaTypeCache::InferType(typ) => typ,
    }
}

/// A cast without an operator makes the type what it says.
pub proof fn cast_without_an_operator_forces_its_type(
    file_id: FileId,
    op_type: LuaDocOpType,
    syntax_id: LuaSyntaxId,
    held: LuaTypeCache,
    source: LuaType,
    rp: Replay,
    asked: Replay,
)
    requires
        op_type.op is None,
        !op_type.is_nullable,
        op_type.doc_type == Some(syntax_id),
        rp.told(
            Call::GetTypeCache { owner: LuaTypeOwner::SyntaxId { file_id, syntax_id } },
            Reply::TypeCache(Some(held)),
            asked,
        ),
    ensures
        cast(file_id, op_type, source, InferConditionFlow::TrueCondition, rp) == (
            held_type(held),
            asked,
        ),
{
}

/// The type operation of a cast, where it has one: `+` adds and every other operator removes, and a
/// cast that is undone does the opposite; a forced type is undone by removing it.
pub open spec fn cast_op(
    op: Option<BinaryOperator>,
    condition_flow: InferConditionFlow,
) -> Option<TypeOps> {
    match (op, condition_flow) {
        (None, InferConditionFlow::TrueCondition) => None,
        (Some(BinaryOperator::OpAdd), InferConditionFlow::TrueCondition) => Some(TypeOps::Union),
        (Some(_), InferConditionFlow::TrueCondition) => Some(TypeOps::Remove),
        (None, InferConditionFlow::FalseCondition) => Some(TypeOps::Remove),
        (Some(BinaryOperator::OpAdd), InferConditionFlow::FalseCondition) => Some(TypeOps::Remove),
        (Some(_), InferConditionFlow::FalseCondition) => Some(TypeOps::Union),
    }
}

/// A cast with an operator, and a cast that is undone, adds the type that it says or removes it.
pub proof fn cast_adds_or_removes_its_type(
    file_id: FileId,
    op_type: LuaDocOpType,
    syntax_id: LuaSyntaxId,
    held: LuaTypeCache,
    op: TypeOps,
    source: LuaType,
    condition_flow: InferConditionFlow,
    typ: LuaType,
    rp: Replay,
    asked: Replay,
    done: Replay,
)
    requires
        !op_type.is_nullable,
        op_type.doc_type == Some(syntax_id),
        rp.told(
            Call::GetTypeCache { owner: LuaTypeOwner::SyntaxId { file_id, syntax_id } },
            Reply::TypeCache(Some(held)),
            asked,
        ),
        cast_op(op_type.op, condition_flow) == Some(op),
        asked.told(
            Call::ApplyTypeOp { op, left: source, right: held_type(held) },
            Reply::Type(typ),
            done,
        ),
    ensures
        cast(file_id, op_type, source, condition_flow, rp) == (typ, done),
{
}

/// A cast with `?` adds `nil` or removes it; without an operator it does nothing.
pub proof fn nullable_cast_adds_or_removes_nil(
    file_id: FileId,
    op_type: LuaDocOpType,
    source: LuaType,
    condition_flow: InferConditionFlow,
    typ: LuaType,
    rp: Replay,
    done: Replay,
)
    requires
        op_type.is_nullable,
        cast_op(op_type.op, condition_flow) matches Some(op) ==> rp.told(
            Call::ApplyTypeOp { op, left: source, right: LuaType::Nil },
            Reply::Type(typ),
            done,
        ),
    ensures
        cast(file_id, op_type, source, condition_flow, rp) == if cast_op(
            op_type.op,
            condition_flow,
        ) is Some {
            (typ, done)
        } else {
            (source, rp)
        },
{
}

/// A cast to a type that is not known, or that is not written, changes nothing.
pub proof fn cast_to_no_type_changes_nothing(
    file_id: FileId,
    op_type: LuaDocOpType,
    source: LuaType,
    condition_flow: InferConditionFlow,
    rp: Replay,
    asked: Replay,
)
    requires
        !op_type.is_nullable,
        op_type.doc_type matches Some(syntax_id) ==> rp.told(
            Call::GetTypeCache { owner: LuaTypeOwner::SyntaxId { file_id, syntax_id } },
            Reply::TypeCache(None),
            asked,
        ),
    ensures
        cast(file_id, op_type, source, condition_flow, rp) == (
            source,
            if op_type.doc_type is Some {
                asked
            } else {
                rp
            },
        ),
{
}

/// Several casts are applied first to last, each to what the ones before it made of the type.
pub proof fn casts_apply_first_to_last(
    file_id: FileId,
    op_types: Seq<LuaDocOpType>,
    last: LuaDocOpType,
    source: LuaType,
    rp: Replay,
)
    ensures
        cast_all(file_id, Seq::empty(), source, rp) == (source, rp),
        cast_all(file_id, op_types.push(last), source, rp) == ({
            let (typ, next) = cast_all(file_id, op_types, source, rp);
            cast(file_id, last, typ, InferConditionFlow::TrueCondition, next)
        }),
    decreases op_types.len(),
{
    reveal_with_fuel(cast_all, 2);
    let all = op_types.push(last);
    if op_types.len() > 0 {
        let (typ, next) = cast(
            file_id,
            op_types[0],
            source,
            InferConditionFlow::TrueCondition,
            rp,
        );
        assert(all[0] == op_types[0]);
        assert(all.drop_first() =~= op_types.drop_first().push(last));
        casts_apply_first_to_last(file_id, op_types.drop_first(), last, typ, next);
    } else {
        assert(all[0] == last);
        assert(all.drop_first() =~= Seq::empty());
    }
}

/// An inline cast applies the casts of the tag that the node stands for to the return type.
pub proof fn inline_cast_applies_its_tag(
    file_id: FileId,
    tree: FlowTree,
    root: LuaChunk,
    flow_id: FlowId,
    node: FlowNode,
    tag_cast_id: LuaSyntaxId,
    return_type: LuaType,
    rp: Replay,
)
    requires
        tree.node(flow_id) == Some(node),
        node.kind == FlowNodeKind::TagCast(tag_cast_id),
    ensures
        match find_node(root.tag_casts@, tag_cast_id) {
            Some(tag_cast) => {
                let (typ, next) = cast_all(file_id, tag_cast.op_types@, return_type, rp);
                inline_cast(file_id, tree, Some(root), flow_id, return_type, rp) == (
                    Some(typ),
                    next,
                )
            },
            None => inline_cast(file_id, tree, Some(root), flow_id, return_type, rp) == (
                None::<LuaType>,
                rp,
            ),
        },
{
}

/// Where there is no file, no node or no cast at the node, there is no inline cast.
pub proof fn no_inline_cast_without_a_tag(
    file_id: FileId,
    tree: FlowTree,
    root: Option<LuaChunk>,
    flow_id: FlowId,
    return_type: LuaType,
    rp: Replay,
)
    requires
        root is None || tree.node(flow_id) is None || !(tree.node(flow_id)->0.kind is TagCast),
    ensures
        inline_cast(file_id, tree, root, flow_id, return_type, rp) == (None::<LuaType>, rp),
{
}

/// The truth of a reference keeps what is neither `false` nor `nil`, and its falsehood keeps what
/// is.
pub proof fn truth_removes_what_is_false(
    condition_flow: InferConditionFlow,
    typ: LuaType,
    narrowed: LuaType,
    rp: Replay,
    done: Replay,
)
    requires
        rp.told(
            match condition_flow {
                InferConditionFlow::TrueCondition => Call::RemoveFalseOrNil { typ },
                InferConditionFlow::FalseCondition => Call::NarrowFalseOrNil { typ },
            },
            Reply::Type(narrowed),
            done,
        ),
    ensures
        PendingConditionNarrow::Truthiness(condition_flow).applied(typ, rp) == (narrowed, done),
{
}

/// The types are asked about their member one after the other, and those stay, in their order,
/// whose member is there and can be something true.
pub proof fn members_with_a_true_field_are_kept(
    types: Seq<LuaType>,
    last: LuaType,
    idx: LuaIndexMemberExpr,
    member_type: Result<LuaType, InferFailReason>,
    falsy: bool,
    rp: Replay,
    inferred: Replay,
    asked: Replay,
)
    requires
        truthy_members(types, idx, Seq::empty(), rp).1.told_with_cache(
            Call::InferMemberByMemberKey { prefix_type: last, idx },
            Reply::Infer(member_type),
            inferred,
        ),
        member_type matches Ok(member_type) ==> inferred.told(
            Call::IsAlwaysFalsy { typ: member_type },
            Reply::Truth(falsy),
            asked,
        ),
    ensures
        truthy_members(types.push(last), idx, Seq::empty(), rp) == ({
            let kept = truthy_members(types, idx, Seq::empty(), rp).0;
            match member_type {
                Ok(_) => (
                    if falsy {
                        kept
                    } else {
                        kept.push(last)
                    },
                    asked,
                ),
                Err(_) => (kept, inferred),
            }
        }),
{
    lemma_truthy_push(types, last, idx, Seq::empty(), rp);
    let (kept, next) = truthy_members(types, idx, Seq::empty(), rp);
    lemma_truthy_single(last, idx, kept, next);
}

/// Of no types none is kept, and nothing is asked.
pub proof fn of_no_types_none_is_kept(idx: LuaIndexMemberExpr, rp: Replay)
    ensures
        truthy_members(Seq::empty(), idx, Seq::empty(), rp) == (Seq::<LuaType>::empty(), rp),
{
}

proof fn lemma_truthy_push(
    types: Seq<LuaType>,
    last: LuaType,
    idx: LuaIndexMemberExpr,
    acc: Seq<LuaType>,
    rp: Replay,
)
    ensures
        truthy_members(types.push(last), idx, acc, rp) == ({
            let (kept, next) = truthy_members(types, idx, acc, rp);
            truthy_members(seq![last], idx, kept, next)
        }),
    decreases types.len(),
{
    reveal_with_fuel(truthy_members, 2);
    assert(seq![last].drop_first() =~= Seq::empty());
    let all = types.push(last);
    if types.len() > 0 {
        assert(all[0] == types[0]);
        assert(all.drop_first() =~= types.drop_first().push(last));
        let (member_type, next) = rp.infer_member_by_member_key(types[0], idx);
        match member_type {
            Err(_) => {
                lemma_truthy_push(types.drop_first(), last, idx, acc, next);
            },
            Ok(member_type) => {
                let (falsy, next) = next.is_always_falsy(member_type);
                lemma_truthy_push(
                    types.drop_first(),
                    last,
                    idx,
                    if falsy {
                        acc
                    } else {
                        acc.push(types[0])
                    },
                    next,
                );
            },
        }
    } else {
        assert(all =~= seq![last]);
    }
}

proof fn lemma_truthy_single(
    last: LuaType,
    idx: LuaIndexMemberExpr,
    acc: Seq<LuaType>,
    rp: Replay,
)
    ensures
        ({
            let (member_type, next) = rp.infer_member_by_member_key(last, idx);
            truthy_members(seq![last], idx, acc, rp) == match member_type {
                Err(_) => (acc, next),
                Ok(member_type) => {
                    let (falsy, next) = next.is_always_falsy(member_type);
                    (
                        if falsy {
                            acc
                        } else {
                            acc.push(last)
                        },
                        next,
                    )
                },
            }
        }),
{
    reveal_with_fuel(truthy_members, 2);
    assert(seq![last].drop_first() =~= Seq::empty());
}

/// The truth of a field keeps the members of a union whose field can be something true, and its
/// falsehood takes them away.  Where there are none, the union stays as it is.
pub proof fn field_truth_keeps_members_of_a_union(
    types: Arc<Vec<LuaType>>,
    idx: LuaIndexMemberExpr,
    condition_flow: InferConditionFlow,
    kept: Seq<LuaType>,
    target: LuaType,
    rest: LuaType,
    rp: Replay,
    looked: Replay,
    made: Replay,
    removed: Replay,
)
    requires
        truthy_members(types@, idx, Seq::empty(), rp) == (kept, looked),
        kept.len() > 0 ==> looked.told(
            Call::TypeFromVec { types: kept },
            Reply::Type(target),
            made,
        ),
        kept.len() > 0 && condition_flow is FalseCondition ==> made.told(
            Call::ApplyTypeOp {
                op: TypeOps::Remove,
                left: LuaType::Union(types),
                right: target,
            },
            Reply::Type(rest),
            removed,
        ),
    ensures
        (PendingConditionNarrow::FieldTruthy { idx, condition_flow }).applied(
            LuaType::Union(types),
            rp,
        ) == if kept.len() == 0 {
            (LuaType::Union(types), looked)
        } else if condition_flow is TrueCondition {
            (target, made)
        } else {
            (rest, removed)
        },
{
}

/// The truth of a field says nothing of a type that is no union.
pub proof fn field_truth_leaves_other_types(
    typ: LuaType,
    idx: LuaIndexMemberExpr,
    condition_flow: InferConditionFlow,
    rp: Replay,
)
    requires
        !(typ is Union),
    ensures
        (PendingConditionNarrow::FieldTruthy { idx, condition_flow }).applied(typ, rp) == (typ, rp),
{
}

/// The call of a function with a cast narrows by the cast: where it came out true by the cast that
/// is stated, where it came out false by the fallback, and where there is no fallback by undoing
/// the cast.
pub proof fn call_narrows_by_the_cast_of_its_signature(
    signature_id: LuaSignatureId,
    signature_cast: Arc<LuaSignatureCast>,
    root: Arc<LuaChunk>,
    op_type: LuaDocOpType,
    condition_flow: InferConditionFlow,
    typ: LuaType,
    rp: Replay,
    asked: Replay,
    read: Replay,
)
    requires
        rp.told(
            Call::GetSignatureCast { signature_id },
            Reply::SignatureCast(Some(signature_cast)),
            asked,
        ),
        asked.told(
            Call::GetSyntaxTree { file_id: signature_id.file_id },
            Reply::Chunk(Some(root)),
            read,
        ),
        find_node(
            root.op_types@,
            if condition_flow is FalseCondition && signature_cast.fallback_cast is Some {
                signature_cast.fallback_cast->0
            } else {
                signature_cast.cast
            },
        ) == Some(op_type),
    ensures
        (PendingConditionNarrow::SignatureCast { signature_id, condition_flow }).applied(typ, rp)
            == cast(
            signature_id.file_id,
            op_type,
            typ,
            if condition_flow is FalseCondition && signature_cast.fallback_cast is None {
                InferConditionFlow::FalseCondition
            } else {
                InferConditionFlow::TrueCondition
            },
            read,
        ),
{
}

/// Where the call of a function that casts its parameter to a type came out true, the reference has
/// that type.
pub proof fn true_call_gives_the_type_of_its_cast(
    signature_id: LuaSignatureId,
    signature_cast: Arc<LuaSignatureCast>,
    root: Arc<LuaChunk>,
    op_type: LuaDocOpType,
    syntax_id: LuaSyntaxId,
    held: LuaTypeCache,
    typ: LuaType,
    rp: Replay,
    asked: Replay,
    read: Replay,
    done: Replay,
)
    requires
        rp.told(
            Call::GetSignatureCast { signature_id },
            Reply::SignatureCast(Some(signature_cast)),
            asked,
        ),
        asked.told(
            Call::GetSyntaxTree { file_id: signature_id.file_id },
            Reply::Chunk(Some(root)),
            read,
        ),
        find_node(root.op_types@, signature_cast.cast) == Some(op_type),
        op_type.op is None,
        !op_type.is_nullable,
        op_type.doc_type == Some(syntax_id),
        read.told(
            Call::GetTypeCache {
                owner: LuaTypeOwner::SyntaxId { file_id: signature_id.file_id, syntax_id },
            },
            Reply::TypeCache(Some(held)),
            done,
        ),
    ensures
        (PendingConditionNarrow::SignatureCast {
            signature_id,
            condition_flow: InferConditionFlow::TrueCondition,
        }).applied(typ, rp) == (held_type(held), done),
{
}

/// Where a signature has no cast, or its file or its cast cannot be read, the call says nothing.
pub proof fn call_without_a_cast_narrows_nothing(
    signature_id: LuaSignatureId,
    signature_cast: Option<Arc<LuaSignatureCast>>,
    root: Option<Arc<LuaChunk>>,
    condition_flow: InferConditionFlow,
    typ: LuaType,
    rp: Replay,
    asked: Replay,
    read: Replay,
)
    requires
        rp.told(
            Call::GetSignatureCast { signature_id },
            Reply::SignatureCast(signature_cast),
            asked,
        ),
        signature_cast is Some ==> asked.told(
            Call::GetSyntaxTree { file_id: signature_id.file_id },
            Reply::Chunk(root),
            read,
        ),
        signature_cast is Some && root is Some ==> find_node(
            root->0.op_types@,
            if condition_flow is FalseCondition && signature_cast->0.fallback_cast is Some {
                signature_cast->0.fallback_cast->0
            } else {
                signature_cast->0.cast
            },
        ) is None,
    ensures
        (PendingConditionNarrow::SignatureCast { signature_id, condition_flow }).applied(typ, rp)
            == (
            typ,
            if signature_cast is Some {
                read
            } else {
                asked
            },
        ),
{
}

/// The call of a method of the reference itself is looked up on the type, and narrows as a call of
/// its signature does where the signature casts `self`; any other method says nothing.
pub proof fn own_method_narrows_as_its_signature_does(
    idx: LuaIndexMemberExpr,
    condition_flow: InferConditionFlow,
    member_type: Result<LuaType, InferFailReason>,
    signature_cast: Option<Arc<LuaSignatureCast>>,
    typ: LuaType,
    rp: Replay,
    inferred: Replay,
    asked: Replay,
)
    requires
        rp.told_with_cache(
            Call::InferMemberByMemberKey { prefix_type: typ, idx },
            Reply::Infer(member_type),
            inferred,
        ),
        member_type matches Ok(LuaType::Signature(signature_id)) ==> inferred.told(
            Call::GetSignatureCast { signature_id },
            Reply::SignatureCast(signature_cast),
            asked,
        ),
    ensures
        (PendingConditionNarrow::SameVarColonCall { idx, condition_flow }).applied(typ, rp)
            == match member_type {
            Ok(LuaType::Signature(signature_id)) => if signature_cast is Some
                && signature_cast->0.name@ == "self"@ {
                (PendingConditionNarrow::SignatureCast { signature_id, condition_flow }).applied(
                    typ,
                    inferred,
                )
            } else {
                (typ, asked)
            },
            _ => (typ, inferred),
        },
{
}

/// A comparison that came out true leaves what the type has in common with the value, unless that
/// is nothing; one that came out false takes the value away.
pub proof fn comparison_keeps_or_removes_the_value(
    right_expr_type: LuaType,
    condition_flow: InferConditionFlow,
    typ: LuaType,
    result: LuaType,
    rp: Replay,
    done: Replay,
)
    requires
        rp.told(
            Call::ApplyTypeOp {
                op: match condition_flow {
                    InferConditionFlow::TrueCondition => TypeOps::Intersect,
                    InferConditionFlow::FalseCondition => TypeOps::Remove,
                },
                left: typ,
                right: right_expr_type,
            },
            Reply::Type(result),
            done,
        ),
    ensures
        (PendingConditionNarrow::Eq { right_expr_type, condition_flow }).applied(typ, rp) == (
            if condition_flow is TrueCondition && result is Never {
                typ
            } else {
                result
            },
            done,
        ),
{
}

/// A guard that came out true narrows the type down to the guarded one, and gives the guarded type
/// itself where the type cannot be narrowed to it.
pub proof fn true_guard_narrows_down(
    narrow: LuaType,
    typ: LuaType,
    narrowed: Option<LuaType>,
    rp: Replay,
    done: Replay,
)
    requires
        rp.told(
            Call::NarrowDownType { source: typ, target: narrow, declared: None },
            Reply::OptType(narrowed),
            done,
        ),
    ensures
        (PendingConditionNarrow::TypeGuard {
            narrow,
            condition_flow: InferConditionFlow::TrueCondition,
        }).applied(typ, rp) == (
            match narrowed {
                Some(narrowed) => narrowed,
                None => narrow,
            },
            done,
        ),
{
}

/// A guard that came out false takes the guarded type away.
pub proof fn false_guard_removes_its_type(
    narrow: LuaType,
    typ: LuaType,
    rest: LuaType,
    rp: Replay,
    done: Replay,
)
    requires
        rp.told(
            Call::ApplyTypeOp { op: TypeOps::Remove, left: typ, right: narrow },
            Reply::Type(rest),
            done,
        ),
    ensures
        (PendingConditionNarrow::TypeGuard {
            narrow,
            condition_flow: InferConditionFlow::FalseCondition,
        }).applied(typ, rp) == (rest, done),
{
}

/// A correlated narrowing is the model's.
pub proof fn correlated_narrowing_is_looked_up(
    narrowing: CorrelatedConditionNarrowing,
    typ: LuaType,
    narrowed: LuaType,
    rp: Replay,
    done: Replay,
)
    requires
        rp.told(
            Call::ApplyCorrelatedNarrowing { narrowing, typ },
            Reply::Type(narrowed),
            done,
        ),
    ensures
        PendingConditionNarrow::Correlated(narrowing).applied(typ, rp) == (narrowed, done),
{
}

} // verus!
