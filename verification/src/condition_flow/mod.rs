//! What a condition says about a variable.

pub mod call_flow;
pub mod index_flow;

use std::sync::Arc;

use vstd::prelude::*;

use crate::cache::{CacheView, LuaInferCache};
use crate::cast_flow::{cast, cast_type};
use crate::condition_flow::call_flow::{call_action, get_type_at_call_expr, narrowed_by_truth};
use crate::condition_flow::index_flow::{get_type_at_index_expr, index_action};
use crate::db::{
    extends, lemma_extends_is_reflexive, lemma_extends_is_transitive, DbIndex, Log, Replay,
    SemanticModel,
};
use crate::flow_tree::{
    find_decl_expr, get_single_antecedent, single_antecedent, FlowNode, FlowTree,
};
use crate::ids::{FlowId, LuaDeclId, LuaSignatureId, LuaSyntaxId, VarRefId};
use crate::infer::{InferFailReason, LuaSignatureCast, TypeOps};
use crate::syntax::{find_node, LuaChunk, LuaExpr, LuaIndexMemberExpr, UnaryOperator};
use crate::types::{
    lemma_union_member_is_smaller, same_type, same_type_is_symmetric, LuaArrayLen, LuaArrayType,
    LuaType,
};

verus! {

broadcast use {lemma_extends_is_reflexive, lemma_extends_is_transitive};

/// Whether the condition came out true or false.
#[derive(Debug, Clone, Copy, PartialEq, Eq, Hash, Structural)]
pub enum InferConditionFlow {
    TrueCondition,
    FalseCondition,
}

/// A question about another variable that has to be answered before a condition can be used.
#[derive(Debug)]
pub enum ConditionSubquery {
    ArrayLen {
        var_ref_id: VarRefId,
        antecedent_flow_id: FlowId,
        /// The effective polarity, after rewrites like `not` and `~=`.
        subquery_condition_flow: InferConditionFlow,
        right_expr_type: LuaType,
        max_adjustment: i64,
    },
    FieldLiteralEq {
        var_ref_id: VarRefId,
        antecedent_flow_id: FlowId,
        subquery_condition_flow: InferConditionFlow,
        idx: LuaIndexMemberExpr,
        right_expr_type: LuaType,
    },
    Correlated {
        var_ref_id: VarRefId,
        antecedent_flow_id: FlowId,
        subquery_condition_flow: InferConditionFlow,
        discriminant_decl_id: LuaDeclId,
        condition_position: u32,
        narrow: CorrelatedDiscriminantNarrow,
        fallback_expr: Option<LuaExpr>,
    },
}

impl ConditionSubquery {
    /// The reference that the question is about.
    pub open spec fn var_ref_id(self) -> VarRefId {
        match self {
            ConditionSubquery::ArrayLen { var_ref_id, .. } => var_ref_id,
            ConditionSubquery::FieldLiteralEq { var_ref_id, .. } => var_ref_id,
            ConditionSubquery::Correlated { var_ref_id, .. } => var_ref_id,
        }
    }

    /// The node at which it is asked.
    pub open spec fn antecedent_flow_id(self) -> FlowId {
        match self {
            ConditionSubquery::ArrayLen { antecedent_flow_id, .. } => antecedent_flow_id,
            ConditionSubquery::FieldLiteralEq { antecedent_flow_id, .. } => antecedent_flow_id,
            ConditionSubquery::Correlated { antecedent_flow_id, .. } => antecedent_flow_id,
        }
    }

    pub fn get_question(&self) -> (question: (VarRefId, FlowId))
        ensures
            question == (self.var_ref_id(), self.antecedent_flow_id()),
    {
        match self {
            ConditionSubquery::ArrayLen { var_ref_id, antecedent_flow_id, .. } => {
                (*var_ref_id, *antecedent_flow_id)
            },
            ConditionSubquery::FieldLiteralEq { var_ref_id, antecedent_flow_id, .. } => {
                (*var_ref_id, *antecedent_flow_id)
            },
            ConditionSubquery::Correlated { var_ref_id, antecedent_flow_id, .. } => {
                (*var_ref_id, *antecedent_flow_id)
            },
        }
    }
}

/// How the variable that a correlated condition tests is narrowed.
#[derive(Debug)]
pub enum CorrelatedDiscriminantNarrow {
    Truthiness,
    TypeGuard { narrow: LuaType },
    Eq { right_expr_type: LuaType, allow_literal_equivalence: bool },
}

/// A narrowing by the rows of an overloaded return type; the semantic model knows it by number.
#[derive(Debug, Clone, Copy, PartialEq, Eq, Structural)]
pub struct CorrelatedConditionNarrowing {
    pub id: u64,
}

/// A correlated condition that is still being worked out; the semantic model knows it by number.
#[derive(Debug, Clone, Copy, PartialEq, Eq, Structural)]
pub struct PendingCorrelatedCondition {
    pub id: u64,
}

/// What a condition tells about the variable in question.
#[derive(Debug)]
pub enum ConditionFlowAction {
    /// Nothing.
    Continue,
    /// Its type.
    Result(LuaType),
    /// How to narrow the type that it had before.
    Pending(PendingConditionNarrow),
    /// That depends on the type of another variable.
    NeedSubquery(ConditionSubquery),
    NeedCorrelated(PendingCorrelatedCondition),
}

/// A narrowing that waits for the type it is to narrow.
#[derive(Debug)]
pub enum PendingConditionNarrow {
    Truthiness(InferConditionFlow),
    FieldTruthy { idx: LuaIndexMemberExpr, condition_flow: InferConditionFlow },
    SameVarColonCall { idx: LuaIndexMemberExpr, condition_flow: InferConditionFlow },
    SignatureCast { signature_id: LuaSignatureId, condition_flow: InferConditionFlow },
    Eq { right_expr_type: LuaType, condition_flow: InferConditionFlow },
    TypeGuard { narrow: LuaType, condition_flow: InferConditionFlow },
    Correlated(CorrelatedConditionNarrowing),
}

impl Clone for CorrelatedDiscriminantNarrow {
    fn clone(&self) -> (res: CorrelatedDiscriminantNarrow)
        ensures
            res == *self,
    {
        match self {
            CorrelatedDiscriminantNarrow::Truthiness => CorrelatedDiscriminantNarrow::Truthiness,
            CorrelatedDiscriminantNarrow::TypeGuard { narrow } => {
                CorrelatedDiscriminantNarrow::TypeGuard { narrow: narrow.clone() }
            },
            CorrelatedDiscriminantNarrow::Eq { right_expr_type, allow_literal_equivalence } => {
                CorrelatedDiscriminantNarrow::Eq {
                    right_expr_type: right_expr_type.clone(),
                    allow_literal_equivalence: *allow_literal_equivalence,
                }
            },
        }
    }
}

impl Clone for ConditionSubquery {
    fn clone(&self) -> (res: ConditionSubquery)
        ensures
            res == *self,
    {
        match self {
            ConditionSubquery::ArrayLen {
                var_ref_id,
                antecedent_flow_id,
                subquery_condition_flow,
                right_expr_type,
                max_adjustment,
            } => ConditionSubquery::ArrayLen {
                var_ref_id: *var_ref_id,
                antecedent_flow_id: *antecedent_flow_id,
                subquery_condition_flow: *subquery_condition_flow,
                right_expr_type: right_expr_type.clone(),
                max_adjustment: *max_adjustment,
            },
            ConditionSubquery::FieldLiteralEq {
                var_ref_id,
                antecedent_flow_id,
                subquery_condition_flow,
                idx,
                right_expr_type,
            } => ConditionSubquery::FieldLiteralEq {
                var_ref_id: *var_ref_id,
                antecedent_flow_id: *antecedent_flow_id,
                subquery_condition_flow: *subquery_condition_flow,
                idx: idx.clone(),
                right_expr_type: right_expr_type.clone(),
            },
            ConditionSubquery::Correlated {
                var_ref_id,
                antecedent_flow_id,
                subquery_condition_flow,
                discriminant_decl_id,
                condition_position,
                narrow,
                fallback_expr,
            } => ConditionSubquery::Correlated {
                var_ref_id: *var_ref_id,
                antecedent_flow_id: *antecedent_flow_id,
                subquery_condition_flow: *subquery_condition_flow,
                discriminant_decl_id: *discriminant_decl_id,
                condition_position: *condition_position,
                narrow: narrow.clone(),
                fallback_expr: match fallback_expr {
                    Some(expr) => Some(expr.clone()),
                    None => None,
                },
            },
        }
    }
}

impl Clone for ConditionFlowAction {
    fn clone(&self) -> (res: ConditionFlowAction)
        ensures
            res == *self,
    {
        match self {
            ConditionFlowAction::Continue => ConditionFlowAction::Continue,
            ConditionFlowAction::Result(typ) => ConditionFlowAction::Result(typ.clone()),
            ConditionFlowAction::Pending(narrow) => ConditionFlowAction::Pending(narrow.clone()),
            ConditionFlowAction::NeedSubquery(subquery) => ConditionFlowAction::NeedSubquery(
                subquery.clone(),
            ),
            ConditionFlowAction::NeedCorrelated(pending) => ConditionFlowAction::NeedCorrelated(
                *pending,
            ),
        }
    }
}

impl Clone for PendingConditionNarrow {
    fn clone(&self) -> (res: PendingConditionNarrow)
        ensures
            res == *self,
    {
        match self {
            PendingConditionNarrow::Truthiness(condition_flow) => {
                PendingConditionNarrow::Truthiness(*condition_flow)
            },
            PendingConditionNarrow::FieldTruthy { idx, condition_flow } => {
                PendingConditionNarrow::FieldTruthy {
                    idx: idx.clone(),
                    condition_flow: *condition_flow,
                }
            },
            PendingConditionNarrow::SameVarColonCall { idx, condition_flow } => {
                PendingConditionNarrow::SameVarColonCall {
                    idx: idx.clone(),
                    condition_flow: *condition_flow,
                }
            },
            PendingConditionNarrow::SignatureCast { signature_id, condition_flow } => {
                PendingConditionNarrow::SignatureCast {
                    signature_id: *signature_id,
                    condition_flow: *condition_flow,
                }
            },
            PendingConditionNarrow::Eq { right_expr_type, condition_flow } => {
                PendingConditionNarrow::Eq {
                    right_expr_type: right_expr_type.clone(),
                    condition_flow: *condition_flow,
                }
            },
            PendingConditionNarrow::TypeGuard { narrow, condition_flow } => {
                PendingConditionNarrow::TypeGuard {
                    narrow: narrow.clone(),
                    condition_flow: *condition_flow,
                }
            },
            PendingConditionNarrow::Correlated(narrowing) => PendingConditionNarrow::Correlated(
                *narrowing,
            ),
        }
    }
}

/// The other outcome.
pub open spec fn opposite_flow(condition_flow: InferConditionFlow) -> InferConditionFlow {
    match condition_flow {
        InferConditionFlow::TrueCondition => InferConditionFlow::FalseCondition,
        InferConditionFlow::FalseCondition => InferConditionFlow::TrueCondition,
    }
}

/// `acc`, and those of `types` whose member can be something true.
pub open spec fn truthy_members(
    types: Seq<LuaType>,
    idx: LuaIndexMemberExpr,
    acc: Seq<LuaType>,
    rp: Replay,
) -> (Seq<LuaType>, Replay)
    decreases types.len(),
{
    if types.len() == 0 {
        (acc, rp)
    } else {
        let (member_type, rp) = rp.infer_member_by_member_key(types[0], idx);
        match member_type {
            Err(_) => truthy_members(types.drop_first(), idx, acc, rp),
            Ok(member_type) => {
                let (falsy, rp) = rp.is_always_falsy(member_type);
                truthy_members(
                    types.drop_first(),
                    idx,
                    if falsy {
                        acc
                    } else {
                        acc.push(types[0])
                    },
                    rp,
                )
            },
        }
    }
}

/// A type, narrowed by the truth of one of its fields.
pub open spec fn narrowed_by_field(
    typ: LuaType,
    idx: LuaIndexMemberExpr,
    condition_flow: InferConditionFlow,
    rp: Replay,
) -> (LuaType, Replay) {
    match typ {
        LuaType::Union(types) => {
            let (kept, rp) = truthy_members(types@, idx, Seq::empty(), rp);
            if kept.len() == 0 {
                (typ, rp)
            } else {
                let (target, rp) = rp.type_from_vec(kept);
                match condition_flow {
                    InferConditionFlow::TrueCondition => (target, rp),
                    InferConditionFlow::FalseCondition => rp.apply_type_op(
                        TypeOps::Remove,
                        typ,
                        target,
                    ),
                }
            }
        },
        _ => (typ, rp),
    }
}

/// Which cast a call implies, and under which polarity it is applied.
pub open spec fn implied_cast(
    signature_cast: LuaSignatureCast,
    condition_flow: InferConditionFlow,
) -> (LuaSyntaxId, InferConditionFlow) {
    match condition_flow {
        InferConditionFlow::TrueCondition => (signature_cast.cast, condition_flow),
        InferConditionFlow::FalseCondition => match signature_cast.fallback_cast {
            Some(fallback) => (fallback, InferConditionFlow::TrueCondition),
            None => (signature_cast.cast, condition_flow),
        },
    }
}

/// A type after the cast that the call of a function implies.
pub open spec fn signature_casted(
    typ: LuaType,
    signature_id: LuaSignatureId,
    signature_cast: LuaSignatureCast,
    condition_flow: InferConditionFlow,
    rp: Replay,
) -> (LuaType, Replay) {
    let (root, rp) = rp.get_syntax_tree(signature_id.file_id);
    match root {
        None => (typ, rp),
        Some(root) => {
            let (cast_id, cast_flow) = implied_cast(signature_cast, condition_flow);
            match find_node(root.op_types@, cast_id) {
                None => (typ, rp),
                Some(op_type) => cast(signature_id.file_id, op_type, typ, cast_flow, rp),
            }
        },
    }
}

/// A type, narrowed by the call of one of its own methods.
pub open spec fn narrowed_by_method(
    typ: LuaType,
    idx: LuaIndexMemberExpr,
    condition_flow: InferConditionFlow,
    rp: Replay,
) -> (LuaType, Replay) {
    let (member_type, rp) = rp.infer_member_by_member_key(typ, idx);
    match member_type {
        Ok(LuaType::Signature(signature_id)) => {
            let (signature_cast, rp) = rp.get_signature_cast(signature_id);
            match signature_cast {
                Some(signature_cast) => if signature_cast.name@ == "self"@ {
                    signature_casted(typ, signature_id, *signature_cast, condition_flow, rp)
                } else {
                    (typ, rp)
                },
                None => (typ, rp),
            }
        },
        _ => (typ, rp),
    }
}

/// A type, narrowed by a guard.
pub open spec fn narrowed_by_guard(
    typ: LuaType,
    narrow: LuaType,
    condition_flow: InferConditionFlow,
    rp: Replay,
) -> (LuaType, Replay) {
    match condition_flow {
        InferConditionFlow::TrueCondition => {
            let (narrowed, rp) = rp.narrow_down_type(typ, narrow, None);
            (
                match narrowed {
                    Some(narrowed) => narrowed,
                    None => narrow,
                },
                rp,
            )
        },
        InferConditionFlow::FalseCondition => rp.apply_type_op(TypeOps::Remove, typ, narrow),
    }
}

/// A type, narrowed by a comparison with a value.
pub open spec fn narrowed_by_equality(
    typ: LuaType,
    right_expr_type: LuaType,
    condition_flow: InferConditionFlow,
    rp: Replay,
) -> (LuaType, Replay) {
    match condition_flow {
        InferConditionFlow::TrueCondition => {
            let (common, rp) = rp.apply_type_op(TypeOps::Intersect, typ, right_expr_type);
            if common is Never {
                (typ, rp)
            } else {
                (common, rp)
            }
        },
        InferConditionFlow::FalseCondition => rp.apply_type_op(
            TypeOps::Remove,
            typ,
            right_expr_type,
        ),
    }
}

impl PendingConditionNarrow {
    /// What the narrowing makes of a type.
    pub open spec fn applied(self, typ: LuaType, rp: Replay) -> (LuaType, Replay) {
        match self {
            PendingConditionNarrow::Truthiness(condition_flow) => narrowed_by_truth(
                typ,
                condition_flow,
                rp,
            ),
            PendingConditionNarrow::FieldTruthy { idx, condition_flow } => narrowed_by_field(
                typ,
                idx,
                condition_flow,
                rp,
            ),
            PendingConditionNarrow::SameVarColonCall { idx, condition_flow } => narrowed_by_method(
                typ,
                idx,
                condition_flow,
                rp,
            ),
            PendingConditionNarrow::SignatureCast { signature_id, condition_flow } => {
                let (signature_cast, rp) = rp.get_signature_cast(signature_id);
                match signature_cast {
                    Some(signature_cast) => signature_casted(
                        typ,
                        signature_id,
                        *signature_cast,
                        condition_flow,
                        rp,
                    ),
                    None => (typ, rp),
                }
            },
            PendingConditionNarrow::Eq { right_expr_type, condition_flow } => narrowed_by_equality(
                typ,
                right_expr_type,
                condition_flow,
                rp,
            ),
            PendingConditionNarrow::TypeGuard { narrow, condition_flow } => narrowed_by_guard(
                typ,
                narrow,
                condition_flow,
                rp,
            ),
            PendingConditionNarrow::Correlated(narrowing) => rp.apply_correlated_narrowing(
                narrowing,
                typ,
            ),
        }
    }

    pub fn apply<M: SemanticModel>(
        &self,
        db: &mut DbIndex<M>,
        cache: &mut LuaInferCache,
        antecedent_type: LuaType,
    ) -> (res: LuaType)
        ensures
            final(db).steps() == old(db).steps(),
            extends(final(db).log(), old(db).log()),
            forall|full: Log| #[trigger]
                extends(full, final(db).log()) ==> self.applied(
                    antecedent_type,
                    old(db).replay(full, old(cache)@),
                ) == (res, final(db).replay(full, final(cache)@)),
    {
        match self {
            PendingConditionNarrow::Truthiness(condition_flow) => match condition_flow {
                InferConditionFlow::FalseCondition => db.narrow_false_or_nil(&antecedent_type),
                InferConditionFlow::TrueCondition => db.remove_false_or_nil(&antecedent_type),
            },
            PendingConditionNarrow::FieldTruthy { idx, condition_flow } => {
                let union_types = match &antecedent_type {
                    LuaType::Union(union_types) => union_types.clone(),
                    _ => return antecedent_type,
                };
                let mut result: Vec<LuaType> = Vec::new();
                let mut i: usize = 0;
                assert(union_types@.skip(0) =~= union_types@);
                while i < union_types.len()
                    invariant
                        i <= union_types@.len(),
                        db.steps() == old(db).steps(),
                        extends(db.log(), old(db).log()),
                        forall|full: Log| #[trigger]
                            extends(full, db.log()) ==> truthy_members(
                                union_types@,
                                *idx,
                                Seq::empty(),
                                old(db).replay(full, old(cache)@),
                            ) == truthy_members(
                                union_types@.skip(i as int),
                                *idx,
                                result@,
                                db.replay(full, cache@),
                            ),
                    decreases union_types@.len() - i,
                {
                    let sub_type = &union_types[i];
                    assert(union_types@.skip(i as int).drop_first() =~= union_types@.skip(i + 1));
                    i += 1;
                    let member_type = match db.infer_member_by_member_key(cache, sub_type, idx) {
                        Ok(member_type) => member_type,
                        Err(_) => continue ,
                    };
                    if !db.is_always_falsy(&member_type) {
                        result.push(sub_type.clone());
                    }
                }
                if result.len() == 0 {
                    antecedent_type
                } else {
                    match condition_flow {
                        InferConditionFlow::TrueCondition => db.type_from_vec(result),
                        InferConditionFlow::FalseCondition => {
                            let target = db.type_from_vec(result);
                            db.apply_type_op(TypeOps::Remove, &antecedent_type, &target)
                        },
                    }
                }
            },
            PendingConditionNarrow::SameVarColonCall { idx, condition_flow } => {
                let member_type = match db.infer_member_by_member_key(
                    cache,
                    &antecedent_type,
                    idx,
                ) {
                    Ok(member_type) => member_type,
                    Err(_) => return antecedent_type,
                };
                let signature_id = match member_type {
                    LuaType::Signature(signature_id) => signature_id,
                    _ => return antecedent_type,
                };
                let signature_cast = match db.get_signature_cast(signature_id) {
                    Some(signature_cast) => signature_cast,
                    None => return antecedent_type,
                };
                if signature_cast.name != "self".to_string() {
                    return antecedent_type;
                }
                apply_signature_cast(
                    db,
                    antecedent_type,
                    signature_id,
                    &*signature_cast,
                    *condition_flow,
                )
            },
            PendingConditionNarrow::SignatureCast { signature_id, condition_flow } => {
                let signature_cast = match db.get_signature_cast(*signature_id) {
                    Some(signature_cast) => signature_cast,
                    None => return antecedent_type,
                };
                apply_signature_cast(
                    db,
                    antecedent_type,
                    *signature_id,
                    &*signature_cast,
                    *condition_flow,
                )
            },
            PendingConditionNarrow::Eq { right_expr_type, condition_flow } => match condition_flow {
                InferConditionFlow::TrueCondition => {
                    let maybe_type = db.apply_type_op(
                        TypeOps::Intersect,
                        &antecedent_type,
                        right_expr_type,
                    );
                    if maybe_type.is_never() {
                        antecedent_type
                    } else {
                        maybe_type
                    }
                },
                InferConditionFlow::FalseCondition => db.apply_type_op(
                    TypeOps::Remove,
                    &antecedent_type,
                    right_expr_type,
                ),
            },
            PendingConditionNarrow::TypeGuard { narrow, condition_flow } => apply_type_guard(
                db,
                antecedent_type,
                narrow,
                *condition_flow,
            ),
            PendingConditionNarrow::Correlated(narrowing) => db.apply_correlated_narrowing(
                *narrowing,
                &antecedent_type,
            ),
        }
    }
}

fn apply_type_guard<M: SemanticModel>(
    db: &mut DbIndex<M>,
    antecedent_type: LuaType,
    narrow: &LuaType,
    condition_flow: InferConditionFlow,
) -> (res: LuaType)
    ensures
        final(db).steps() == old(db).steps(),
        extends(final(db).log(), old(db).log()),
        forall|full: Log, cache: CacheView| #[trigger]
            extends(full, final(db).log()) ==> narrowed_by_guard(
                antecedent_type,
                *narrow,
                condition_flow,
                #[trigger] old(db).replay(full, cache),
            ) == (res, final(db).replay(full, cache)),
{
    match condition_flow {
        InferConditionFlow::TrueCondition => match db.narrow_down_type(
            &antecedent_type,
            narrow,
            None,
        ) {
            Some(narrowed) => narrowed,
            None => narrow.clone(),
        },
        InferConditionFlow::FalseCondition => db.apply_type_op(
            TypeOps::Remove,
            &antecedent_type,
            narrow,
        ),
    }
}

pub fn apply_signature_cast<M: SemanticModel>(
    db: &mut DbIndex<M>,
    antecedent_type: LuaType,
    signature_id: LuaSignatureId,
    signature_cast: &LuaSignatureCast,
    condition_flow: InferConditionFlow,
) -> (res: LuaType)
    ensures
        final(db).steps() == old(db).steps(),
        extends(final(db).log(), old(db).log()),
        forall|full: Log, cache: CacheView| #[trigger]
            extends(full, final(db).log()) ==> signature_casted(
                antecedent_type,
                signature_id,
                *signature_cast,
                condition_flow,
                #[trigger] old(db).replay(full, cache),
            ) == (res, final(db).replay(full, cache)),
{
    let file_id = signature_id.file_id;
    let signature_root = match db.get_syntax_tree(file_id) {
        Some(signature_root) => signature_root,
        None => return antecedent_type,
    };
    let (cast_id, cast_flow) = match condition_flow {
        InferConditionFlow::TrueCondition => (signature_cast.cast, condition_flow),
        InferConditionFlow::FalseCondition => match signature_cast.fallback_cast {
            Some(fallback) => (fallback, InferConditionFlow::TrueCondition),
            None => (signature_cast.cast, condition_flow),
        },
    };
    let cast_op_type = match signature_root.find_op_type(cast_id) {
        Some(cast_op_type) => cast_op_type,
        None => return antecedent_type,
    };
    match cast_type(db, file_id, cast_op_type, antecedent_type.clone(), cast_flow) {
        Ok(typ) => typ,
        Err(_) => antecedent_type,
    }
}

/// What a name that is not the reference in question says about it: a name that is bound with it
/// to the values of one call asks for a look at the call, and a name that is bound to an
/// expression says what the expression says.
pub enum NameMeaning {
    Action(Result<ConditionFlowAction, InferFailReason>),
    Stands(LuaExpr),
}

pub open spec fn bound_name_meaning(
    tree: FlowTree,
    root: LuaChunk,
    var_ref_id: VarRefId,
    flow_node: FlowNode,
    decl_id: LuaDeclId,
    position: u32,
    condition_flow: InferConditionFlow,
) -> NameMeaning {
    let bound = match find_decl_expr(tree.decl_ref_exprs@, decl_id) {
        Some(id) => find_node(root.exprs@, id),
        None => None,
    };
    if var_ref_id.decl_id() matches Some(target) && tree.multi_return_decls@.contains(decl_id)
        && tree.multi_return_decls@.contains(target) {
        match single_antecedent(flow_node) {
            Err(e) => NameMeaning::Action(Err(e)),
            Ok(antecedent_flow_id) => NameMeaning::Action(
                Ok(
                    ConditionFlowAction::NeedSubquery(
                        ConditionSubquery::Correlated {
                            var_ref_id: VarRefId::VarRef(decl_id),
                            antecedent_flow_id,
                            subquery_condition_flow: condition_flow,
                            discriminant_decl_id: decl_id,
                            condition_position: position,
                            narrow: CorrelatedDiscriminantNarrow::Truthiness,
                            fallback_expr: bound,
                        },
                    ),
                ),
            ),
        }
    } else {
        match bound {
            Some(expr) => NameMeaning::Stands(expr),
            None => NameMeaning::Action(Ok(ConditionFlowAction::Continue)),
        }
    }
}

/// What a condition that came out true or false says about a reference.
pub open spec fn condition_action(
    tree: FlowTree,
    root: LuaChunk,
    var_ref_id: VarRefId,
    flow_node: FlowNode,
    condition: LuaExpr,
    condition_flow: InferConditionFlow,
    rp: Replay,
) -> (Result<ConditionFlowAction, InferFailReason>, Replay)
    decreases rp.steps, condition,
{
    match condition {
        LuaExpr::NameExpr(name_expr) => {
            let (named, rp) = rp.get_var_expr_var_ref_id(condition);
            match named {
                None => (Ok(ConditionFlowAction::Continue), rp),
                Some(named) => if named == var_ref_id {
                    (
                        Ok(
                            ConditionFlowAction::Pending(
                                PendingConditionNarrow::Truthiness(condition_flow),
                            ),
                        ),
                        rp,
                    )
                } else {
                    let range = name_expr.syntax_id.range;
                    let (decl_id, rp) = rp.get_var_reference_decl(rp.cache.file_id, range);
                    match decl_id {
                        None => (Ok(ConditionFlowAction::Continue), rp),
                        Some(decl_id) => match bound_name_meaning(
                            tree,
                            root,
                            var_ref_id,
                            flow_node,
                            decl_id,
                            range.start,
                            condition_flow,
                        ) {
                            NameMeaning::Action(action) => (action, rp),
                            NameMeaning::Stands(expr) => if rp.steps == 0 {
                                (Err(InferFailReason::LimitReached), rp)
                            } else {
                                condition_action(
                                    tree,
                                    root,
                                    var_ref_id,
                                    flow_node,
                                    expr,
                                    condition_flow,
                                    rp.ticked(),
                                )
                            },
                        },
                    }
                },
            }
        },
        LuaExpr::CallExpr(call_expr) => call_action(var_ref_id, call_expr, condition_flow, rp),
        LuaExpr::IndexExpr(index_expr) => {
            let (action, rp) = index_action(var_ref_id, index_expr, condition_flow, rp);
            (Ok(action), rp)
        },
        LuaExpr::TableExpr(_) => (Ok(ConditionFlowAction::Continue), rp),
        LuaExpr::LiteralExpr(_) => (Ok(ConditionFlowAction::Continue), rp),
        LuaExpr::ClosureExpr(_) => (Ok(ConditionFlowAction::Continue), rp),
        LuaExpr::BinaryExpr(binary_expr) => rp.get_type_at_binary_expr(
            tree,
            root,
            var_ref_id,
            flow_node.id,
            *binary_expr,
            condition_flow,
        ),
        LuaExpr::UnaryExpr(unary_expr) => match unary_expr.expr {
            Some(inner_expr) => if unary_expr.op == Some(UnaryOperator::OpNot) {
                condition_action(
                    tree,
                    root,
                    var_ref_id,
                    flow_node,
                    inner_expr,
                    opposite_flow(condition_flow),
                    rp,
                )
            } else {
                (Ok(ConditionFlowAction::Continue), rp)
            },
            None => (Ok(ConditionFlowAction::Continue), rp),
        },
        LuaExpr::ParenExpr(paren_expr) => match paren_expr.expr {
            Some(inner_expr) => condition_action(
                tree,
                root,
                var_ref_id,
                flow_node,
                inner_expr,
                condition_flow,
                rp,
            ),
            None => (Ok(ConditionFlowAction::Continue), rp),
        },
    }
}

pub fn get_type_at_condition_flow<M: SemanticModel>(
    db: &mut DbIndex<M>,
    tree: &FlowTree,
    cache: &mut LuaInferCache,
    root: &LuaChunk,
    var_ref_id: &VarRefId,
    flow_node: &FlowNode,
    condition: LuaExpr,
    condition_flow: InferConditionFlow,
) -> (res: Result<ConditionFlowAction, InferFailReason>)
    ensures
        final(db).steps() <= old(db).steps(),
        extends(final(db).log(), old(db).log()),
        forall|full: Log| #[trigger]
            extends(full, final(db).log()) ==> condition_action(
                *tree,
                *root,
                *var_ref_id,
                *flow_node,
                condition,
                condition_flow,
                old(db).replay(full, old(cache)@),
            ) == (res, final(db).replay(full, final(cache)@)),
{
    let mut current = condition;
    let mut current_flow = condition_flow;
    loop
        invariant
            db.steps() <= old(db).steps(),
            extends(db.log(), old(db).log()),
            forall|full: Log| #[trigger]
                extends(full, db.log()) ==> condition_action(
                    *tree,
                    *root,
                    *var_ref_id,
                    *flow_node,
                    condition,
                    condition_flow,
                    old(db).replay(full, old(cache)@),
                ) == condition_action(
                    *tree,
                    *root,
                    *var_ref_id,
                    *flow_node,
                    current,
                    current_flow,
                    db.replay(full, cache@),
                ),
        decreases db.steps(), current,
    {
        match &current {
            LuaExpr::NameExpr(name_expr) => {
                let name_var_ref_id = match db.get_var_expr_var_ref_id(cache, &current) {
                    Some(id) => id,
                    None => return Ok(ConditionFlowAction::Continue),
                };
                if name_var_ref_id == *var_ref_id {
                    return Ok(
                        ConditionFlowAction::Pending(
                            PendingConditionNarrow::Truthiness(current_flow),
                        ),
                    );
                }
                let file_id = cache.get_file_id();
                let range = name_expr.syntax_id.range;
                let decl_id = match db.get_var_reference_decl(file_id, range) {
                    Some(decl_id) => decl_id,
                    None => return Ok(ConditionFlowAction::Continue),
                };
                let bound_expr = match tree.get_decl_ref_expr(&decl_id) {
                    Some(expr_id) => root.find_expr(expr_id),
                    None => None,
                };
                if let Some(target_decl_id) = var_ref_id.get_decl_id_ref() {
                    if tree.has_decl_multi_return_refs(&decl_id)
                        && tree.has_decl_multi_return_refs(&target_decl_id) {
                        let antecedent_flow_id = match get_single_antecedent(flow_node) {
                            Ok(antecedent_flow_id) => antecedent_flow_id,
                            Err(e) => return Err(e),
                        };
                        return Ok(
                            ConditionFlowAction::NeedSubquery(
                                ConditionSubquery::Correlated {
                                    var_ref_id: VarRefId::VarRef(decl_id),
                                    antecedent_flow_id,
                                    subquery_condition_flow: current_flow,
                                    discriminant_decl_id: decl_id,
                                    condition_position: range.start,
                                    narrow: CorrelatedDiscriminantNarrow::Truthiness,
                                    fallback_expr: bound_expr,
                                },
                            ),
                        );
                    }
                }
                let expr = match bound_expr {
                    Some(expr) => expr,
                    None => return Ok(ConditionFlowAction::Continue),
                };
                if !db.tick() {
                    return Err(InferFailReason::LimitReached);
                }
                current = expr;
            },
            LuaExpr::CallExpr(call_expr) => {
                return get_type_at_call_expr(db, cache, var_ref_id, call_expr, current_flow);
            },
            LuaExpr::IndexExpr(index_expr) => {
                return get_type_at_index_expr(db, cache, var_ref_id, index_expr, current_flow);
            },
            LuaExpr::TableExpr(_) | LuaExpr::LiteralExpr(_) | LuaExpr::ClosureExpr(_) => {
                return Ok(ConditionFlowAction::Continue);
            },
            LuaExpr::BinaryExpr(binary_expr) => {
                return db.get_type_at_binary_expr(
                    cache,
                    tree,
                    root,
                    var_ref_id,
                    flow_node.id,
                    &**binary_expr,
                    current_flow,
                );
            },
            LuaExpr::UnaryExpr(unary_expr) => {
                let inner_expr = match &unary_expr.expr {
                    Some(inner_expr) => inner_expr.clone(),
                    None => return Ok(ConditionFlowAction::Continue),
                };
                let op = match unary_expr.op {
                    Some(op) => op,
                    None => return Ok(ConditionFlowAction::Continue),
                };
                if op != UnaryOperator::OpNot {
                    return Ok(ConditionFlowAction::Continue);
                }
                current = inner_expr;
                current_flow =
                match current_flow {
                    InferConditionFlow::TrueCondition => InferConditionFlow::FalseCondition,
                    InferConditionFlow::FalseCondition => InferConditionFlow::TrueCondition,
                };
            },
            LuaExpr::ParenExpr(paren_expr) => {
                let inner_expr = match &paren_expr.expr {
                    Some(inner_expr) => inner_expr.clone(),
                    None => return Ok(ConditionFlowAction::Continue),
                };
                current = inner_expr;
            },
        }
    }
}

/// The value of a literal that can be told for certain.
pub enum Literal {
    Text(Seq<char>),
    Truth(bool),
    Number(i64),
}

/// The one value that a type has, whether the literal was written in code or in a comment.
pub open spec fn literal_of(typ: LuaType) -> Option<Literal> {
    match typ {
        LuaType::StringConst(s) => Some(Literal::Text(s@)),
        LuaType::DocStringConst(s) => Some(Literal::Text(s@)),
        LuaType::BooleanConst(b) => Some(Literal::Truth(b)),
        LuaType::DocBooleanConst(b) => Some(Literal::Truth(b)),
        LuaType::IntegerConst(i) => Some(Literal::Number(i)),
        LuaType::DocIntegerConst(i) => Some(Literal::Number(i)),
        _ => None,
    }
}

/// Whether every value of one type is every value of the other: literals by their values, other
/// types where they are the same, and a union where it holds of every member.
pub open spec fn literal_equal(left: LuaType, right: LuaType) -> bool
    decreases left, right,
{
    match (left, right) {
        (LuaType::Union(types), _) => forall|i: int|
            0 <= i < types@.len() ==> literal_equal(#[trigger] types@[i], right),
        (_, LuaType::Union(types)) => forall|i: int|
            0 <= i < types@.len() ==> literal_equal(left, #[trigger] types@[i]),
        _ => match (literal_of(left), literal_of(right)) {
            (Some(l), Some(r)) => l == r,
            _ => same_type(left, right),
        },
    }
}

pub fn always_literal_equal(left: &LuaType, right: &LuaType) -> (res: bool)
    ensures
        res == literal_equal(*left, *right),
    decreases *left, *right,
{
    match (left, right) {
        (LuaType::Union(types), _) => {
            let mut i: usize = 0;
            while i < types.len()
                invariant
                    i <= types@.len(),
                    *left == LuaType::Union(*types),
                    forall|j: int| 0 <= j < i ==> literal_equal(#[trigger] types@[j], *right),
                decreases types@.len() - i,
            {
                let candidate: &LuaType = &types[i];
                proof {
                    lemma_union_member_is_smaller(*left, i as int);
                    assert(*candidate == types@[i as int]);
                }
                if !always_literal_equal(candidate, right) {
                    return false;
                }
                i += 1;
            }
            true
        },
        (_, LuaType::Union(types)) => {
            let mut i: usize = 0;
            while i < types.len()
                invariant
                    i <= types@.len(),
                    !(left is Union),
                    *right == LuaType::Union(*types),
                    forall|j: int| 0 <= j < i ==> literal_equal(*left, #[trigger] types@[j]),
                decreases types@.len() - i,
            {
                let candidate: &LuaType = &types[i];
                proof {
                    lemma_union_member_is_smaller(*right, i as int);
                    assert(*candidate == types@[i as int]);
                }
                if !always_literal_equal(left, candidate) {
                    return false;
                }
                i += 1;
            }
            true
        },
        (
            LuaType::StringConst(l) | LuaType::DocStringConst(l),
            LuaType::StringConst(r) | LuaType::DocStringConst(r),
        ) => **l == **r,
        (
            LuaType::BooleanConst(l) | LuaType::DocBooleanConst(l),
            LuaType::BooleanConst(r) | LuaType::DocBooleanConst(r),
        ) => *l == *r,
        (
            LuaType::IntegerConst(l) | LuaType::DocIntegerConst(l),
            LuaType::IntegerConst(r) | LuaType::DocIntegerConst(r),
        ) => *l == *r,
        _ => *left == *right,
    }
}

/// A type is equal to a union, as literals go, where it is to every member.
proof fn lemma_literal_equal_to_union(left: LuaType, right: LuaType)
    requires
        right is Union,
    ensures
        literal_equal(left, right) == forall|j: int|
            0 <= j < right->Union_0@.len() ==> literal_equal(left, #[trigger] right->Union_0@[j]),
    decreases left,
{
    if left is Union {
        let types = left->Union_0@;
        let others = right->Union_0@;
        assert forall|i: int| 0 <= i < types.len() implies literal_equal(#[trigger] types[i], right)
            == forall|j: int|
            0 <= j < others.len() ==> literal_equal(types[i], #[trigger] others[j]) by {
            lemma_union_member_is_smaller(left, i);
            lemma_literal_equal_to_union(types[i], right);
        }
        if literal_equal(left, right) {
            assert forall|j: int| 0 <= j < others.len() implies literal_equal(
                left,
                #[trigger] others[j],
            ) by {
                assert forall|i: int| 0 <= i < types.len() implies literal_equal(
                    #[trigger] types[i],
                    others[j],
                ) by {
                    assert(literal_equal(types[i], right));
                }
            }
        }
    }
}

/// Being equal as literals does not depend on the order of the two.
pub proof fn literal_equal_is_symmetric(left: LuaType, right: LuaType)
    ensures
        literal_equal(left, right) == literal_equal(right, left),
    decreases left, right,
{
    if left is Union {
        let types = left->Union_0@;
        assert forall|i: int| 0 <= i < types.len() implies literal_equal(#[trigger] types[i], right)
            == literal_equal(right, types[i]) by {
            lemma_union_member_is_smaller(left, i);
            literal_equal_is_symmetric(types[i], right);
        }
        lemma_literal_equal_to_union(right, left);
    } else if right is Union {
        let types = right->Union_0@;
        assert forall|i: int| 0 <= i < types.len() implies literal_equal(left, #[trigger] types[i])
            == literal_equal(types[i], left) by {
            lemma_union_member_is_smaller(right, i);
            literal_equal_is_symmetric(left, types[i]);
        }
    } else {
        same_type_is_symmetric(left, right);
    }
}

/// The last of `types`, from `from` on, whose member is the literal; `found` where there is none.
pub open spec fn last_literal_member(
    types: Seq<LuaType>,
    from: int,
    idx: LuaIndexMemberExpr,
    right_expr_type: LuaType,
    found: Option<int>,
    rp: Replay,
) -> (Option<int>, Replay)
    decreases types.len() - from,
{
    if from < 0 || from >= types.len() {
        (found, rp)
    } else {
        let (member_type, rp) = rp.infer_member_by_member_key(types[from], idx);
        let found = match member_type {
            Ok(member_type) => if literal_equal(member_type, right_expr_type) {
                Some(from)
            } else {
                found
            },
            Err(_) => found,
        };
        last_literal_member(types, from + 1, idx, right_expr_type, found, rp)
    }
}

/// The type of the variable that a correlated condition tests, once the condition is taken into
/// account.
#[verifier::opaque]
pub open spec fn narrowed_discriminant(
    typ: LuaType,
    narrow: CorrelatedDiscriminantNarrow,
    condition_flow: InferConditionFlow,
    rp: Replay,
) -> (LuaType, Replay) {
    match narrow {
        CorrelatedDiscriminantNarrow::Truthiness => narrowed_by_truth(typ, condition_flow, rp),
        CorrelatedDiscriminantNarrow::TypeGuard { narrow } => narrowed_by_guard(
            typ,
            narrow,
            condition_flow,
            rp,
        ),
        CorrelatedDiscriminantNarrow::Eq { right_expr_type, allow_literal_equivalence } => {
            rp.narrow_eq_condition(typ, right_expr_type, condition_flow, allow_literal_equivalence)
        },
    }
}

/// The length that a comparison proves an array to have, where it proves one.
pub open spec fn proven_array_len(
    antecedent_type: LuaType,
    right_expr_type: LuaType,
    condition_flow: InferConditionFlow,
    max_adjustment: i64,
) -> Option<int> {
    match (antecedent_type, right_expr_type, condition_flow) {
        (LuaType::Array(_), LuaType::IntegerConst(i), InferConditionFlow::TrueCondition) => Some(
            i + max_adjustment,
        ),
        (LuaType::Array(_), LuaType::DocIntegerConst(i), InferConditionFlow::TrueCondition) => Some(
            i + max_adjustment,
        ),
        _ => None,
    }
}

/// Whether the array length that a question is about fits in the type of lengths.
pub open spec fn array_len_fits(subquery: ConditionSubquery, antecedent_type: LuaType) -> bool {
    match subquery {
        ConditionSubquery::ArrayLen {
            subquery_condition_flow,
            right_expr_type,
            max_adjustment,
            ..
        } => proven_array_len(
            antecedent_type,
            right_expr_type,
            subquery_condition_flow,
            max_adjustment,
        ) matches Some(len) ==> i64::MIN <= len <= i64::MAX,
        _ => true,
    }
}

pub fn check_array_len_fits(subquery: &ConditionSubquery, antecedent_type: &LuaType) -> (res: bool)
    ensures
        res == array_len_fits(*subquery, *antecedent_type),
{
    match subquery {
        ConditionSubquery::ArrayLen {
            subquery_condition_flow,
            right_expr_type,
            max_adjustment,
            ..
        } => match (antecedent_type, right_expr_type, subquery_condition_flow) {
            (
                LuaType::Array(_),
                LuaType::IntegerConst(i) | LuaType::DocIntegerConst(i),
                InferConditionFlow::TrueCondition,
            ) => i.checked_add(*max_adjustment).is_some(),
            _ => true,
        },
        _ => true,
    }
}

/// An array type with a known length.
pub open spec fn array_of_len(array: LuaType, len: int) -> LuaType {
    match array {
        LuaType::Array(array_type) => LuaType::Array(
            Arc::new(LuaArrayType { base: array_type.base, len: LuaArrayLen::Max(len as i64) }),
        ),
        _ => array,
    }
}

/// What a condition says once the question it asked is answered with `antecedent_type`.
pub open spec fn subquery_action(
    tree: FlowTree,
    root: LuaChunk,
    var_ref_id: VarRefId,
    flow_node: FlowNode,
    subquery: ConditionSubquery,
    antecedent_type: LuaType,
    rp: Replay,
) -> (Result<ConditionFlowAction, InferFailReason>, Replay) {
    match subquery {
        ConditionSubquery::ArrayLen {
            subquery_condition_flow,
            right_expr_type,
            max_adjustment,
            ..
        } => match proven_array_len(
            antecedent_type,
            right_expr_type,
            subquery_condition_flow,
            max_adjustment,
        ) {
            Some(len) => (Ok(ConditionFlowAction::Result(array_of_len(antecedent_type, len))), rp),
            None => (Ok(ConditionFlowAction::Continue), rp),
        },
        ConditionSubquery::FieldLiteralEq {
            subquery_condition_flow,
            idx,
            right_expr_type,
            ..
        } => match antecedent_type {
            LuaType::Union(types) => {
                let (found, rp) = last_literal_member(types@, 0, idx, right_expr_type, None, rp);
                match found {
                    None => (Ok(ConditionFlowAction::Continue), rp),
                    Some(i) => match subquery_condition_flow {
                        InferConditionFlow::TrueCondition => (
                            Ok(ConditionFlowAction::Result(types@[i])),
                            rp,
                        ),
                        InferConditionFlow::FalseCondition => {
                            let (rest, rp) = rp.type_from_vec(types@.remove(i));
                            (Ok(ConditionFlowAction::Result(rest)), rp)
                        },
                    },
                }
            },
            _ => (Ok(ConditionFlowAction::Continue), rp),
        },
        ConditionSubquery::Correlated {
            antecedent_flow_id,
            subquery_condition_flow,
            discriminant_decl_id,
            condition_position,
            narrow,
            fallback_expr,
            ..
        } => {
            let (discriminant_type, rp) = narrowed_discriminant(
                antecedent_type,
                narrow,
                subquery_condition_flow,
                rp,
            );
            let (action, rp) = rp.prepare_var_from_return_overload_condition(
                tree,
                root,
                var_ref_id,
                discriminant_decl_id,
                condition_position,
                antecedent_flow_id,
                discriminant_type,
            );
            match (action, fallback_expr) {
                (Ok(ConditionFlowAction::Continue), Some(fallback_expr)) => condition_action(
                    tree,
                    root,
                    var_ref_id,
                    flow_node,
                    fallback_expr,
                    subquery_condition_flow,
                    rp,
                ),
                _ => (action, rp),
            }
        },
    }
}

/// `types` without the one at `skipped`.
fn without_member(types: &Vec<LuaType>, skipped: usize) -> (rest: Vec<LuaType>)
    requires
        skipped < types@.len(),
    ensures
        rest@ == types@.remove(skipped as int),
{
    let mut rest: Vec<LuaType> = Vec::new();
    let mut i: usize = 0;
    while i < types.len()
        invariant
            i <= types@.len(),
            skipped < types@.len(),
            rest@ == if i <= skipped {
                types@.take(i as int)
            } else {
                types@.take(i as int).remove(skipped as int)
            },
        decreases types@.len() - i,
    {
        assert(types@.take(i + 1) =~= types@.take(i as int).push(types@[i as int]));
        if i != skipped {
            rest.push(types[i].clone());
        }
        i += 1;
        assert(rest@ =~= if i <= skipped {
            types@.take(i as int)
        } else {
            types@.take(i as int).remove(skipped as int)
        });
    }
    assert(types@.take(i as int) =~= types@);
    rest
}

pub fn resolve_condition_subquery<M: SemanticModel>(
    db: &mut DbIndex<M>,
    tree: &FlowTree,
    cache: &mut LuaInferCache,
    root: &LuaChunk,
    var_ref_id: &VarRefId,
    flow_node: &FlowNode,
    subquery: ConditionSubquery,
    antecedent_type: LuaType,
) -> (res: Result<ConditionFlowAction, InferFailReason>)
    requires
        array_len_fits(subquery, antecedent_type),
    ensures
        final(db).steps() <= old(db).steps(),
        extends(final(db).log(), old(db).log()),
        forall|full: Log| #[trigger]
            extends(full, final(db).log()) ==> subquery_action(
                *tree,
                *root,
                *var_ref_id,
                *flow_node,
                subquery,
                antecedent_type,
                old(db).replay(full, old(cache)@),
            ) == (res, final(db).replay(full, final(cache)@)),
{
    match subquery {
        ConditionSubquery::ArrayLen {
            subquery_condition_flow,
            right_expr_type,
            max_adjustment,
            ..
        } => {
            if !matches!(subquery_condition_flow, InferConditionFlow::TrueCondition) {
                return Ok(ConditionFlowAction::Continue);
            }
            match (&antecedent_type, &right_expr_type) {
                (
                    LuaType::Array(array_type),
                    LuaType::IntegerConst(i) | LuaType::DocIntegerConst(i),
                ) => {
                    let new_array_type = LuaArrayType {
                        base: array_type.base.clone(),
                        len: LuaArrayLen::Max(*i + max_adjustment),
                    };
                    Ok(ConditionFlowAction::Result(LuaType::Array(Arc::new(new_array_type))))
                },
                _ => Ok(ConditionFlowAction::Continue),
            }
        },
        ConditionSubquery::FieldLiteralEq {
            subquery_condition_flow,
            idx,
            right_expr_type,
            ..
        } => {
            let union_types = match antecedent_type {
                LuaType::Union(union_types) => union_types,
                _ => return Ok(ConditionFlowAction::Continue),
            };
            let mut opt_result: Option<usize> = None;
            let mut i: usize = 0;
            while i < union_types.len()
                invariant
                    i <= union_types@.len(),
                    opt_result matches Some(found) ==> found < union_types@.len(),
                    db.steps() == old(db).steps(),
                    extends(db.log(), old(db).log()),
                    forall|full: Log| #[trigger]
                        extends(full, db.log()) ==> last_literal_member(
                            union_types@,
                            0,
                            idx,
                            right_expr_type,
                            None,
                            old(db).replay(full, old(cache)@),
                        ) == last_literal_member(
                            union_types@,
                            i as int,
                            idx,
                            right_expr_type,
                            match opt_result {
                                Some(found) => Some(found as int),
                                None => None,
                            },
                            db.replay(full, cache@),
                        ),
                decreases union_types@.len() - i,
            {
                match db.infer_member_by_member_key(cache, &union_types[i], &idx) {
                    Ok(member_type) => {
                        if always_literal_equal(&member_type, &right_expr_type) {
                            opt_result = Some(i);
                        }
                    },
                    Err(_) => {},
                }
                i += 1;
            }
            match opt_result {
                None => Ok(ConditionFlowAction::Continue),
                Some(found) => match subquery_condition_flow {
                    InferConditionFlow::TrueCondition => Ok(
                        ConditionFlowAction::Result(union_types[found].clone()),
                    ),
                    InferConditionFlow::FalseCondition => {
                        let rest = without_member(&*union_types, found);
                        Ok(ConditionFlowAction::Result(db.type_from_vec(rest)))
                    },
                },
            }
        },
        ConditionSubquery::Correlated {
            antecedent_flow_id,
            subquery_condition_flow,
            discriminant_decl_id,
            condition_position,
            narrow,
            fallback_expr,
            ..
        } => {
            proof {
                reveal(narrowed_discriminant);
            }
            let narrowed_discriminant_type = match narrow {
                CorrelatedDiscriminantNarrow::Truthiness => match subquery_condition_flow {
                    InferConditionFlow::FalseCondition => db.narrow_false_or_nil(&antecedent_type),
                    InferConditionFlow::TrueCondition => db.remove_false_or_nil(&antecedent_type),
                },
                CorrelatedDiscriminantNarrow::TypeGuard { narrow } => apply_type_guard(
                    db,
                    antecedent_type,
                    &narrow,
                    subquery_condition_flow,
                ),
                CorrelatedDiscriminantNarrow::Eq {
                    right_expr_type,
                    allow_literal_equivalence,
                } => db.narrow_eq_condition(
                    &antecedent_type,
                    &right_expr_type,
                    subquery_condition_flow,
                    allow_literal_equivalence,
                ),
            };
            let action = match db.prepare_var_from_return_overload_condition(
                cache,
                tree,
                root,
                var_ref_id,
                discriminant_decl_id,
                condition_position,
                antecedent_flow_id,
                &narrowed_discriminant_type,
            ) {
                Ok(action) => action,
                Err(e) => return Err(e),
            };
            if !matches!(&action, ConditionFlowAction::Continue) {
                return Ok(action);
            }
            match fallback_expr {
                Some(fallback_expr) => get_type_at_condition_flow(
                    db,
                    tree,
                    cache,
                    root,
                    var_ref_id,
                    flow_node,
                    fallback_expr,
                    subquery_condition_flow,
                ),
                None => Ok(action),
            }
        },
    }
}

/// Whether a condition is `not expr`.
pub open spec fn is_negation_of(condition: LuaExpr, expr: LuaExpr) -> bool {
    condition matches LuaExpr::UnaryExpr(unary_expr) && unary_expr.op == Some(UnaryOperator::OpNot)
        && unary_expr.expr == Some(expr)
}

/// Whether a condition is `(expr)`.
pub open spec fn is_parenthesised(condition: LuaExpr, expr: LuaExpr) -> bool {
    condition matches LuaExpr::ParenExpr(paren_expr) && paren_expr.expr == Some(expr)
}

/// `not expr` coming out one way says what `expr` coming out the other way says.
pub proof fn negation_flips_the_outcome(
    tree: FlowTree,
    root: LuaChunk,
    var_ref_id: VarRefId,
    flow_node: FlowNode,
    condition: LuaExpr,
    expr: LuaExpr,
    condition_flow: InferConditionFlow,
    rp: Replay,
)
    requires
        is_negation_of(condition, expr),
    ensures
        condition_action(tree, root, var_ref_id, flow_node, condition, condition_flow, rp)
            == condition_action(
            tree,
            root,
            var_ref_id,
            flow_node,
            expr,
            opposite_flow(condition_flow),
            rp,
        ),
{
}

/// `not not expr` says what `expr` says.
pub proof fn double_negation_says_the_same(
    tree: FlowTree,
    root: LuaChunk,
    var_ref_id: VarRefId,
    flow_node: FlowNode,
    condition: LuaExpr,
    negated: LuaExpr,
    expr: LuaExpr,
    condition_flow: InferConditionFlow,
    rp: Replay,
)
    requires
        is_negation_of(condition, negated),
        is_negation_of(negated, expr),
    ensures
        condition_action(tree, root, var_ref_id, flow_node, condition, condition_flow, rp)
            == condition_action(tree, root, var_ref_id, flow_node, expr, condition_flow, rp),
{
    negation_flips_the_outcome(
        tree,
        root,
        var_ref_id,
        flow_node,
        condition,
        negated,
        condition_flow,
        rp,
    );
    negation_flips_the_outcome(
        tree,
        root,
        var_ref_id,
        flow_node,
        negated,
        expr,
        opposite_flow(condition_flow),
        rp,
    );
}

/// `(expr)` says what `expr` says.
pub proof fn parentheses_say_nothing(
    tree: FlowTree,
    root: LuaChunk,
    var_ref_id: VarRefId,
    flow_node: FlowNode,
    condition: LuaExpr,
    expr: LuaExpr,
    condition_flow: InferConditionFlow,
    rp: Replay,
)
    requires
        is_parenthesised(condition, expr),
    ensures
        condition_action(tree, root, var_ref_id, flow_node, condition, condition_flow, rp)
            == condition_action(tree, root, var_ref_id, flow_node, expr, condition_flow, rp),
{
}

proof fn lemma_last_literal_member_is_in_range(
    types: Seq<LuaType>,
    from: int,
    idx: LuaIndexMemberExpr,
    right_expr_type: LuaType,
    found: Option<int>,
    rp: Replay,
)
    requires
        0 <= from,
        found matches Some(i) ==> 0 <= i < types.len(),
    ensures
        last_literal_member(types, from, idx, right_expr_type, found, rp).0 matches Some(i) ==> 0
            <= i < types.len(),
    decreases types.len() - from,
{
    if from < types.len() {
        let (member_type, after) = rp.infer_member_by_member_key(types[from], idx);
        let found = match member_type {
            Ok(member_type) => if literal_equal(member_type, right_expr_type) {
                Some(from)
            } else {
                found
            },
            Err(_) => found,
        };
        lemma_last_literal_member_is_in_range(types, from + 1, idx, right_expr_type, found, after);
    }
}

/// A comparison of a field with a literal splits a union in two: where it comes out true one
/// member is left, where it comes out false all the others are.  Where no member has the literal,
/// it says nothing either way.
pub proof fn literal_field_splits_a_union(
    tree: FlowTree,
    root: LuaChunk,
    var_ref_id: VarRefId,
    flow_node: FlowNode,
    when_true: ConditionSubquery,
    when_false: ConditionSubquery,
    idx: LuaIndexMemberExpr,
    right_expr_type: LuaType,
    antecedent_type: LuaType,
    rp: Replay,
)
    requires
        antecedent_type is Union,
        is_literal_question(when_true, idx, right_expr_type, InferConditionFlow::TrueCondition),
        is_literal_question(when_false, idx, right_expr_type, InferConditionFlow::FalseCondition),
    ensures
        ({
            let types = antecedent_type->Union_0@;
            let (found, after) = last_literal_member(types, 0, idx, right_expr_type, None, rp);
            let on_true = subquery_action(
                tree,
                root,
                var_ref_id,
                flow_node,
                when_true,
                antecedent_type,
                rp,
            );
            let on_false = subquery_action(
                tree,
                root,
                var_ref_id,
                flow_node,
                when_false,
                antecedent_type,
                rp,
            );
            match found {
                None => on_true == on_false && on_true.0 == Ok::<
                    ConditionFlowAction,
                    InferFailReason,
                >(ConditionFlowAction::Continue),
                Some(i) => {
                    let (rest, rested) = after.type_from_vec(types.remove(i));
                    &&& 0 <= i < types.len()
                    &&& on_true == (
                        Ok::<ConditionFlowAction, InferFailReason>(
                            ConditionFlowAction::Result(types[i]),
                        ),
                        after,
                    )
                    &&& on_false == (
                        Ok::<ConditionFlowAction, InferFailReason>(
                            ConditionFlowAction::Result(rest),
                        ),
                        rested,
                    )
                },
            }
        }),
{
    lemma_last_literal_member_is_in_range(
        antecedent_type->Union_0@,
        0,
        idx,
        right_expr_type,
        None,
        rp,
    );
}

/// Whether a question compares the field `idx` with a literal.
pub open spec fn is_literal_question(
    subquery: ConditionSubquery,
    of: LuaIndexMemberExpr,
    literal: LuaType,
    condition_flow: InferConditionFlow,
) -> bool {
    match subquery {
        ConditionSubquery::FieldLiteralEq {
            subquery_condition_flow,
            idx,
            right_expr_type,
            ..
        } => idx == of && right_expr_type == literal && subquery_condition_flow == condition_flow,
        _ => false,
    }
}

/// The length of an array is only known where the comparison came out true.
pub proof fn array_length_is_known_only_when_true(
    antecedent_type: LuaType,
    right_expr_type: LuaType,
    max_adjustment: i64,
)
    ensures
        proven_array_len(
            antecedent_type,
            right_expr_type,
            InferConditionFlow::FalseCondition,
            max_adjustment,
        ) is None,
{
}

} // verus!
