//! Conditions that are index expressions: `if a.b then`.

use std::sync::Arc;

use vstd::prelude::*;

use crate::cache::LuaInferCache;
use crate::condition_flow::{ConditionFlowAction, InferConditionFlow, PendingConditionNarrow};
use crate::db::{
    extends, lemma_extends_is_reflexive, lemma_extends_is_transitive, DbIndex, Log, Replay,
    SemanticModel,
};
use crate::ids::VarRefId;
use crate::infer::InferFailReason;
use crate::syntax::{LuaExpr, LuaIndexExpr, LuaIndexMemberExpr};

verus! {

broadcast use {lemma_extends_is_reflexive, lemma_extends_is_transitive};

/// What an index expression that came out true or false says about a reference: something about
/// its own truth where it is the expression, something about a field where it is the prefix.
pub open spec fn index_action(
    var_ref_id: VarRefId,
    index_expr: Arc<LuaIndexExpr>,
    condition_flow: InferConditionFlow,
    rp: Replay,
) -> (ConditionFlowAction, Replay) {
    let (named, rp) = rp.get_var_expr_var_ref_id(LuaExpr::IndexExpr(index_expr));
    match named {
        None => (ConditionFlowAction::Continue, rp),
        Some(named) => if named == var_ref_id {
            (
                ConditionFlowAction::Pending(PendingConditionNarrow::Truthiness(condition_flow)),
                rp,
            )
        } else {
            match index_expr.prefix_expr {
                None => (ConditionFlowAction::Continue, rp),
                Some(prefix_expr) => {
                    let (prefix, rp) = rp.get_var_expr_var_ref_id(prefix_expr);
                    if prefix == Some(var_ref_id) {
                        (
                            ConditionFlowAction::Pending(
                                PendingConditionNarrow::FieldTruthy {
                                    idx: LuaIndexMemberExpr::IndexExpr(index_expr),
                                    condition_flow,
                                },
                            ),
                            rp,
                        )
                    } else {
                        (ConditionFlowAction::Continue, rp)
                    }
                },
            }
        },
    }
}

pub fn get_type_at_index_expr<M: SemanticModel>(
    db: &mut DbIndex<M>,
    cache: &mut LuaInferCache,
    var_ref_id: &VarRefId,
    index_expr: &Arc<LuaIndexExpr>,
    condition_flow: InferConditionFlow,
) -> (res: Result<ConditionFlowAction, InferFailReason>)
    ensures
        res is Ok,
        final(db).steps() == old(db).steps(),
        extends(final(db).log(), old(db).log()),
        forall|full: Log| #[trigger]
            extends(full, final(db).log()) ==> index_action(
                *var_ref_id,
                *index_expr,
                condition_flow,
                old(db).replay(full, old(cache)@),
            ) == (res->Ok_0, final(db).replay(full, final(cache)@)),
{
    let name_var_ref_id = match db.get_var_expr_var_ref_id(
        cache,
        &LuaExpr::IndexExpr(index_expr.clone()),
    ) {
        Some(id) => id,
        None => return Ok(ConditionFlowAction::Continue),
    };
    if name_var_ref_id == *var_ref_id {
        return Ok(
            ConditionFlowAction::Pending(PendingConditionNarrow::Truthiness(condition_flow)),
        );
    }
    let prefix_expr = match &index_expr.prefix_expr {
        Some(prefix_expr) => prefix_expr,
        None => return Ok(ConditionFlowAction::Continue),
    };
    let maybe_var_ref_id = match db.get_var_expr_var_ref_id(cache, prefix_expr) {
        Some(id) => id,
        // Without a reference there is nothing to narrow.
        None => return Ok(ConditionFlowAction::Continue),
    };
    if maybe_var_ref_id != *var_ref_id {
        return Ok(ConditionFlowAction::Continue);
    }
    Ok(
        ConditionFlowAction::Pending(
            PendingConditionNarrow::FieldTruthy {
                idx: LuaIndexMemberExpr::IndexExpr(index_expr.clone()),
                condition_flow,
            },
        ),
    )
}

} // verus!
