//! Conditions that are calls: type guards, casts by signature and `rawget`.

use std::sync::Arc;

use vstd::prelude::*;

use crate::cache::LuaInferCache;
use crate::condition_flow::{ConditionFlowAction, InferConditionFlow, PendingConditionNarrow};
use crate::db::{
    extends, lemma_extends_is_reflexive, lemma_extends_is_transitive, DbIndex, Log, Replay,
    SemanticModel,
};
use crate::ids::{LuaSignatureId, VarRefId};
use crate::infer::{find_name, InferFailReason};
use crate::syntax::{LuaCallExpr, LuaExpr, LuaIndexExpr, LuaIndexMemberExpr};
use crate::types::{LuaAliasCallKind, LuaAliasCallType, LuaFunctionType, LuaType};

verus! {

broadcast use {lemma_extends_is_reflexive, lemma_extends_is_transitive};

/// Whether a type is one that can be called.
pub open spec fn is_callable(typ: LuaType) -> bool {
    typ is DocFunction || typ is Signature || typ is Call
}

/// The members of a union, however it is written.
pub open spec fn union_members(typ: LuaType) -> Option<Seq<LuaType>> {
    match typ {
        LuaType::Union(types) => Some(types@),
        LuaType::MultiLineUnion(union) => match *union {
            LuaType::Union(types) => Some(types@),
            _ => None,
        },
        _ => None,
    }
}

/// Whether a method has to be looked up on the narrowed type of its object: there is more than
/// one candidate and one of them can be called.
pub open spec fn needs_antecedent(member_type: LuaType) -> bool {
    match union_members(member_type) {
        Some(types) => types.len() > 1 && exists|i: int|
            0 <= i < types.len() && is_callable(#[trigger] types[i]),
        None => false,
    }
}

fn has_several_with_callable(types: &Vec<LuaType>) -> (res: bool)
    ensures
        res == (types@.len() > 1 && exists|i: int|
            0 <= i < types@.len() && is_callable(#[trigger] types@[i])),
{
    if types.len() <= 1 {
        return false;
    }
    let mut i: usize = 0;
    while i < types.len()
        invariant
            types@.len() > 1,
            i <= types@.len(),
            forall|j: int| 0 <= j < i ==> !is_callable(#[trigger] types@[j]),
        decreases types@.len() - i,
    {
        if matches!(
            &types[i],
            LuaType::DocFunction(_) | LuaType::Signature(_) | LuaType::Call(_)
        ) {
            assert(is_callable(types@[i as int]));
            return true;
        }
        i += 1;
    }
    false
}

pub fn needs_antecedent_same_var_colon_lookup(member_type: &LuaType) -> (res: bool)
    ensures
        res == needs_antecedent(*member_type),
{
    match member_type {
        LuaType::Union(types) => has_several_with_callable(types),
        LuaType::MultiLineUnion(union) => match &**union {
            LuaType::Union(types) => has_several_with_callable(types),
            _ => false,
        },
        _ => false,
    }
}

/// What a call calls.
#[derive(Debug)]
pub enum Callee {
    Known(LuaType),
    /// A method that has to be looked up on the narrowed type of its object.
    Deferred(Arc<LuaIndexExpr>),
}

/// The type of a method of the very reference in question.
pub open spec fn own_method(
    var_ref_id: VarRefId,
    index_expr: Arc<LuaIndexExpr>,
    rp: Replay,
) -> (Result<Callee, InferFailReason>, Replay) {
    let (self_type, rp) = rp.get_var_ref_type(var_ref_id);
    match self_type {
        Err(e) => (Err(e), rp),
        Ok(self_type) => {
            let (member_type, rp) = rp.infer_member_by_member_key(
                self_type,
                LuaIndexMemberExpr::IndexExpr(index_expr),
            );
            match member_type {
                Err(e) => (Err(e), rp),
                Ok(member_type) => if needs_antecedent(member_type) {
                    (Ok(Callee::Deferred(index_expr)), rp)
                } else {
                    (Ok(Callee::Known(member_type)), rp)
                },
            }
        },
    }
}

/// The type of a callee that is an expression of its own.
pub open spec fn plain_callee(prefix_expr: LuaExpr, rp: Replay) -> (
    Result<Callee, InferFailReason>,
    Replay,
) {
    let (typ, rp) = rp.infer_expr(prefix_expr);
    match typ {
        Ok(typ) => (Ok(Callee::Known(typ)), rp),
        Err(e) => (Err(e), rp),
    }
}

/// What a call calls.
pub open spec fn callee(
    var_ref_id: VarRefId,
    is_colon_call: bool,
    prefix_expr: LuaExpr,
    rp: Replay,
) -> (Result<Callee, InferFailReason>, Replay) {
    match prefix_expr {
        LuaExpr::IndexExpr(index_expr) => match index_expr.prefix_expr {
            Some(self_expr) => if is_colon_call {
                let (self_ref, rp) = rp.get_var_expr_var_ref_id(self_expr);
                if self_ref == Some(var_ref_id) {
                    own_method(var_ref_id, index_expr, rp)
                } else {
                    plain_callee(prefix_expr, rp)
                }
            } else {
                plain_callee(prefix_expr, rp)
            },
            None => plain_callee(prefix_expr, rp),
        },
        _ => plain_callee(prefix_expr, rp),
    }
}

/// Which reference a type guard guards, and by which type.
pub open spec fn type_guard_info(
    call_expr: LuaCallExpr,
    func_type: LuaFunctionType,
    rp: Replay,
) -> (Result<Option<(VarRefId, LuaType)>, InferFailReason>, Replay) {
    match call_expr.args {
        Some(args) => if args@.len() == 0 {
            (Ok(None), rp)
        } else {
            let (guarded, rp) = rp.get_var_expr_var_ref_id(args@[0]);
            match guarded {
                None => (Ok(None), rp),
                Some(guarded) => {
                    let (generic, rp) = rp.contain_tpl(func_type.ret);
                    if generic {
                        let (instance, rp) = rp.infer_call_expr_func(call_expr, func_type);
                        match instance {
                            Err(e) => (Err(e), rp),
                            Ok(instance) => (Ok(guard_of(guarded, instance.ret)), rp),
                        }
                    } else {
                        (Ok(guard_of(guarded, func_type.ret)), rp)
                    }
                },
            }
        },
        None => (Ok(None), rp),
    }
}

/// The guard that a return type is.
pub open spec fn guard_of(guarded: VarRefId, return_type: LuaType) -> Option<(VarRefId, LuaType)> {
    match return_type {
        LuaType::TypeGuard(guard) => Some((guarded, *guard)),
        _ => None,
    }
}

fn get_type_guard_call_info<M: SemanticModel>(
    db: &mut DbIndex<M>,
    cache: &mut LuaInferCache,
    call_expr: &LuaCallExpr,
    func_type: &LuaFunctionType,
) -> (res: Result<Option<(VarRefId, LuaType)>, InferFailReason>)
    ensures
        final(db).steps() == old(db).steps(),
        extends(final(db).log(), old(db).log()),
        forall|full: Log| #[trigger]
            extends(full, final(db).log()) ==> type_guard_info(
                *call_expr,
                *func_type,
                old(db).replay(full, old(cache)@),
            ) == (res, final(db).replay(full, final(cache)@)),
{
    let arg_list = match &call_expr.args {
        Some(arg_list) => arg_list,
        None => return Ok(None),
    };
    if arg_list.len() == 0 {
        return Ok(None);
    }
    let maybe_ref_id = match db.get_var_expr_var_ref_id(cache, &arg_list[0]) {
        Some(id) => id,
        None => return Ok(None),
    };
    let mut return_type = func_type.ret.clone();
    if db.contain_tpl(&return_type) {
        let inst_func = match db.infer_call_expr_func(cache, call_expr, func_type) {
            Ok(inst_func) => inst_func,
            Err(e) => return Err(e),
        };
        return_type = inst_func.ret.clone();
    }
    match return_type {
        LuaType::TypeGuard(guard) => Ok(Some((maybe_ref_id, (&*guard).clone()))),
        _ => Ok(None),
    }
}

/// What a call of a type guard says about a reference.
#[verifier::opaque]
pub open spec fn type_guard_action(
    var_ref_id: VarRefId,
    call_expr: LuaCallExpr,
    func_type: LuaFunctionType,
    condition_flow: InferConditionFlow,
    rp: Replay,
) -> (Result<ConditionFlowAction, InferFailReason>, Replay) {
    let (info, rp) = type_guard_info(call_expr, func_type, rp);
    match info {
        Err(e) => (Err(e), rp),
        Ok(Some((guarded, narrow))) => if guarded == var_ref_id {
            (
                Ok(
                    ConditionFlowAction::Pending(
                        PendingConditionNarrow::TypeGuard { narrow, condition_flow },
                    ),
                ),
                rp,
            )
        } else {
            (Ok(ConditionFlowAction::Continue), rp)
        },
        Ok(None) => (Ok(ConditionFlowAction::Continue), rp),
    }
}

fn get_type_at_call_expr_by_type_guard<M: SemanticModel>(
    db: &mut DbIndex<M>,
    cache: &mut LuaInferCache,
    var_ref_id: &VarRefId,
    call_expr: &LuaCallExpr,
    func_type: &LuaFunctionType,
    condition_flow: InferConditionFlow,
) -> (res: Result<ConditionFlowAction, InferFailReason>)
    ensures
        final(db).steps() == old(db).steps(),
        extends(final(db).log(), old(db).log()),
        forall|full: Log| #[trigger]
            extends(full, final(db).log()) ==> type_guard_action(
                *var_ref_id,
                *call_expr,
                *func_type,
                condition_flow,
                old(db).replay(full, old(cache)@),
            ) == (res, final(db).replay(full, final(cache)@)),
{
    proof {
        reveal(type_guard_action);
    }
    let (maybe_ref_id, guard_type) = match get_type_guard_call_info(
        db,
        cache,
        call_expr,
        func_type,
    ) {
        Ok(Some(info)) => info,
        Ok(None) => return Ok(ConditionFlowAction::Continue),
        Err(e) => return Err(e),
    };
    if maybe_ref_id != *var_ref_id {
        return Ok(ConditionFlowAction::Continue);
    }
    Ok(
        ConditionFlowAction::Pending(
            PendingConditionNarrow::TypeGuard { narrow: guard_type, condition_flow },
        ),
    )
}

/// The action that narrows by a signature where `named` is the reference in question.
pub open spec fn signature_action(
    var_ref_id: VarRefId,
    named: Option<VarRefId>,
    signature_id: LuaSignatureId,
    condition_flow: InferConditionFlow,
) -> ConditionFlowAction {
    if named == Some(var_ref_id) {
        ConditionFlowAction::Pending(
            PendingConditionNarrow::SignatureCast { signature_id, condition_flow },
        )
    } else {
        ConditionFlowAction::Continue
    }
}

/// What the call of a method that casts `self` says about a reference.
#[verifier::opaque]
pub open spec fn signature_self_action(
    var_ref_id: VarRefId,
    call_prefix: LuaExpr,
    signature_id: LuaSignatureId,
    condition_flow: InferConditionFlow,
    rp: Replay,
) -> (ConditionFlowAction, Replay) {
    match call_prefix {
        LuaExpr::IndexExpr(index_expr) => match index_expr.prefix_expr {
            Some(self_expr) => {
                let (named, rp) = rp.get_var_expr_var_ref_id(self_expr);
                (signature_action(var_ref_id, named, signature_id, condition_flow), rp)
            },
            None => (ConditionFlowAction::Continue, rp),
        },
        _ => (ConditionFlowAction::Continue, rp),
    }
}

fn get_type_at_call_expr_by_signature_self<M: SemanticModel>(
    db: &mut DbIndex<M>,
    cache: &mut LuaInferCache,
    var_ref_id: &VarRefId,
    call_prefix: &LuaExpr,
    signature_id: LuaSignatureId,
    condition_flow: InferConditionFlow,
) -> (res: Result<ConditionFlowAction, InferFailReason>)
    ensures
        res is Ok,
        final(db).steps() == old(db).steps(),
        extends(final(db).log(), old(db).log()),
        forall|full: Log| #[trigger]
            extends(full, final(db).log()) ==> signature_self_action(
                *var_ref_id,
                *call_prefix,
                signature_id,
                condition_flow,
                old(db).replay(full, old(cache)@),
            ) == (res->Ok_0, final(db).replay(full, final(cache)@)),
{
    proof {
        reveal(signature_self_action);
    }
    let call_prefix_index = match call_prefix {
        LuaExpr::IndexExpr(index_expr) => index_expr,
        _ => return Ok(ConditionFlowAction::Continue),
    };
    let self_expr = match &call_prefix_index.prefix_expr {
        Some(self_expr) => self_expr,
        None => return Ok(ConditionFlowAction::Continue),
    };
    let name_var_ref_id = match db.get_var_expr_var_ref_id(cache, self_expr) {
        Some(id) => id,
        None => return Ok(ConditionFlowAction::Continue),
    };
    if name_var_ref_id != *var_ref_id {
        return Ok(ConditionFlowAction::Continue);
    }
    Ok(
        ConditionFlowAction::Pending(
            PendingConditionNarrow::SignatureCast { signature_id, condition_flow },
        ),
    )
}

/// Which argument of a call a parameter gets.  A call with `:` passes the object first, and a
/// function that is defined with `:` has `self` before its first parameter.
pub open spec fn argument_index(
    param_idx: int,
    colon_call: bool,
    colon_define: bool,
) -> Option<int> {
    if colon_call && !colon_define {
        if param_idx == 0 {
            None
        } else {
            Some(param_idx - 1)
        }
    } else if !colon_call && colon_define {
        Some(param_idx + 1)
    } else {
        Some(param_idx)
    }
}

/// The argument that a named parameter of a signature gets.
pub open spec fn argument_of(
    args: Seq<LuaExpr>,
    params: Seq<String>,
    name: Seq<char>,
    colon_call: bool,
    colon_define: bool,
) -> Option<LuaExpr> {
    match find_name(params, name, 0) {
        Some(param_idx) => match argument_index(param_idx, colon_call, colon_define) {
            Some(idx) => if 0 <= idx < args.len() {
                Some(args[idx])
            } else {
                None
            },
            None => None,
        },
        None => None,
    }
}

/// What the call of a function that casts a parameter says about a reference.
#[verifier::opaque]
pub open spec fn signature_param_action(
    var_ref_id: VarRefId,
    call_expr: LuaCallExpr,
    signature_id: LuaSignatureId,
    name: Seq<char>,
    condition_flow: InferConditionFlow,
    rp: Replay,
) -> (ConditionFlowAction, Replay) {
    match call_expr.args {
        None => (ConditionFlowAction::Continue, rp),
        Some(args) => {
            let (signature, rp) = rp.get_signature(signature_id);
            match signature {
                None => (ConditionFlowAction::Continue, rp),
                Some(signature) => match argument_of(
                    args@,
                    signature.params@,
                    name,
                    call_expr.is_colon_call,
                    signature.is_colon_define,
                ) {
                    None => (ConditionFlowAction::Continue, rp),
                    Some(expr) => {
                        let (named, rp) = rp.get_var_expr_var_ref_id(expr);
                        (signature_action(var_ref_id, named, signature_id, condition_flow), rp)
                    },
                },
            }
        },
    }
}

fn get_type_at_call_expr_by_signature_param_name<M: SemanticModel>(
    db: &mut DbIndex<M>,
    cache: &mut LuaInferCache,
    var_ref_id: &VarRefId,
    call_expr: &LuaCallExpr,
    signature_id: LuaSignatureId,
    name: &String,
    condition_flow: InferConditionFlow,
) -> (res: Result<ConditionFlowAction, InferFailReason>)
    ensures
        res is Ok,
        final(db).steps() == old(db).steps(),
        extends(final(db).log(), old(db).log()),
        forall|full: Log| #[trigger]
            extends(full, final(db).log()) ==> signature_param_action(
                *var_ref_id,
                *call_expr,
                signature_id,
                name@,
                condition_flow,
                old(db).replay(full, old(cache)@),
            ) == (res->Ok_0, final(db).replay(full, final(cache)@)),
{
    proof {
        reveal(signature_param_action);
    }
    let colon_call = call_expr.is_colon_call;
    let arg_list = match &call_expr.args {
        Some(arg_list) => arg_list,
        None => return Ok(ConditionFlowAction::Continue),
    };
    let signature = match db.get_signature(signature_id) {
        Some(signature) => signature,
        None => return Ok(ConditionFlowAction::Continue),
    };
    let mut param_idx: usize = match signature.find_param_idx(name) {
        Some(param_idx) => param_idx,
        None => return Ok(ConditionFlowAction::Continue),
    };
    proof {
        lemma_found_name_is_in_range(signature.params@, name@, 0);
        assert(signature.params.len() == signature.params@.len());
    }
    let colon_define = signature.is_colon_define;
    match (colon_call, colon_define) {
        (true, false) => {
            if param_idx == 0 {
                return Ok(ConditionFlowAction::Continue);
            }
            param_idx -= 1;
        },
        (false, true) => {
            param_idx += 1;
        },
        _ => {},
    }
    if param_idx >= arg_list.len() {
        return Ok(ConditionFlowAction::Continue);
    }
    let name_var_ref_id = match db.get_var_expr_var_ref_id(cache, &arg_list[param_idx]) {
        Some(id) => id,
        None => return Ok(ConditionFlowAction::Continue),
    };
    if name_var_ref_id != *var_ref_id {
        return Ok(ConditionFlowAction::Continue);
    }
    Ok(
        ConditionFlowAction::Pending(
            PendingConditionNarrow::SignatureCast { signature_id, condition_flow },
        ),
    )
}

proof fn lemma_found_name_is_in_range(names: Seq<String>, name: Seq<char>, from: int)
    ensures
        find_name(names, name, from) matches Some(i) ==> from <= i < names.len(),
    decreases names.len() - from,
{
    if 0 <= from < names.len() {
        lemma_found_name_is_in_range(names, name, from + 1);
    }
}

/// What a call whose return type is a type operator says about a reference.
#[verifier::opaque]
pub open spec fn alias_call_action(
    var_ref_id: VarRefId,
    call_expr: Arc<LuaCallExpr>,
    alias_call: LuaAliasCallType,
    condition_flow: InferConditionFlow,
    rp: Replay,
) -> (Result<ConditionFlowAction, InferFailReason>, Replay) {
    let (named, rp) = rp.get_var_expr_var_ref_id(LuaExpr::CallExpr(call_expr));
    if named == Some(var_ref_id) && alias_call.call_kind == LuaAliasCallKind::RawGet {
        let (typ, rp) = rp.infer_expr(LuaExpr::CallExpr(call_expr));
        match typ {
            Err(e) => (Err(e), rp),
            Ok(typ) => {
                let (typ, rp) = narrowed_by_truth(typ, condition_flow, rp);
                (Ok(ConditionFlowAction::Result(typ)), rp)
            },
        }
    } else {
        (Ok(ConditionFlowAction::Continue), rp)
    }
}

/// The part of a type that counts as true or as false.
pub open spec fn narrowed_by_truth(
    typ: LuaType,
    condition_flow: InferConditionFlow,
    rp: Replay,
) -> (LuaType, Replay) {
    match condition_flow {
        InferConditionFlow::FalseCondition => rp.narrow_false_or_nil(typ),
        InferConditionFlow::TrueCondition => rp.remove_false_or_nil(typ),
    }
}

fn get_type_at_call_expr_by_call<M: SemanticModel>(
    db: &mut DbIndex<M>,
    cache: &mut LuaInferCache,
    var_ref_id: &VarRefId,
    call_expr: &Arc<LuaCallExpr>,
    alias_call_type: &LuaAliasCallType,
    condition_flow: InferConditionFlow,
) -> (res: Result<ConditionFlowAction, InferFailReason>)
    ensures
        final(db).steps() == old(db).steps(),
        extends(final(db).log(), old(db).log()),
        forall|full: Log| #[trigger]
            extends(full, final(db).log()) ==> alias_call_action(
                *var_ref_id,
                *call_expr,
                *alias_call_type,
                condition_flow,
                old(db).replay(full, old(cache)@),
            ) == (res, final(db).replay(full, final(cache)@)),
{
    proof {
        reveal(alias_call_action);
    }
    let maybe_ref_id = match db.get_var_expr_var_ref_id(
        cache,
        &LuaExpr::CallExpr(call_expr.clone()),
    ) {
        Some(id) => id,
        None => return Ok(ConditionFlowAction::Continue),
    };
    if maybe_ref_id != *var_ref_id {
        return Ok(ConditionFlowAction::Continue);
    }
    if alias_call_type.call_kind == LuaAliasCallKind::RawGet {
        let antecedent_type = match db.infer_expr(cache, &LuaExpr::CallExpr(call_expr.clone())) {
            Ok(typ) => typ,
            Err(e) => return Err(e),
        };
        let result_type = match condition_flow {
            InferConditionFlow::FalseCondition => db.narrow_false_or_nil(&antecedent_type),
            InferConditionFlow::TrueCondition => db.remove_false_or_nil(&antecedent_type),
        };
        return Ok(ConditionFlowAction::Result(result_type));
    }
    Ok(ConditionFlowAction::Continue)
}

/// What the call of a callee of a known type says about a reference.
pub open spec fn known_callee_action(
    var_ref_id: VarRefId,
    call_expr: Arc<LuaCallExpr>,
    prefix_expr: LuaExpr,
    func: LuaType,
    condition_flow: InferConditionFlow,
    rp: Replay,
) -> (Result<ConditionFlowAction, InferFailReason>, Replay) {
    match func {
        LuaType::DocFunction(f) => if f.ret is TypeGuard {
            type_guard_action(var_ref_id, *call_expr, *f, condition_flow, rp)
        } else {
            (Ok(ConditionFlowAction::Continue), rp)
        },
        LuaType::Signature(signature_id) => {
            let (signature, rp) = rp.get_signature(signature_id);
            match signature {
                None => (Ok(ConditionFlowAction::Continue), rp),
                Some(signature) => match signature.return_type {
                    LuaType::TypeGuard(_) => type_guard_action(
                        var_ref_id,
                        *call_expr,
                        *signature.doc_func,
                        condition_flow,
                        rp,
                    ),
                    LuaType::Call(call) => alias_call_action(
                        var_ref_id,
                        call_expr,
                        *call,
                        condition_flow,
                        rp,
                    ),
                    _ => {
                        let (signature_cast, rp) = rp.get_signature_cast(signature_id);
                        match signature_cast {
                            None => (Ok(ConditionFlowAction::Continue), rp),
                            Some(signature_cast) => {
                                let (action, rp) = if signature_cast.name@ == "self"@ {
                                    signature_self_action(
                                        var_ref_id,
                                        prefix_expr,
                                        signature_id,
                                        condition_flow,
                                        rp,
                                    )
                                } else {
                                    signature_param_action(
                                        var_ref_id,
                                        *call_expr,
                                        signature_id,
                                        signature_cast.name@,
                                        condition_flow,
                                        rp,
                                    )
                                };
                                (Ok(action), rp)
                            },
                        }
                    },
                },
            }
        },
        _ => (Ok(ConditionFlowAction::Continue), rp),
    }
}

/// What a call that came out true or false says about a reference.
pub open spec fn call_action(
    var_ref_id: VarRefId,
    call_expr: Arc<LuaCallExpr>,
    condition_flow: InferConditionFlow,
    rp: Replay,
) -> (Result<ConditionFlowAction, InferFailReason>, Replay) {
    match call_expr.prefix_expr {
        None => (Ok(ConditionFlowAction::Continue), rp),
        Some(prefix_expr) => {
            let (func, rp) = callee(var_ref_id, call_expr.is_colon_call, prefix_expr, rp);
            match func {
                Err(e) => (Err(e), rp),
                Ok(Callee::Deferred(index_expr)) => (
                    Ok(
                        ConditionFlowAction::Pending(
                            PendingConditionNarrow::SameVarColonCall {
                                idx: LuaIndexMemberExpr::IndexExpr(index_expr),
                                condition_flow,
                            },
                        ),
                    ),
                    rp,
                ),
                Ok(Callee::Known(func)) => known_callee_action(
                    var_ref_id,
                    call_expr,
                    prefix_expr,
                    func,
                    condition_flow,
                    rp,
                ),
            }
        },
    }
}

pub fn get_type_at_call_expr<M: SemanticModel>(
    db: &mut DbIndex<M>,
    cache: &mut LuaInferCache,
    var_ref_id: &VarRefId,
    call_expr: &Arc<LuaCallExpr>,
    condition_flow: InferConditionFlow,
) -> (res: Result<ConditionFlowAction, InferFailReason>)
    ensures
        final(db).steps() == old(db).steps(),
        extends(final(db).log(), old(db).log()),
        forall|full: Log| #[trigger]
            extends(full, final(db).log()) ==> call_action(
                *var_ref_id,
                *call_expr,
                condition_flow,
                old(db).replay(full, old(cache)@),
            ) == (res, final(db).replay(full, final(cache)@)),
{
    let prefix_expr = match &call_expr.prefix_expr {
        Some(prefix_expr) => prefix_expr,
        None => return Ok(ConditionFlowAction::Continue),
    };
    let maybe_func = match get_callee(
        db,
        cache,
        var_ref_id,
        call_expr.is_colon_call,
        prefix_expr,
    ) {
        Ok(Callee::Known(func)) => func,
        Ok(Callee::Deferred(index_expr)) => {
            // The replay needs the antecedent type for the member lookup itself, not just for
            // applying a cast after the lookup.
            return Ok(
                ConditionFlowAction::Pending(
                    PendingConditionNarrow::SameVarColonCall {
                        idx: LuaIndexMemberExpr::IndexExpr(index_expr),
                        condition_flow,
                    },
                ),
            );
        },
        Err(e) => return Err(e),
    };
    match maybe_func {
        LuaType::DocFunction(f) => match &f.ret {
            LuaType::TypeGuard(_) => get_type_at_call_expr_by_type_guard(
                db,
                cache,
                var_ref_id,
                call_expr,
                &*f,
                condition_flow,
            ),
            _ => Ok(ConditionFlowAction::Continue),
        },
        LuaType::Signature(signature_id) => {
            let signature = match db.get_signature(signature_id) {
                Some(signature) => signature,
                None => return Ok(ConditionFlowAction::Continue),
            };
            match &signature.return_type {
                LuaType::TypeGuard(_) => {
                    return get_type_at_call_expr_by_type_guard(
                        db,
                        cache,
                        var_ref_id,
                        call_expr,
                        &*signature.doc_func,
                        condition_flow,
                    );
                },
                LuaType::Call(call) => {
                    return get_type_at_call_expr_by_call(
                        db,
                        cache,
                        var_ref_id,
                        call_expr,
                        &**call,
                        condition_flow,
                    );
                },
                _ => {},
            }
            let signature_cast = match db.get_signature_cast(signature_id) {
                Some(signature_cast) => signature_cast,
                None => return Ok(ConditionFlowAction::Continue),
            };
            if signature_cast.name == "self".to_string() {
                get_type_at_call_expr_by_signature_self(
                    db,
                    cache,
                    var_ref_id,
                    prefix_expr,
                    signature_id,
                    condition_flow,
                )
            } else {
                get_type_at_call_expr_by_signature_param_name(
                    db,
                    cache,
                    var_ref_id,
                    call_expr,
                    signature_id,
                    &signature_cast.name,
                    condition_flow,
                )
            }
        },
        _ => Ok(ConditionFlowAction::Continue),
    }
}

fn get_callee<M: SemanticModel>(
    db: &mut DbIndex<M>,
    cache: &mut LuaInferCache,
    var_ref_id: &VarRefId,
    is_colon_call: bool,
    prefix_expr: &LuaExpr,
) -> (res: Result<Callee, InferFailReason>)
    ensures
        final(db).steps() == old(db).steps(),
        extends(final(db).log(), old(db).log()),
        forall|full: Log| #[trigger]
            extends(full, final(db).log()) ==> callee(
                *var_ref_id,
                is_colon_call,
                *prefix_expr,
                old(db).replay(full, old(cache)@),
            ) == (res, final(db).replay(full, final(cache)@)),
{
    if is_colon_call {
        if let LuaExpr::IndexExpr(index_expr) = prefix_expr {
            if let Some(self_expr) = &index_expr.prefix_expr {
                let self_var_ref_id = db.get_var_expr_var_ref_id(cache, self_expr);
                if let Some(self_var_ref_id) = self_var_ref_id {
                    if self_var_ref_id == *var_ref_id {
                        let self_type = match db.get_var_ref_type(cache, var_ref_id) {
                            Ok(typ) => typ,
                            Err(e) => return Err(e),
                        };
                        let member_type = match db.infer_member_by_member_key(
                            cache,
                            &self_type,
                            &LuaIndexMemberExpr::IndexExpr(index_expr.clone()),
                        ) {
                            Ok(typ) => typ,
                            Err(e) => return Err(e),
                        };
                        if needs_antecedent_same_var_colon_lookup(&member_type) {
                            return Ok(Callee::Deferred(index_expr.clone()));
                        }
                        return Ok(Callee::Known(member_type));
                    }
                }
            }
        }
    }
    match db.infer_expr(cache, prefix_expr) {
        Ok(typ) => Ok(Callee::Known(typ)),
        Err(e) => Err(e),
    }
}

/// Where call and definition are both written with `:`, or both without, parameters and arguments
/// stand at the same places; where only one of them is, the shift of the one undoes that of the
/// other.
pub proof fn colon_shifts_undo_each_other(param_idx: int, colon: bool)
    requires
        param_idx >= 0,
    ensures
        argument_index(param_idx, colon, colon) == Some(param_idx),
        argument_index(param_idx, false, true) matches Some(shifted) && argument_index(
            shifted,
            true,
            false,
        ) == Some(param_idx),
{
}

} // verus!
