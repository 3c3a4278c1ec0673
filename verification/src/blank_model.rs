//! A model that knows nothing.

use std::sync::Arc;

use vstd::prelude::*;

use crate::cache::LuaInferCache;
use crate::condition_flow::{
    ConditionFlowAction, CorrelatedConditionNarrowing, InferConditionFlow,
    PendingCorrelatedCondition,
};
use crate::db::{opt_seq, Call, Exchange, Log, Reply, SemanticModel};
use crate::flow_tree::FlowTree;
use crate::ids::{
    FileId, FlowId, LuaDeclId, LuaMemberId, LuaSignatureId, LuaTypeOwner, TextRange, VarRefId,
};
use crate::infer::{
    InferFailReason, InferResult, LuaDecl, LuaMember, LuaMemberInfo, LuaMemberKey, LuaMemberOwner,
    LuaSignature, LuaSignatureCast, LuaTypeCache, ResultTypeOrContinue, TypeOps, UnResolve,
};
use crate::syntax::{
    LuaBinaryExpr, LuaCallExpr, LuaChunk, LuaDocTagCast, LuaExpr, LuaIndexKey, LuaIndexMemberExpr,
};
use crate::types::{LuaFunctionType, LuaType};

verus! {

/// A model that knows nothing, and files nothing either.  What the analysis finds out with it
/// follows from the flow tree alone; and it shows how a model keeps the log of what it was asked.
pub struct BlankModel {
    asked: Ghost<Log>,
}

impl BlankModel {
    /// A model that was not asked anything.
    pub fn new() -> (model: BlankModel)
        ensures
            model.asked() == Seq::<Exchange>::empty(),
    {
        BlankModel { asked: Ghost(Seq::empty()) }
    }
}

impl SemanticModel for BlankModel {
    closed spec fn asked(&self) -> Log {
        self.asked@
    }

    fn infer_expr(
        &mut self,
        cache: &mut LuaInferCache,
        expr: &LuaExpr,
    ) -> (res: InferResult)
        ensures
            res matches Err(InferFailReason::Nothing),
            final(cache)@ == old(cache)@,
    {
        let res: InferResult = Err(InferFailReason::Nothing);
        self.asked = Ghost(
            self.asked@.push(
                Exchange::with_cache(
                    Call::InferExpr { expr: *expr },
                    Reply::Infer(res),
                    cache@,
                    cache@,
                ),
            ),
        );
        res
    }

    fn infer_expr_list_value_type_at(
        &mut self,
        cache: &mut LuaInferCache,
        exprs: &Vec<LuaExpr>,
        idx: usize,
    ) -> (res: Result<Option<LuaType>, InferFailReason>)
        ensures
            res matches Err(InferFailReason::Nothing),
            final(cache)@ == old(cache)@,
    {
        let res: Result<Option<LuaType>, InferFailReason> = Err(InferFailReason::Nothing);
        self.asked = Ghost(
            self.asked@.push(
                Exchange::with_cache(
                    Call::InferExprListValueTypeAt { exprs: exprs@, idx },
                    Reply::InferValue(res),
                    cache@,
                    cache@,
                ),
            ),
        );
        res
    }

    fn infer_member_by_member_key(
        &mut self,
        cache: &mut LuaInferCache,
        prefix_type: &LuaType,
        idx: &LuaIndexMemberExpr,
    ) -> (res: InferResult)
        ensures
            res matches Err(InferFailReason::Nothing),
            final(cache)@ == old(cache)@,
    {
        let res: InferResult = Err(InferFailReason::Nothing);
        self.asked = Ghost(
            self.asked@.push(
                Exchange::with_cache(
                    Call::InferMemberByMemberKey { prefix_type: *prefix_type, idx: *idx },
                    Reply::Infer(res),
                    cache@,
                    cache@,
                ),
            ),
        );
        res
    }

    fn infer_call_expr_func(
        &mut self,
        cache: &mut LuaInferCache,
        call_expr: &LuaCallExpr,
        func_type: &LuaFunctionType,
    ) -> (res: Result<Arc<LuaFunctionType>, InferFailReason>)
        ensures
            res matches Err(InferFailReason::Nothing),
            final(cache)@ == old(cache)@,
    {
        let res: Result<Arc<LuaFunctionType>, InferFailReason> = Err(InferFailReason::Nothing);
        self.asked = Ghost(
            self.asked@.push(
                Exchange::with_cache(
                    Call::InferCallExprFunc { call_expr: *call_expr, func_type: *func_type },
                    Reply::Func(res),
                    cache@,
                    cache@,
                ),
            ),
        );
        res
    }

    fn get_var_ref_type(
        &mut self,
        cache: &mut LuaInferCache,
        var_ref_id: &VarRefId,
    ) -> (res: InferResult)
        ensures
            res matches Err(InferFailReason::Nothing),
            final(cache)@ == old(cache)@,
    {
        let res: InferResult = Err(InferFailReason::Nothing);
        self.asked = Ghost(
            self.asked@.push(
                Exchange::with_cache(
                    Call::GetVarRefType { var_ref_id: *var_ref_id },
                    Reply::Infer(res),
                    cache@,
                    cache@,
                ),
            ),
        );
        res
    }

    fn get_var_expr_var_ref_id(
        &mut self,
        cache: &mut LuaInferCache,
        expr: &LuaExpr,
    ) -> (res: Option<VarRefId>)
        ensures
            res is None,
            final(cache)@ == old(cache)@,
    {
        let res: Option<VarRefId> = None;
        self.asked = Ghost(
            self.asked@.push(
                Exchange::with_cache(
                    Call::GetVarExprVarRefId { expr: *expr },
                    Reply::VarRef(res),
                    cache@,
                    cache@,
                ),
            ),
        );
        res
    }

    fn get_type_at_binary_expr(
        &mut self,
        cache: &mut LuaInferCache,
        tree: &FlowTree,
        root: &LuaChunk,
        var_ref_id: &VarRefId,
        flow_id: FlowId,
        binary_expr: &LuaBinaryExpr,
        condition_flow: InferConditionFlow,
    ) -> (res: Result<ConditionFlowAction, InferFailReason>)
        ensures
            res matches Err(InferFailReason::Nothing),
            final(cache)@ == old(cache)@,
    {
        let res: Result<ConditionFlowAction, InferFailReason> = Err(InferFailReason::Nothing);
        self.asked = Ghost(
            self.asked@.push(
                Exchange::with_cache(
                    Call::GetTypeAtBinaryExpr {
                        tree: *tree,
                        root: *root,
                        var_ref_id: *var_ref_id,
                        flow_id,
                        binary_expr: *binary_expr,
                        condition_flow,
                    },
                    Reply::Action(res),
                    cache@,
                    cache@,
                ),
            ),
        );
        res
    }

    fn prepare_var_from_return_overload_condition(
        &mut self,
        cache: &mut LuaInferCache,
        tree: &FlowTree,
        root: &LuaChunk,
        var_ref_id: &VarRefId,
        discriminant_decl_id: LuaDeclId,
        condition_position: u32,
        antecedent_flow_id: FlowId,
        discriminant_type: &LuaType,
    ) -> (res: Result<ConditionFlowAction, InferFailReason>)
        ensures
            res matches Err(InferFailReason::Nothing),
            final(cache)@ == old(cache)@,
    {
        let res: Result<ConditionFlowAction, InferFailReason> = Err(InferFailReason::Nothing);
        self.asked = Ghost(
            self.asked@.push(
                Exchange::with_cache(
                    Call::PrepareVarFromReturnOverloadCondition {
                        tree: *tree,
                        root: *root,
                        var_ref_id: *var_ref_id,
                        discriminant_decl_id,
                        condition_position,
                        antecedent_flow_id,
                        discriminant_type: *discriminant_type,
                    },
                    Reply::Action(res),
                    cache@,
                    cache@,
                ),
            ),
        );
        res
    }

    fn resume_correlated_condition(
        &mut self,
        cache: &mut LuaInferCache,
        tree: &FlowTree,
        root: &LuaChunk,
        var_ref_id: &VarRefId,
        flow_id: FlowId,
        pending: PendingCorrelatedCondition,
    ) -> (res: Result<ConditionFlowAction, InferFailReason>)
        ensures
            res matches Err(InferFailReason::Nothing),
            final(cache)@ == old(cache)@,
    {
        let res: Result<ConditionFlowAction, InferFailReason> = Err(InferFailReason::Nothing);
        self.asked = Ghost(
            self.asked@.push(
                Exchange::with_cache(
                    Call::ResumeCorrelatedCondition {
                        tree: *tree,
                        root: *root,
                        var_ref_id: *var_ref_id,
                        flow_id,
                        pending,
                    },
                    Reply::Action(res),
                    cache@,
                    cache@,
                ),
            ),
        );
        res
    }

    fn get_type_at_cast_flow(
        &mut self,
        cache: &mut LuaInferCache,
        tree: &FlowTree,
        root: &LuaChunk,
        var_ref_id: &VarRefId,
        flow_id: FlowId,
        tag_cast: &LuaDocTagCast,
    ) -> (res: Result<ResultTypeOrContinue, InferFailReason>)
        ensures
            res matches Err(InferFailReason::Nothing),
            final(cache)@ == old(cache)@,
    {
        let res: Result<ResultTypeOrContinue, InferFailReason> = Err(InferFailReason::Nothing);
        self.asked = Ghost(
            self.asked@.push(
                Exchange::with_cache(
                    Call::GetTypeAtCastFlow {
                        tree: *tree,
                        root: *root,
                        var_ref_id: *var_ref_id,
                        flow_id,
                        tag_cast: *tag_cast,
                    },
                    Reply::Walk(res),
                    cache@,
                    cache@,
                ),
            ),
        );
        res
    }

    fn member_key_from_index_key(
        &mut self,
        cache: &mut LuaInferCache,
        key: &LuaIndexKey,
    ) -> (res: Result<LuaMemberKey, InferFailReason>)
        ensures
            res matches Err(InferFailReason::Nothing),
            final(cache)@ == old(cache)@,
    {
        let res: Result<LuaMemberKey, InferFailReason> = Err(InferFailReason::Nothing);
        self.asked = Ghost(
            self.asked@.push(
                Exchange::with_cache(
                    Call::MemberKeyFromIndexKey { key: *key },
                    Reply::MemberKey(res),
                    cache@,
                    cache@,
                ),
            ),
        );
        res
    }

    fn apply_type_op(
        &mut self,
        op: TypeOps,
        left: &LuaType,
        right: &LuaType,
    ) -> (res: LuaType)
        ensures
            res == LuaType::Never,
    {
        let res = LuaType::Never;
        self.asked = Ghost(
            self.asked@.push(
                Exchange::aside(
                    Call::ApplyTypeOp { op, left: *left, right: *right },
                    Reply::Type(res),
                ),
            ),
        );
        res
    }

    fn narrow_down_type(
        &mut self,
        source: &LuaType,
        target: &LuaType,
        declared: Option<LuaType>,
    ) -> (res: Option<LuaType>)
        ensures
            res is None,
    {
        let res: Option<LuaType> = None;
        self.asked = Ghost(
            self.asked@.push(
                Exchange::aside(
                    Call::NarrowDownType { source: *source, target: *target, declared },
                    Reply::OptType(res),
                ),
            ),
        );
        res
    }

    fn narrow_false_or_nil(
        &mut self,
        typ: &LuaType,
    ) -> (res: LuaType)
        ensures
            res == LuaType::Never,
    {
        let res = LuaType::Never;
        self.asked = Ghost(
            self.asked@.push(
                Exchange::aside(Call::NarrowFalseOrNil { typ: *typ }, Reply::Type(res)),
            ),
        );
        res
    }

    fn remove_false_or_nil(
        &mut self,
        typ: &LuaType,
    ) -> (res: LuaType)
        ensures
            res == LuaType::Never,
    {
        let res = LuaType::Never;
        self.asked = Ghost(
            self.asked@.push(
                Exchange::aside(Call::RemoveFalseOrNil { typ: *typ }, Reply::Type(res)),
            ),
        );
        res
    }

    fn narrow_eq_condition(
        &mut self,
        typ: &LuaType,
        right_expr_type: &LuaType,
        condition_flow: InferConditionFlow,
        allow_literal_equivalence: bool,
    ) -> (res: LuaType)
        ensures
            res == LuaType::Never,
    {
        let res = LuaType::Never;
        self.asked = Ghost(
            self.asked@.push(
                Exchange::aside(
                    Call::NarrowEqCondition {
                        typ: *typ,
                        right_expr_type: *right_expr_type,
                        condition_flow,
                        allow_literal_equivalence,
                    },
                    Reply::Type(res),
                ),
            ),
        );
        res
    }

    fn apply_correlated_narrowing(
        &mut self,
        narrowing: CorrelatedConditionNarrowing,
        typ: &LuaType,
    ) -> (res: LuaType)
        ensures
            res == LuaType::Never,
    {
        let res = LuaType::Never;
        self.asked = Ghost(
            self.asked@.push(
                Exchange::aside(
                    Call::ApplyCorrelatedNarrowing { narrowing, typ: *typ },
                    Reply::Type(res),
                ),
            ),
        );
        res
    }

    fn is_type_compatible(
        &mut self,
        source_type: &LuaType,
        expr_type: &LuaType,
    ) -> (res: bool)
        ensures
            !res,
    {
        let res = false;
        self.asked = Ghost(
            self.asked@.push(
                Exchange::aside(
                    Call::IsTypeCompatible { source_type: *source_type, expr_type: *expr_type },
                    Reply::Truth(res),
                ),
            ),
        );
        res
    }

    fn find_members(
        &mut self,
        typ: &LuaType,
    ) -> (res: Option<Vec<LuaMemberInfo>>)
        ensures
            res is None,
    {
        let res: Option<Vec<LuaMemberInfo>> = None;
        self.asked = Ghost(
            self.asked@.push(
                Exchange::aside(Call::FindMembers { typ: *typ }, Reply::Members(opt_seq(res))),
            ),
        );
        res
    }

    fn type_from_vec(
        &mut self,
        types: Vec<LuaType>,
    ) -> (res: LuaType)
        ensures
            res == LuaType::Never,
    {
        let res = LuaType::Never;
        self.asked = Ghost(
            self.asked@.push(
                Exchange::aside(Call::TypeFromVec { types: types@ }, Reply::Type(res)),
            ),
        );
        res
    }

    fn is_always_falsy(
        &mut self,
        typ: &LuaType,
    ) -> (res: bool)
        ensures
            !res,
    {
        let res = false;
        self.asked = Ghost(
            self.asked@.push(
                Exchange::aside(Call::IsAlwaysFalsy { typ: *typ }, Reply::Truth(res)),
            ),
        );
        res
    }

    fn contain_tpl(
        &mut self,
        typ: &LuaType,
    ) -> (res: bool)
        ensures
            !res,
    {
        let res = false;
        self.asked = Ghost(
            self.asked@.push(
                Exchange::aside(Call::ContainTpl { typ: *typ }, Reply::Truth(res)),
            ),
        );
        res
    }

    fn contain_multi_return(
        &mut self,
        typ: &LuaType,
    ) -> (res: bool)
        ensures
            !res,
    {
        let res = false;
        self.asked = Ghost(
            self.asked@.push(
                Exchange::aside(Call::ContainMultiReturn { typ: *typ }, Reply::Truth(res)),
            ),
        );
        res
    }

    fn get_result_slot_type(
        &mut self,
        typ: &LuaType,
        idx: usize,
    ) -> (res: Option<LuaType>)
        ensures
            res is None,
    {
        let res: Option<LuaType> = None;
        self.asked = Ghost(
            self.asked@.push(
                Exchange::aside(Call::GetResultSlotType { typ: *typ, idx }, Reply::OptType(res)),
            ),
        );
        res
    }

    fn get_type_cache(
        &mut self,
        owner: LuaTypeOwner,
    ) -> (res: Option<LuaTypeCache>)
        ensures
            res is None,
    {
        let res: Option<LuaTypeCache> = None;
        self.asked = Ghost(
            self.asked@.push(
                Exchange::aside(Call::GetTypeCache { owner }, Reply::TypeCache(res)),
            ),
        );
        res
    }

    fn get_signature_cast(
        &mut self,
        signature_id: LuaSignatureId,
    ) -> (res: Option<Arc<LuaSignatureCast>>)
        ensures
            res is None,
    {
        let res: Option<Arc<LuaSignatureCast>> = None;
        self.asked = Ghost(
            self.asked@.push(
                Exchange::aside(Call::GetSignatureCast { signature_id }, Reply::SignatureCast(res)),
            ),
        );
        res
    }

    fn get_signature(
        &mut self,
        signature_id: LuaSignatureId,
    ) -> (res: Option<Arc<LuaSignature>>)
        ensures
            res is None,
    {
        let res: Option<Arc<LuaSignature>> = None;
        self.asked = Ghost(
            self.asked@.push(
                Exchange::aside(Call::GetSignature { signature_id }, Reply::Signature(res)),
            ),
        );
        res
    }

    fn get_syntax_tree(
        &mut self,
        file_id: FileId,
    ) -> (res: Option<Arc<LuaChunk>>)
        ensures
            res is None,
    {
        let res: Option<Arc<LuaChunk>> = None;
        self.asked = Ghost(
            self.asked@.push(
                Exchange::aside(Call::GetSyntaxTree { file_id }, Reply::Chunk(res)),
            ),
        );
        res
    }

    fn get_var_reference_decl(
        &mut self,
        file_id: FileId,
        range: TextRange,
    ) -> (res: Option<LuaDeclId>)
        ensures
            res is None,
    {
        let res: Option<LuaDeclId> = None;
        self.asked = Ghost(
            self.asked@.push(
                Exchange::aside(Call::GetVarReferenceDecl { file_id, range }, Reply::DeclId(res)),
            ),
        );
        res
    }

    fn get_decl(
        &mut self,
        decl_id: LuaDeclId,
    ) -> (res: Option<LuaDecl>)
        ensures
            res is None,
    {
        let res: Option<LuaDecl> = None;
        self.asked = Ghost(
            self.asked@.push(
                Exchange::aside(Call::GetDecl { decl_id }, Reply::Decl(res)),
            ),
        );
        res
    }

    fn find_local_decl(
        &mut self,
        file_id: FileId,
        name: &String,
        position: u32,
    ) -> (res: Option<LuaDecl>)
        ensures
            res is None,
    {
        let res: Option<LuaDecl> = None;
        self.asked = Ghost(
            self.asked@.push(
                Exchange::aside(
                    Call::FindLocalDecl { file_id, name: name@, position },
                    Reply::Decl(res),
                ),
            ),
        );
        res
    }

    fn get_global_decl_ids(
        &mut self,
        name: &String,
    ) -> (res: Option<Vec<LuaDeclId>>)
        ensures
            res is None,
    {
        let res: Option<Vec<LuaDeclId>> = None;
        self.asked = Ghost(
            self.asked@.push(
                Exchange::aside(
                    Call::GetGlobalDeclIds { name: name@ },
                    Reply::DeclIds(opt_seq(res)),
                ),
            ),
        );
        res
    }

    fn get_attribute_param(
        &mut self,
        decl_id: LuaDeclId,
        attribute: &str,
        param: &str,
    ) -> (res: Option<LuaType>)
        ensures
            res is None,
    {
        let res: Option<LuaType> = None;
        self.asked = Ghost(
            self.asked@.push(
                Exchange::aside(
                    Call::GetAttributeParam { decl_id, attribute: attribute@, param: param@ },
                    Reply::OptType(res),
                ),
            ),
        );
        res
    }

    fn get_local_reference_decl(
        &mut self,
        file_id: FileId,
        range: TextRange,
    ) -> (res: Option<LuaDeclId>)
        ensures
            res is None,
    {
        let res: Option<LuaDeclId> = None;
        self.asked = Ghost(
            self.asked@.push(
                Exchange::aside(Call::GetLocalReferenceDecl { file_id, range }, Reply::DeclId(res)),
            ),
        );
        res
    }

    fn has_member(
        &mut self,
        member_id: LuaMemberId,
    ) -> (res: bool)
        ensures
            !res,
    {
        let res = false;
        self.asked = Ghost(
            self.asked@.push(
                Exchange::aside(Call::HasMember { member_id }, Reply::Truth(res)),
            ),
        );
        res
    }

    fn is_meta_file(
        &mut self,
        file_id: FileId,
    ) -> (res: bool)
        ensures
            !res,
    {
        let res = false;
        self.asked = Ghost(
            self.asked@.push(
                Exchange::aside(Call::IsMetaFile { file_id }, Reply::Truth(res)),
            ),
        );
        res
    }

    fn bind_index_type(
        &mut self,
        owner: LuaTypeOwner,
        type_cache: LuaTypeCache,
    )
    {
        self.asked = Ghost(
            self.asked@.push(
                Exchange::aside(Call::BindIndexType { owner, type_cache }, Reply::Done),
            ),
        );
    }

    fn bind_type(
        &mut self,
        owner: LuaTypeOwner,
        type_cache: LuaTypeCache,
    )
    {
        self.asked = Ghost(
            self.asked@.push(
                Exchange::aside(Call::BindType { owner, type_cache }, Reply::Done),
            ),
        );
    }

    fn add_unresolve(
        &mut self,
        unresolve: UnResolve,
        reason: InferFailReason,
    )
    {
        self.asked = Ghost(
            self.asked@.push(
                Exchange::aside(Call::AddUnresolve { unresolve, reason }, Reply::Done),
            ),
        );
    }

    fn set_member_owner(
        &mut self,
        owner: LuaMemberOwner,
        file_id: FileId,
        member_id: LuaMemberId,
    )
    {
        self.asked = Ghost(
            self.asked@.push(
                Exchange::aside(Call::SetMemberOwner { owner, file_id, member_id }, Reply::Done),
            ),
        );
    }

    fn add_member(
        &mut self,
        owner: LuaMemberOwner,
        member_id: LuaMemberId,
    )
    {
        self.asked = Ghost(
            self.asked@.push(
                Exchange::aside(Call::AddMember { owner, member_id }, Reply::Done),
            ),
        );
    }

    fn add_index_member(
        &mut self,
        owner: LuaMemberOwner,
        member: LuaMember,
    )
    {
        self.asked = Ghost(
            self.asked@.push(
                Exchange::aside(Call::AddIndexMember { owner, member }, Reply::Done),
            ),
        );
    }
}

} // verus!
