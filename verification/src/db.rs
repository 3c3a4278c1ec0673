//! The database that the analysis works against.
//!
//! What expressions and types mean is known to a [`SemanticModel`], which the embedding program
//! supplies.  A model has a ghost log of what it was asked, to which each of its methods adds the
//! call and the reply; nothing else is taken for granted about what a model replies or does to the
//! cache.  A [`DbIndex`] passes calls on to the model, and contracts speak about the model's log.
//! The meaning of an operation is a function on a [`Replay`], a log that is read from a position
//! on, and every operation promises that the meaning, read off any log that extends the one it left
//! behind, is what the operation did: it made just those calls, in that order, with those
//! arguments, and came to that result.

use std::sync::Arc;

use vstd::prelude::*;

use crate::cache::{CacheView, LuaInferCache};
use crate::condition_flow::{
    ConditionFlowAction, CorrelatedConditionNarrowing, InferConditionFlow,
    PendingCorrelatedCondition,
};
use crate::flow_tree::FlowTree;
use crate::ids::{
    FileId, FlowId, LuaDeclId, LuaMemberId, LuaSignatureId, LuaTypeOwner, TextRange, VarRefId,
};
use crate::infer::{
    InferFailReason, InferResult, LuaDecl, LuaMember, LuaMemberInfo, LuaMemberKey, LuaMemberOwner,
    LuaSignature, LuaSignatureCast, LuaTypeCache, ResultTypeOrContinue, TypeOps, UnResolve,
};
use crate::syntax::{
    LuaBinaryExpr, LuaCallExpr, LuaChunk, LuaDocTagCast, LuaExpr, LuaIndexKey, LuaIndexMemberExpr,
};
use crate::types::{LuaFunctionType, LuaType};

verus! {

/// What the analysis asks of the embedding program.  A model is free in what it replies; all that a
/// method promises is that the call and the reply are added to the log.
pub trait SemanticModel {
    /// Everything that the model was asked so far, with what it replied.
    spec fn asked(&self) -> Log;

    /// The type of an expression.
    fn infer_expr(
        &mut self,
        cache: &mut LuaInferCache,
        expr: &LuaExpr,
    ) -> (res: InferResult)
        ensures
            final(self).asked() == old(self).asked().push(
                Exchange::with_cache(
                    Call::InferExpr { expr: *expr },
                    Reply::Infer(res),
                    old(cache)@,
                    final(cache)@,
                ),
            ),
    ;

    /// The type of value `idx` of an expression list, where the list has that many values.
    fn infer_expr_list_value_type_at(
        &mut self,
        cache: &mut LuaInferCache,
        exprs: &Vec<LuaExpr>,
        idx: usize,
    ) -> (res: Result<Option<LuaType>, InferFailReason>)
        ensures
            final(self).asked() == old(self).asked().push(
                Exchange::with_cache(
                    Call::InferExprListValueTypeAt { exprs: exprs@, idx },
                    Reply::InferValue(res),
                    old(cache)@,
                    final(cache)@,
                ),
            ),
    ;

    /// The type of the member of `prefix_type` that `idx` names.
    fn infer_member_by_member_key(
        &mut self,
        cache: &mut LuaInferCache,
        prefix_type: &LuaType,
        idx: &LuaIndexMemberExpr,
    ) -> (res: InferResult)
        ensures
            final(self).asked() == old(self).asked().push(
                Exchange::with_cache(
                    Call::InferMemberByMemberKey { prefix_type: *prefix_type, idx: *idx },
                    Reply::Infer(res),
                    old(cache)@,
                    final(cache)@,
                ),
            ),
    ;

    /// The function that a call resolves to, with its type parameters filled in.
    fn infer_call_expr_func(
        &mut self,
        cache: &mut LuaInferCache,
        call_expr: &LuaCallExpr,
        func_type: &LuaFunctionType,
    ) -> (res: Result<Arc<LuaFunctionType>, InferFailReason>)
        ensures
            final(self).asked() == old(self).asked().push(
                Exchange::with_cache(
                    Call::InferCallExprFunc { call_expr: *call_expr, func_type: *func_type },
                    Reply::Func(res),
                    old(cache)@,
                    final(cache)@,
                ),
            ),
    ;

    /// The declared type of a reference.
    fn get_var_ref_type(
        &mut self,
        cache: &mut LuaInferCache,
        var_ref_id: &VarRefId,
    ) -> (res: InferResult)
        ensures
            final(self).asked() == old(self).asked().push(
                Exchange::with_cache(
                    Call::GetVarRefType { var_ref_id: *var_ref_id },
                    Reply::Infer(res),
                    old(cache)@,
                    final(cache)@,
                ),
            ),
    ;

    /// What a variable expression refers to.
    fn get_var_expr_var_ref_id(
        &mut self,
        cache: &mut LuaInferCache,
        expr: &LuaExpr,
    ) -> (res: Option<VarRefId>)
        ensures
            final(self).asked() == old(self).asked().push(
                Exchange::with_cache(
                    Call::GetVarExprVarRefId { expr: *expr },
                    Reply::VarRef(res),
                    old(cache)@,
                    final(cache)@,
                ),
            ),
    ;

    /// What a comparison or a logical operation says about a reference.
    fn get_type_at_binary_expr(
        &mut self,
        cache: &mut LuaInferCache,
        tree: &FlowTree,
        root: &LuaChunk,
        var_ref_id: &VarRefId,
        flow_id: FlowId,
        binary_expr: &LuaBinaryExpr,
        condition_flow: InferConditionFlow,
    ) -> (res: Result<ConditionFlowAction, InferFailReason>)
        ensures
            final(self).asked() == old(self).asked().push(
                Exchange::with_cache(
                    Call::GetTypeAtBinaryExpr {
                        tree: *tree,
                        root: *root,
                        var_ref_id: *var_ref_id,
                        flow_id,
                        binary_expr: *binary_expr,
                        condition_flow,
                    },
                    Reply::Action(res),
                    old(cache)@,
                    final(cache)@,
                ),
            ),
    ;

    /// What follows for a reference when the discriminant of an overloaded return has the given
    /// type.
    fn prepare_var_from_return_overload_condition(
        &mut self,
        cache: &mut LuaInferCache,
        tree: &FlowTree,
        root: &LuaChunk,
        var_ref_id: &VarRefId,
        discriminant_decl_id: LuaDeclId,
        condition_position: u32,
        antecedent_flow_id: FlowId,
        discriminant_type: &LuaType,
    ) -> (res: Result<ConditionFlowAction, InferFailReason>)
        ensures
            final(self).asked() == old(self).asked().push(
                Exchange::with_cache(
                    Call::PrepareVarFromReturnOverloadCondition {
                        tree: *tree,
                        root: *root,
                        var_ref_id: *var_ref_id,
                        discriminant_decl_id,
                        condition_position,
                        antecedent_flow_id,
                        discriminant_type: *discriminant_type,
                    },
                    Reply::Action(res),
                    old(cache)@,
                    final(cache)@,
                ),
            ),
    ;

    /// Goes on with a correlated condition, and says what the condition tells then.
    fn resume_correlated_condition(
        &mut self,
        cache: &mut LuaInferCache,
        tree: &FlowTree,
        root: &LuaChunk,
        var_ref_id: &VarRefId,
        flow_id: FlowId,
        pending: PendingCorrelatedCondition,
    ) -> (res: Result<ConditionFlowAction, InferFailReason>)
        ensures
            final(self).asked() == old(self).asked().push(
                Exchange::with_cache(
                    Call::ResumeCorrelatedCondition {
                        tree: *tree,
                        root: *root,
                        var_ref_id: *var_ref_id,
                        flow_id,
                        pending,
                    },
                    Reply::Action(res),
                    old(cache)@,
                    final(cache)@,
                ),
            ),
    ;

    /// What a `@cast` tag says about a reference.
    fn get_type_at_cast_flow(
        &mut self,
        cache: &mut LuaInferCache,
        tree: &FlowTree,
        root: &LuaChunk,
        var_ref_id: &VarRefId,
        flow_id: FlowId,
        tag_cast: &LuaDocTagCast,
    ) -> (res: Result<ResultTypeOrContinue, InferFailReason>)
        ensures
            final(self).asked() == old(self).asked().push(
                Exchange::with_cache(
                    Call::GetTypeAtCastFlow {
                        tree: *tree,
                        root: *root,
                        var_ref_id: *var_ref_id,
                        flow_id,
                        tag_cast: *tag_cast,
                    },
                    Reply::Walk(res),
                    old(cache)@,
                    final(cache)@,
                ),
            ),
    ;

    /// The member key that an index key stands for.
    fn member_key_from_index_key(
        &mut self,
        cache: &mut LuaInferCache,
        key: &LuaIndexKey,
    ) -> (res: Result<LuaMemberKey, InferFailReason>)
        ensures
            final(self).asked() == old(self).asked().push(
                Exchange::with_cache(
                    Call::MemberKeyFromIndexKey { key: *key },
                    Reply::MemberKey(res),
                    old(cache)@,
                    final(cache)@,
                ),
            ),
    ;

    /// The union, the intersection or the difference of two types.
    fn apply_type_op(
        &mut self,
        op: TypeOps,
        left: &LuaType,
        right: &LuaType,
    ) -> (res: LuaType)
        ensures
            final(self).asked() == old(self).asked().push(
                Exchange::aside(
                    Call::ApplyTypeOp { op, left: *left, right: *right },
                    Reply::Type(res),
                ),
            ),
    ;

    /// `source` narrowed to what `target` allows, where they agree at all.
    fn narrow_down_type(
        &mut self,
        source: &LuaType,
        target: &LuaType,
        declared: Option<LuaType>,
    ) -> (res: Option<LuaType>)
        ensures
            final(self).asked() == old(self).asked().push(
                Exchange::aside(
                    Call::NarrowDownType { source: *source, target: *target, declared },
                    Reply::OptType(res),
                ),
            ),
    ;

    /// The part of a type that counts as false.
    fn narrow_false_or_nil(
        &mut self,
        typ: &LuaType,
    ) -> (res: LuaType)
        ensures
            final(self).asked() == old(self).asked().push(
                Exchange::aside(Call::NarrowFalseOrNil { typ: *typ }, Reply::Type(res)),
            ),
    ;

    /// The part of a type that counts as true.
    fn remove_false_or_nil(
        &mut self,
        typ: &LuaType,
    ) -> (res: LuaType)
        ensures
            final(self).asked() == old(self).asked().push(
                Exchange::aside(Call::RemoveFalseOrNil { typ: *typ }, Reply::Type(res)),
            ),
    ;

    /// A type narrowed by a comparison with a value of another.
    fn narrow_eq_condition(
        &mut self,
        typ: &LuaType,
        right_expr_type: &LuaType,
        condition_flow: InferConditionFlow,
        allow_literal_equivalence: bool,
    ) -> (res: LuaType)
        ensures
            final(self).asked() == old(self).asked().push(
                Exchange::aside(
                    Call::NarrowEqCondition {
                        typ: *typ,
                        right_expr_type: *right_expr_type,
                        condition_flow,
                        allow_literal_equivalence,
                    },
                    Reply::Type(res),
                ),
            ),
    ;

    /// A type narrowed by the rows of an overloaded return.
    fn apply_correlated_narrowing(
        &mut self,
        narrowing: CorrelatedConditionNarrowing,
        typ: &LuaType,
    ) -> (res: LuaType)
        ensures
            final(self).asked() == old(self).asked().push(
                Exchange::aside(
                    Call::ApplyCorrelatedNarrowing { narrowing, typ: *typ },
                    Reply::Type(res),
                ),
            ),
    ;

    /// Whether a value of `expr_type` fits where `source_type` is expected.
    fn is_type_compatible(
        &mut self,
        source_type: &LuaType,
        expr_type: &LuaType,
    ) -> (res: bool)
        ensures
            final(self).asked() == old(self).asked().push(
                Exchange::aside(
                    Call::IsTypeCompatible { source_type: *source_type, expr_type: *expr_type },
                    Reply::Truth(res),
                ),
            ),
    ;

    /// The members of a type, where it can have any.
    fn find_members(
        &mut self,
        typ: &LuaType,
    ) -> (res: Option<Vec<LuaMemberInfo>>)
        ensures
            final(self).asked() == old(self).asked().push(
                Exchange::aside(Call::FindMembers { typ: *typ }, Reply::Members(opt_seq(res))),
            ),
    ;

    /// The one type that stands for several.
    fn type_from_vec(
        &mut self,
        types: Vec<LuaType>,
    ) -> (res: LuaType)
        ensures
            final(self).asked() == old(self).asked().push(
                Exchange::aside(Call::TypeFromVec { types: types@ }, Reply::Type(res)),
            ),
    ;

    /// Whether every value of a type counts as false.
    fn is_always_falsy(
        &mut self,
        typ: &LuaType,
    ) -> (res: bool)
        ensures
            final(self).asked() == old(self).asked().push(
                Exchange::aside(Call::IsAlwaysFalsy { typ: *typ }, Reply::Truth(res)),
            ),
    ;

    /// Whether a type mentions a type parameter.
    fn contain_tpl(
        &mut self,
        typ: &LuaType,
    ) -> (res: bool)
        ensures
            final(self).asked() == old(self).asked().push(
                Exchange::aside(Call::ContainTpl { typ: *typ }, Reply::Truth(res)),
            ),
    ;

    /// Whether a type stands for several values.
    fn contain_multi_return(
        &mut self,
        typ: &LuaType,
    ) -> (res: bool)
        ensures
            final(self).asked() == old(self).asked().push(
                Exchange::aside(Call::ContainMultiReturn { typ: *typ }, Reply::Truth(res)),
            ),
    ;

    /// The type of value `idx` of what a type stands for.
    fn get_result_slot_type(
        &mut self,
        typ: &LuaType,
        idx: usize,
    ) -> (res: Option<LuaType>)
        ensures
            final(self).asked() == old(self).asked().push(
                Exchange::aside(Call::GetResultSlotType { typ: *typ, idx }, Reply::OptType(res)),
            ),
    ;

    /// The type that the type index holds for an owner.
    fn get_type_cache(
        &mut self,
        owner: LuaTypeOwner,
    ) -> (res: Option<LuaTypeCache>)
        ensures
            final(self).asked() == old(self).asked().push(
                Exchange::aside(Call::GetTypeCache { owner }, Reply::TypeCache(res)),
            ),
    ;

    /// The cast that a call of a function implies.
    fn get_signature_cast(
        &mut self,
        signature_id: LuaSignatureId,
    ) -> (res: Option<Arc<LuaSignatureCast>>)
        ensures
            final(self).asked() == old(self).asked().push(
                Exchange::aside(Call::GetSignatureCast { signature_id }, Reply::SignatureCast(res)),
            ),
    ;

    /// A signature of the signature index.
    fn get_signature(
        &mut self,
        signature_id: LuaSignatureId,
    ) -> (res: Option<Arc<LuaSignature>>)
        ensures
            final(self).asked() == old(self).asked().push(
                Exchange::aside(Call::GetSignature { signature_id }, Reply::Signature(res)),
            ),
    ;

    /// The syntax tree of a file.
    fn get_syntax_tree(
        &mut self,
        file_id: FileId,
    ) -> (res: Option<Arc<LuaChunk>>)
        ensures
            final(self).asked() == old(self).asked().push(
                Exchange::aside(Call::GetSyntaxTree { file_id }, Reply::Chunk(res)),
            ),
    ;

    /// The declaration that a name refers to.
    fn get_var_reference_decl(
        &mut self,
        file_id: FileId,
        range: TextRange,
    ) -> (res: Option<LuaDeclId>)
        ensures
            final(self).asked() == old(self).asked().push(
                Exchange::aside(Call::GetVarReferenceDecl { file_id, range }, Reply::DeclId(res)),
            ),
    ;

    /// A declaration of the declaration index.
    fn get_decl(
        &mut self,
        decl_id: LuaDeclId,
    ) -> (res: Option<LuaDecl>)
        ensures
            final(self).asked() == old(self).asked().push(
                Exchange::aside(Call::GetDecl { decl_id }, Reply::Decl(res)),
            ),
    ;

    /// The declaration that a name has at a position of a file.
    fn find_local_decl(
        &mut self,
        file_id: FileId,
        name: &String,
        position: u32,
    ) -> (res: Option<LuaDecl>)
        ensures
            final(self).asked() == old(self).asked().push(
                Exchange::aside(
                    Call::FindLocalDecl { file_id, name: name@, position },
                    Reply::Decl(res),
                ),
            ),
    ;

    /// The declarations of a global.
    fn get_global_decl_ids(
        &mut self,
        name: &String,
    ) -> (res: Option<Vec<LuaDeclId>>)
        ensures
            final(self).asked() == old(self).asked().push(
                Exchange::aside(
                    Call::GetGlobalDeclIds { name: name@ },
                    Reply::DeclIds(opt_seq(res)),
                ),
            ),
    ;

    /// A parameter of an attribute that a declaration carries.
    fn get_attribute_param(
        &mut self,
        decl_id: LuaDeclId,
        attribute: &str,
        param: &str,
    ) -> (res: Option<LuaType>)
        ensures
            final(self).asked() == old(self).asked().push(
                Exchange::aside(
                    Call::GetAttributeParam { decl_id, attribute: attribute@, param: param@ },
                    Reply::OptType(res),
                ),
            ),
    ;

    /// The declaration that the local references of a file give for a name.
    fn get_local_reference_decl(
        &mut self,
        file_id: FileId,
        range: TextRange,
    ) -> (res: Option<LuaDeclId>)
        ensures
            final(self).asked() == old(self).asked().push(
                Exchange::aside(Call::GetLocalReferenceDecl { file_id, range }, Reply::DeclId(res)),
            ),
    ;

    /// Whether the member index holds a member.
    fn has_member(
        &mut self,
        member_id: LuaMemberId,
    ) -> (res: bool)
        ensures
            final(self).asked() == old(self).asked().push(
                Exchange::aside(Call::HasMember { member_id }, Reply::Truth(res)),
            ),
    ;

    /// Whether a file only declares.
    fn is_meta_file(
        &mut self,
        file_id: FileId,
    ) -> (res: bool)
        ensures
            final(self).asked() == old(self).asked().push(
                Exchange::aside(Call::IsMetaFile { file_id }, Reply::Truth(res)),
            ),
    ;

    /// Files the type of an owner in the type index.
    fn bind_index_type(
        &mut self,
        owner: LuaTypeOwner,
        type_cache: LuaTypeCache,
    )
        ensures
            final(self).asked() == old(self).asked().push(
                Exchange::aside(Call::BindIndexType { owner, type_cache }, Reply::Done),
            ),
    ;

    /// Binds the type of an owner, merging it with what is known.
    fn bind_type(
        &mut self,
        owner: LuaTypeOwner,
        type_cache: LuaTypeCache,
    )
        ensures
            final(self).asked() == old(self).asked().push(
                Exchange::aside(Call::BindType { owner, type_cache }, Reply::Done),
            ),
    ;

    /// Notes that something waits to be resolved, and why.
    fn add_unresolve(
        &mut self,
        unresolve: UnResolve,
        reason: InferFailReason,
    )
        ensures
            final(self).asked() == old(self).asked().push(
                Exchange::aside(Call::AddUnresolve { unresolve, reason }, Reply::Done),
            ),
    ;

    /// Files a member under an owner in the member index.
    fn set_member_owner(
        &mut self,
        owner: LuaMemberOwner,
        file_id: FileId,
        member_id: LuaMemberId,
    )
        ensures
            final(self).asked() == old(self).asked().push(
                Exchange::aside(Call::SetMemberOwner { owner, file_id, member_id }, Reply::Done),
            ),
    ;

    /// Makes a member part of an owner.
    fn add_member(
        &mut self,
        owner: LuaMemberOwner,
        member_id: LuaMemberId,
    )
        ensures
            final(self).asked() == old(self).asked().push(
                Exchange::aside(Call::AddMember { owner, member_id }, Reply::Done),
            ),
    ;

    /// Adds a new member of an owner to the member index.
    fn add_index_member(
        &mut self,
        owner: LuaMemberOwner,
        member: LuaMember,
    )
        ensures
            final(self).asked() == old(self).asked().push(
                Exchange::aside(Call::AddIndexMember { owner, member }, Reply::Done),
            ),
    ;

}

/// A call of a model, with its arguments.
pub enum Call {
    InferExpr { expr: LuaExpr },
    InferExprListValueTypeAt { exprs: Seq<LuaExpr>, idx: usize },
    InferMemberByMemberKey { prefix_type: LuaType, idx: LuaIndexMemberExpr },
    InferCallExprFunc { call_expr: LuaCallExpr, func_type: LuaFunctionType },
    GetVarRefType { var_ref_id: VarRefId },
    GetVarExprVarRefId { expr: LuaExpr },
    GetTypeAtBinaryExpr {
        tree: FlowTree,
        root: LuaChunk,
        var_ref_id: VarRefId,
        flow_id: FlowId,
        binary_expr: LuaBinaryExpr,
        condition_flow: InferConditionFlow,
    },
    PrepareVarFromReturnOverloadCondition {
        tree: FlowTree,
        root: LuaChunk,
        var_ref_id: VarRefId,
        discriminant_decl_id: LuaDeclId,
        condition_position: u32,
        antecedent_flow_id: FlowId,
        discriminant_type: LuaType,
    },
    ResumeCorrelatedCondition {
        tree: FlowTree,
        root: LuaChunk,
        var_ref_id: VarRefId,
        flow_id: FlowId,
        pending: PendingCorrelatedCondition,
    },
    GetTypeAtCastFlow {
        tree: FlowTree,
        root: LuaChunk,
        var_ref_id: VarRefId,
        flow_id: FlowId,
        tag_cast: LuaDocTagCast,
    },
    MemberKeyFromIndexKey { key: LuaIndexKey },
    ApplyTypeOp { op: TypeOps, left: LuaType, right: LuaType },
    NarrowDownType { source: LuaType, target: LuaType, declared: Option<LuaType> },
    NarrowFalseOrNil { typ: LuaType },
    RemoveFalseOrNil { typ: LuaType },
    NarrowEqCondition {
        typ: LuaType,
        right_expr_type: LuaType,
        condition_flow: InferConditionFlow,
        allow_literal_equivalence: bool,
    },
    ApplyCorrelatedNarrowing { narrowing: CorrelatedConditionNarrowing, typ: LuaType },
    IsTypeCompatible { source_type: LuaType, expr_type: LuaType },
    FindMembers { typ: LuaType },
    TypeFromVec { types: Seq<LuaType> },
    IsAlwaysFalsy { typ: LuaType },
    ContainTpl { typ: LuaType },
    ContainMultiReturn { typ: LuaType },
    GetResultSlotType { typ: LuaType, idx: usize },
    GetTypeCache { owner: LuaTypeOwner },
    GetSignatureCast { signature_id: LuaSignatureId },
    GetSignature { signature_id: LuaSignatureId },
    GetSyntaxTree { file_id: FileId },
    GetVarReferenceDecl { file_id: FileId, range: TextRange },
    GetDecl { decl_id: LuaDeclId },
    FindLocalDecl { file_id: FileId, name: Seq<char>, position: u32 },
    GetGlobalDeclIds { name: Seq<char> },
    GetAttributeParam { decl_id: LuaDeclId, attribute: Seq<char>, param: Seq<char> },
    GetLocalReferenceDecl { file_id: FileId, range: TextRange },
    HasMember { member_id: LuaMemberId },
    IsMetaFile { file_id: FileId },
    BindIndexType { owner: LuaTypeOwner, type_cache: LuaTypeCache },
    BindType { owner: LuaTypeOwner, type_cache: LuaTypeCache },
    AddUnresolve { unresolve: UnResolve, reason: InferFailReason },
    SetMemberOwner { owner: LuaMemberOwner, file_id: FileId, member_id: LuaMemberId },
    AddMember { owner: LuaMemberOwner, member_id: LuaMemberId },
    AddIndexMember { owner: LuaMemberOwner, member: LuaMember },
}

/// What a model replied.
pub enum Reply {
    Infer(InferResult),
    InferValue(Result<Option<LuaType>, InferFailReason>),
    Func(Result<Arc<LuaFunctionType>, InferFailReason>),
    VarRef(Option<VarRefId>),
    Action(Result<ConditionFlowAction, InferFailReason>),
    Walk(Result<ResultTypeOrContinue, InferFailReason>),
    MemberKey(Result<LuaMemberKey, InferFailReason>),
    Type(LuaType),
    OptType(Option<LuaType>),
    Truth(bool),
    Members(Option<Seq<LuaMemberInfo>>),
    TypeCache(Option<LuaTypeCache>),
    SignatureCast(Option<Arc<LuaSignatureCast>>),
    Signature(Option<Arc<LuaSignature>>),
    Chunk(Option<Arc<LuaChunk>>),
    DeclId(Option<LuaDeclId>),
    Decl(Option<LuaDecl>),
    DeclIds(Option<Seq<LuaDeclId>>),
    Done,
}

/// One call and its reply.  `cache` is the inference cache as the model got it and as it left it,
/// where the call hands the cache on.
pub struct Exchange {
    pub call: Call,
    pub reply: Reply,
    pub cache: Option<(CacheView, CacheView)>,
}

impl Exchange {
    /// A call that has nothing to do with the cache.
    pub open spec fn aside(call: Call, reply: Reply) -> Exchange {
        Exchange { call, reply, cache: None }
    }

    /// A call that hands the cache on.
    pub open spec fn with_cache(
        call: Call,
        reply: Reply,
        before: CacheView,
        after: CacheView,
    ) -> Exchange {
        Exchange { call, reply, cache: Some((before, after)) }
    }
}

pub type Log = Seq<Exchange>;

/// Whether `full` starts with all of `part`.
pub open spec fn extends(full: Log, part: Log) -> bool {
    &&& part.len() <= full.len()
    &&& full.take(part.len() as int) == part
}

pub broadcast proof fn lemma_extends_is_transitive(a: Log, b: Log, c: Log)
    requires
        #[trigger] extends(a, b),
        #[trigger] extends(b, c),
    ensures
        extends(a, c),
{
    assert(a.take(c.len() as int) =~= b.take(c.len() as int));
}

pub broadcast proof fn lemma_extends_is_reflexive(a: Log)
    ensures
        #[trigger] extends(a, a),
{
    assert(a.take(a.len() as int) =~= a);
}

/// A log read from a position on, together with what the calls in it change.
pub struct Replay {
    pub log: Log,
    pub at: int,
    /// Whether every call so far is the one that stands in the log.
    pub faithful: bool,
    pub cache: CacheView,
    /// How many more steps are allowed.
    pub steps: nat,
}

impl Replay {
    /// A call that hands the cache on.
    pub open spec fn ask(self, call: Call) -> (Reply, Replay) {
        if 0 <= self.at < self.log.len() && self.log[self.at].call == call
            && self.log[self.at].cache is Some && (self.log[self.at].cache->0).0 == self.cache {
            (
                self.log[self.at].reply,
                Replay { at: self.at + 1, cache: (self.log[self.at].cache->0).1, ..self },
            )
        } else {
            (Reply::Done, Replay { faithful: false, ..self })
        }
    }

    /// A call that has nothing to do with the cache.
    pub open spec fn ask_aside(self, call: Call) -> (Reply, Replay) {
        if 0 <= self.at < self.log.len() && self.log[self.at].call == call {
            (self.log[self.at].reply, Replay { at: self.at + 1, ..self })
        } else {
            (Reply::Done, Replay { faithful: false, ..self })
        }
    }

    /// One step less.
    pub open spec fn ticked(self) -> Replay {
        Replay { steps: (self.steps - 1) as nat, ..self }
    }

    /// The replay with no more steps than `limit` allows.  Steps are only ever used up, so this
    /// changes nothing; it makes that evident to definitions that recur on the steps.
    pub open spec fn capped(self, limit: Replay) -> Replay {
        if self.steps <= limit.steps {
            self
        } else {
            Replay { steps: limit.steps, ..self }
        }
    }

    pub open spec fn with_cache(self, cache: CacheView) -> Replay {
        Replay { cache, ..self }
    }

    /// The replay with more steps.
    pub open spec fn with_more(self, extra: nat) -> Replay {
        Replay { steps: self.steps + extra, ..self }
    }

    pub open spec fn infer_expr(self, expr: LuaExpr) -> (InferResult, Replay) {
        let (reply, next) = self.ask(Call::InferExpr { expr });
        (reply->Infer_0, next)
    }

    pub open spec fn infer_expr_list_value_type_at(
        self,
        exprs: Seq<LuaExpr>,
        idx: usize,
    ) -> (Result<Option<LuaType>, InferFailReason>, Replay) {
        let (reply, next) = self.ask(Call::InferExprListValueTypeAt { exprs, idx });
        (reply->InferValue_0, next)
    }

    pub open spec fn infer_member_by_member_key(
        self,
        prefix_type: LuaType,
        idx: LuaIndexMemberExpr,
    ) -> (InferResult, Replay) {
        let (reply, next) = self.ask(Call::InferMemberByMemberKey { prefix_type, idx });
        (reply->Infer_0, next)
    }

    pub open spec fn infer_call_expr_func(
        self,
        call_expr: LuaCallExpr,
        func_type: LuaFunctionType,
    ) -> (Result<Arc<LuaFunctionType>, InferFailReason>, Replay) {
        let (reply, next) = self.ask(Call::InferCallExprFunc { call_expr, func_type });
        (reply->Func_0, next)
    }

    pub open spec fn get_var_ref_type(self, var_ref_id: VarRefId) -> (InferResult, Replay) {
        let (reply, next) = self.ask(Call::GetVarRefType { var_ref_id });
        (reply->Infer_0, next)
    }

    pub open spec fn get_var_expr_var_ref_id(self, expr: LuaExpr) -> (Option<VarRefId>, Replay) {
        let (reply, next) = self.ask(Call::GetVarExprVarRefId { expr });
        (reply->VarRef_0, next)
    }

    pub open spec fn get_type_at_binary_expr(
        self,
        tree: FlowTree,
        root: LuaChunk,
        var_ref_id: VarRefId,
        flow_id: FlowId,
        binary_expr: LuaBinaryExpr,
        condition_flow: InferConditionFlow,
    ) -> (Result<ConditionFlowAction, InferFailReason>, Replay) {
        let (reply, next) = self.ask(
            Call::GetTypeAtBinaryExpr {
                tree,
                root,
                var_ref_id,
                flow_id,
                binary_expr,
                condition_flow,
            },
        );
        (reply->Action_0, next)
    }

    pub open spec fn prepare_var_from_return_overload_condition(
        self,
        tree: FlowTree,
        root: LuaChunk,
        var_ref_id: VarRefId,
        discriminant_decl_id: LuaDeclId,
        condition_position: u32,
        antecedent_flow_id: FlowId,
        discriminant_type: LuaType,
    ) -> (Result<ConditionFlowAction, InferFailReason>, Replay) {
        let (reply, next) = self.ask(
            Call::PrepareVarFromReturnOverloadCondition {
                tree,
                root,
                var_ref_id,
                discriminant_decl_id,
                condition_position,
                antecedent_flow_id,
                discriminant_type,
            },
        );
        (reply->Action_0, next)
    }

    pub open spec fn resume_correlated_condition(
        self,
        tree: FlowTree,
        root: LuaChunk,
        var_ref_id: VarRefId,
        flow_id: FlowId,
        pending: PendingCorrelatedCondition,
    ) -> (Result<ConditionFlowAction, InferFailReason>, Replay) {
        let (reply, next) = self.ask(
            Call::ResumeCorrelatedCondition { tree, root, var_ref_id, flow_id, pending },
        );
        (reply->Action_0, next)
    }

    pub open spec fn get_type_at_cast_flow(
        self,
        tree: FlowTree,
        root: LuaChunk,
        var_ref_id: VarRefId,
        flow_id: FlowId,
        tag_cast: LuaDocTagCast,
    ) -> (Result<ResultTypeOrContinue, InferFailReason>, Replay) {
        let (reply, next) = self.ask(
            Call::GetTypeAtCastFlow { tree, root, var_ref_id, flow_id, tag_cast },
        );
        (reply->Walk_0, next)
    }

    pub open spec fn member_key_from_index_key(
        self,
        key: LuaIndexKey,
    ) -> (Result<LuaMemberKey, InferFailReason>, Replay) {
        let (reply, next) = self.ask(Call::MemberKeyFromIndexKey { key });
        (reply->MemberKey_0, next)
    }

    pub open spec fn apply_type_op(
        self,
        op: TypeOps,
        left: LuaType,
        right: LuaType,
    ) -> (LuaType, Replay) {
        let (reply, next) = self.ask_aside(Call::ApplyTypeOp { op, left, right });
        (reply->Type_0, next)
    }

    pub open spec fn narrow_down_type(
        self,
        source: LuaType,
        target: LuaType,
        declared: Option<LuaType>,
    ) -> (Option<LuaType>, Replay) {
        let (reply, next) = self.ask_aside(Call::NarrowDownType { source, target, declared });
        (reply->OptType_0, next)
    }

    pub open spec fn narrow_false_or_nil(self, typ: LuaType) -> (LuaType, Replay) {
        let (reply, next) = self.ask_aside(Call::NarrowFalseOrNil { typ });
        (reply->Type_0, next)
    }

    pub open spec fn remove_false_or_nil(self, typ: LuaType) -> (LuaType, Replay) {
        let (reply, next) = self.ask_aside(Call::RemoveFalseOrNil { typ });
        (reply->Type_0, next)
    }

    pub open spec fn narrow_eq_condition(
        self,
        typ: LuaType,
        right_expr_type: LuaType,
        condition_flow: InferConditionFlow,
        allow_literal_equivalence: bool,
    ) -> (LuaType, Replay) {
        let (reply, next) = self.ask_aside(
            Call::NarrowEqCondition {
                typ,
                right_expr_type,
                condition_flow,
                allow_literal_equivalence,
            },
        );
        (reply->Type_0, next)
    }

    pub open spec fn apply_correlated_narrowing(
        self,
        narrowing: CorrelatedConditionNarrowing,
        typ: LuaType,
    ) -> (LuaType, Replay) {
        let (reply, next) = self.ask_aside(Call::ApplyCorrelatedNarrowing { narrowing, typ });
        (reply->Type_0, next)
    }

    pub open spec fn is_type_compatible(
        self,
        source_type: LuaType,
        expr_type: LuaType,
    ) -> (bool, Replay) {
        let (reply, next) = self.ask_aside(Call::IsTypeCompatible { source_type, expr_type });
        (reply->Truth_0, next)
    }

    pub open spec fn find_members(self, typ: LuaType) -> (Option<Seq<LuaMemberInfo>>, Replay) {
        let (reply, next) = self.ask_aside(Call::FindMembers { typ });
        (reply->Members_0, next)
    }

    pub open spec fn type_from_vec(self, types: Seq<LuaType>) -> (LuaType, Replay) {
        let (reply, next) = self.ask_aside(Call::TypeFromVec { types });
        (reply->Type_0, next)
    }

    pub open spec fn is_always_falsy(self, typ: LuaType) -> (bool, Replay) {
        let (reply, next) = self.ask_aside(Call::IsAlwaysFalsy { typ });
        (reply->Truth_0, next)
    }

    pub open spec fn contain_tpl(self, typ: LuaType) -> (bool, Replay) {
        let (reply, next) = self.ask_aside(Call::ContainTpl { typ });
        (reply->Truth_0, next)
    }

    pub open spec fn contain_multi_return(self, typ: LuaType) -> (bool, Replay) {
        let (reply, next) = self.ask_aside(Call::ContainMultiReturn { typ });
        (reply->Truth_0, next)
    }

    pub open spec fn get_result_slot_type(
        self,
        typ: LuaType,
        idx: usize,
    ) -> (Option<LuaType>, Replay) {
        let (reply, next) = self.ask_aside(Call::GetResultSlotType { typ, idx });
        (reply->OptType_0, next)
    }

    pub open spec fn get_type_cache(self, owner: LuaTypeOwner) -> (Option<LuaTypeCache>, Replay) {
        let (reply, next) = self.ask_aside(Call::GetTypeCache { owner });
        (reply->TypeCache_0, next)
    }

    pub open spec fn get_signature_cast(
        self,
        signature_id: LuaSignatureId,
    ) -> (Option<Arc<LuaSignatureCast>>, Replay) {
        let (reply, next) = self.ask_aside(Call::GetSignatureCast { signature_id });
        (reply->SignatureCast_0, next)
    }

    pub open spec fn get_signature(
        self,
        signature_id: LuaSignatureId,
    ) -> (Option<Arc<LuaSignature>>, Replay) {
        let (reply, next) = self.ask_aside(Call::GetSignature { signature_id });
        (reply->Signature_0, next)
    }

    pub open spec fn get_syntax_tree(self, file_id: FileId) -> (Option<Arc<LuaChunk>>, Replay) {
        let (reply, next) = self.ask_aside(Call::GetSyntaxTree { file_id });
        (reply->Chunk_0, next)
    }

    pub open spec fn get_var_reference_decl(
        self,
        file_id: FileId,
        range: TextRange,
    ) -> (Option<LuaDeclId>, Replay) {
        let (reply, next) = self.ask_aside(Call::GetVarReferenceDecl { file_id, range });
        (reply->DeclId_0, next)
    }

    pub open spec fn get_decl(self, decl_id: LuaDeclId) -> (Option<LuaDecl>, Replay) {
        let (reply, next) = self.ask_aside(Call::GetDecl { decl_id });
        (reply->Decl_0, next)
    }

    pub open spec fn find_local_decl(
        self,
        file_id: FileId,
        name: Seq<char>,
        position: u32,
    ) -> (Option<LuaDecl>, Replay) {
        let (reply, next) = self.ask_aside(Call::FindLocalDecl { file_id, name, position });
        (reply->Decl_0, next)
    }

    pub open spec fn get_global_decl_ids(
        self,
        name: Seq<char>,
    ) -> (Option<Seq<LuaDeclId>>, Replay) {
        let (reply, next) = self.ask_aside(Call::GetGlobalDeclIds { name });
        (reply->DeclIds_0, next)
    }

    pub open spec fn get_attribute_param(
        self,
        decl_id: LuaDeclId,
        attribute: Seq<char>,
        param: Seq<char>,
    ) -> (Option<LuaType>, Replay) {
        let (reply, next) = self.ask_aside(Call::GetAttributeParam { decl_id, attribute, param });
        (reply->OptType_0, next)
    }

    pub open spec fn get_local_reference_decl(
        self,
        file_id: FileId,
        range: TextRange,
    ) -> (Option<LuaDeclId>, Replay) {
        let (reply, next) = self.ask_aside(Call::GetLocalReferenceDecl { file_id, range });
        (reply->DeclId_0, next)
    }

    pub open spec fn has_member(self, member_id: LuaMemberId) -> (bool, Replay) {
        let (reply, next) = self.ask_aside(Call::HasMember { member_id });
        (reply->Truth_0, next)
    }

    pub open spec fn is_meta_file(self, file_id: FileId) -> (bool, Replay) {
        let (reply, next) = self.ask_aside(Call::IsMetaFile { file_id });
        (reply->Truth_0, next)
    }

    pub open spec fn bind_index_type(
        self,
        owner: LuaTypeOwner,
        type_cache: LuaTypeCache,
    ) -> Replay {
        self.ask_aside(Call::BindIndexType { owner, type_cache }).1
    }

    pub open spec fn bind_type(self, owner: LuaTypeOwner, type_cache: LuaTypeCache) -> Replay {
        self.ask_aside(Call::BindType { owner, type_cache }).1
    }

    pub open spec fn add_unresolve(self, unresolve: UnResolve, reason: InferFailReason) -> Replay {
        self.ask_aside(Call::AddUnresolve { unresolve, reason }).1
    }

    pub open spec fn set_member_owner(
        self,
        owner: LuaMemberOwner,
        file_id: FileId,
        member_id: LuaMemberId,
    ) -> Replay {
        self.ask_aside(Call::SetMemberOwner { owner, file_id, member_id }).1
    }

    pub open spec fn add_member(self, owner: LuaMemberOwner, member_id: LuaMemberId) -> Replay {
        self.ask_aside(Call::AddMember { owner, member_id }).1
    }

    pub open spec fn add_index_member(self, owner: LuaMemberOwner, member: LuaMember) -> Replay {
        self.ask_aside(Call::AddIndexMember { owner, member }).1
    }

}

/// The vector of an option as a sequence.
pub open spec fn opt_seq<T>(opt: Option<Vec<T>>) -> Option<Seq<T>> {
    match opt {
        Some(v) => Some(v@),
        None => None,
    }
}

/// A semantic model, and an allowance of steps that bounds every walk.
pub struct DbIndex<M> {
    model: M,
    steps: u64,
}

/// A log that ends with one more exchange.
proof fn lemma_recorded(log: Log, exchange: Exchange)
    ensures
        extends(log.push(exchange), log),
        forall|full: Log| #[trigger]
            extends(full, log.push(exchange)) ==> log.len() < full.len() && full[log.len() as int]
                == exchange,
{
    assert(log.push(exchange).take(log.len() as int) =~= log);
    assert forall|full: Log| #[trigger] extends(full, log.push(exchange)) implies log.len()
        < full.len() && full[log.len() as int] == exchange by {
        assert(full.take(log.len() as int + 1)[log.len() as int] == exchange);
    }
}

impl<M: SemanticModel> DbIndex<M> {
    /// Everything that the model was asked so far.
    pub open spec fn log(&self) -> Log {
        self.model().asked()
    }

    /// How many more steps are allowed.
    pub closed spec fn steps(&self) -> nat {
        self.steps as nat
    }

    /// `full`, read from the end of the log on.
    pub open spec fn replay(&self, full: Log, cache: CacheView) -> Replay {
        Replay {
            log: full,
            at: self.log().len() as int,
            faithful: true,
            cache,
            steps: self.steps(),
        }
    }

    /// The model, as the calls so far have left it.
    pub closed spec fn model(&self) -> M {
        self.model
    }

    pub fn new(model: M) -> (db: DbIndex<M>)
        ensures
            db.model() == model,
            db.log() == model.asked(),
            db.steps() == u64::MAX,
    {
        DbIndex::with_steps(model, u64::MAX)
    }

    /// A database that allows only so many steps.
    pub fn with_steps(model: M, steps: u64) -> (db: DbIndex<M>)
        ensures
            db.model() == model,
            db.log() == model.asked(),
            db.steps() == steps,
    {
        DbIndex { model, steps }
    }

    pub fn get_model(&self) -> (model: &M)
        ensures
            *model == self.model(),
    {
        &self.model
    }

    /// Uses up a step; `false` where none is left.
    pub fn tick(&mut self) -> (ticked: bool)
        ensures
            final(self).model() == old(self).model(),
            final(self).log() == old(self).log(),
            ticked == (old(self).steps() > 0),
            ticked ==> final(self).steps() == old(self).steps() - 1,
            !ticked ==> final(self).steps() == old(self).steps(),
            ticked ==> forall|full: Log, cache: CacheView|
                (#[trigger] old(self).replay(full, cache)).ticked() == final(self).replay(
                    full,
                    cache,
                ),
    {
        if self.steps == 0 {
            false
        } else {
            self.steps -= 1;
            true
        }
    }
}

impl<M: SemanticModel> DbIndex<M> {
    pub fn infer_expr(
        &mut self,
        cache: &mut LuaInferCache,
        expr: &LuaExpr,
    ) -> (res: InferResult)
        ensures
            final(self).steps() == old(self).steps(),
            extends(final(self).log(), old(self).log()),
            forall|full: Log| #[trigger]
                extends(full, final(self).log()) ==> old(self).replay(full, old(cache)@)
                    .infer_expr(*expr) == (res, final(self).replay(full, final(cache)@)),
    {
        let res = self.model.infer_expr(cache, expr);
        proof {
            lemma_recorded(old(self).log(), self.log().last());
        }
        res
    }

    pub fn infer_expr_list_value_type_at(
        &mut self,
        cache: &mut LuaInferCache,
        exprs: &Vec<LuaExpr>,
        idx: usize,
    ) -> (res: Result<Option<LuaType>, InferFailReason>)
        ensures
            final(self).steps() == old(self).steps(),
            extends(final(self).log(), old(self).log()),
            forall|full: Log| #[trigger]
                extends(full, final(self).log()) ==> old(self).replay(full, old(cache)@)
                    .infer_expr_list_value_type_at(exprs@, idx)
                    == (res, final(self).replay(full, final(cache)@)),
    {
        let res = self.model.infer_expr_list_value_type_at(cache, exprs, idx);
        proof {
            lemma_recorded(old(self).log(), self.log().last());
        }
        res
    }

    pub fn infer_member_by_member_key(
        &mut self,
        cache: &mut LuaInferCache,
        prefix_type: &LuaType,
        idx: &LuaIndexMemberExpr,
    ) -> (res: InferResult)
        ensures
            final(self).steps() == old(self).steps(),
            extends(final(self).log(), old(self).log()),
            forall|full: Log| #[trigger]
                extends(full, final(self).log()) ==> old(self).replay(full, old(cache)@)
                    .infer_member_by_member_key(*prefix_type, *idx)
                    == (res, final(self).replay(full, final(cache)@)),
    {
        let res = self.model.infer_member_by_member_key(cache, prefix_type, idx);
        proof {
            lemma_recorded(old(self).log(), self.log().last());
        }
        res
    }

    pub fn infer_call_expr_func(
        &mut self,
        cache: &mut LuaInferCache,
        call_expr: &LuaCallExpr,
        func_type: &LuaFunctionType,
    ) -> (res: Result<Arc<LuaFunctionType>, InferFailReason>)
        ensures
            final(self).steps() == old(self).steps(),
            extends(final(self).log(), old(self).log()),
            forall|full: Log| #[trigger]
                extends(full, final(self).log()) ==> old(self).replay(full, old(cache)@)
                    .infer_call_expr_func(*call_expr, *func_type)
                    == (res, final(self).replay(full, final(cache)@)),
    {
        let res = self.model.infer_call_expr_func(cache, call_expr, func_type);
        proof {
            lemma_recorded(old(self).log(), self.log().last());
        }
        res
    }

    pub fn get_var_ref_type(
        &mut self,
        cache: &mut LuaInferCache,
        var_ref_id: &VarRefId,
    ) -> (res: InferResult)
        ensures
            final(self).steps() == old(self).steps(),
            extends(final(self).log(), old(self).log()),
            forall|full: Log| #[trigger]
                extends(full, final(self).log()) ==> old(self).replay(full, old(cache)@)
                    .get_var_ref_type(*var_ref_id)
                    == (res, final(self).replay(full, final(cache)@)),
    {
        let res = self.model.get_var_ref_type(cache, var_ref_id);
        proof {
            lemma_recorded(old(self).log(), self.log().last());
        }
        res
    }

    pub fn get_var_expr_var_ref_id(
        &mut self,
        cache: &mut LuaInferCache,
        expr: &LuaExpr,
    ) -> (res: Option<VarRefId>)
        ensures
            final(self).steps() == old(self).steps(),
            extends(final(self).log(), old(self).log()),
            forall|full: Log| #[trigger]
                extends(full, final(self).log()) ==> old(self).replay(full, old(cache)@)
                    .get_var_expr_var_ref_id(*expr)
                    == (res, final(self).replay(full, final(cache)@)),
    {
        let res = self.model.get_var_expr_var_ref_id(cache, expr);
        proof {
            lemma_recorded(old(self).log(), self.log().last());
        }
        res
    }

    pub fn get_type_at_binary_expr(
        &mut self,
        cache: &mut LuaInferCache,
        tree: &FlowTree,
        root: &LuaChunk,
        var_ref_id: &VarRefId,
        flow_id: FlowId,
        binary_expr: &LuaBinaryExpr,
        condition_flow: InferConditionFlow,
    ) -> (res: Result<ConditionFlowAction, InferFailReason>)
        ensures
            final(self).steps() == old(self).steps(),
            extends(final(self).log(), old(self).log()),
            forall|full: Log| #[trigger]
                extends(full, final(self).log()) ==> old(self).replay(full, old(cache)@)
                    .get_type_at_binary_expr(
                        *tree,
                        *root,
                        *var_ref_id,
                        flow_id,
                        *binary_expr,
                        condition_flow,
                    )
                    == (res, final(self).replay(full, final(cache)@)),
    {
        let res = self.model.get_type_at_binary_expr(
            cache,
            tree,
            root,
            var_ref_id,
            flow_id,
            binary_expr,
            condition_flow,
        );
        proof {
            lemma_recorded(old(self).log(), self.log().last());
        }
        res
    }

    pub fn prepare_var_from_return_overload_condition(
        &mut self,
        cache: &mut LuaInferCache,
        tree: &FlowTree,
        root: &LuaChunk,
        var_ref_id: &VarRefId,
        discriminant_decl_id: LuaDeclId,
        condition_position: u32,
        antecedent_flow_id: FlowId,
        discriminant_type: &LuaType,
    ) -> (res: Result<ConditionFlowAction, InferFailReason>)
        ensures
            final(self).steps() == old(self).steps(),
            extends(final(self).log(), old(self).log()),
            forall|full: Log| #[trigger]
                extends(full, final(self).log()) ==> old(self).replay(full, old(cache)@)
                    .prepare_var_from_return_overload_condition(
                        *tree,
                        *root,
                        *var_ref_id,
                        discriminant_decl_id,
                        condition_position,
                        antecedent_flow_id,
                        *discriminant_type,
                    )
                    == (res, final(self).replay(full, final(cache)@)),
    {
        let res = self.model.prepare_var_from_return_overload_condition(
            cache,
            tree,
            root,
            var_ref_id,
            discriminant_decl_id,
            condition_position,
            antecedent_flow_id,
            discriminant_type,
        );
        proof {
            lemma_recorded(old(self).log(), self.log().last());
        }
        res
    }

    pub fn resume_correlated_condition(
        &mut self,
        cache: &mut LuaInferCache,
        tree: &FlowTree,
        root: &LuaChunk,
        var_ref_id: &VarRefId,
        flow_id: FlowId,
        pending: PendingCorrelatedCondition,
    ) -> (res: Result<ConditionFlowAction, InferFailReason>)
        ensures
            final(self).steps() == old(self).steps(),
            extends(final(self).log(), old(self).log()),
            forall|full: Log| #[trigger]
                extends(full, final(self).log()) ==> old(self).replay(full, old(cache)@)
                    .resume_correlated_condition(*tree, *root, *var_ref_id, flow_id, pending)
                    == (res, final(self).replay(full, final(cache)@)),
    {
        let res = self.model.resume_correlated_condition(
            cache,
            tree,
            root,
            var_ref_id,
            flow_id,
            pending,
        );
        proof {
            lemma_recorded(old(self).log(), self.log().last());
        }
        res
    }

    pub fn get_type_at_cast_flow(
        &mut self,
        cache: &mut LuaInferCache,
        tree: &FlowTree,
        root: &LuaChunk,
        var_ref_id: &VarRefId,
        flow_id: FlowId,
        tag_cast: &LuaDocTagCast,
    ) -> (res: Result<ResultTypeOrContinue, InferFailReason>)
        ensures
            final(self).steps() == old(self).steps(),
            extends(final(self).log(), old(self).log()),
            forall|full: Log| #[trigger]
                extends(full, final(self).log()) ==> old(self).replay(full, old(cache)@)
                    .get_type_at_cast_flow(*tree, *root, *var_ref_id, flow_id, *tag_cast)
                    == (res, final(self).replay(full, final(cache)@)),
    {
        let res = self.model.get_type_at_cast_flow(
            cache,
            tree,
            root,
            var_ref_id,
            flow_id,
            tag_cast,
        );
        proof {
            lemma_recorded(old(self).log(), self.log().last());
        }
        res
    }

    pub fn member_key_from_index_key(
        &mut self,
        cache: &mut LuaInferCache,
        key: &LuaIndexKey,
    ) -> (res: Result<LuaMemberKey, InferFailReason>)
        ensures
            final(self).steps() == old(self).steps(),
            extends(final(self).log(), old(self).log()),
            forall|full: Log| #[trigger]
                extends(full, final(self).log()) ==> old(self).replay(full, old(cache)@)
                    .member_key_from_index_key(*key)
                    == (res, final(self).replay(full, final(cache)@)),
    {
        let res = self.model.member_key_from_index_key(cache, key);
        proof {
            lemma_recorded(old(self).log(), self.log().last());
        }
        res
    }

    pub fn apply_type_op(
        &mut self,
        op: TypeOps,
        left: &LuaType,
        right: &LuaType,
    ) -> (res: LuaType)
        ensures
            final(self).steps() == old(self).steps(),
            extends(final(self).log(), old(self).log()),
            forall|full: Log, cache: CacheView| #[trigger]
                extends(full, final(self).log()) ==> (#[trigger] old(self).replay(full, cache))
                    .apply_type_op(op, *left, *right) == (res, final(self).replay(full, cache)),
    {
        let res = self.model.apply_type_op(op, left, right);
        proof {
            lemma_recorded(old(self).log(), self.log().last());
        }
        res
    }

    pub fn narrow_down_type(
        &mut self,
        source: &LuaType,
        target: &LuaType,
        declared: Option<LuaType>,
    ) -> (res: Option<LuaType>)
        ensures
            final(self).steps() == old(self).steps(),
            extends(final(self).log(), old(self).log()),
            forall|full: Log, cache: CacheView| #[trigger]
                extends(full, final(self).log()) ==> (#[trigger] old(self).replay(full, cache))
                    .narrow_down_type(*source, *target, declared)
                    == (res, final(self).replay(full, cache)),
    {
        let res = self.model.narrow_down_type(source, target, declared);
        proof {
            lemma_recorded(old(self).log(), self.log().last());
        }
        res
    }

    pub fn narrow_false_or_nil(
        &mut self,
        typ: &LuaType,
    ) -> (res: LuaType)
        ensures
            final(self).steps() == old(self).steps(),
            extends(final(self).log(), old(self).log()),
            forall|full: Log, cache: CacheView| #[trigger]
                extends(full, final(self).log()) ==> (#[trigger] old(self).replay(full, cache))
                    .narrow_false_or_nil(*typ) == (res, final(self).replay(full, cache)),
    {
        let res = self.model.narrow_false_or_nil(typ);
        proof {
            lemma_recorded(old(self).log(), self.log().last());
        }
        res
    }

    pub fn remove_false_or_nil(
        &mut self,
        typ: &LuaType,
    ) -> (res: LuaType)
        ensures
            final(self).steps() == old(self).steps(),
            extends(final(self).log(), old(self).log()),
            forall|full: Log, cache: CacheView| #[trigger]
                extends(full, final(self).log()) ==> (#[trigger] old(self).replay(full, cache))
                    .remove_false_or_nil(*typ) == (res, final(self).replay(full, cache)),
    {
        let res = self.model.remove_false_or_nil(typ);
        proof {
            lemma_recorded(old(self).log(), self.log().last());
        }
        res
    }

    pub fn narrow_eq_condition(
        &mut self,
        typ: &LuaType,
        right_expr_type: &LuaType,
        condition_flow: InferConditionFlow,
        allow_literal_equivalence: bool,
    ) -> (res: LuaType)
        ensures
            final(self).steps() == old(self).steps(),
            extends(final(self).log(), old(self).log()),
            forall|full: Log, cache: CacheView| #[trigger]
                extends(full, final(self).log()) ==> (#[trigger] old(self).replay(full, cache))
                    .narrow_eq_condition(
                        *typ,
                        *right_expr_type,
                        condition_flow,
                        allow_literal_equivalence,
                    )
                    == (res, final(self).replay(full, cache)),
    {
        let res = self.model.narrow_eq_condition(
            typ,
            right_expr_type,
            condition_flow,
            allow_literal_equivalence,
        );
        proof {
            lemma_recorded(old(self).log(), self.log().last());
        }
        res
    }

    pub fn apply_correlated_narrowing(
        &mut self,
        narrowing: CorrelatedConditionNarrowing,
        typ: &LuaType,
    ) -> (res: LuaType)
        ensures
            final(self).steps() == old(self).steps(),
            extends(final(self).log(), old(self).log()),
            forall|full: Log, cache: CacheView| #[trigger]
                extends(full, final(self).log()) ==> (#[trigger] old(self).replay(full, cache))
                    .apply_correlated_narrowing(narrowing, *typ)
                    == (res, final(self).replay(full, cache)),
    {
        let res = self.model.apply_correlated_narrowing(narrowing, typ);
        proof {
            lemma_recorded(old(self).log(), self.log().last());
        }
        res
    }

    pub fn is_type_compatible(
        &mut self,
        source_type: &LuaType,
        expr_type: &LuaType,
    ) -> (res: bool)
        ensures
            final(self).steps() == old(self).steps(),
            extends(final(self).log(), old(self).log()),
            forall|full: Log, cache: CacheView| #[trigger]
                extends(full, final(self).log()) ==> (#[trigger] old(self).replay(full, cache))
                    .is_type_compatible(*source_type, *expr_type)
                    == (res, final(self).replay(full, cache)),
    {
        let res = self.model.is_type_compatible(source_type, expr_type);
        proof {
            lemma_recorded(old(self).log(), self.log().last());
        }
        res
    }

    pub fn find_members(
        &mut self,
        typ: &LuaType,
    ) -> (res: Option<Vec<LuaMemberInfo>>)
        ensures
            final(self).steps() == old(self).steps(),
            extends(final(self).log(), old(self).log()),
            forall|full: Log, cache: CacheView| #[trigger]
                extends(full, final(self).log()) ==> (#[trigger] old(self).replay(full, cache))
                    .find_members(*typ) == (opt_seq(res), final(self).replay(full, cache)),
    {
        let res = self.model.find_members(typ);
        proof {
            lemma_recorded(old(self).log(), self.log().last());
        }
        res
    }

    pub fn type_from_vec(
        &mut self,
        types: Vec<LuaType>,
    ) -> (res: LuaType)
        ensures
            final(self).steps() == old(self).steps(),
            extends(final(self).log(), old(self).log()),
            forall|full: Log, cache: CacheView| #[trigger]
                extends(full, final(self).log()) ==> (#[trigger] old(self).replay(full, cache))
                    .type_from_vec(types@) == (res, final(self).replay(full, cache)),
    {
        let res = self.model.type_from_vec(types);
        proof {
            lemma_recorded(old(self).log(), self.log().last());
        }
        res
    }

    pub fn is_always_falsy(
        &mut self,
        typ: &LuaType,
    ) -> (res: bool)
        ensures
            final(self).steps() == old(self).steps(),
            extends(final(self).log(), old(self).log()),
            forall|full: Log, cache: CacheView| #[trigger]
                extends(full, final(self).log()) ==> (#[trigger] old(self).replay(full, cache))
                    .is_always_falsy(*typ) == (res, final(self).replay(full, cache)),
    {
        let res = self.model.is_always_falsy(typ);
        proof {
            lemma_recorded(old(self).log(), self.log().last());
        }
        res
    }

    pub fn contain_tpl(
        &mut self,
        typ: &LuaType,
    ) -> (res: bool)
        ensures
            final(self).steps() == old(self).steps(),
            extends(final(self).log(), old(self).log()),
            forall|full: Log, cache: CacheView| #[trigger]
                extends(full, final(self).log()) ==> (#[trigger] old(self).replay(full, cache))
                    .contain_tpl(*typ) == (res, final(self).replay(full, cache)),
    {
        let res = self.model.contain_tpl(typ);
        proof {
            lemma_recorded(old(self).log(), self.log().last());
        }
        res
    }

    pub fn contain_multi_return(
        &mut self,
        typ: &LuaType,
    ) -> (res: bool)
        ensures
            final(self).steps() == old(self).steps(),
            extends(final(self).log(), old(self).log()),
            forall|full: Log, cache: CacheView| #[trigger]
                extends(full, final(self).log()) ==> (#[trigger] old(self).replay(full, cache))
                    .contain_multi_return(*typ) == (res, final(self).replay(full, cache)),
    {
        let res = self.model.contain_multi_return(typ);
        proof {
            lemma_recorded(old(self).log(), self.log().last());
        }
        res
    }

    pub fn get_result_slot_type(
        &mut self,
        typ: &LuaType,
        idx: usize,
    ) -> (res: Option<LuaType>)
        ensures
            final(self).steps() == old(self).steps(),
            extends(final(self).log(), old(self).log()),
            forall|full: Log, cache: CacheView| #[trigger]
                extends(full, final(self).log()) ==> (#[trigger] old(self).replay(full, cache))
                    .get_result_slot_type(*typ, idx) == (res, final(self).replay(full, cache)),
    {
        let res = self.model.get_result_slot_type(typ, idx);
        proof {
            lemma_recorded(old(self).log(), self.log().last());
        }
        res
    }

    pub fn get_type_cache(
        &mut self,
        owner: LuaTypeOwner,
    ) -> (res: Option<LuaTypeCache>)
        ensures
            final(self).steps() == old(self).steps(),
            extends(final(self).log(), old(self).log()),
            forall|full: Log, cache: CacheView| #[trigger]
                extends(full, final(self).log()) ==> (#[trigger] old(self).replay(full, cache))
                    .get_type_cache(owner) == (res, final(self).replay(full, cache)),
    {
        let res = self.model.get_type_cache(owner);
        proof {
            lemma_recorded(old(self).log(), self.log().last());
        }
        res
    }

    pub fn get_signature_cast(
        &mut self,
        signature_id: LuaSignatureId,
    ) -> (res: Option<Arc<LuaSignatureCast>>)
        ensures
            final(self).steps() == old(self).steps(),
            extends(final(self).log(), old(self).log()),
            forall|full: Log, cache: CacheView| #[trigger]
                extends(full, final(self).log()) ==> (#[trigger] old(self).replay(full, cache))
                    .get_signature_cast(signature_id) == (res, final(self).replay(full, cache)),
    {
        let res = self.model.get_signature_cast(signature_id);
        proof {
            lemma_recorded(old(self).log(), self.log().last());
        }
        res
    }

    pub fn get_signature(
        &mut self,
        signature_id: LuaSignatureId,
    ) -> (res: Option<Arc<LuaSignature>>)
        ensures
            final(self).steps() == old(self).steps(),
            extends(final(self).log(), old(self).log()),
            forall|full: Log, cache: CacheView| #[trigger]
                extends(full, final(self).log()) ==> (#[trigger] old(self).replay(full, cache))
                    .get_signature(signature_id) == (res, final(self).replay(full, cache)),
    {
        let res = self.model.get_signature(signature_id);
        proof {
            lemma_recorded(old(self).log(), self.log().last());
        }
        res
    }

    pub fn get_syntax_tree(
        &mut self,
        file_id: FileId,
    ) -> (res: Option<Arc<LuaChunk>>)
        ensures
            final(self).steps() == old(self).steps(),
            extends(final(self).log(), old(self).log()),
            forall|full: Log, cache: CacheView| #[trigger]
                extends(full, final(self).log()) ==> (#[trigger] old(self).replay(full, cache))
                    .get_syntax_tree(file_id) == (res, final(self).replay(full, cache)),
    {
        let res = self.model.get_syntax_tree(file_id);
        proof {
            lemma_recorded(old(self).log(), self.log().last());
        }
        res
    }

    pub fn get_var_reference_decl(
        &mut self,
        file_id: FileId,
        range: TextRange,
    ) -> (res: Option<LuaDeclId>)
        ensures
            final(self).steps() == old(self).steps(),
            extends(final(self).log(), old(self).log()),
            forall|full: Log, cache: CacheView| #[trigger]
                extends(full, final(self).log()) ==> (#[trigger] old(self).replay(full, cache))
                    .get_var_reference_decl(file_id, range)
                    == (res, final(self).replay(full, cache)),
    {
        let res = self.model.get_var_reference_decl(file_id, range);
        proof {
            lemma_recorded(old(self).log(), self.log().last());
        }
        res
    }

    pub fn get_decl(
        &mut self,
        decl_id: LuaDeclId,
    ) -> (res: Option<LuaDecl>)
        ensures
            final(self).steps() == old(self).steps(),
            extends(final(self).log(), old(self).log()),
            forall|full: Log, cache: CacheView| #[trigger]
                extends(full, final(self).log()) ==> (#[trigger] old(self).replay(full, cache))
                    .get_decl(decl_id) == (res, final(self).replay(full, cache)),
    {
        let res = self.model.get_decl(decl_id);
        proof {
            lemma_recorded(old(self).log(), self.log().last());
        }
        res
    }

    pub fn find_local_decl(
        &mut self,
        file_id: FileId,
        name: &String,
        position: u32,
    ) -> (res: Option<LuaDecl>)
        ensures
            final(self).steps() == old(self).steps(),
            extends(final(self).log(), old(self).log()),
            forall|full: Log, cache: CacheView| #[trigger]
                extends(full, final(self).log()) ==> (#[trigger] old(self).replay(full, cache))
                    .find_local_decl(file_id, name@, position)
                    == (res, final(self).replay(full, cache)),
    {
        let res = self.model.find_local_decl(file_id, name, position);
        proof {
            lemma_recorded(old(self).log(), self.log().last());
        }
        res
    }

    pub fn get_global_decl_ids(
        &mut self,
        name: &String,
    ) -> (res: Option<Vec<LuaDeclId>>)
        ensures
            final(self).steps() == old(self).steps(),
            extends(final(self).log(), old(self).log()),
            forall|full: Log, cache: CacheView| #[trigger]
                extends(full, final(self).log()) ==> (#[trigger] old(self).replay(full, cache))
                    .get_global_decl_ids(name@) == (opt_seq(res), final(self).replay(full, cache)),
    {
        let res = self.model.get_global_decl_ids(name);
        proof {
            lemma_recorded(old(self).log(), self.log().last());
        }
        res
    }

    pub fn get_attribute_param(
        &mut self,
        decl_id: LuaDeclId,
        attribute: &str,
        param: &str,
    ) -> (res: Option<LuaType>)
        ensures
            final(self).steps() == old(self).steps(),
            extends(final(self).log(), old(self).log()),
            forall|full: Log, cache: CacheView| #[trigger]
                extends(full, final(self).log()) ==> (#[trigger] old(self).replay(full, cache))
                    .get_attribute_param(decl_id, attribute@, param@)
                    == (res, final(self).replay(full, cache)),
    {
        let res = self.model.get_attribute_param(decl_id, attribute, param);
        proof {
            lemma_recorded(old(self).log(), self.log().last());
        }
        res
    }

    pub fn get_local_reference_decl(
        &mut self,
        file_id: FileId,
        range: TextRange,
    ) -> (res: Option<LuaDeclId>)
        ensures
            final(self).steps() == old(self).steps(),
            extends(final(self).log(), old(self).log()),
            forall|full: Log, cache: CacheView| #[trigger]
                extends(full, final(self).log()) ==> (#[trigger] old(self).replay(full, cache))
                    .get_local_reference_decl(file_id, range)
                    == (res, final(self).replay(full, cache)),
    {
        let res = self.model.get_local_reference_decl(file_id, range);
        proof {
            lemma_recorded(old(self).log(), self.log().last());
        }
        res
    }

    pub fn has_member(
        &mut self,
        member_id: LuaMemberId,
    ) -> (res: bool)
        ensures
            final(self).steps() == old(self).steps(),
            extends(final(self).log(), old(self).log()),
            forall|full: Log, cache: CacheView| #[trigger]
                extends(full, final(self).log()) ==> (#[trigger] old(self).replay(full, cache))
                    .has_member(member_id) == (res, final(self).replay(full, cache)),
    {
        let res = self.model.has_member(member_id);
        proof {
            lemma_recorded(old(self).log(), self.log().last());
        }
        res
    }

    pub fn is_meta_file(
        &mut self,
        file_id: FileId,
    ) -> (res: bool)
        ensures
            final(self).steps() == old(self).steps(),
            extends(final(self).log(), old(self).log()),
            forall|full: Log, cache: CacheView| #[trigger]
                extends(full, final(self).log()) ==> (#[trigger] old(self).replay(full, cache))
                    .is_meta_file(file_id) == (res, final(self).replay(full, cache)),
    {
        let res = self.model.is_meta_file(file_id);
        proof {
            lemma_recorded(old(self).log(), self.log().last());
        }
        res
    }

    pub fn bind_index_type(
        &mut self,
        owner: LuaTypeOwner,
        type_cache: LuaTypeCache,
    )
        ensures
            final(self).steps() == old(self).steps(),
            extends(final(self).log(), old(self).log()),
            forall|full: Log, cache: CacheView| #[trigger]
                extends(full, final(self).log()) ==> (#[trigger] old(self).replay(full, cache))
                    .bind_index_type(owner, type_cache) == final(self).replay(full, cache),
    {
        self.model.bind_index_type(owner, type_cache);
        proof {
            lemma_recorded(old(self).log(), self.log().last());
        }
    }

    pub fn bind_type(
        &mut self,
        owner: LuaTypeOwner,
        type_cache: LuaTypeCache,
    )
        ensures
            final(self).steps() == old(self).steps(),
            extends(final(self).log(), old(self).log()),
            forall|full: Log, cache: CacheView| #[trigger]
                extends(full, final(self).log()) ==> (#[trigger] old(self).replay(full, cache))
                    .bind_type(owner, type_cache) == final(self).replay(full, cache),
    {
        self.model.bind_type(owner, type_cache);
        proof {
            lemma_recorded(old(self).log(), self.log().last());
        }
    }

    pub fn add_unresolve(
        &mut self,
        unresolve: UnResolve,
        reason: InferFailReason,
    )
        ensures
            final(self).steps() == old(self).steps(),
            extends(final(self).log(), old(self).log()),
            forall|full: Log, cache: CacheView| #[trigger]
                extends(full, final(self).log()) ==> (#[trigger] old(self).replay(full, cache))
                    .add_unresolve(unresolve, reason) == final(self).replay(full, cache),
    {
        self.model.add_unresolve(unresolve, reason);
        proof {
            lemma_recorded(old(self).log(), self.log().last());
        }
    }

    pub fn set_member_owner(
        &mut self,
        owner: LuaMemberOwner,
        file_id: FileId,
        member_id: LuaMemberId,
    )
        ensures
            final(self).steps() == old(self).steps(),
            extends(final(self).log(), old(self).log()),
            forall|full: Log, cache: CacheView| #[trigger]
                extends(full, final(self).log()) ==> (#[trigger] old(self).replay(full, cache))
                    .set_member_owner(owner, file_id, member_id) == final(self).replay(full, cache),
    {
        self.model.set_member_owner(owner, file_id, member_id);
        proof {
            lemma_recorded(old(self).log(), self.log().last());
        }
    }

    pub fn add_member(
        &mut self,
        owner: LuaMemberOwner,
        member_id: LuaMemberId,
    )
        ensures
            final(self).steps() == old(self).steps(),
            extends(final(self).log(), old(self).log()),
            forall|full: Log, cache: CacheView| #[trigger]
                extends(full, final(self).log()) ==> (#[trigger] old(self).replay(full, cache))
                    .add_member(owner, member_id) == final(self).replay(full, cache),
    {
        self.model.add_member(owner, member_id);
        proof {
            lemma_recorded(old(self).log(), self.log().last());
        }
    }

    pub fn add_index_member(
        &mut self,
        owner: LuaMemberOwner,
        member: LuaMember,
    )
        ensures
            final(self).steps() == old(self).steps(),
            extends(final(self).log(), old(self).log()),
            forall|full: Log, cache: CacheView| #[trigger]
                extends(full, final(self).log()) ==> (#[trigger] old(self).replay(full, cache))
                    .add_index_member(owner, member) == final(self).replay(full, cache),
    {
        self.model.add_index_member(owner, member);
        proof {
            lemma_recorded(old(self).log(), self.log().last());
        }
    }

}

} // verus!
