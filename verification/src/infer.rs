//! What inference hands out, and what the database holds about declarations, members and
//! signatures.

use std::sync::Arc;

use vstd::prelude::*;

use crate::ids::{FileId, InFiled, LuaDeclId, LuaMemberId, LuaSyntaxId, LuaTypeDeclId, TextRange};
use crate::syntax::LuaExpr;
use crate::types::{same_type, LuaFunctionType, LuaType};

verus! {

/// Why no type could be inferred.
#[derive(Debug)]
pub enum InferFailReason {
    /// There is nothing to infer.
    Nothing,
    /// The answer depends on itself.
    RecursiveInfer,
    /// A limit is reached: the steps that the database allows are used up, or the numbers for
    /// references are.
    LimitReached,
    /// The type of an expression is not known yet.
    UnResolveExpr(InFiled<LuaExpr>),
    /// Something else is not known yet; the number tells the reasons apart.
    Other(u32),
}

pub type InferResult = Result<LuaType, InferFailReason>;

impl Clone for InferFailReason {
    fn clone(&self) -> (res: InferFailReason)
        ensures
            res == *self,
    {
        match self {
            InferFailReason::Nothing => InferFailReason::Nothing,
            InferFailReason::RecursiveInfer => InferFailReason::RecursiveInfer,
            InferFailReason::LimitReached => InferFailReason::LimitReached,
            InferFailReason::UnResolveExpr(e) => InferFailReason::UnResolveExpr(
                InFiled { file_id: e.file_id, value: e.value.clone() },
            ),
            InferFailReason::Other(n) => InferFailReason::Other(*n),
        }
    }
}

/// A step of the walk either has the type or has nothing to say.
#[derive(Debug)]
pub enum ResultTypeOrContinue {
    Result(LuaType),
    Continue,
}

/// A type that the database holds, and whether it was written down or inferred.
#[derive(Debug)]
pub enum LuaTypeCache {
    DocType(LuaType),
    InferType(LuaType),
}

impl LuaTypeCache {
    pub open spec fn typ(self) -> LuaType {
        match self {
            LuaTypeCache::DocType(t) => t,
            LuaTypeCache::InferType(t) => t,
        }
    }

    pub fn as_type(&self) -> (typ: &LuaType)
        ensures
            *typ == self.typ(),
    {
        match self {
            LuaTypeCache::DocType(t) => t,
            LuaTypeCache::InferType(t) => t,
        }
    }
}

/// The cast that a call of a function implies for one of its parameters, or for `self`.
#[derive(Debug)]
pub struct LuaSignatureCast {
    /// The parameter's name.
    pub name: String,
    pub cast: LuaSyntaxId,
    /// The cast for a call that returned something false.
    pub fallback_cast: Option<LuaSyntaxId>,
}

/// The first position at which `name` stands.
pub open spec fn find_name(names: Seq<String>, name: Seq<char>, from: int) -> Option<int>
    decreases names.len() - from,
{
    if from < 0 || from >= names.len() {
        None
    } else if names[from]@ == name {
        Some(from)
    } else {
        find_name(names, name, from + 1)
    }
}

#[derive(Debug)]
pub struct LuaSignature {
    pub return_type: LuaType,
    /// The signature as a documented function.
    pub doc_func: Arc<LuaFunctionType>,
    pub params: Vec<String>,
    pub is_colon_define: bool,
}

impl LuaSignature {
    pub fn find_param_idx(&self, name: &String) -> (idx: Option<usize>)
        ensures
            match idx {
                Some(i) => find_name(self.params@, name@, 0) == Some(i as int),
                None => find_name(self.params@, name@, 0) is None,
            },
    {
        let mut i: usize = 0;
        while i < self.params.len()
            invariant
                i <= self.params@.len(),
                find_name(self.params@, name@, 0) == find_name(self.params@, name@, i as int),
            decreases self.params@.len() - i,
        {
            if self.params[i] == *name {
                return Some(i);
            }
            i += 1;
        }
        None
    }
}

#[derive(Debug, Clone, Copy)]
pub struct LuaDecl {
    pub is_local: bool,
    pub is_implicit_self: bool,
    /// The syntax node of the initial value.
    pub value_syntax_id: Option<LuaSyntaxId>,
}

/// The key of a member.
#[derive(Debug)]
pub enum LuaMemberKey {
    /// A name or a number, interned.
    Interned(u32),
    ExprType(LuaType),
}

/// Whether two keys are the same.
pub open spec fn same_key(a: LuaMemberKey, b: LuaMemberKey) -> bool {
    match (a, b) {
        (LuaMemberKey::Interned(x), LuaMemberKey::Interned(y)) => x == y,
        (LuaMemberKey::ExprType(x), LuaMemberKey::ExprType(y)) => same_type(x, y),
        _ => false,
    }
}

impl PartialEq for LuaMemberKey {
    fn eq(&self, other: &LuaMemberKey) -> (res: bool) {
        match (self, other) {
            (LuaMemberKey::Interned(x), LuaMemberKey::Interned(y)) => *x == *y,
            (LuaMemberKey::ExprType(x), LuaMemberKey::ExprType(y)) => *x == *y,
            _ => false,
        }
    }
}

impl vstd::std_specs::cmp::PartialEqSpecImpl for LuaMemberKey {
    open spec fn obeys_eq_spec() -> bool {
        true
    }

    open spec fn eq_spec(&self, other: &LuaMemberKey) -> bool {
        same_key(*self, *other)
    }
}

/// A member of a type.
#[derive(Debug)]
pub struct LuaMemberInfo {
    pub key: LuaMemberKey,
    pub typ: LuaType,
}

/// What a member belongs to: a declared type, or the table that stands at a place.
#[derive(Debug, Clone, Copy)]
pub enum LuaMemberOwner {
    Type(LuaTypeDeclId),
    Element(InFiled<TextRange>),
}

#[derive(Debug, Clone, Copy, PartialEq, Eq, Structural)]
pub enum LuaMemberFeature {
    FileDefine,
    MetaDefine,
}

/// A member as the member index files it.
#[derive(Debug)]
pub struct LuaMember {
    pub member_id: LuaMemberId,
    pub key: LuaMemberKey,
    pub feature: LuaMemberFeature,
}

/// A declaration whose type waits for an expression.
#[derive(Debug)]
pub struct UnResolveDecl {
    pub file_id: FileId,
    pub decl_id: LuaDeclId,
    pub expr: LuaExpr,
    /// Which of the values of the expression is meant.
    pub ret_idx: usize,
}

/// A member whose type waits for an expression, or whose owner waits for a prefix.
#[derive(Debug)]
pub struct UnResolveMember {
    pub file_id: FileId,
    pub member_id: LuaMemberId,
    pub expr: Option<LuaExpr>,
    pub prefix: Option<LuaExpr>,
    pub ret_idx: usize,
}

/// What is left to be resolved once more is known.
#[derive(Debug)]
pub enum UnResolve {
    Decl(UnResolveDecl),
    Member(UnResolveMember),
}

/// An operation on two types.
#[derive(Debug, Clone, Copy, PartialEq, Eq, Structural)]
pub enum TypeOps {
    Union,
    Intersect,
    Remove,
}

/// The documented function of a signature.
pub open spec fn doc_func(signature: Arc<LuaSignature>) -> Arc<LuaFunctionType> {
    signature.doc_func
}

/// The return type of a signature.
pub open spec fn return_type(signature: Arc<LuaSignature>) -> LuaType {
    signature.return_type
}

} // verus!
