//! Lua types, as far as the analysis looks into them.

use std::sync::Arc;

use vstd::prelude::*;

use crate::ids::{InFiled, LuaSignatureId, LuaTypeDeclId, TextRange};

verus! {

/// A type.
///
/// Parts are shared, so a clone copies no tree.  A type that the analysis never looks into is an
/// [`LuaType::Other`], told apart by an interned number.
#[derive(Debug)]
pub enum LuaType {
    Unknown,
    Nil,
    Never,
    BooleanConst(bool),
    StringConst(Arc<String>),
    IntegerConst(i64),
    /// A float literal, by its bit pattern.
    FloatConst(u64),
    TableConst(InFiled<TextRange>),
    DocBooleanConst(bool),
    DocStringConst(Arc<String>),
    DocIntegerConst(i64),
    Object(u32),
    Def(LuaTypeDeclId),
    Ref(LuaTypeDeclId),
    Signature(LuaSignatureId),
    DocFunction(Arc<LuaFunctionType>),
    Call(Arc<LuaAliasCallType>),
    Instance(Arc<LuaInstanceType>),
    Array(Arc<LuaArrayType>),
    /// The members of a union, in order.
    Union(Arc<Vec<LuaType>>),
    /// A union written over several lines, as the type that it stands for.
    MultiLineUnion(Arc<LuaType>),
    TypeGuard(Arc<LuaType>),
    Other(u32),
}

/// A documented function: its return type, and a number for everything else about it.
#[derive(Debug)]
pub struct LuaFunctionType {
    pub shape: u32,
    pub ret: LuaType,
}

#[derive(Debug, Clone, Copy, PartialEq, Eq, Structural)]
pub enum LuaAliasCallKind {
    RawGet,
    KeyOf,
    Index,
    Extends,
    Add,
    Sub,
    Select,
    Unpack,
}

/// The application of a type operator, with its operands interned.
#[derive(Debug, Clone, Copy, PartialEq, Eq, Structural)]
pub struct LuaAliasCallType {
    pub call_kind: LuaAliasCallKind,
    pub operands: u32,
}

/// What a call returned: the type of the callee's result and where the call stands.
#[derive(Debug)]
pub struct LuaInstanceType {
    pub base: LuaType,
    pub range: InFiled<TextRange>,
}

#[derive(Debug, Clone, Copy, PartialEq, Eq, Structural)]
pub enum LuaArrayLen {
    Unbounded,
    Max(i64),
}

#[derive(Debug)]
pub struct LuaArrayType {
    pub base: LuaType,
    pub len: LuaArrayLen,
}

impl Clone for LuaType {
    fn clone(&self) -> (res: LuaType)
        ensures
            res == *self,
    {
        match self {
            LuaType::Unknown => LuaType::Unknown,
            LuaType::Nil => LuaType::Nil,
            LuaType::Never => LuaType::Never,
            LuaType::BooleanConst(b) => LuaType::BooleanConst(*b),
            LuaType::StringConst(s) => LuaType::StringConst(s.clone()),
            LuaType::IntegerConst(i) => LuaType::IntegerConst(*i),
            LuaType::FloatConst(bits) => LuaType::FloatConst(*bits),
            LuaType::TableConst(range) => LuaType::TableConst(*range),
            LuaType::DocBooleanConst(b) => LuaType::DocBooleanConst(*b),
            LuaType::DocStringConst(s) => LuaType::DocStringConst(s.clone()),
            LuaType::DocIntegerConst(i) => LuaType::DocIntegerConst(*i),
            LuaType::Object(id) => LuaType::Object(*id),
            LuaType::Def(id) => LuaType::Def(*id),
            LuaType::Ref(id) => LuaType::Ref(*id),
            LuaType::Signature(id) => LuaType::Signature(*id),
            LuaType::DocFunction(f) => LuaType::DocFunction(f.clone()),
            LuaType::Call(c) => LuaType::Call(c.clone()),
            LuaType::Instance(i) => LuaType::Instance(i.clone()),
            LuaType::Array(a) => LuaType::Array(a.clone()),
            LuaType::Union(u) => LuaType::Union(u.clone()),
            LuaType::MultiLineUnion(u) => LuaType::MultiLineUnion(u.clone()),
            LuaType::TypeGuard(t) => LuaType::TypeGuard(t.clone()),
            LuaType::Other(id) => LuaType::Other(*id),
        }
    }
}

/// Whether two types are the same, part for part.
pub open spec fn same_type(a: LuaType, b: LuaType) -> bool
    decreases a,
{
    match (a, b) {
        (LuaType::Unknown, LuaType::Unknown) => true,
        (LuaType::Nil, LuaType::Nil) => true,
        (LuaType::Never, LuaType::Never) => true,
        (LuaType::BooleanConst(x), LuaType::BooleanConst(y)) => x == y,
        (LuaType::StringConst(x), LuaType::StringConst(y)) => x@ == y@,
        (LuaType::IntegerConst(x), LuaType::IntegerConst(y)) => x == y,
        (LuaType::FloatConst(x), LuaType::FloatConst(y)) => x == y,
        (LuaType::TableConst(x), LuaType::TableConst(y)) => x == y,
        (LuaType::DocBooleanConst(x), LuaType::DocBooleanConst(y)) => x == y,
        (LuaType::DocStringConst(x), LuaType::DocStringConst(y)) => x@ == y@,
        (LuaType::DocIntegerConst(x), LuaType::DocIntegerConst(y)) => x == y,
        (LuaType::Object(x), LuaType::Object(y)) => x == y,
        (LuaType::Def(x), LuaType::Def(y)) => x == y,
        (LuaType::Ref(x), LuaType::Ref(y)) => x == y,
        (LuaType::Signature(x), LuaType::Signature(y)) => x == y,
        (LuaType::DocFunction(x), LuaType::DocFunction(y)) => {
            x.shape == y.shape && same_type(x.ret, y.ret)
        },
        (LuaType::Call(x), LuaType::Call(y)) => *x == *y,
        (LuaType::Instance(x), LuaType::Instance(y)) => {
            x.range == y.range && same_type(x.base, y.base)
        },
        (LuaType::Array(x), LuaType::Array(y)) => x.len == y.len && same_type(x.base, y.base),
        (LuaType::Union(x), LuaType::Union(y)) => {
            &&& x@.len() == y@.len()
            &&& forall|i: int| 0 <= i < x@.len() ==> same_type(#[trigger] x@[i], y@[i])
        },
        (LuaType::MultiLineUnion(x), LuaType::MultiLineUnion(y)) => same_type(*x, *y),
        (LuaType::TypeGuard(x), LuaType::TypeGuard(y)) => same_type(*x, *y),
        (LuaType::Other(x), LuaType::Other(y)) => x == y,
        _ => false,
    }
}

fn eq_lua_type(a: &LuaType, b: &LuaType) -> (res: bool)
    ensures
        res == same_type(*a, *b),
    decreases *a,
{
    match (a, b) {
        (LuaType::Unknown, LuaType::Unknown) => true,
        (LuaType::Nil, LuaType::Nil) => true,
        (LuaType::Never, LuaType::Never) => true,
        (LuaType::BooleanConst(x), LuaType::BooleanConst(y)) => *x == *y,
        (LuaType::StringConst(x), LuaType::StringConst(y)) => **x == **y,
        (LuaType::IntegerConst(x), LuaType::IntegerConst(y)) => *x == *y,
        (LuaType::FloatConst(x), LuaType::FloatConst(y)) => *x == *y,
        (LuaType::TableConst(x), LuaType::TableConst(y)) => {
            x.file_id == y.file_id && x.value == y.value
        },
        (LuaType::DocBooleanConst(x), LuaType::DocBooleanConst(y)) => *x == *y,
        (LuaType::DocStringConst(x), LuaType::DocStringConst(y)) => **x == **y,
        (LuaType::DocIntegerConst(x), LuaType::DocIntegerConst(y)) => *x == *y,
        (LuaType::Object(x), LuaType::Object(y)) => *x == *y,
        (LuaType::Def(x), LuaType::Def(y)) => *x == *y,
        (LuaType::Ref(x), LuaType::Ref(y)) => *x == *y,
        (LuaType::Signature(x), LuaType::Signature(y)) => *x == *y,
        (LuaType::DocFunction(x), LuaType::DocFunction(y)) => {
            x.shape == y.shape && eq_lua_type(&x.ret, &y.ret)
        },
        (LuaType::Call(x), LuaType::Call(y)) => **x == **y,
        (LuaType::Instance(x), LuaType::Instance(y)) => {
            x.range.file_id == y.range.file_id && x.range.value == y.range.value && eq_lua_type(
                &x.base,
                &y.base,
            )
        },
        (LuaType::Array(x), LuaType::Array(y)) => {
            x.len == y.len && eq_lua_type(&x.base, &y.base)
        },
        (LuaType::Union(x), LuaType::Union(y)) => {
            if x.len() != y.len() {
                return false;
            }
            let mut i: usize = 0;
            while i < x.len()
                invariant
                    x@.len() == y@.len(),
                    i <= x@.len(),
                    forall|j: int| 0 <= j < i ==> same_type(#[trigger] x@[j], y@[j]),
                    *a == LuaType::Union(*x),
                    *b == LuaType::Union(*y),
                decreases x@.len() - i,
            {
                let left: &LuaType = &x[i];
                let right: &LuaType = &y[i];
                proof {
                    lemma_union_member_is_smaller(*a, i as int);
                    assert(*left == x@[i as int] && *right == y@[i as int]);
                }
                if !eq_lua_type(left, right) {
                    return false;
                }
                i += 1;
            }
            true
        },
        (LuaType::MultiLineUnion(x), LuaType::MultiLineUnion(y)) => eq_lua_type(&**x, &**y),
        (LuaType::TypeGuard(x), LuaType::TypeGuard(y)) => eq_lua_type(&**x, &**y),
        (LuaType::Other(x), LuaType::Other(y)) => *x == *y,
        _ => false,
    }
}

/// A member of a union is smaller than the union.
pub proof fn lemma_union_member_is_smaller(typ: LuaType, i: int)
    requires
        typ is Union,
        0 <= i < typ->Union_0@.len(),
    ensures
        decreases_to!(typ => typ->Union_0@[i]),
{
    assert(decreases_to!(typ => typ->Union_0));
    assert(decreases_to!(typ->Union_0 => typ->Union_0@));
    assert(decreases_to!(typ->Union_0@ => typ->Union_0@[i]));
}

impl PartialEq for LuaType {
    fn eq(&self, other: &LuaType) -> (res: bool) {
        eq_lua_type(self, other)
    }
}

impl vstd::std_specs::cmp::PartialEqSpecImpl for LuaType {
    open spec fn obeys_eq_spec() -> bool {
        true
    }

    open spec fn eq_spec(&self, other: &LuaType) -> bool {
        same_type(*self, *other)
    }
}

impl LuaType {
    /// Whether the type is that of one literal value.
    pub open spec fn is_const_type(self) -> bool {
        ||| self is BooleanConst
        ||| self is StringConst
        ||| self is IntegerConst
        ||| self is FloatConst
        ||| self is TableConst
        ||| self is DocBooleanConst
        ||| self is DocStringConst
        ||| self is DocIntegerConst
    }

    pub fn is_const(&self) -> (res: bool)
        ensures
            res == self.is_const_type(),
    {
        matches!(
            self,
            LuaType::BooleanConst(_) | LuaType::StringConst(_) | LuaType::IntegerConst(_)
                | LuaType::FloatConst(_) | LuaType::TableConst(_) | LuaType::DocBooleanConst(_)
                | LuaType::DocStringConst(_) | LuaType::DocIntegerConst(_)
        )
    }

    pub fn is_unknown(&self) -> (res: bool)
        ensures
            res == (self is Unknown),
    {
        matches!(self, LuaType::Unknown)
    }

    pub fn is_never(&self) -> (res: bool)
        ensures
            res == (self is Never),
    {
        matches!(self, LuaType::Never)
    }
}

/// Whether the type wraps exactly one other type.
pub open spec fn has_inner(typ: LuaType) -> bool {
    ||| typ is DocFunction
    ||| typ is Instance
    ||| typ is Array
    ||| typ is MultiLineUnion
    ||| typ is TypeGuard
}

/// The one type that `typ` wraps.
pub open spec fn inner(typ: LuaType) -> LuaType
    recommends
        has_inner(typ),
{
    match typ {
        LuaType::DocFunction(f) => f.ret,
        LuaType::Instance(i) => i.base,
        LuaType::Array(a) => a.base,
        LuaType::MultiLineUnion(u) => *u,
        LuaType::TypeGuard(t) => *t,
        _ => typ,
    }
}

/// Every type is the same as itself.
pub proof fn same_type_is_reflexive(a: LuaType)
    ensures
        same_type(a, a),
    decreases a,
{
    if has_inner(a) {
        same_type_is_reflexive(inner(a));
    } else if a is Union {
        let x = a->Union_0@;
        assert forall|i: int| 0 <= i < x.len() implies same_type(#[trigger] x[i], x[i]) by {
            lemma_union_member_is_smaller(a, i);
            same_type_is_reflexive(x[i]);
        }
    }
}

/// Being the same type does not depend on the order of the two.
pub proof fn same_type_is_symmetric(a: LuaType, b: LuaType)
    ensures
        same_type(a, b) == same_type(b, a),
    decreases a,
{
    if has_inner(a) && has_inner(b) {
        same_type_is_symmetric(inner(a), inner(b));
    } else if a is Union && b is Union {
        let x = a->Union_0@;
        let y = b->Union_0@;
        assert forall|i: int| 0 <= i < x.len() && x.len() == y.len() implies same_type(
            #[trigger] x[i],
            #[trigger] y[i],
        ) == same_type(y[i], x[i]) by {
            lemma_union_member_is_smaller(a, i);
            same_type_is_symmetric(x[i], y[i]);
        }
    }
}

/// Two types that are the same as a third are the same.
pub proof fn same_type_is_transitive(a: LuaType, b: LuaType, c: LuaType)
    requires
        same_type(a, b),
        same_type(b, c),
    ensures
        same_type(a, c),
    decreases a,
{
    if has_inner(a) {
        same_type_is_transitive(inner(a), inner(b), inner(c));
    } else if a is Union {
        let x = a->Union_0@;
        let y = b->Union_0@;
        let z = c->Union_0@;
        assert forall|i: int| 0 <= i < x.len() implies same_type(#[trigger] x[i], z[i]) by {
            lemma_union_member_is_smaller(a, i);
            assert(same_type(x[i], y[i]));
            assert(same_type(y[i], z[i]));
            same_type_is_transitive(x[i], y[i], z[i]);
        }
    }
}

} // verus!
