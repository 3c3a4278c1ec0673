//! What an assigned expression keeps of the type that its variable had.

use vstd::prelude::*;

use crate::cache::CacheView;
use crate::db::{
    extends, lemma_extends_is_reflexive, lemma_extends_is_transitive, DbIndex, Log, Replay,
    SemanticModel,
};
use crate::infer::{same_key, LuaMemberInfo, LuaMemberKey};
use crate::types::{lemma_union_member_is_smaller, same_type, LuaType};

verus! {

broadcast use {lemma_extends_is_reflexive, lemma_extends_is_transitive};

/// Whether an expression of the type can have no other value than the type says.
pub open spec fn is_exact(typ: LuaType) -> bool
    decreases typ,
{
    match typ {
        LuaType::Nil => true,
        LuaType::TableConst(_) => false,
        LuaType::Union(types) => forall|i: int|
            0 <= i < types@.len() ==> is_exact(#[trigger] types@[i]),
        LuaType::MultiLineUnion(union) => is_exact(*union),
        LuaType::TypeGuard(inner) => is_exact(*inner),
        _ => typ.is_const_type(),
    }
}

pub fn is_exact_assignment_expr_type(typ: &LuaType) -> (res: bool)
    ensures
        res == is_exact(*typ),
    decreases *typ,
{
    match typ {
        LuaType::Nil | LuaType::DocBooleanConst(_) => true,
        LuaType::Union(types) => {
            let mut i: usize = 0;
            while i < types.len()
                invariant
                    i <= types@.len(),
                    *typ == LuaType::Union(*types),
                    forall|j: int| 0 <= j < i ==> is_exact(#[trigger] types@[j]),
                decreases types@.len() - i,
            {
                let member: &LuaType = &types[i];
                proof {
                    lemma_union_member_is_smaller(*typ, i as int);
                    assert(*member == types@[i as int]);
                }
                if !is_exact_assignment_expr_type(member) {
                    return false;
                }
                i += 1;
            }
            true
        },
        LuaType::MultiLineUnion(union) => is_exact_assignment_expr_type(&**union),
        LuaType::TypeGuard(inner) => is_exact_assignment_expr_type(&**inner),
        _ => typ.is_const() && !matches!(typ, LuaType::TableConst(_)),
    }
}

/// Whether the type is that of one table or object literal.
pub open spec fn is_table_literal(typ: LuaType) -> bool {
    typ is TableConst || typ is Object
}

/// Whether an assigned expression of the type decides the type of the variable by itself.
pub open spec fn preserves(typ: LuaType) -> bool {
    is_table_literal(typ) || is_exact(typ)
}

pub fn preserves_assignment_expr_type(typ: &LuaType) -> (res: bool)
    ensures
        res == preserves(*typ),
{
    matches!(typ, LuaType::TableConst(_) | LuaType::Object(_)) || is_exact_assignment_expr_type(
        typ,
    )
}

/// The first member with the given key.
pub open spec fn find_member(members: Seq<LuaMemberInfo>, key: LuaMemberKey, from: int) -> Option<
    LuaMemberInfo,
>
    decreases members.len() - from,
{
    if from < 0 || from >= members.len() {
        None
    } else if same_key(members[from].key, key) {
        Some(members[from])
    } else {
        find_member(members, key, from + 1)
    }
}

fn lookup_member<'a>(members: &'a Vec<LuaMemberInfo>, key: &LuaMemberKey) -> (member: Option<
    &'a LuaMemberInfo,
>)
    ensures
        match member {
            Some(m) => find_member(members@, *key, 0) == Some(*m),
            None => find_member(members@, *key, 0) is None,
        },
{
    let mut i: usize = 0;
    while i < members.len()
        invariant
            i <= members@.len(),
            find_member(members@, *key, 0) == find_member(members@, *key, i as int),
        decreases members@.len() - i,
    {
        if members[i].key == *key {
            return Some(&members[i]);
        }
        i += 1;
    }
    None
}

/// Whether an expression can be assigned to a variable of type `source_type` as far as it goes:
/// it is compatible, or it is a table literal none of whose members contradicts the source.
pub open spec fn partial_compatible(source_type: LuaType, expr_type: LuaType, rp: Replay) -> (
    bool,
    Replay,
)
    decreases rp.steps, 1int, 0nat,
{
    let (compatible, rp) = rp.is_type_compatible(source_type, expr_type);
    if compatible {
        (true, rp)
    } else if !is_table_literal(expr_type) {
        (false, rp)
    } else {
        let (expr_members, rp) = rp.find_members(expr_type);
        match expr_members {
            None => (true, rp),
            Some(expr_members) => if expr_members.len() == 0 {
                (true, rp)
            } else {
                let (source_members, rp) = rp.find_members(source_type);
                match source_members {
                    None => (false, rp),
                    Some(source_members) => members_compatible(
                        source_members,
                        expr_members,
                        0,
                        rp,
                    ),
                }
            },
        }
    }
}

/// Whether each of `expr_members`, from `from` on, can be assigned to the source member of the
/// same key, where there is one.
pub open spec fn members_compatible(
    source_members: Seq<LuaMemberInfo>,
    expr_members: Seq<LuaMemberInfo>,
    from: int,
    rp: Replay,
) -> (bool, Replay)
    decreases rp.steps, 0int, expr_members.len() - from,
{
    if from < 0 || from >= expr_members.len() {
        (true, rp)
    } else {
        match find_member(source_members, expr_members[from].key, 0) {
            None => members_compatible(source_members, expr_members, from + 1, rp),
            Some(source_member) => if rp.steps == 0 {
                (false, rp)
            } else {
                let (compatible, after) = partial_compatible(
                    source_member.typ,
                    expr_members[from].typ,
                    rp.ticked(),
                );
                if compatible {
                    members_compatible(
                        source_members,
                        expr_members,
                        from + 1,
                        after.capped(rp.ticked()),
                    )
                } else {
                    (false, after)
                }
            },
        }
    }
}

pub fn is_partial_assignment_expr_compatible<M: SemanticModel>(
    db: &mut DbIndex<M>,
    source_type: &LuaType,
    expr_type: &LuaType,
) -> (res: bool)
    ensures
        final(db).steps() <= old(db).steps(),
        extends(final(db).log(), old(db).log()),
        forall|full: Log, cache: CacheView| #[trigger]
            extends(full, final(db).log()) ==> partial_compatible(
                *source_type,
                *expr_type,
                #[trigger] old(db).replay(full, cache),
            ) == (res, final(db).replay(full, cache)),
    decreases old(db).steps(),
{
    if db.is_type_compatible(source_type, expr_type) {
        return true;
    }
    // Only concrete partial table and object literals keep the narrowing of their branch; other
    // expressions can carry state that their type does not show.

    if !matches!(expr_type, LuaType::TableConst(_) | LuaType::Object(_)) {
        return false;
    }
    let expr_members = match db.find_members(expr_type) {
        Some(expr_members) => expr_members,
        None => return true,
    };
    if expr_members.len() == 0 {
        return true;
    }
    let source_members = match db.find_members(source_type) {
        Some(source_members) => source_members,
        None => return false,
    };
    let mut i: usize = 0;
    while i < expr_members.len()
        invariant
            i <= expr_members@.len(),
            db.steps() <= old(db).steps(),
            extends(db.log(), old(db).log()),
            forall|full: Log, cache: CacheView| #[trigger]
                extends(full, db.log()) ==> partial_compatible(
                    *source_type,
                    *expr_type,
                    #[trigger] old(db).replay(full, cache),
                ) == members_compatible(
                    source_members@,
                    expr_members@,
                    i as int,
                    db.replay(full, cache),
                ),
        decreases expr_members@.len() - i,
    {
        let expr_member = &expr_members[i];
        match lookup_member(&source_members, &expr_member.key) {
            Some(source_member) => {
                if !db.tick() {
                    return false;
                }
                if !is_partial_assignment_expr_compatible(
                    db,
                    &source_member.typ,
                    &expr_member.typ,
                ) {
                    return false;
                }
            },
            None => {},
        }
        i += 1;
    }
    true
}

/// Whether the narrowed type of a variable can stand for its type when the expression is
/// assigned.
#[verifier::opaque]
pub open spec fn reuses_source(source_type: LuaType, expr_type: LuaType, rp: Replay) -> (
    bool,
    Replay,
) {
    if is_table_literal(expr_type) {
        partial_compatible(source_type, expr_type, rp)
    } else if !is_exact(expr_type) {
        (false, rp)
    } else {
        let (narrowed, rp) = rp.narrow_down_type(source_type, expr_type, None);
        match narrowed {
            Some(narrowed) => (same_type(narrowed, expr_type), rp),
            None => (true, rp),
        }
    }
}

pub fn can_reuse_narrowed_assignment_source<M: SemanticModel>(
    db: &mut DbIndex<M>,
    narrowed_source_type: &LuaType,
    expr_type: &LuaType,
) -> (res: bool)
    ensures
        final(db).steps() <= old(db).steps(),
        extends(final(db).log(), old(db).log()),
        forall|full: Log, cache: CacheView| #[trigger]
            extends(full, final(db).log()) ==> reuses_source(
                *narrowed_source_type,
                *expr_type,
                #[trigger] old(db).replay(full, cache),
            ) == (res, final(db).replay(full, cache)),
{
    proof {
        reveal(reuses_source);
    }
    if matches!(expr_type, LuaType::TableConst(_) | LuaType::Object(_)) {
        return is_partial_assignment_expr_compatible(db, narrowed_source_type, expr_type);
    }
    if !is_exact_assignment_expr_type(expr_type) {
        return false;
    }
    match db.narrow_down_type(narrowed_source_type, expr_type, None) {
        Some(narrowed_expr_type) => narrowed_expr_type == *expr_type,
        None => true,
    }
}

/// An expression of an exact type decides the type of its variable, and so does a table literal,
/// which is never exact.
pub proof fn exact_types_are_preserved(typ: LuaType)
    ensures
        is_exact(typ) ==> preserves(typ),
        typ is TableConst ==> preserves(typ) && !is_exact(typ),
{
}

/// Whether a union decides the type of a variable does not depend on how the union is written.
pub proof fn union_notation_does_not_matter(typ: LuaType)
    requires
        typ is MultiLineUnion,
    ensures
        is_exact(typ) == is_exact(*typ->MultiLineUnion_0),
{
}

/// Only a table or object literal fits a type as far as it goes; any other expression fits where it
/// is compatible, and nowhere else.
pub proof fn only_literals_fit_partially(source_type: LuaType, expr_type: LuaType, rp: Replay)
    requires
        !is_table_literal(expr_type),
    ensures
        partial_compatible(source_type, expr_type, rp) == rp.is_type_compatible(
            source_type,
            expr_type,
        ),
{
}

/// An expression that is compatible with a type fits it, and nothing more is asked.
pub proof fn compatible_expressions_fit(source_type: LuaType, expr_type: LuaType, rp: Replay)
    requires
        rp.is_type_compatible(source_type, expr_type).0,
    ensures
        partial_compatible(source_type, expr_type, rp) == rp.is_type_compatible(
            source_type,
            expr_type,
        ),
{
}

} // verus!
