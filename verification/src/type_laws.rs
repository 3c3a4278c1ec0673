//! What an assignment makes of the type of a reference.


use vstd::prelude::*;

use crate::assignment_expr::{
    find_member, is_exact, members_compatible, partial_compatible, preserves, reuses_source,
};
use crate::db::{Call, Replay, Reply};
use crate::flow_query::{assigned_index, assignment_result, FlowQuery};
use crate::cache::AssignmentView;
use crate::flow_tree::{FlowAntecedent, FlowNode};
use crate::ids::{FlowId, LuaDeclId, LuaMemberId, LuaTypeOwner, VarRefId};
use crate::infer::{
    same_key, InferFailReason, LuaMemberInfo, LuaMemberKey, LuaTypeCache, ResultTypeOrContinue,
};
use crate::syntax::LuaVarExpr;
use crate::types::{same_type, LuaType};

verus! {

/// The declared type that an assignment is held against: a class, defined or referred to.
pub open spec fn declared_class(typ: Result<LuaType, InferFailReason>) -> Option<LuaType> {
    match typ {
        Ok(LuaType::Def(id)) => Some(LuaType::Def(id)),
        Ok(LuaType::Ref(id)) => Some(LuaType::Ref(id)),
        _ => None,
    }
}

/// Where an expression is assigned whose type says all about it, or that builds on the old type,
/// the old type is narrowed down to that of the expression, and what comes out is the new type.
pub proof fn assignment_narrows_the_old_type_down(
    var_ref_id: VarRefId,
    explicit: Option<LuaType>,
    expr_type: LuaType,
    source_type: LuaType,
    reuse: bool,
    declared: Result<LuaType, InferFailReason>,
    narrowed: LuaType,
    rp: Replay,
    asked: Replay,
    done: Replay,
)
    requires
        !(source_type is Nil),
        reuse || preserves(expr_type),
        rp.told_with_cache(Call::GetVarRefType { var_ref_id }, Reply::Infer(declared), asked),
        asked.told(
            Call::NarrowDownType {
                source: source_type,
                target: expr_type,
                declared: declared_class(declared),
            },
            Reply::OptType(Some(narrowed)),
            done,
        ),
    ensures
        assignment_result(var_ref_id, explicit, expr_type, source_type, reuse, rp) == (
            narrowed,
            done,
        ),
{
    reveal(assignment_result);
}

/// Where the old type cannot be narrowed down to that of the expression, the written type stays,
/// and without one the expression gives the type.
pub proof fn assignment_that_does_not_narrow_keeps_what_is_written(
    var_ref_id: VarRefId,
    explicit: Option<LuaType>,
    expr_type: LuaType,
    source_type: LuaType,
    reuse: bool,
    declared: Result<LuaType, InferFailReason>,
    rp: Replay,
    asked: Replay,
    done: Replay,
)
    requires
        !(source_type is Nil),
        reuse || preserves(expr_type),
        rp.told_with_cache(Call::GetVarRefType { var_ref_id }, Reply::Infer(declared), asked),
        asked.told(
            Call::NarrowDownType {
                source: source_type,
                target: expr_type,
                declared: declared_class(declared),
            },
            Reply::OptType(None),
            done,
        ),
    ensures
        assignment_result(var_ref_id, explicit, expr_type, source_type, reuse, rp) == (
            match explicit {
                Some(explicit) => explicit,
                None => expr_type,
            },
            done,
        ),
{
    reveal(assignment_result);
}

/// Where the expression neither says all about itself nor builds on the old type, it gives the
/// type, whatever the old type can be narrowed down to.
pub proof fn assignment_of_a_wide_expression_gives_its_type(
    var_ref_id: VarRefId,
    explicit: Option<LuaType>,
    expr_type: LuaType,
    source_type: LuaType,
    declared: Result<LuaType, InferFailReason>,
    narrowed: Option<LuaType>,
    rp: Replay,
    asked: Replay,
    done: Replay,
)
    requires
        !(source_type is Nil),
        !preserves(expr_type),
        rp.told_with_cache(Call::GetVarRefType { var_ref_id }, Reply::Infer(declared), asked),
        asked.told(
            Call::NarrowDownType {
                source: source_type,
                target: expr_type,
                declared: declared_class(declared),
            },
            Reply::OptType(narrowed),
            done,
        ),
    ensures
        assignment_result(var_ref_id, explicit, expr_type, source_type, false, rp) == (
            expr_type,
            done,
        ),
{
    reveal(assignment_result);
}

/// Where the reference was `nil`, nothing is asked: the written type stays where the expression
/// says all about itself or builds on it, and else the expression gives the type.
pub proof fn assignment_over_nil_asks_nothing(
    var_ref_id: VarRefId,
    explicit: Option<LuaType>,
    expr_type: LuaType,
    reuse: bool,
    rp: Replay,
)
    ensures
        assignment_result(var_ref_id, explicit, expr_type, LuaType::Nil, reuse, rp) == (
            if explicit is Some && (reuse || preserves(expr_type)) {
                explicit->0
            } else {
                expr_type
            },
            rp,
        ),
{
    reveal(assignment_result);
}

/// Whether the type is that of one literal that is no table.
pub open spec fn is_plain_literal(typ: LuaType) -> bool {
    ||| typ is BooleanConst
    ||| typ is StringConst
    ||| typ is IntegerConst
    ||| typ is FloatConst
    ||| typ is DocBooleanConst
    ||| typ is DocStringConst
    ||| typ is DocIntegerConst
}

/// Tables and objects that are written down, `nil` and literals say all about an expression.  So
/// does a union of `nil` and literals, however it is written, and a guard of one; no other type
/// does.
pub proof fn literals_say_all_about_an_expression(typ: LuaType)
    ensures
        is_plain_literal(typ) || typ is Nil ==> is_exact(typ) && preserves(typ),
        typ is TableConst || typ is Object ==> preserves(typ) && !is_exact(typ),
        typ matches LuaType::Union(types) ==> preserves(typ) == (forall|i: int|
            0 <= i < types@.len() ==> is_exact(#[trigger] types@[i])),
        typ matches LuaType::Union(types) ==> is_exact(typ) == preserves(typ),
        typ matches LuaType::MultiLineUnion(union) ==> preserves(typ) == is_exact(*union)
            && is_exact(typ) == is_exact(*union),
        typ matches LuaType::TypeGuard(guarded) ==> preserves(typ) == is_exact(*guarded)
            && is_exact(typ) == is_exact(*guarded),
        !is_plain_literal(typ) && !(typ is Nil) && !(typ is TableConst) && !(typ is Object) && !(
        typ is Union) && !(typ is MultiLineUnion) && !(typ is TypeGuard) ==> !preserves(typ)
            && !is_exact(typ),
{
}

/// An expression whose type says less than all about it does not build on the old type, and nothing
/// is asked.
pub proof fn wide_expressions_do_not_build_on_the_old_type(
    source_type: LuaType,
    expr_type: LuaType,
    rp: Replay,
)
    requires
        !preserves(expr_type),
    ensures
        reuses_source(source_type, expr_type, rp) == (false, rp),
{
    reveal(reuses_source);
}

/// A literal builds on the old type where the old type narrows down to the literal itself, or not
/// at all.
pub proof fn literals_build_on_what_narrows_to_them(
    source_type: LuaType,
    expr_type: LuaType,
    narrowed: Option<LuaType>,
    rp: Replay,
    done: Replay,
)
    requires
        is_exact(expr_type),
        rp.told(
            Call::NarrowDownType { source: source_type, target: expr_type, declared: None },
            Reply::OptType(narrowed),
            done,
        ),
    ensures
        reuses_source(source_type, expr_type, rp) == (
            narrowed matches Some(narrowed) ==> same_type(narrowed, expr_type),
            done,
        ),
{
    reveal(reuses_source);
}

/// A table builds on a type that it can be assigned to.
pub proof fn tables_build_on_what_they_fit(
    source_type: LuaType,
    expr_type: LuaType,
    rp: Replay,
    done: Replay,
)
    requires
        expr_type is TableConst || expr_type is Object,
        rp.told(
            Call::IsTypeCompatible { source_type, expr_type },
            Reply::Truth(true),
            done,
        ),
    ensures
        reuses_source(source_type, expr_type, rp) == (true, done),
{
    reveal(reuses_source);
}

/// A table that a type does not take as it is fits where it has no members; where it has some, the
/// type must have members too.
pub proof fn tables_without_members_fit(
    source_type: LuaType,
    expr_type: LuaType,
    expr_members: Option<Seq<LuaMemberInfo>>,
    source_members: Option<Seq<LuaMemberInfo>>,
    rp: Replay,
    asked: Replay,
    listed: Replay,
    done: Replay,
)
    requires
        expr_type is TableConst || expr_type is Object,
        rp.told(
            Call::IsTypeCompatible { source_type, expr_type },
            Reply::Truth(false),
            asked,
        ),
        asked.told(
            Call::FindMembers { typ: expr_type },
            Reply::Members(expr_members),
            listed,
        ),
        expr_members matches Some(members) ==> members.len() > 0 ==> listed.told(
            Call::FindMembers { typ: source_type },
            Reply::Members(source_members),
            done,
        ),
    ensures
        reuses_source(source_type, expr_type, rp) == if expr_members is None
            || expr_members->0.len() == 0 {
            (true, listed)
        } else if source_members is None {
            (false, done)
        } else {
            members_compatible(source_members->0, expr_members->0, 0, done)
        },
{
    reveal(reuses_source);
}

/// A table fits a type where the type takes it as it is; what is no table fits only there.
pub proof fn fitting_goes_by_compatibility_first(
    source_type: LuaType,
    expr_type: LuaType,
    compatible: bool,
    rp: Replay,
    asked: Replay,
)
    requires
        rp.told(
            Call::IsTypeCompatible { source_type, expr_type },
            Reply::Truth(compatible),
            asked,
        ),
    ensures
        compatible || !(expr_type is TableConst || expr_type is Object) ==> partial_compatible(
            source_type,
            expr_type,
            rp,
        ) == (compatible, asked),
        expr_type is TableConst || expr_type is Object ==> partial_compatible(
            source_type,
            expr_type,
            rp,
        ) == reuses_source(source_type, expr_type, rp),
{
    reveal(reuses_source);
}

/// The member of a type that a member of a table is held against is the first one of the same key.
pub proof fn first_member_of_the_key_is_found(
    members: Seq<LuaMemberInfo>,
    key: LuaMemberKey,
    from: int,
    k: int,
)
    requires
        0 <= from <= k <= members.len(),
        forall|i: int| from <= i < k ==> !same_key((#[trigger] members[i]).key, key),
        k < members.len() ==> same_key(members[k].key, key),
    ensures
        find_member(members, key, from) == if k < members.len() {
            Some(members[k])
        } else {
            None
        },
    decreases k - from,
{
    if from < k {
        assert(!same_key(members[from].key, key));
        first_member_of_the_key_is_found(members, key, from + 1, k);
    }
}

/// A member of a table that the type has no member for fits.
pub proof fn unknown_members_fit(
    source_members: Seq<LuaMemberInfo>,
    expr_members: Seq<LuaMemberInfo>,
    from: int,
    rp: Replay,
)
    requires
        0 <= from < expr_members.len(),
        forall|i: int|
            0 <= i < source_members.len() ==> !same_key(
                (#[trigger] source_members[i]).key,
                expr_members[from].key,
            ),
    ensures
        members_compatible(source_members, expr_members, from, rp) == members_compatible(
            source_members,
            expr_members,
            from + 1,
            rp,
        ),
{
    first_member_of_the_key_is_found(
        source_members,
        expr_members[from].key,
        0,
        source_members.len() as int,
    );
}

/// Members fit one after the other: each must fit the first member of its key, and the first that
/// does not ends the comparison.
pub proof fn known_members_must_fit(
    source_members: Seq<LuaMemberInfo>,
    expr_members: Seq<LuaMemberInfo>,
    from: int,
    k: int,
    compatible: bool,
    rp: Replay,
    after: Replay,
)
    requires
        0 <= from < expr_members.len(),
        0 <= k < source_members.len(),
        forall|i: int|
            0 <= i < k ==> !same_key((#[trigger] source_members[i]).key, expr_members[from].key),
        same_key(source_members[k].key, expr_members[from].key),
        rp.steps > 0,
        partial_compatible(source_members[k].typ, expr_members[from].typ, rp.ticked()) == (
            compatible,
            after,
        ),
    ensures
        members_compatible(source_members, expr_members, from, rp) == if compatible {
            members_compatible(source_members, expr_members, from + 1, after.capped(rp.ticked()))
        } else {
            (false, after)
        },
{
    first_member_of_the_key_is_found(source_members, expr_members[from].key, 0, k);
}

/// Where all members are compared, they fit.
pub proof fn compared_members_fit(
    source_members: Seq<LuaMemberInfo>,
    expr_members: Seq<LuaMemberInfo>,
    rp: Replay,
)
    ensures
        members_compatible(source_members, expr_members, expr_members.len() as int, rp) == (
            true,
            rp,
        ),
{
}

/// The variable of an assignment that a reference is, is the first of them that is it.
pub proof fn first_variable_that_is_the_reference_counts(
    info: AssignmentView,
    var_ref_id: VarRefId,
    from: int,
    k: int,
)
    requires
        0 <= from <= k <= info.var_ref_ids.len(),
        info.var_ref_ids.len() == info.assign_stat.vars@.len(),
        forall|i: int| from <= i < k ==> #[trigger] info.var_ref_ids[i] != Some(var_ref_id),
        k < info.var_ref_ids.len() ==> info.var_ref_ids[k] == Some(var_ref_id),
    ensures
        assigned_index(info, var_ref_id, from) == if k < info.var_ref_ids.len() {
            Some(k)
        } else {
            None
        },
    decreases k - from,
{
    if from < k {
        assert(info.var_ref_ids[from] != Some(var_ref_id));
        first_variable_that_is_the_reference_counts(info, var_ref_id, from + 1, k);
    }
}

/// The owner that the type of a variable of this file is filed under.
pub open spec fn owner_of(var: LuaVarExpr, rp: Replay) -> LuaTypeOwner {
    match var {
        LuaVarExpr::NameExpr(name_expr) => LuaTypeOwner::Decl(
            LuaDeclId { file_id: rp.cache.file_id, position: name_expr.syntax_id.range.start },
        ),
        LuaVarExpr::IndexExpr(index_expr) => LuaTypeOwner::Member(
            LuaMemberId { id: index_expr.syntax_id, file_id: rp.cache.file_id },
        ),
    }
}

/// Where the type of an assigned variable is written down, the assignment is held against it: the
/// value is the one that stands at the place of the variable.
pub proof fn assignment_to_a_written_type_builds_on_it(
    q: FlowQuery,
    flow_node: FlowNode,
    info: AssignmentView,
    k: usize,
    written: LuaType,
    expr_type: LuaType,
    rp: Replay,
    asked: Replay,
    inferred: Replay,
)
    requires
        info.var_ref_ids.len() == info.assign_stat.vars@.len(),
        k < info.var_ref_ids.len(),
        info.var_ref_ids[k as int] == Some(q.var_ref_id),
        forall|i: int| 0 <= i < k ==> #[trigger] info.var_ref_ids[i] != Some(q.var_ref_id),
        rp.told(
            Call::GetTypeCache { owner: owner_of(info.assign_stat.vars@[k as int], rp) },
            Reply::TypeCache(Some(LuaTypeCache::DocType(written))),
            asked,
        ),
        asked.told_with_cache(
            Call::InferExprListValueTypeAt { exprs: info.assign_stat.exprs@, idx: k },
            Reply::InferValue(Ok(Some(expr_type))),
            inferred,
        ),
    ensures
        q.assigned(flow_node, info, rp) == ({
            let (typ, next) = assignment_result(
                q.var_ref_id,
                Some(written),
                expr_type,
                written,
                true,
                inferred,
            );
            (Ok::<_, InferFailReason>(ResultTypeOrContinue::Result(typ)), next)
        }),
{
    first_variable_that_is_the_reference_counts(info, q.var_ref_id, 0, k as int);
}

/// A variable that gets no value is passed over, and one whose value cannot be inferred ends the
/// walk.
pub proof fn assignment_without_a_value_is_passed_over(
    q: FlowQuery,
    flow_node: FlowNode,
    info: AssignmentView,
    k: usize,
    held: Option<LuaTypeCache>,
    value: Result<Option<LuaType>, InferFailReason>,
    rp: Replay,
    asked: Replay,
    inferred: Replay,
)
    requires
        info.var_ref_ids.len() == info.assign_stat.vars@.len(),
        k < info.var_ref_ids.len(),
        info.var_ref_ids[k as int] == Some(q.var_ref_id),
        forall|i: int| 0 <= i < k ==> #[trigger] info.var_ref_ids[i] != Some(q.var_ref_id),
        rp.told(
            Call::GetTypeCache { owner: owner_of(info.assign_stat.vars@[k as int], rp) },
            Reply::TypeCache(held),
            asked,
        ),
        asked.told_with_cache(
            Call::InferExprListValueTypeAt { exprs: info.assign_stat.exprs@, idx: k },
            Reply::InferValue(value),
            inferred,
        ),
        !(value matches Ok(Some(_))),
    ensures
        q.assigned(flow_node, info, rp) == (
            match value {
                Ok(_) => Ok(ResultTypeOrContinue::Continue),
                Err(reason) => Err(reason),
            },
            inferred,
        ),
{
    first_variable_that_is_the_reference_counts(info, q.var_ref_id, 0, k as int);
}

/// Whether an assignment at `flow_node` asks for the type of `q` before it from `inferred` on,
/// where the variable has no written type and its value is of type `expr_type`.
pub open spec fn comes_to_the_old_type(
    q: FlowQuery,
    info: AssignmentView,
    k: usize,
    held: Option<LuaTypeCache>,
    expr_type: LuaType,
    rp: Replay,
    asked: Replay,
    inferred: Replay,
) -> bool {
    &&& info.var_ref_ids.len() == info.assign_stat.vars@.len()
    &&& k < info.var_ref_ids.len()
    &&& info.var_ref_ids[k as int] == Some(q.var_ref_id)
    &&& forall|i: int| 0 <= i < k ==> #[trigger] info.var_ref_ids[i] != Some(q.var_ref_id)
    &&& rp.told(
        Call::GetTypeCache { owner: owner_of(info.assign_stat.vars@[k as int], rp) },
        Reply::TypeCache(held),
        asked,
    )
    &&& !(held matches Some(LuaTypeCache::DocType(_)))
    &&& asked.told_with_cache(
        Call::InferExprListValueTypeAt { exprs: info.assign_stat.exprs@, idx: k },
        Reply::InferValue(Ok(Some(expr_type))),
        inferred,
    )
}

/// An expression that says less than all about itself is assigned over the type that the reference
/// had before it without the narrowing by conditions, and gives the type.
pub proof fn wide_assignment_looks_at_the_type_without_narrowing(
    q: FlowQuery,
    flow_node: FlowNode,
    antecedent: FlowId,
    info: AssignmentView,
    k: usize,
    held: Option<LuaTypeCache>,
    expr_type: LuaType,
    source: Result<LuaType, InferFailReason>,
    rp: Replay,
    asked: Replay,
    inferred: Replay,
    before: Replay,
)
    requires
        comes_to_the_old_type(q, info, k, held, expr_type, rp, asked, inferred),
        flow_node.antecedent == Some(FlowAntecedent::Single(antecedent)),
        !preserves(expr_type),
        q.type_at(antecedent, false, inferred) == (source, before),
    ensures
        q.assigned(flow_node, info, rp) == match source {
            Ok(source) => {
                let (typ, next) = assignment_result(
                    q.var_ref_id,
                    None,
                    expr_type,
                    source,
                    false,
                    before,
                );
                (Ok::<_, InferFailReason>(ResultTypeOrContinue::Result(typ)), next)
            },
            Err(reason) => (Err(reason), before),
        },
{
    first_variable_that_is_the_reference_counts(info, q.var_ref_id, 0, k as int);
}

/// An expression that says all about itself builds on the narrowed type that the reference had
/// before it, where it can.
pub proof fn exact_assignment_builds_on_the_narrowed_type(
    q: FlowQuery,
    flow_node: FlowNode,
    antecedent: FlowId,
    info: AssignmentView,
    k: usize,
    held: Option<LuaTypeCache>,
    expr_type: LuaType,
    source: LuaType,
    rp: Replay,
    asked: Replay,
    inferred: Replay,
    before: Replay,
    compared: Replay,
)
    requires
        comes_to_the_old_type(q, info, k, held, expr_type, rp, asked, inferred),
        flow_node.antecedent == Some(FlowAntecedent::Single(antecedent)),
        preserves(expr_type),
        q.type_at(antecedent, true, inferred) == (Ok::<_, InferFailReason>(source), before),
        reuses_source(source, expr_type, before) == (true, compared),
    ensures
        q.assigned(flow_node, info, rp) == ({
            let (typ, next) = assignment_result(
                q.var_ref_id,
                None,
                expr_type,
                source,
                true,
                compared,
            );
            (Ok::<_, InferFailReason>(ResultTypeOrContinue::Result(typ)), next)
        }),
{
    first_variable_that_is_the_reference_counts(info, q.var_ref_id, 0, k as int);
}

/// Where it cannot, it is assigned over the type without narrowing.
pub proof fn exact_assignment_falls_back_to_the_type_without_narrowing(
    q: FlowQuery,
    flow_node: FlowNode,
    antecedent: FlowId,
    info: AssignmentView,
    k: usize,
    held: Option<LuaTypeCache>,
    expr_type: LuaType,
    narrowed: LuaType,
    source: Result<LuaType, InferFailReason>,
    rp: Replay,
    asked: Replay,
    inferred: Replay,
    before: Replay,
    compared: Replay,
    again: Replay,
)
    requires
        comes_to_the_old_type(q, info, k, held, expr_type, rp, asked, inferred),
        flow_node.antecedent == Some(FlowAntecedent::Single(antecedent)),
        preserves(expr_type),
        q.type_at(antecedent, true, inferred) == (Ok::<_, InferFailReason>(narrowed), before),
        reuses_source(narrowed, expr_type, before) == (false, compared),
        q.type_at(antecedent, false, compared.capped(inferred)) == (source, again),
    ensures
        q.assigned(flow_node, info, rp) == match source {
            Ok(source) => {
                let (typ, next) = assignment_result(
                    q.var_ref_id,
                    None,
                    expr_type,
                    source,
                    false,
                    again,
                );
                (Ok::<_, InferFailReason>(ResultTypeOrContinue::Result(typ)), next)
            },
            Err(reason) => (Err(reason), again),
        },
{
    first_variable_that_is_the_reference_counts(info, q.var_ref_id, 0, k as int);
}

/// Where the old type cannot be found, or there is no one node before the assignment, there is no
/// type after it.
pub proof fn assignment_over_a_failure_fails(
    q: FlowQuery,
    flow_node: FlowNode,
    info: AssignmentView,
    k: usize,
    held: Option<LuaTypeCache>,
    expr_type: LuaType,
    reason: InferFailReason,
    rp: Replay,
    asked: Replay,
    inferred: Replay,
    before: Replay,
)
    requires
        comes_to_the_old_type(q, info, k, held, expr_type, rp, asked, inferred),
        match flow_node.antecedent {
            Some(FlowAntecedent::Single(antecedent)) => q.type_at(
                antecedent,
                preserves(expr_type),
                inferred,
            ) == (Err::<LuaType, _>(reason), before),
            _ => reason is Nothing && before == inferred,
        },
    ensures
        q.assigned(flow_node, info, rp) == (Err::<ResultTypeOrContinue, _>(reason), before),
{
    first_variable_that_is_the_reference_counts(info, q.var_ref_id, 0, k as int);
}

/// Members of members are not compared where no steps are left: they do not fit.
pub proof fn members_without_steps_do_not_fit(
    source_members: Seq<LuaMemberInfo>,
    expr_members: Seq<LuaMemberInfo>,
    from: int,
    k: int,
    rp: Replay,
)
    requires
        0 <= from < expr_members.len(),
        0 <= k < source_members.len(),
        forall|i: int|
            0 <= i < k ==> !same_key((#[trigger] source_members[i]).key, expr_members[from].key),
        same_key(source_members[k].key, expr_members[from].key),
        rp.steps == 0,
    ensures
        members_compatible(source_members, expr_members, from, rp) == (false, rp),
{
    first_member_of_the_key_is_found(source_members, expr_members[from].key, 0, k);
}

/// An assignment to other variables gives the reference no type.
pub proof fn assignment_to_others_gives_no_type(
    q: FlowQuery,
    flow_node: FlowNode,
    info: AssignmentView,
    rp: Replay,
)
    requires
        info.var_ref_ids.len() == info.assign_stat.vars@.len(),
        forall|i: int|
            0 <= i < info.var_ref_ids.len() ==> #[trigger] info.var_ref_ids[i] != Some(
                q.var_ref_id,
            ),
    ensures
        q.assigned(flow_node, info, rp) == (
            Ok::<_, InferFailReason>(ResultTypeOrContinue::Continue),
            rp,
        ),
{
    first_variable_that_is_the_reference_counts(
        info,
        q.var_ref_id,
        0,
        info.var_ref_ids.len() as int,
    );
}

} // verus!
