//! What assignments and function statements do.

use std::sync::Arc;

use vstd::prelude::*;

use crate::db::{Call, Replay, Reply};
use crate::ids::{FileId, InFiled, LuaDeclId, LuaMemberId, LuaTypeOwner};
use crate::infer::{
    InferFailReason, LuaDecl, LuaMember, LuaMemberFeature, LuaMemberKey, LuaMemberOwner,
    LuaTypeCache, UnResolve, UnResolveDecl, UnResolveMember,
};
use crate::local_laws::{says_delayed, slot_or};
use crate::stats::{
    assign_stat_analyzed, assigned_type_bound, field_materialized, first_held_type,
    func_stat_analyzed, global_type, index_owner_set, local_func_stat_analyzed, or_default,
    owner_waits, results_assigned, results_awaited, slot_bound, special_assigned,
    table_field_analyzed, var_assigned, var_owner, vars_assigned,
};
use crate::syntax::{
    BinaryOperator, LuaClosureExpr, LuaExpr, LuaFuncStat, LuaIndexExpr, LuaIndexKey,
    LuaLocalFuncStat, LuaLocalName, LuaNameExpr, LuaTableField, LuaVarExpr,
};
use crate::types::LuaType;

verus! {

/// A name is bound as the declaration that stands where the name does, and no question is asked.
pub proof fn assigned_name_is_its_own_declaration(
    file_id: FileId,
    name_expr: Arc<LuaNameExpr>,
    rp: Replay,
)
    ensures
        var_owner(file_id, LuaVarExpr::NameExpr(name_expr), rp) == (
            LuaTypeOwner::Decl(
                LuaDeclId { file_id, position: name_expr.syntax_id.range.start },
            ),
            rp,
        ),
        index_owner_set(file_id, LuaVarExpr::NameExpr(name_expr), rp) == (None::<()>, rp),
{
    reveal(index_owner_set);
}

/// An index expression is bound as the declaration that stands where it does, where there is one,
/// and as a member otherwise.
pub proof fn assigned_index_expression_is_a_declaration_or_a_member(
    file_id: FileId,
    index_expr: Arc<LuaIndexExpr>,
    decl: Option<LuaDecl>,
    rp: Replay,
    asked: Replay,
)
    requires
        rp.told(
            Call::GetDecl {
                decl_id: LuaDeclId { file_id, position: index_expr.syntax_id.range.start },
            },
            Reply::Decl(decl),
            asked,
        ),
    ensures
        var_owner(file_id, LuaVarExpr::IndexExpr(index_expr), rp) == (
            match decl {
                Some(_) => LuaTypeOwner::Decl(
                    LuaDeclId { file_id, position: index_expr.syntax_id.range.start },
                ),
                None => LuaTypeOwner::Member(LuaMemberId { id: index_expr.syntax_id, file_id }),
            },
            asked,
        ),
{
}

/// The call that files a member under a type: members of a table literal and of a call's result
/// belong to the place where it stands, those of a class to the class; under a reference to a class
/// only the owner is set.
pub open spec fn filing(typ: LuaType, member_id: LuaMemberId) -> Option<Call> {
    match typ {
        LuaType::TableConst(range) => Some(
            Call::AddMember { owner: LuaMemberOwner::Element(range), member_id },
        ),
        LuaType::Instance(instance) => Some(
            Call::AddMember { owner: LuaMemberOwner::Element(instance.range), member_id },
        ),
        LuaType::Def(id) => Some(Call::AddMember { owner: LuaMemberOwner::Type(id), member_id }),
        LuaType::Ref(id) => Some(
            Call::SetMemberOwner {
                owner: LuaMemberOwner::Type(id),
                file_id: member_id.file_id,
                member_id,
            },
        ),
        _ => None,
    }
}

/// An index expression whose prefix is no name is filed as a member of the type that is inferred
/// for the prefix.
pub proof fn member_is_filed_under_the_type_of_its_prefix(
    file_id: FileId,
    index_expr: Arc<LuaIndexExpr>,
    prefix_expr: LuaExpr,
    typ: LuaType,
    rp: Replay,
    inferred: Replay,
    filed: Replay,
)
    requires
        index_expr.prefix_expr == Some(prefix_expr),
        !(prefix_expr is NameExpr),
        rp.told_with_cache(
            Call::InferExpr { expr: prefix_expr },
            Reply::Infer(Ok(typ)),
            inferred,
        ),
        index_expr.index_key is Some ==> (filing(
            typ,
            LuaMemberId { id: index_expr.syntax_id, file_id },
        ) matches Some(call) ==> inferred.told(call, Reply::Done, filed)),
    ensures
        index_owner_set(file_id, LuaVarExpr::IndexExpr(index_expr), rp) == if index_expr.index_key
            is Some && filing(typ, LuaMemberId { id: index_expr.syntax_id, file_id }) is Some {
            (Some(()), filed)
        } else {
            (None, inferred)
        },
{
    reveal(index_owner_set);
}

/// An index expression without a prefix is filed nowhere.
pub proof fn member_without_a_prefix_is_not_filed(
    file_id: FileId,
    index_expr: Arc<LuaIndexExpr>,
    rp: Replay,
)
    requires
        index_expr.prefix_expr is None,
    ensures
        index_owner_set(file_id, LuaVarExpr::IndexExpr(index_expr), rp) == (None::<()>, rp),
{
    reveal(index_owner_set);
}

/// Where the prefix cannot be inferred yet, the member waits for it; where there is nothing to
/// infer, it is left alone.
pub proof fn member_waits_for_its_prefix(
    file_id: FileId,
    index_expr: Arc<LuaIndexExpr>,
    prefix_expr: LuaExpr,
    reason: InferFailReason,
    rp: Replay,
    inferred: Replay,
    noted: Replay,
)
    requires
        index_expr.prefix_expr == Some(prefix_expr),
        rp.told_with_cache(
            Call::InferExpr { expr: prefix_expr },
            Reply::Infer(Err(reason)),
            inferred,
        ),
        !(reason is Nothing) ==> inferred.told(
            Call::AddUnresolve {
                unresolve: UnResolve::Member(
                    UnResolveMember {
                        file_id,
                        member_id: LuaMemberId { id: index_expr.syntax_id, file_id },
                        expr: None,
                        prefix: Some(prefix_expr),
                        ret_idx: 0,
                    },
                ),
                reason,
            },
            Reply::Done,
            noted,
        ),
    ensures
        index_owner_set(file_id, LuaVarExpr::IndexExpr(index_expr), rp) == (
            Some(()),
            if reason is Nothing {
                inferred
            } else {
                noted
            },
        ),
{
    reveal(index_owner_set);
}

/// What the name before a member stands for, where the model is asked about it from `rp` on: the
/// first declaration of the global that has a type gives it, unless a local shadows the global.
pub open spec fn is_global_of(
    file_id: FileId,
    name_expr: LuaNameExpr,
    rp: Replay,
    typ: Option<LuaType>,
    next: Replay,
) -> bool {
    global_type(file_id, name_expr, rp) == (typ, next)
}

/// A name without a text stands for no global.
pub proof fn nameless_names_are_no_globals(file_id: FileId, name_expr: LuaNameExpr, rp: Replay)
    requires
        name_expr.name_text is None,
    ensures
        is_global_of(file_id, name_expr, rp, None, rp),
{
}

/// A name that a local shadows stands for no global, and the globals are not looked at.
pub proof fn locals_shadow_globals(
    file_id: FileId,
    name_expr: LuaNameExpr,
    decl: LuaDecl,
    rp: Replay,
    found: Replay,
)
    requires
        name_expr.name_text is Some,
        rp.told(
            Call::FindLocalDecl {
                file_id,
                name: name_expr.name_text->0@,
                position: name_expr.syntax_id.range.start,
            },
            Reply::Decl(Some(decl)),
            found,
        ),
        decl.is_local || decl.is_implicit_self,
    ensures
        is_global_of(file_id, name_expr, rp, None, found),
{
}

/// The type of a global is that of the first of its declarations that has one.
pub proof fn first_typed_declaration_of_a_global_counts(
    file_id: FileId,
    name_expr: LuaNameExpr,
    decl: Option<LuaDecl>,
    decl_ids: Option<Seq<LuaDeclId>>,
    k: nat,
    held: LuaTypeCache,
    rp: Replay,
    found: Replay,
    listed: Replay,
)
    requires
        name_expr.name_text is Some,
        rp.told(
            Call::FindLocalDecl {
                file_id,
                name: name_expr.name_text->0@,
                position: name_expr.syntax_id.range.start,
            },
            Reply::Decl(decl),
            found,
        ),
        decl matches Some(decl) ==> !decl.is_local && !decl.is_implicit_self,
        found.told(
            Call::GetGlobalDeclIds { name: name_expr.name_text->0@ },
            Reply::DeclIds(decl_ids),
            listed,
        ),
        // The first `k` declarations have no type.
        decl_ids matches Some(decl_ids) ==> k <= decl_ids.len() && listed.at + k
            <= listed.log.len() && (forall|i: int|
            0 <= i < k ==> #[trigger] type_cache_reply(listed, i, decl_ids[i], None)) && (k
            < decl_ids.len() ==> listed.at + k < listed.log.len() && type_cache_reply(
            listed,
            k as int,
            decl_ids[k as int],
            Some(held),
        )),
    ensures
        match decl_ids {
            None => is_global_of(file_id, name_expr, rp, None, listed),
            Some(decl_ids) => if k < decl_ids.len() {
                is_global_of(
                    file_id,
                    name_expr,
                    rp,
                    Some(
                        match held {
                            LuaTypeCache::DocType(typ) => typ,
                            LuaTypeCache::InferType(typ) => typ,
                        },
                    ),
                    Replay { at: listed.at + k + 1, ..listed },
                )
            } else {
                is_global_of(
                    file_id,
                    name_expr,
                    rp,
                    None,
                    Replay { at: listed.at + k, ..listed },
                )
            },
        },
{
    if let Some(decl_ids) = decl_ids {
        lemma_first_held_type(decl_ids, 0, k, held, listed, listed);
    }
}

/// Whether exchange `i` from `rp` on asks for the type of a declaration and gets `held`.
pub open spec fn type_cache_reply(
    rp: Replay,
    i: int,
    decl_id: LuaDeclId,
    held: Option<LuaTypeCache>,
) -> bool {
    (Replay { at: rp.at + i, ..rp }).told(
        Call::GetTypeCache { owner: LuaTypeOwner::Decl(decl_id) },
        Reply::TypeCache(held),
        Replay { at: rp.at + i + 1, ..rp },
    )
}

proof fn lemma_first_held_type(
    decl_ids: Seq<LuaDeclId>,
    from: int,
    k: nat,
    held: LuaTypeCache,
    start: Replay,
    rp: Replay,
)
    requires
        0 <= from <= k <= decl_ids.len(),
        rp == (Replay { at: start.at + from, ..start }),
        forall|i: int| 0 <= i < k ==> #[trigger] type_cache_reply(start, i, decl_ids[i], None),
        k < decl_ids.len() ==> type_cache_reply(start, k as int, decl_ids[k as int], Some(held)),
    ensures
        first_held_type(decl_ids, from, rp) == if k < decl_ids.len() {
            (
                Some(
                    match held {
                        LuaTypeCache::DocType(typ) => typ,
                        LuaTypeCache::InferType(typ) => typ,
                    },
                ),
                Replay { at: start.at + k + 1, ..start },
            )
        } else {
            (None, Replay { at: start.at + k, ..start })
        },
    decreases k - from,
{
    if from < k {
        assert(type_cache_reply(start, from, decl_ids[from], None));
        lemma_first_held_type(
            decl_ids,
            from + 1,
            k,
            held,
            start,
            Replay { at: start.at + from + 1, ..start },
        );
    }
}

/// A member of a name is filed under the type of the global that the name stands for, and under the
/// type that is inferred for the name where it stands for none.
pub proof fn member_of_a_name_is_filed_under_the_global(
    file_id: FileId,
    index_expr: Arc<LuaIndexExpr>,
    name_expr: Arc<LuaNameExpr>,
    typ: LuaType,
    global: Option<LuaType>,
    rp: Replay,
    inferred: Replay,
    known: Replay,
    filed: Replay,
)
    requires
        index_expr.prefix_expr == Some(LuaExpr::NameExpr(name_expr)),
        rp.told_with_cache(
            Call::InferExpr { expr: LuaExpr::NameExpr(name_expr) },
            Reply::Infer(Ok(typ)),
            inferred,
        ),
        is_global_of(file_id, *name_expr, inferred, global, known),
        index_expr.index_key is Some ==> (filing(
            slot_or(global, typ),
            LuaMemberId { id: index_expr.syntax_id, file_id },
        ) matches Some(call) ==> known.told(call, Reply::Done, filed)),
    ensures
        index_owner_set(file_id, LuaVarExpr::IndexExpr(index_expr), rp) == if index_expr.index_key
            is Some && filing(
            slot_or(global, typ),
            LuaMemberId { id: index_expr.syntax_id, file_id },
        ) is Some {
            (Some(()), filed)
        } else {
            (None, known)
        },
{
    reveal(index_owner_set);
}

/// `function name() .. end`, where the function cannot be inferred or something of the statement is
/// missing, does nothing.
pub proof fn function_that_is_not_known_is_not_bound(
    file_id: FileId,
    func_stat: LuaFuncStat,
    reason: InferFailReason,
    rp: Replay,
    inferred: Replay,
)
    requires
        func_stat.closure is Some && func_stat.func_name is Some ==> rp.told_with_cache(
            Call::InferExpr { expr: LuaExpr::ClosureExpr(func_stat.closure->0) },
            Reply::Infer(Err(reason)),
            inferred,
        ),
    ensures
        func_stat_analyzed(file_id, func_stat, rp) == (
            None::<()>,
            if func_stat.closure is Some && func_stat.func_name is Some {
                inferred
            } else {
                rp
            },
        ),
{
}

/// A function statement whose name is a plain name binds the declaration that stands there to the
/// type of the function, and files nothing.
pub proof fn function_name_has_the_type_of_the_function(
    file_id: FileId,
    func_stat: LuaFuncStat,
    closure: LuaClosureExpr,
    name_expr: Arc<LuaNameExpr>,
    typ: LuaType,
    rp: Replay,
    inferred: Replay,
    bound: Replay,
)
    requires
        func_stat.closure == Some(closure),
        func_stat.func_name == Some(LuaVarExpr::NameExpr(name_expr)),
        rp.told_with_cache(
            Call::InferExpr { expr: LuaExpr::ClosureExpr(closure) },
            Reply::Infer(Ok(typ)),
            inferred,
        ),
        inferred.told(
            Call::BindIndexType {
                owner: LuaTypeOwner::Decl(
                    LuaDeclId { file_id, position: name_expr.syntax_id.range.start },
                ),
                type_cache: LuaTypeCache::InferType(typ),
            },
            Reply::Done,
            bound,
        ),
    ensures
        func_stat_analyzed(file_id, func_stat, rp) == (Some(()), bound),
{
    reveal(index_owner_set);
}

/// `function prefix.key() .. end` files the member under the type of the prefix, and then binds it
/// to the type of the function.
pub proof fn function_member_is_filed_and_then_bound(
    file_id: FileId,
    func_stat: LuaFuncStat,
    closure: LuaClosureExpr,
    index_expr: Arc<LuaIndexExpr>,
    prefix_expr: LuaExpr,
    prefix_type: LuaType,
    call: Call,
    typ: LuaType,
    rp: Replay,
    inferred: Replay,
    owned: Replay,
    prefixed: Replay,
    filed: Replay,
    bound: Replay,
)
    requires
        func_stat.closure == Some(closure),
        func_stat.func_name == Some(LuaVarExpr::IndexExpr(index_expr)),
        index_expr.prefix_expr == Some(prefix_expr),
        !(prefix_expr is NameExpr),
        index_expr.index_key is Some,
        rp.told_with_cache(
            Call::InferExpr { expr: LuaExpr::ClosureExpr(closure) },
            Reply::Infer(Ok(typ)),
            inferred,
        ),
        inferred.told(
            Call::GetDecl {
                decl_id: LuaDeclId { file_id, position: index_expr.syntax_id.range.start },
            },
            Reply::Decl(None),
            owned,
        ),
        owned.told_with_cache(
            Call::InferExpr { expr: prefix_expr },
            Reply::Infer(Ok(prefix_type)),
            prefixed,
        ),
        filing(prefix_type, LuaMemberId { id: index_expr.syntax_id, file_id }) == Some(call),
        prefixed.told(call, Reply::Done, filed),
        filed.told(
            Call::BindIndexType {
                owner: LuaTypeOwner::Member(LuaMemberId { id: index_expr.syntax_id, file_id }),
                type_cache: LuaTypeCache::InferType(typ),
            },
            Reply::Done,
            bound,
        ),
    ensures
        func_stat_analyzed(file_id, func_stat, rp) == (Some(()), bound),
{
    reveal(index_owner_set);
}

/// Whether a variable is bound as `owner` and the places that its type depends on are known from
/// `ready` on, where the model is asked from `rp` on.
pub open spec fn made_ready(
    file_id: FileId,
    var: LuaVarExpr,
    rp: Replay,
    owner: LuaTypeOwner,
    ready: Replay,
) -> bool {
    &&& var_owner(file_id, var, rp).0 == owner
    &&& index_owner_set(file_id, var, var_owner(file_id, var, rp).1).1 == ready
}

/// The variable of a function statement is made ready as that of an assignment is: where it is a
/// member, it is filed in the same way.  Then it is bound to the type of the function.
pub proof fn function_statement_files_as_an_assignment_does(
    file_id: FileId,
    func_stat: LuaFuncStat,
    closure: LuaClosureExpr,
    var: LuaVarExpr,
    owner: LuaTypeOwner,
    typ: LuaType,
    rp: Replay,
    inferred: Replay,
    ready: Replay,
    bound: Replay,
)
    requires
        func_stat.closure == Some(closure),
        func_stat.func_name == Some(var),
        rp.told_with_cache(
            Call::InferExpr { expr: LuaExpr::ClosureExpr(closure) },
            Reply::Infer(Ok(typ)),
            inferred,
        ),
        made_ready(file_id, var, inferred, owner, ready),
        ready.told(
            Call::BindIndexType { owner, type_cache: LuaTypeCache::InferType(typ) },
            Reply::Done,
            bound,
        ),
    ensures
        func_stat_analyzed(file_id, func_stat, rp) == (Some(()), bound),
{
}

/// `local function name() .. end` binds the name to the type of the function.
pub proof fn local_function_has_the_type_of_the_function(
    file_id: FileId,
    stat: LuaLocalFuncStat,
    closure: LuaClosureExpr,
    name: LuaLocalName,
    typ: Result<LuaType, InferFailReason>,
    rp: Replay,
    inferred: Replay,
    bound: Replay,
)
    requires
        stat.closure == Some(closure),
        stat.local_name == Some(name),
        rp.told_with_cache(
            Call::InferExpr { expr: LuaExpr::ClosureExpr(closure) },
            Reply::Infer(typ),
            inferred,
        ),
        typ matches Ok(typ) ==> inferred.told(
            Call::BindIndexType {
                owner: LuaTypeOwner::Decl(LuaDeclId { file_id, position: name.position }),
                type_cache: LuaTypeCache::InferType(typ),
            },
            Reply::Done,
            bound,
        ),
    ensures
        local_func_stat_analyzed(file_id, stat, rp) == match typ {
            Ok(_) => (Some(()), bound),
            Err(_) => (None, inferred),
        },
{
}

/// A `local function` statement without a name or without a function does nothing.
pub proof fn local_function_without_parts_is_not_bound(
    file_id: FileId,
    stat: LuaLocalFuncStat,
    rp: Replay,
)
    requires
        stat.closure is None || stat.local_name is None,
    ensures
        local_func_stat_analyzed(file_id, stat, rp) == (None::<()>, rp),
{
}

/// The path that an expression names, where it is a name or an index expression.
pub open spec fn path_of(expr: LuaExpr) -> Option<Seq<char>> {
    let path = match expr {
        LuaExpr::NameExpr(name_expr) => name_expr.access_path,
        LuaExpr::IndexExpr(index_expr) => index_expr.access_path,
        _ => None,
    };
    match path {
        Some(path) => Some(path@),
        None => None,
    }
}

/// Whether `var = expr` has the form `var = var or right`.
pub open spec fn defaults_to(var: LuaVarExpr, expr: LuaExpr, right: LuaExpr) -> bool {
    let var_expr = match var {
        LuaVarExpr::NameExpr(name_expr) => LuaExpr::NameExpr(name_expr),
        LuaVarExpr::IndexExpr(index_expr) => LuaExpr::IndexExpr(index_expr),
    };
    &&& expr matches LuaExpr::BinaryExpr(binary_expr)
    &&& binary_expr.op == Some(BinaryOperator::OpOr)
    &&& binary_expr.exprs matches Some((left, default))
    &&& default == right
    &&& path_of(var_expr) is Some
    &&& path_of(var_expr) == path_of(left)
}

/// `var = var or right` binds the variable to the first result of `right`.
pub proof fn default_gives_its_type_to_the_variable(
    file_id: FileId,
    var: LuaVarExpr,
    expr: LuaExpr,
    right: LuaExpr,
    owner: LuaTypeOwner,
    typ: LuaType,
    slot: Option<LuaType>,
    rp: Replay,
    ready: Replay,
    inferred: Replay,
    asked: Replay,
    bound: Replay,
)
    requires
        made_ready(file_id, var, rp, owner, ready),
        defaults_to(var, expr, right),
        ready.told_with_cache(Call::InferExpr { expr: right }, Reply::Infer(Ok(typ)), inferred),
        inferred.told(Call::GetResultSlotType { typ, idx: 0 }, Reply::OptType(slot), asked),
        asked.told(
            Call::BindType {
                owner,
                type_cache: LuaTypeCache::InferType(slot_or(slot, LuaType::Nil)),
            },
            Reply::Done,
            bound,
        ),
    ensures
        assign_stat_analyzed(file_id, seq![var], seq![expr], rp) == (Some(()), bound),
{
    reveal_with_fuel(vars_assigned, 2);
    reveal(var_assigned);
    reveal(special_assigned);
}

/// Whether the value of `var = expr` itself is asked for, from `start` on: there is no default, or
/// the default cannot be inferred.
pub open spec fn comes_to_the_value(
    var: LuaVarExpr,
    expr: LuaExpr,
    right: LuaExpr,
    reason: InferFailReason,
    ready: Replay,
    start: Replay,
) -> bool {
    if defaults_to(var, expr, right) {
        ready.told_with_cache(Call::InferExpr { expr: right }, Reply::Infer(Err(reason)), start)
    } else {
        &&& forall|other: LuaExpr| !defaults_to(var, expr, other)
        &&& start == ready
    }
}

proof fn lemma_comes_to_the_value(
    var: LuaVarExpr,
    expr: LuaExpr,
    right: LuaExpr,
    reason: InferFailReason,
    owner: LuaTypeOwner,
    ready: Replay,
    start: Replay,
)
    requires
        comes_to_the_value(var, expr, right, reason, ready, start),
    ensures
        special_assigned(owner, var, expr, ready) == (None::<()>, start),
{
    reveal(special_assigned);
    if let Some(default) = or_default(var, expr) {
        assert(defaults_to(var, expr, default));
    }
}

/// What is asked and told between a value of type `typ` and the binding of the variable: where a
/// local name is assigned whose declaration says that its definition is delayed, the declaration
/// gets the type.
pub open spec fn declared_first(
    file_id: FileId,
    var: LuaVarExpr,
    typ: LuaType,
    decl_id: Option<LuaDeclId>,
    code: Option<LuaType>,
    rp: Replay,
    found: Replay,
    asked: Replay,
    next: Replay,
) -> bool {
    match var {
        LuaVarExpr::IndexExpr(_) => next == rp,
        LuaVarExpr::NameExpr(name_expr) => {
            &&& rp.told(
                Call::GetLocalReferenceDecl { file_id, range: name_expr.syntax_id.range },
                Reply::DeclId(decl_id),
                found,
            )
            &&& match decl_id {
                None => next == found,
                Some(decl_id) => {
                    &&& found.told(
                        Call::GetAttributeParam {
                            decl_id,
                            attribute: "lsp_optimization"@,
                            param: "code"@,
                        },
                        Reply::OptType(code),
                        asked,
                    )
                    &&& if says_delayed(code) {
                        asked.told(
                            Call::BindType {
                                owner: LuaTypeOwner::Decl(decl_id),
                                type_cache: LuaTypeCache::InferType(typ),
                            },
                            Reply::Done,
                            next,
                        )
                    } else {
                        next == asked
                    }
                },
            }
        },
    }
}

/// `var = expr` binds the variable to the first result of the expression.
pub proof fn assigned_variable_has_the_type_of_its_value(
    file_id: FileId,
    var: LuaVarExpr,
    expr: LuaExpr,
    right: LuaExpr,
    reason: InferFailReason,
    owner: LuaTypeOwner,
    typ: LuaType,
    slot: Option<LuaType>,
    decl_id: Option<LuaDeclId>,
    code: Option<LuaType>,
    value: Option<LuaType>,
    rp: Replay,
    ready: Replay,
    start: Replay,
    inferred: Replay,
    first: Replay,
    found: Replay,
    asked: Replay,
    declared: Replay,
    valued: Replay,
    bound: Replay,
)
    requires
        made_ready(file_id, var, rp, owner, ready),
        comes_to_the_value(var, expr, right, reason, ready, start),
        start.told_with_cache(Call::InferExpr { expr }, Reply::Infer(Ok(typ)), inferred),
        inferred.told(Call::GetResultSlotType { typ, idx: 0 }, Reply::OptType(slot), first),
        declared_first(
            file_id,
            var,
            slot_or(slot, typ),
            decl_id,
            code,
            first,
            found,
            asked,
            declared,
        ),
        declared.told(
            Call::GetResultSlotType { typ: slot_or(slot, typ), idx: 0 },
            Reply::OptType(value),
            valued,
        ),
        valued.told(
            Call::BindType {
                owner,
                type_cache: LuaTypeCache::InferType(slot_or(value, LuaType::Nil)),
            },
            Reply::Done,
            bound,
        ),
    ensures
        assign_stat_analyzed(file_id, seq![var], seq![expr], rp) == (Some(()), bound),
{
    reveal_with_fuel(vars_assigned, 2);
    reveal(var_assigned);
    reveal(assigned_type_bound);
    lemma_comes_to_the_value(var, expr, right, reason, owner, ready, start);
}

/// A variable whose value has no type is unknown.
pub proof fn assigned_variable_without_a_type_is_unknown(
    file_id: FileId,
    var: LuaVarExpr,
    expr: LuaExpr,
    right: LuaExpr,
    reason: InferFailReason,
    owner: LuaTypeOwner,
    decl_id: Option<LuaDeclId>,
    code: Option<LuaType>,
    value: Option<LuaType>,
    rp: Replay,
    ready: Replay,
    start: Replay,
    inferred: Replay,
    found: Replay,
    asked: Replay,
    declared: Replay,
    valued: Replay,
    bound: Replay,
)
    requires
        made_ready(file_id, var, rp, owner, ready),
        comes_to_the_value(var, expr, right, reason, ready, start),
        start.told_with_cache(
            Call::InferExpr { expr },
            Reply::Infer(Err(InferFailReason::Nothing)),
            inferred,
        ),
        declared_first(
            file_id,
            var,
            LuaType::Unknown,
            decl_id,
            code,
            inferred,
            found,
            asked,
            declared,
        ),
        declared.told(
            Call::GetResultSlotType { typ: LuaType::Unknown, idx: 0 },
            Reply::OptType(value),
            valued,
        ),
        valued.told(
            Call::BindType {
                owner,
                type_cache: LuaTypeCache::InferType(slot_or(value, LuaType::Nil)),
            },
            Reply::Done,
            bound,
        ),
    ensures
        assign_stat_analyzed(file_id, seq![var], seq![expr], rp) == (Some(()), bound),
{
    reveal_with_fuel(vars_assigned, 2);
    reveal(var_assigned);
    reveal(assigned_type_bound);
    lemma_comes_to_the_value(var, expr, right, reason, owner, ready, start);
}

/// What an owner waits with for result `ret_idx` of an expression.
pub open spec fn waiting(
    file_id: FileId,
    owner: LuaTypeOwner,
    expr: LuaExpr,
    ret_idx: usize,
) -> Option<UnResolve> {
    match owner {
        LuaTypeOwner::Decl(decl_id) => Some(
            UnResolve::Decl(UnResolveDecl { file_id, decl_id, expr, ret_idx }),
        ),
        LuaTypeOwner::Member(member_id) => Some(
            UnResolve::Member(
                UnResolveMember { file_id, member_id, expr: Some(expr), prefix: None, ret_idx },
            ),
        ),
        LuaTypeOwner::SyntaxId { .. } => None,
    }
}

/// A variable whose value cannot be inferred yet waits for its first result.
pub proof fn assigned_variable_waits_for_its_value(
    file_id: FileId,
    var: LuaVarExpr,
    expr: LuaExpr,
    right: LuaExpr,
    default_reason: InferFailReason,
    owner: LuaTypeOwner,
    unresolve: UnResolve,
    reason: InferFailReason,
    rp: Replay,
    ready: Replay,
    start: Replay,
    inferred: Replay,
    noted: Replay,
)
    requires
        made_ready(file_id, var, rp, owner, ready),
        comes_to_the_value(var, expr, right, default_reason, ready, start),
        !(reason is Nothing),
        start.told_with_cache(Call::InferExpr { expr }, Reply::Infer(Err(reason)), inferred),
        waiting(file_id, owner, expr, 0) == Some(unresolve),
        inferred.told(Call::AddUnresolve { unresolve, reason }, Reply::Done, noted),
    ensures
        assign_stat_analyzed(file_id, seq![var], seq![expr], rp) == (Some(()), noted),
{
    reveal_with_fuel(vars_assigned, 2);
    reveal(var_assigned);
    lemma_comes_to_the_value(var, expr, right, default_reason, owner, ready, start);
}

proof fn lemma_assigned_shift(
    file_id: FileId,
    vars: Seq<LuaVarExpr>,
    exprs: Seq<LuaExpr>,
    from: int,
    rp: Replay,
)
    requires
        0 < from,
        vars.len() > 0,
        exprs.len() > 0,
    ensures
        vars_assigned(file_id, vars, exprs, from, rp) == vars_assigned(
            file_id,
            vars.drop_first(),
            exprs.drop_first(),
            from - 1,
            rp,
        ),
    decreases exprs.len() - from,
{
    if from < vars.len() && from < exprs.len() {
        let after = var_assigned(file_id, vars[from], exprs[from], rp);
        lemma_assigned_shift(file_id, vars, exprs, from + 1, after);
    }
}

proof fn lemma_results_assigned_shift(
    file_id: FileId,
    vars: Seq<LuaVarExpr>,
    count: nat,
    typ: LuaType,
    from: int,
    rp: Replay,
)
    requires
        0 < count <= from,
        vars.len() > 0,
    ensures
        results_assigned(file_id, vars, count, typ, from, rp) == results_assigned(
            file_id,
            vars.drop_first(),
            (count - 1) as nat,
            typ,
            from - 1,
            rp,
        ),
    decreases vars.len() - from,
{
    if from < vars.len() {
        let (owner, after) = var_owner(file_id, vars[from], rp);
        let (_, after) = index_owner_set(file_id, vars[from], after);
        let after = slot_bound(owner, typ, (from - count + 1) as usize, after);
        lemma_results_assigned_shift(file_id, vars, count, typ, from + 1, after);
    }
}

proof fn lemma_results_awaited_shift(
    file_id: FileId,
    vars: Seq<LuaVarExpr>,
    count: nat,
    expr: LuaExpr,
    from: int,
    rp: Replay,
)
    requires
        0 < count <= from,
        vars.len() > 0,
    ensures
        results_awaited(file_id, vars, count, expr, from, rp) == results_awaited(
            file_id,
            vars.drop_first(),
            (count - 1) as nat,
            expr,
            from - 1,
            rp,
        ),
    decreases vars.len() - from,
{
    if from < vars.len() {
        let (owner, after) = var_owner(file_id, vars[from], rp);
        let (_, after) = index_owner_set(file_id, vars[from], after);
        let reason = InferFailReason::UnResolveExpr(InFiled { file_id, value: expr });
        let after = owner_waits(
            file_id,
            owner,
            expr,
            (from - count + 1) as usize,
            reason,
            after,
        );
        lemma_results_awaited_shift(file_id, vars, count, expr, from + 1, after);
    }
}

/// `v, vs.. = e, es..` is `v = e` followed by `vs.. = es..`: each variable gets the expression that
/// stands at its place, and which results of the last expression the variables behind it get does
/// not depend on how many expressions there are.
pub proof fn assignment_goes_variable_by_variable(
    file_id: FileId,
    vars: Seq<LuaVarExpr>,
    exprs: Seq<LuaExpr>,
    rp: Replay,
)
    requires
        vars.len() > 0,
        exprs.len() > 1,
    ensures
        assign_stat_analyzed(file_id, vars, exprs, rp) == assign_stat_analyzed(
            file_id,
            vars.drop_first(),
            exprs.drop_first(),
            assign_stat_analyzed(file_id, seq![vars[0]], seq![exprs[0]], rp).1,
        ),
{
    reveal_with_fuel(vars_assigned, 2);
    let first = var_assigned(file_id, vars[0], exprs[0], rp);
    lemma_assigned_shift(file_id, vars, exprs, 1, first);
    assert(exprs.drop_first().last() == exprs.last());
    let bound = vars_assigned(file_id, vars, exprs, 1, first);
    if vars.len() > exprs.len() {
        let (last_type, after) = bound.infer_expr(exprs.last());
        match last_type {
            Ok(last_type) => {
                let (_, after) = after.contain_multi_return(last_type);
                lemma_results_assigned_shift(
                    file_id,
                    vars,
                    exprs.len(),
                    last_type,
                    exprs.len() as int,
                    after,
                );
            },
            Err(_) => {
                lemma_results_awaited_shift(
                    file_id,
                    vars,
                    exprs.len(),
                    exprs.last(),
                    exprs.len() as int,
                    after,
                );
            },
        }
    }
}

proof fn lemma_assigned_push(
    file_id: FileId,
    vars: Seq<LuaVarExpr>,
    exprs: Seq<LuaExpr>,
    var: LuaVarExpr,
    expr: LuaExpr,
    from: int,
    rp: Replay,
)
    requires
        vars.len() == exprs.len(),
        0 <= from <= vars.len(),
    ensures
        vars_assigned(file_id, vars.push(var), exprs.push(expr), from, rp) == var_assigned(
            file_id,
            var,
            expr,
            vars_assigned(file_id, vars, exprs, from, rp),
        ),
    decreases exprs.len() - from,
{
    if from < vars.len() {
        let after = var_assigned(file_id, vars[from], exprs[from], rp);
        assert(vars.push(var)[from] == vars[from]);
        assert(exprs.push(expr)[from] == exprs[from]);
        lemma_assigned_push(file_id, vars, exprs, var, expr, from + 1, after);
    } else {
        reveal_with_fuel(vars_assigned, 2);
        assert(vars.push(var)[from] == var);
        assert(exprs.push(expr)[from] == expr);
    }
}

/// `vs.., v = es.., e`, with as many variables as expressions, is `vs.. = es..` followed by
/// `v = e`.
pub proof fn last_variable_is_assigned_the_last_expression(
    file_id: FileId,
    vars: Seq<LuaVarExpr>,
    exprs: Seq<LuaExpr>,
    var: LuaVarExpr,
    expr: LuaExpr,
    rp: Replay,
)
    requires
        vars.len() == exprs.len(),
    ensures
        assign_stat_analyzed(file_id, vars.push(var), exprs.push(expr), rp)
            == assign_stat_analyzed(
            file_id,
            seq![var],
            seq![expr],
            assign_stat_analyzed(file_id, vars, exprs, rp).1,
        ),
{
    lemma_assigned_push(file_id, vars, exprs, var, expr, 0, rp);
    reveal_with_fuel(vars_assigned, 2);
}

/// Without variables, and without expressions, nothing is assigned.
pub proof fn nothing_is_assigned_without_both_sides(
    file_id: FileId,
    vars: Seq<LuaVarExpr>,
    exprs: Seq<LuaExpr>,
    rp: Replay,
)
    requires
        vars.len() == 0 || exprs.len() == 0,
    ensures
        assign_stat_analyzed(file_id, vars, exprs, rp) == (
            if exprs.len() == 0 {
                Some(())
            } else {
                None
            },
            rp,
        ),
{
}

proof fn lemma_assigned_first_vars(
    file_id: FileId,
    vars: Seq<LuaVarExpr>,
    more: Seq<LuaVarExpr>,
    exprs: Seq<LuaExpr>,
    from: int,
    rp: Replay,
)
    requires
        exprs.len() <= vars.len(),
        exprs.len() <= more.len(),
        vars.take(exprs.len() as int) == more.take(exprs.len() as int),
        0 <= from,
    ensures
        vars_assigned(file_id, vars, exprs, from, rp) == vars_assigned(
            file_id,
            more,
            exprs,
            from,
            rp,
        ),
    decreases exprs.len() - from,
{
    if from < exprs.len() {
        assert(vars[from] == vars.take(exprs.len() as int)[from]);
        assert(more[from] == more.take(exprs.len() as int)[from]);
        let after = var_assigned(file_id, vars[from], exprs[from], rp);
        lemma_assigned_first_vars(file_id, vars, more, exprs, from + 1, after);
    }
}

proof fn lemma_results_assigned_push(
    file_id: FileId,
    vars: Seq<LuaVarExpr>,
    var: LuaVarExpr,
    count: nat,
    typ: LuaType,
    from: int,
    rp: Replay,
)
    requires
        count <= from <= vars.len(),
    ensures
        results_assigned(file_id, vars.push(var), count, typ, from, rp) == results_assigned(
            file_id,
            vars.push(var),
            count,
            typ,
            vars.len() as int,
            results_assigned(file_id, vars, count, typ, from, rp),
        ),
    decreases vars.len() - from,
{
    if from < vars.len() {
        assert(vars.push(var)[from] == vars[from]);
        let (owner, after) = var_owner(file_id, vars[from], rp);
        let (_, after) = index_owner_set(file_id, vars[from], after);
        let after = slot_bound(owner, typ, (from - count + 1) as usize, after);
        lemma_results_assigned_push(file_id, vars, var, count, typ, from + 1, after);
    }
}

proof fn lemma_results_awaited_push(
    file_id: FileId,
    vars: Seq<LuaVarExpr>,
    var: LuaVarExpr,
    count: nat,
    expr: LuaExpr,
    from: int,
    rp: Replay,
)
    requires
        count <= from <= vars.len(),
    ensures
        results_awaited(file_id, vars.push(var), count, expr, from, rp) == results_awaited(
            file_id,
            vars.push(var),
            count,
            expr,
            vars.len() as int,
            results_awaited(file_id, vars, count, expr, from, rp),
        ),
    decreases vars.len() - from,
{
    if from < vars.len() {
        assert(vars.push(var)[from] == vars[from]);
        let (owner, after) = var_owner(file_id, vars[from], rp);
        let (_, after) = index_owner_set(file_id, vars[from], after);
        let reason = InferFailReason::UnResolveExpr(InFiled { file_id, value: expr });
        let after = owner_waits(
            file_id,
            owner,
            expr,
            (from - count + 1) as usize,
            reason,
            after,
        );
        lemma_results_awaited_push(file_id, vars, var, count, expr, from + 1, after);
    }
}

/// What is left to read where the variables that have expressions of their own are assigned.
pub open spec fn values_assigned(
    file_id: FileId,
    vars: Seq<LuaVarExpr>,
    exprs: Seq<LuaExpr>,
    rp: Replay,
) -> Replay {
    assign_stat_analyzed(file_id, vars.take(exprs.len() as int), exprs, rp).1
}

/// The variables behind the last expression get its further results, the first of them result 1,
/// the next one result 2 and so on, whatever stands before the last expression.  A variable that
/// there is no result for is `nil`.
pub proof fn variables_behind_the_values_get_further_results(
    file_id: FileId,
    vars: Seq<LuaVarExpr>,
    var: LuaVarExpr,
    exprs: Seq<LuaExpr>,
    owner: LuaTypeOwner,
    typ: LuaType,
    slot: Option<LuaType>,
    idx: usize,
    rp: Replay,
    inferred: Replay,
    multi: Replay,
    before: Replay,
    ready: Replay,
    asked: Replay,
    bound: Replay,
)
    requires
        0 < exprs.len() <= vars.len(),
        values_assigned(file_id, vars, exprs, rp).told_with_cache(
            Call::InferExpr { expr: exprs.last() },
            Reply::Infer(Ok(typ)),
            inferred,
        ),
        inferred.told(Call::ContainMultiReturn { typ }, Reply::Truth(true), multi),
        before == if vars.len() == exprs.len() {
            multi
        } else {
            assign_stat_analyzed(file_id, vars, exprs, rp).1
        },
        made_ready(file_id, var, before, owner, ready),
        idx == vars.len() - exprs.len() + 1,
        ready.told(Call::GetResultSlotType { typ, idx }, Reply::OptType(slot), asked),
        asked.told(
            Call::BindType {
                owner,
                type_cache: LuaTypeCache::InferType(slot_or(slot, LuaType::Nil)),
            },
            Reply::Done,
            bound,
        ),
    ensures
        assign_stat_analyzed(file_id, vars.push(var), exprs, rp) == (Some(()), bound),
{
    let count = exprs.len();
    let all = vars.push(var);
    let first = vars.take(count as int);
    assert(all.take(count as int) =~= first);
    assert(first.take(count as int) =~= first);
    lemma_assigned_first_vars(file_id, first, all, exprs, 0, rp);
    lemma_assigned_first_vars(file_id, first, vars, exprs, 0, rp);
    lemma_results_assigned_push(file_id, vars, var, count, typ, count as int, multi);
    reveal_with_fuel(results_assigned, 2);
    assert(all[vars.len() as int] == var);
}

/// Where the last expression has one result only, the variables behind it get nothing.
pub proof fn variables_behind_a_single_result_get_nothing(
    file_id: FileId,
    vars: Seq<LuaVarExpr>,
    exprs: Seq<LuaExpr>,
    typ: LuaType,
    rp: Replay,
    inferred: Replay,
    single: Replay,
)
    requires
        0 < exprs.len() < vars.len(),
        values_assigned(file_id, vars, exprs, rp).told_with_cache(
            Call::InferExpr { expr: exprs.last() },
            Reply::Infer(Ok(typ)),
            inferred,
        ),
        inferred.told(Call::ContainMultiReturn { typ }, Reply::Truth(false), single),
    ensures
        assign_stat_analyzed(file_id, vars, exprs, rp) == (Some(()), single),
{
    let first = vars.take(exprs.len() as int);
    assert(first.take(exprs.len() as int) =~= first);
    lemma_assigned_first_vars(file_id, first, vars, exprs, 0, rp);
}

/// Where the last expression cannot be inferred, the variables behind it wait for its further
/// results, each for the result that it would have got.
pub proof fn variables_behind_the_values_wait_for_further_results(
    file_id: FileId,
    vars: Seq<LuaVarExpr>,
    var: LuaVarExpr,
    exprs: Seq<LuaExpr>,
    owner: LuaTypeOwner,
    unresolve: UnResolve,
    reason: InferFailReason,
    idx: usize,
    rp: Replay,
    inferred: Replay,
    before: Replay,
    ready: Replay,
    noted: Replay,
)
    requires
        0 < exprs.len() <= vars.len(),
        values_assigned(file_id, vars, exprs, rp).told_with_cache(
            Call::InferExpr { expr: exprs.last() },
            Reply::Infer(Err(reason)),
            inferred,
        ),
        before == if vars.len() == exprs.len() {
            inferred
        } else {
            assign_stat_analyzed(file_id, vars, exprs, rp).1
        },
        made_ready(file_id, var, before, owner, ready),
        idx == vars.len() - exprs.len() + 1,
        waiting(file_id, owner, exprs.last(), idx) == Some(unresolve),
        ready.told(
            Call::AddUnresolve {
                unresolve,
                reason: InferFailReason::UnResolveExpr(InFiled { file_id, value: exprs.last() }),
            },
            Reply::Done,
            noted,
        ),
    ensures
        assign_stat_analyzed(file_id, vars.push(var), exprs, rp) == (Some(()), noted),
{
    let count = exprs.len();
    let all = vars.push(var);
    let first = vars.take(count as int);
    assert(all.take(count as int) =~= first);
    assert(first.take(count as int) =~= first);
    lemma_assigned_first_vars(file_id, first, all, exprs, 0, rp);
    lemma_assigned_first_vars(file_id, first, vars, exprs, 0, rp);
    lemma_results_awaited_push(file_id, vars, var, count, exprs.last(), count as int, inferred);
    reveal_with_fuel(results_awaited, 2);
    assert(all[vars.len() as int] == var);
}

/// Whether a field `[expr] = value` has become a member of its table from `made` on, as far as it
/// can: where the member is not there yet and its key is known.  Fields with other keys are
/// members already.
pub open spec fn made_a_member(
    file_id: FileId,
    field: LuaTableField,
    present: bool,
    key: Result<LuaMemberKey, InferFailReason>,
    meta: bool,
    rp: Replay,
    looked: Replay,
    keyed: Replay,
    asked: Replay,
    made: Replay,
) -> bool {
    let member_id = LuaMemberId { id: field.syntax_id, file_id };
    if field.field_key matches Some(LuaIndexKey::Expr(_)) {
        &&& rp.told(Call::HasMember { member_id }, Reply::Truth(present), looked)
        &&& if present {
            made == looked
        } else {
            &&& looked.told_with_cache(
                Call::MemberKeyFromIndexKey { key: field.field_key->0 },
                Reply::MemberKey(key),
                keyed,
            )
            &&& match (key, field.table_range) {
                (Ok(LuaMemberKey::ExprType(LuaType::Unknown)), _) => made == keyed,
                (Ok(key), Some(table_range)) => {
                    &&& keyed.told(Call::IsMetaFile { file_id }, Reply::Truth(meta), asked)
                    &&& asked.told(
                        Call::AddIndexMember {
                            owner: LuaMemberOwner::Element(InFiled { file_id, value: table_range }),
                            member: LuaMember {
                                member_id,
                                key,
                                feature: if meta {
                                    LuaMemberFeature::MetaDefine
                                } else {
                                    LuaMemberFeature::FileDefine
                                },
                            },
                        },
                        Reply::Done,
                        made,
                    )
                },
                _ => made == keyed,
            }
        }
    } else {
        made == rp
    }
}

/// A field `key = value` becomes a member of its table and gets the type of its value.  A class is
/// referred to by it, a value without a type is unknown, and a value that cannot be inferred yet is
/// waited for.
pub proof fn table_field_has_the_type_of_its_value(
    file_id: FileId,
    field: LuaTableField,
    present: bool,
    key: Result<LuaMemberKey, InferFailReason>,
    meta: bool,
    value_expr: LuaExpr,
    typ: Result<LuaType, InferFailReason>,
    rp: Replay,
    looked: Replay,
    keyed: Replay,
    asked: Replay,
    made: Replay,
    inferred: Replay,
    done: Replay,
)
    requires
        field.is_assign_field,
        made_a_member(file_id, field, present, key, meta, rp, looked, keyed, asked, made),
        field.value_expr == Some(value_expr),
        made.told_with_cache(Call::InferExpr { expr: value_expr }, Reply::Infer(typ), inferred),
        inferred.told(
            match typ {
                Ok(LuaType::Def(id)) => Call::BindType {
                    owner: LuaTypeOwner::Member(LuaMemberId { id: field.syntax_id, file_id }),
                    type_cache: LuaTypeCache::InferType(LuaType::Ref(id)),
                },
                Ok(typ) => Call::BindType {
                    owner: LuaTypeOwner::Member(LuaMemberId { id: field.syntax_id, file_id }),
                    type_cache: LuaTypeCache::InferType(typ),
                },
                Err(InferFailReason::Nothing) => Call::BindType {
                    owner: LuaTypeOwner::Member(LuaMemberId { id: field.syntax_id, file_id }),
                    type_cache: LuaTypeCache::InferType(LuaType::Unknown),
                },
                Err(reason) => Call::AddUnresolve {
                    unresolve: UnResolve::Member(
                        UnResolveMember {
                            file_id,
                            member_id: LuaMemberId { id: field.syntax_id, file_id },
                            expr: Some(value_expr),
                            prefix: None,
                            ret_idx: 0,
                        },
                    ),
                    reason,
                },
            },
            Reply::Done,
            done,
        ),
    ensures
        table_field_analyzed(file_id, field, rp) == (
            match typ {
                Ok(_) => Some(()),
                Err(InferFailReason::Nothing) => Some(()),
                Err(_) => None,
            },
            done,
        ),
{
    reveal(field_materialized);
}

/// A field without a value becomes a member and nothing more.
pub proof fn table_field_without_a_value_is_not_bound(
    file_id: FileId,
    field: LuaTableField,
    present: bool,
    key: Result<LuaMemberKey, InferFailReason>,
    meta: bool,
    rp: Replay,
    looked: Replay,
    keyed: Replay,
    asked: Replay,
    made: Replay,
)
    requires
        field.is_assign_field,
        made_a_member(file_id, field, present, key, meta, rp, looked, keyed, asked, made),
        field.value_expr is None,
    ensures
        table_field_analyzed(file_id, field, rp) == (None::<()>, made),
{
    reveal(field_materialized);
}

} // verus!
