//! What `local` statements, function statements and table fields do.

use vstd::prelude::*;

use crate::db::{Call, Replay, Reply};
use crate::ids::{FileId, InFiled, LuaDeclId, LuaTypeOwner};
use crate::infer::{InferFailReason, LuaTypeCache, UnResolve, UnResolveDecl};
use crate::stats::{
    bind_nils, bind_results, bind_value, bind_values, call_args, decl_at, delayed_definition,
    has_effect_table_arg, is_filled_table, is_unknown_instance, local_stat_analyzed,
    wait_for_results,
};
use crate::syntax::{LuaExpr, LuaLocalName};
use crate::types::LuaType;

verus! {

/// The type that a result slot gives, or the type itself where it gives none.
pub open spec fn slot_or(slot: Option<LuaType>, typ: LuaType) -> LuaType {
    match slot {
        Some(slot) => slot,
        None => typ,
    }
}

/// Whether a call may have to wait until the tables that it was given are analysed: its result is
/// an instance of something unknown, and one of its arguments is a table with something in it.
pub open spec fn waits_for_tables(expr: LuaExpr, typ: LuaType) -> bool {
    &&& typ matches LuaType::Instance(instance) && instance.base is Unknown
    &&& expr matches LuaExpr::CallExpr(call_expr) && call_expr.args matches Some(args) && exists|
        i: int,
    |
        0 <= i < args@.len() && (#[trigger] args@[i] matches LuaExpr::TableExpr(table)
            && !table.is_empty)
}

proof fn lemma_waits_for_tables(expr: LuaExpr, typ: LuaType)
    ensures
        waits_for_tables(expr, typ) == (is_unknown_instance(typ) && has_effect_table_arg(expr)),
{
    let args = call_args(expr);
    if has_effect_table_arg(expr) {
        let i = choose|i: int| 0 <= i < args.len() && is_filled_table(#[trigger] args[i]);
        assert(args[i] matches LuaExpr::TableExpr(table) && !table.is_empty);
    }
    if waits_for_tables(expr, typ) {
        let i = choose|i: int|
            0 <= i < args.len() && (#[trigger] args[i] matches LuaExpr::TableExpr(table)
                && !table.is_empty);
        assert(is_filled_table(args[i]));
    }
}

/// `local name = expr` binds the name to the first result of the expression.
pub proof fn local_name_has_the_type_of_its_value(
    file_id: FileId,
    name: LuaLocalName,
    expr: LuaExpr,
    typ: LuaType,
    slot: Option<LuaType>,
    rp: Replay,
    inferred: Replay,
    asked: Replay,
    bound: Replay,
)
    requires
        rp.told_with_cache(Call::InferExpr { expr }, Reply::Infer(Ok(typ)), inferred),
        inferred.told(Call::GetResultSlotType { typ, idx: 0 }, Reply::OptType(slot), asked),
        !waits_for_tables(expr, slot_or(slot, typ)),
        asked.told(
            Call::BindType {
                owner: LuaTypeOwner::Decl(LuaDeclId { file_id, position: name.position }),
                type_cache: LuaTypeCache::InferType(slot_or(slot, typ)),
            },
            Reply::Done,
            bound,
        ),
    ensures
        local_stat_analyzed(file_id, seq![name], seq![expr], rp) == bound,
{
    reveal_with_fuel(bind_values, 2);
    reveal(bind_value);
    lemma_waits_for_tables(expr, slot_or(slot, typ));
}

/// A call that was given a table may have to wait until the table is analysed.
pub proof fn local_call_with_a_table_waits(
    file_id: FileId,
    name: LuaLocalName,
    expr: LuaExpr,
    typ: LuaType,
    slot: Option<LuaType>,
    rp: Replay,
    inferred: Replay,
    asked: Replay,
    noted: Replay,
)
    requires
        rp.told_with_cache(Call::InferExpr { expr }, Reply::Infer(Ok(typ)), inferred),
        inferred.told(Call::GetResultSlotType { typ, idx: 0 }, Reply::OptType(slot), asked),
        waits_for_tables(expr, slot_or(slot, typ)),
        asked.told(
            Call::AddUnresolve {
                unresolve: UnResolve::Decl(
                    UnResolveDecl {
                        file_id,
                        decl_id: LuaDeclId { file_id, position: name.position },
                        expr,
                        ret_idx: 0,
                    },
                ),
                reason: InferFailReason::UnResolveExpr(InFiled { file_id, value: expr }),
            },
            Reply::Done,
            noted,
        ),
    ensures
        local_stat_analyzed(file_id, seq![name], seq![expr], rp) == noted,
{
    reveal_with_fuel(bind_values, 2);
    reveal(bind_value);
    lemma_waits_for_tables(expr, slot_or(slot, typ));
}

/// A name whose value has no type is `nil`.
pub proof fn local_name_without_a_type_is_nil(
    file_id: FileId,
    name: LuaLocalName,
    expr: LuaExpr,
    rp: Replay,
    inferred: Replay,
    bound: Replay,
)
    requires
        rp.told_with_cache(
            Call::InferExpr { expr },
            Reply::Infer(Err(InferFailReason::Nothing)),
            inferred,
        ),
        inferred.told(
            Call::BindIndexType {
                owner: LuaTypeOwner::Decl(LuaDeclId { file_id, position: name.position }),
                type_cache: LuaTypeCache::InferType(LuaType::Nil),
            },
            Reply::Done,
            bound,
        ),
    ensures
        local_stat_analyzed(file_id, seq![name], seq![expr], rp) == bound,
{
    reveal_with_fuel(bind_values, 2);
    reveal(bind_value);
}

/// A name whose value cannot be inferred yet waits for its first result.
pub proof fn local_name_waits_for_its_value(
    file_id: FileId,
    name: LuaLocalName,
    expr: LuaExpr,
    reason: InferFailReason,
    rp: Replay,
    inferred: Replay,
    noted: Replay,
)
    requires
        !(reason is Nothing),
        rp.told_with_cache(Call::InferExpr { expr }, Reply::Infer(Err(reason)), inferred),
        inferred.told(
            Call::AddUnresolve {
                unresolve: UnResolve::Decl(
                    UnResolveDecl {
                        file_id,
                        decl_id: LuaDeclId { file_id, position: name.position },
                        expr,
                        ret_idx: 0,
                    },
                ),
                reason,
            },
            Reply::Done,
            noted,
        ),
    ensures
        local_stat_analyzed(file_id, seq![name], seq![expr], rp) == noted,
{
    reveal_with_fuel(bind_values, 2);
    reveal(bind_value);
}

proof fn lemma_values_shift(
    file_id: FileId,
    names: Seq<LuaLocalName>,
    exprs: Seq<LuaExpr>,
    from: int,
    rp: Replay,
)
    requires
        0 < from,
        names.len() > 0,
        exprs.len() > 0,
    ensures
        bind_values(file_id, names, exprs, from, rp) == bind_values(
            file_id,
            names.drop_first(),
            exprs.drop_first(),
            from - 1,
            rp,
        ),
    decreases names.len() - from,
{
    if from < names.len() && from < exprs.len() {
        let after = bind_value(file_id, names[from], exprs[from], rp);
        lemma_values_shift(file_id, names, exprs, from + 1, after);
    }
}

proof fn lemma_results_shift(
    file_id: FileId,
    names: Seq<LuaLocalName>,
    count: nat,
    typ: LuaType,
    from: int,
    rp: Replay,
)
    requires
        0 < count <= from,
        names.len() > 0,
    ensures
        bind_results(file_id, names, count, typ, from, rp) == bind_results(
            file_id,
            names.drop_first(),
            (count - 1) as nat,
            typ,
            from - 1,
            rp,
        ),
    decreases names.len() - from,
{
    if from < names.len() {
        let owner = LuaTypeOwner::Decl(decl_at(file_id, names[from].position));
        let (slot, after) = rp.get_result_slot_type(typ, (from - count + 1) as usize);
        let after = match slot {
            Some(slot) => after.bind_type(owner, LuaTypeCache::InferType(slot)),
            None => after.bind_index_type(owner, LuaTypeCache::InferType(LuaType::Unknown)),
        };
        lemma_results_shift(file_id, names, count, typ, from + 1, after);
    }
}

proof fn lemma_waiting_shift(
    file_id: FileId,
    names: Seq<LuaLocalName>,
    count: nat,
    expr: LuaExpr,
    reason: InferFailReason,
    from: int,
    rp: Replay,
)
    requires
        0 < count <= from,
        names.len() > 0,
    ensures
        wait_for_results(file_id, names, count, expr, reason, from, rp) == wait_for_results(
            file_id,
            names.drop_first(),
            (count - 1) as nat,
            expr,
            reason,
            from - 1,
            rp,
        ),
    decreases names.len() - from,
{
    if from < names.len() {
        let waiting = UnResolve::Decl(
            UnResolveDecl {
                file_id,
                decl_id: decl_at(file_id, names[from].position),
                expr,
                ret_idx: (from - count + 1) as usize,
            },
        );
        lemma_waiting_shift(
            file_id,
            names,
            count,
            expr,
            reason,
            from + 1,
            rp.add_unresolve(waiting, reason),
        );
    }
}

/// `local a, rest.. = e, es..` is `local a = e` followed by `local rest.. = es..`: each name gets
/// the value that stands at its place, and which results of the last value the names behind it get
/// does not depend on how many values there are.
pub proof fn local_statement_goes_name_by_name(
    file_id: FileId,
    names: Seq<LuaLocalName>,
    exprs: Seq<LuaExpr>,
    rp: Replay,
)
    requires
        names.len() > 0,
        exprs.len() > 1,
    ensures
        local_stat_analyzed(file_id, names, exprs, rp) == local_stat_analyzed(
            file_id,
            names.drop_first(),
            exprs.drop_first(),
            local_stat_analyzed(file_id, seq![names[0]], seq![exprs[0]], rp),
        ),
{
    reveal_with_fuel(bind_values, 2);
    let first = bind_value(file_id, names[0], exprs[0], rp);
    lemma_values_shift(file_id, names, exprs, 1, first);
    assert(exprs.drop_first().last() == exprs.last());
    let bound = bind_values(file_id, names, exprs, 1, first);
    if names.len() > exprs.len() {
        let (last_type, after) = bound.infer_expr(exprs.last());
        match last_type {
            Ok(last_type) => {
                let (_, after) = after.contain_multi_return(last_type);
                lemma_results_shift(
                    file_id,
                    names,
                    exprs.len(),
                    last_type,
                    exprs.len() as int,
                    after,
                );
            },
            Err(reason) => {
                lemma_waiting_shift(
                    file_id,
                    names,
                    exprs.len(),
                    exprs.last(),
                    reason,
                    exprs.len() as int,
                    after,
                );
            },
        }
    }
}

/// Without names nothing is done.
pub proof fn no_names_are_not_bound(file_id: FileId, exprs: Seq<LuaExpr>, rp: Replay)
    ensures
        local_stat_analyzed(file_id, Seq::empty(), exprs, rp) == rp,
{
}

/// A statement that binds the names that have values of their own, and stands before the others.
pub open spec fn values_bound(
    file_id: FileId,
    names: Seq<LuaLocalName>,
    exprs: Seq<LuaExpr>,
    rp: Replay,
) -> Replay {
    local_stat_analyzed(file_id, names.take(exprs.len() as int), exprs, rp)
}

proof fn lemma_values_of_first_names(
    file_id: FileId,
    names: Seq<LuaLocalName>,
    more: Seq<LuaLocalName>,
    exprs: Seq<LuaExpr>,
    from: int,
    rp: Replay,
)
    requires
        exprs.len() <= names.len(),
        exprs.len() <= more.len(),
        names.take(exprs.len() as int) == more.take(exprs.len() as int),
        0 <= from,
    ensures
        bind_values(file_id, names, exprs, from, rp) == bind_values(
            file_id,
            more,
            exprs,
            from,
            rp,
        ),
    decreases exprs.len() - from,
{
    if from < exprs.len() {
        assert(names[from] == names.take(exprs.len() as int)[from]);
        assert(more[from] == more.take(exprs.len() as int)[from]);
        let after = bind_value(file_id, names[from], exprs[from], rp);
        lemma_values_of_first_names(file_id, names, more, exprs, from + 1, after);
    }
}

proof fn lemma_results_push(
    file_id: FileId,
    names: Seq<LuaLocalName>,
    name: LuaLocalName,
    count: nat,
    typ: LuaType,
    from: int,
    rp: Replay,
)
    requires
        count <= from <= names.len(),
    ensures
        bind_results(file_id, names.push(name), count, typ, from, rp) == bind_results(
            file_id,
            names.push(name),
            count,
            typ,
            names.len() as int,
            bind_results(file_id, names, count, typ, from, rp),
        ),
    decreases names.len() - from,
{
    if from < names.len() {
        assert(names.push(name)[from] == names[from]);
        let owner = LuaTypeOwner::Decl(decl_at(file_id, names[from].position));
        let (slot, after) = rp.get_result_slot_type(typ, (from - count + 1) as usize);
        let after = match slot {
            Some(slot) => after.bind_type(owner, LuaTypeCache::InferType(slot)),
            None => after.bind_index_type(owner, LuaTypeCache::InferType(LuaType::Unknown)),
        };
        lemma_results_push(file_id, names, name, count, typ, from + 1, after);
    }
}

proof fn lemma_waiting_push(
    file_id: FileId,
    names: Seq<LuaLocalName>,
    name: LuaLocalName,
    count: nat,
    expr: LuaExpr,
    reason: InferFailReason,
    from: int,
    rp: Replay,
)
    requires
        count <= from <= names.len(),
    ensures
        wait_for_results(file_id, names.push(name), count, expr, reason, from, rp)
            == wait_for_results(
            file_id,
            names.push(name),
            count,
            expr,
            reason,
            names.len() as int,
            wait_for_results(file_id, names, count, expr, reason, from, rp),
        ),
    decreases names.len() - from,
{
    if from < names.len() {
        assert(names.push(name)[from] == names[from]);
        let waiting = UnResolve::Decl(
            UnResolveDecl {
                file_id,
                decl_id: decl_at(file_id, names[from].position),
                expr,
                ret_idx: (from - count + 1) as usize,
            },
        );
        let after = rp.add_unresolve(waiting, reason);
        lemma_waiting_push(file_id, names, name, count, expr, reason, from + 1, after);
    }
}

/// The names behind the last value get its further results, the first of them result 1, the next
/// one result 2 and so on, whatever stands before the last value.  A name that there is no result
/// for is unknown.
pub proof fn local_names_behind_the_values_get_further_results(
    file_id: FileId,
    names: Seq<LuaLocalName>,
    name: LuaLocalName,
    exprs: Seq<LuaExpr>,
    typ: LuaType,
    slot: Option<LuaType>,
    idx: usize,
    rp: Replay,
    inferred: Replay,
    multi: Replay,
    before: Replay,
    asked: Replay,
    bound: Replay,
)
    requires
        0 < exprs.len() <= names.len(),
        values_bound(file_id, names, exprs, rp).told_with_cache(
            Call::InferExpr { expr: exprs.last() },
            Reply::Infer(Ok(typ)),
            inferred,
        ),
        inferred.told(Call::ContainMultiReturn { typ }, Reply::Truth(true), multi),
        before == if names.len() == exprs.len() {
            multi
        } else {
            local_stat_analyzed(file_id, names, exprs, rp)
        },
        idx == names.len() - exprs.len() + 1,
        before.told(Call::GetResultSlotType { typ, idx }, Reply::OptType(slot), asked),
        asked.told(
            match slot {
                Some(slot) => Call::BindType {
                    owner: LuaTypeOwner::Decl(LuaDeclId { file_id, position: name.position }),
                    type_cache: LuaTypeCache::InferType(slot),
                },
                None => Call::BindIndexType {
                    owner: LuaTypeOwner::Decl(LuaDeclId { file_id, position: name.position }),
                    type_cache: LuaTypeCache::InferType(LuaType::Unknown),
                },
            },
            Reply::Done,
            bound,
        ),
    ensures
        local_stat_analyzed(file_id, names.push(name), exprs, rp) == bound,
{
    let count = exprs.len();
    let all = names.push(name);
    let first = names.take(count as int);
    assert(all.take(count as int) =~= first);
    assert(first.take(count as int) =~= first);
    lemma_values_of_first_names(file_id, first, all, exprs, 0, rp);
    lemma_values_of_first_names(file_id, first, names, exprs, 0, rp);
    lemma_results_push(file_id, names, name, count, typ, count as int, multi);
    reveal_with_fuel(bind_results, 2);
    assert(all[names.len() as int] == name);
}

/// Where the last value has one result only, the names behind it get nothing.
pub proof fn local_names_behind_a_single_result_get_nothing(
    file_id: FileId,
    names: Seq<LuaLocalName>,
    exprs: Seq<LuaExpr>,
    typ: LuaType,
    rp: Replay,
    inferred: Replay,
    single: Replay,
)
    requires
        0 < exprs.len() < names.len(),
        values_bound(file_id, names, exprs, rp).told_with_cache(
            Call::InferExpr { expr: exprs.last() },
            Reply::Infer(Ok(typ)),
            inferred,
        ),
        inferred.told(Call::ContainMultiReturn { typ }, Reply::Truth(false), single),
    ensures
        local_stat_analyzed(file_id, names, exprs, rp) == single,
{
    let first = names.take(exprs.len() as int);
    assert(first.take(exprs.len() as int) =~= first);
    lemma_values_of_first_names(file_id, first, names, exprs, 0, rp);
}

/// Where the last value cannot be inferred yet, the names behind it wait for its further results.
pub proof fn local_names_behind_the_values_wait_for_further_results(
    file_id: FileId,
    names: Seq<LuaLocalName>,
    name: LuaLocalName,
    exprs: Seq<LuaExpr>,
    reason: InferFailReason,
    idx: usize,
    rp: Replay,
    inferred: Replay,
    before: Replay,
    noted: Replay,
)
    requires
        0 < exprs.len() <= names.len(),
        values_bound(file_id, names, exprs, rp).told_with_cache(
            Call::InferExpr { expr: exprs.last() },
            Reply::Infer(Err(reason)),
            inferred,
        ),
        before == if names.len() == exprs.len() {
            inferred
        } else {
            local_stat_analyzed(file_id, names, exprs, rp)
        },
        idx == names.len() - exprs.len() + 1,
        before.told(
            Call::AddUnresolve {
                unresolve: UnResolve::Decl(
                    UnResolveDecl {
                        file_id,
                        decl_id: LuaDeclId { file_id, position: name.position },
                        expr: exprs.last(),
                        ret_idx: idx,
                    },
                ),
                reason,
            },
            Reply::Done,
            noted,
        ),
    ensures
        local_stat_analyzed(file_id, names.push(name), exprs, rp) == noted,
{
    let count = exprs.len();
    let all = names.push(name);
    let first = names.take(count as int);
    assert(all.take(count as int) =~= first);
    assert(first.take(count as int) =~= first);
    lemma_values_of_first_names(file_id, first, all, exprs, 0, rp);
    lemma_values_of_first_names(file_id, first, names, exprs, 0, rp);
    lemma_waiting_push(
        file_id,
        names,
        name,
        count,
        exprs.last(),
        reason,
        count as int,
        inferred,
    );
    reveal_with_fuel(wait_for_results, 2);
    assert(all[names.len() as int] == name);
}

/// Whether a reply says that a definition is delayed.
pub open spec fn says_delayed(code: Option<LuaType>) -> bool {
    code matches Some(LuaType::DocStringConst(code)) && code@ == "delayed_definition"@
}

proof fn lemma_nils_shift(
    file_id: FileId,
    names: Seq<LuaLocalName>,
    from: int,
    rp: Replay,
)
    requires
        0 < from,
        names.len() > 0,
    ensures
        bind_nils(file_id, names, from, rp) == bind_nils(file_id, names.drop_first(), from - 1, rp),
    decreases names.len() - from,
{
    if from < names.len() {
        let (_, after) = delayed_definition(decl_at(file_id, names[from].position), rp);
        lemma_nils_shift(
            file_id,
            names,
            from + 1,
            after.bind_index_type(
                LuaTypeOwner::Decl(decl_at(file_id, names[from].position)),
                LuaTypeCache::InferType(LuaType::Nil),
            ),
        );
    }
}

/// Without values the names are `nil`, one after the other, up to one whose definition is delayed.
pub proof fn local_names_without_values_are_nil(
    file_id: FileId,
    names: Seq<LuaLocalName>,
    code: Option<LuaType>,
    rp: Replay,
    asked: Replay,
    bound: Replay,
)
    requires
        names.len() > 0,
        rp.told(
            Call::GetAttributeParam {
                decl_id: LuaDeclId { file_id, position: names[0].position },
                attribute: "lsp_optimization"@,
                param: "code"@,
            },
            Reply::OptType(code),
            asked,
        ),
        !says_delayed(code) ==> asked.told(
            Call::BindIndexType {
                owner: LuaTypeOwner::Decl(LuaDeclId { file_id, position: names[0].position }),
                type_cache: LuaTypeCache::InferType(LuaType::Nil),
            },
            Reply::Done,
            bound,
        ),
    ensures
        local_stat_analyzed(file_id, names, Seq::empty(), rp) == if says_delayed(code) {
            asked
        } else {
            local_stat_analyzed(file_id, names.drop_first(), Seq::empty(), bound)
        },
{
    lemma_nils_shift(file_id, names, 1, bound);
}

} // verus!
