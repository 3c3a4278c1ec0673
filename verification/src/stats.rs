//! The analysis of statements: which declarations and members get which types.

use vstd::prelude::*;

use crate::cache::LuaInferCache;
use crate::db::{
    extends, lemma_extends_is_reflexive, lemma_extends_is_transitive, DbIndex, Log, Replay,
    SemanticModel,
};
use crate::ids::{FileId, InFiled, LuaDeclId, LuaMemberId, LuaTypeOwner, TextRange};
use crate::infer::{
    InferFailReason, InferResult, LuaDecl, LuaMember, LuaMemberFeature, LuaMemberKey,
    LuaMemberOwner, LuaTypeCache, UnResolve, UnResolveDecl, UnResolveMember,
};
use crate::syntax::{
    BinaryOperator, LuaAssignStat, LuaExpr, LuaFuncStat, LuaIndexKey, LuaLocalFuncStat,
    LuaLocalName, LuaLocalStat, LuaNameExpr, LuaTableField, LuaVarExpr,
};
use crate::types::LuaType;

verus! {

broadcast use {lemma_extends_is_reflexive, lemma_extends_is_transitive};

/// The analysis of one file.
pub struct LuaAnalyzer<M> {
    pub file_id: FileId,
    pub db: DbIndex<M>,
    pub cache: LuaInferCache,
}

impl<M: SemanticModel> LuaAnalyzer<M> {
    /// `full`, read from where the analysis stands.
    pub open spec fn replay(&self, full: Log) -> Replay {
        self.db.replay(full, self.cache@)
    }

    /// Nothing is forgotten of what happened since `before`.
    pub open spec fn continues(&self, before: LuaAnalyzer<M>) -> bool {
        &&& self.file_id == before.file_id
        &&& self.db.steps() == before.db.steps()
        &&& extends(self.db.log(), before.db.log())
    }

    pub fn new(file_id: FileId, db: DbIndex<M>, cache: LuaInferCache) -> (analyzer: LuaAnalyzer<M>)
        ensures
            analyzer == (LuaAnalyzer { file_id, db, cache }),
    {
        LuaAnalyzer { file_id, db, cache }
    }
}

impl<M: SemanticModel> LuaAnalyzer<M> {
    pub fn infer_expr(&mut self, expr: &LuaExpr) -> (res: InferResult)
        ensures
            final(self).continues(*old(self)),
            forall|full: Log| #[trigger]
                extends(full, final(self).db.log()) ==> old(self).replay(full).infer_expr(*expr)
                    == (res, final(self).replay(full)),
    {
        self.db.infer_expr(&mut self.cache, expr)
    }
}

/// The declaration that a position names.
pub open spec fn decl_at(file_id: FileId, position: u32) -> LuaDeclId {
    LuaDeclId { file_id, position }
}

/// The owner that a declared name is.
pub open spec fn name_owner(file_id: FileId, name: LuaLocalName) -> LuaTypeOwner {
    LuaTypeOwner::Decl(decl_at(file_id, name.position))
}

/// Whether a declaration says that its type is that of the first assignment.
pub open spec fn delayed_definition(decl_id: LuaDeclId, rp: Replay) -> (bool, Replay) {
    let (code, rp) = rp.get_attribute_param(decl_id, "lsp_optimization"@, "code"@);
    (
        match code {
            Some(LuaType::DocStringConst(code)) => code@ == "delayed_definition"@,
            _ => false,
        },
        rp,
    )
}

fn has_delayed_definition_attribute<M: SemanticModel>(
    analyzer: &mut LuaAnalyzer<M>,
    decl_id: LuaDeclId,
) -> (res: bool)
    ensures
        final(analyzer).continues(*old(analyzer)),
        forall|full: Log| #[trigger]
            extends(full, final(analyzer).db.log()) ==> delayed_definition(
                decl_id,
                old(analyzer).replay(full),
            ) == (res, final(analyzer).replay(full)),
{
    match analyzer.db.get_attribute_param(decl_id, "lsp_optimization", "code") {
        Some(LuaType::DocStringConst(code)) => *code == "delayed_definition".to_string(),
        _ => false,
    }
}

/// The declaration that an assigned name refers to, where its definition is delayed.
pub open spec fn delayed_decl(file_id: FileId, name_expr: LuaNameExpr, rp: Replay) -> (
    Option<LuaDeclId>,
    Replay,
) {
    let (decl_id, rp) = rp.get_local_reference_decl(file_id, name_expr.syntax_id.range);
    match decl_id {
        None => (None, rp),
        Some(decl_id) => {
            let (delayed, rp) = delayed_definition(decl_id, rp);
            (
                if delayed {
                    Some(decl_id)
                } else {
                    None
                },
                rp,
            )
        },
    }
}

fn get_delayed_definition_decl_id<M: SemanticModel>(
    analyzer: &mut LuaAnalyzer<M>,
    name_expr: &LuaNameExpr,
) -> (res: Option<LuaDeclId>)
    ensures
        final(analyzer).continues(*old(analyzer)),
        forall|full: Log| #[trigger]
            extends(full, final(analyzer).db.log()) ==> delayed_decl(
                old(analyzer).file_id,
                *name_expr,
                old(analyzer).replay(full),
            ) == (res, final(analyzer).replay(full)),
{
    let file_id = analyzer.file_id;
    let decl_id = match analyzer.db.get_local_reference_decl(file_id, name_expr.syntax_id.range) {
        Some(decl_id) => decl_id,
        None => return None,
    };
    if !has_delayed_definition_attribute(analyzer, decl_id) {
        return None;
    }
    Some(decl_id)
}

/// The arguments of a call.
pub open spec fn call_args(expr: LuaExpr) -> Seq<LuaExpr> {
    match expr {
        LuaExpr::CallExpr(call_expr) => match call_expr.args {
            Some(args) => args@,
            None => Seq::empty(),
        },
        _ => Seq::empty(),
    }
}

/// Whether a call is given a table that has something in it.
pub open spec fn has_effect_table_arg(expr: LuaExpr) -> bool {
    exists|i: int|
        0 <= i < call_args(expr).len() && is_filled_table(#[trigger] call_args(expr)[i])
}

pub open spec fn is_filled_table(expr: LuaExpr) -> bool {
    expr matches LuaExpr::TableExpr(table_expr) && !table_expr.is_empty
}

pub fn call_expr_has_effect_table_arg(expr: &LuaExpr) -> (res: Option<()>)
    ensures
        res is Some == has_effect_table_arg(*expr),
{
    if let LuaExpr::CallExpr(call_expr) = expr {
        let args = match &call_expr.args {
            Some(args) => args,
            None => return None,
        };
        let mut i: usize = 0;
        while i < args.len()
            invariant
                i <= args@.len(),
                args@ == call_args(*expr),
                forall|j: int| 0 <= j < i ==> !is_filled_table(#[trigger] call_args(*expr)[j]),
            decreases args@.len() - i,
        {
            if let LuaExpr::TableExpr(table_expr) = &args[i] {
                if !table_expr.is_empty {
                    assert(is_filled_table(call_args(*expr)[i as int]));
                    return Some(());
                }
            }
            i += 1;
        }
    }
    None
}

/// `typ`, or the type of its first value where it stands for several.
pub open spec fn first_slot(typ: LuaType, rp: Replay) -> (LuaType, Replay) {
    let (slot, rp) = rp.get_result_slot_type(typ, 0);
    (
        match slot {
            Some(slot) => slot,
            None => typ,
        },
        rp,
    )
}

fn get_first_slot<M: SemanticModel>(analyzer: &mut LuaAnalyzer<M>, typ: LuaType) -> (res: LuaType)
    ensures
        final(analyzer).continues(*old(analyzer)),
        forall|full: Log| #[trigger]
            extends(full, final(analyzer).db.log()) ==> first_slot(
                typ,
                old(analyzer).replay(full),
            ) == (res, final(analyzer).replay(full)),
{
    match analyzer.db.get_result_slot_type(&typ, 0) {
        Some(slot) => slot,
        None => typ,
    }
}

/// Whether a type is that of a call whose callee is not known yet.
pub open spec fn is_unknown_instance(typ: LuaType) -> bool {
    typ matches LuaType::Instance(instance) && instance.base is Unknown
}

/// The failure to infer an expression.
pub open spec fn unresolved_expr(file_id: FileId, expr: LuaExpr) -> InferFailReason {
    InferFailReason::UnResolveExpr(InFiled { file_id, value: expr })
}

/// A declaration that waits for a value of an expression.
pub open spec fn waiting_decl(
    file_id: FileId,
    decl_id: LuaDeclId,
    expr: LuaExpr,
    ret_idx: usize,
) -> UnResolve {
    UnResolve::Decl(UnResolveDecl { file_id, decl_id, expr, ret_idx })
}

/// A member that waits for a value of an expression.
pub open spec fn waiting_member(
    file_id: FileId,
    member_id: LuaMemberId,
    expr: LuaExpr,
    ret_idx: usize,
) -> UnResolve {
    UnResolve::Member(
        UnResolveMember { file_id, member_id, expr: Some(expr), prefix: None, ret_idx },
    )
}

/// Names without values get the type `nil`, up to a name whose definition is delayed.
pub open spec fn bind_nils(
    file_id: FileId,
    names: Seq<LuaLocalName>,
    from: int,
    rp: Replay,
) -> Replay
    decreases names.len() - from,
{
    if from < 0 || from >= names.len() {
        rp
    } else {
        let (delayed, rp) = delayed_definition(decl_at(file_id, names[from].position), rp);
        if delayed {
            rp
        } else {
            bind_nils(
                file_id,
                names,
                from + 1,
                rp.bind_index_type(
                    name_owner(file_id, names[from]),
                    LuaTypeCache::InferType(LuaType::Nil),
                ),
            )
        }
    }
}

/// A name gets the type of its value, or waits for it.  A call that was given a table waits too,
/// as the table may not be analysed yet.
#[verifier::opaque]
pub open spec fn bind_value(
    file_id: FileId,
    name: LuaLocalName,
    expr: LuaExpr,
    rp: Replay,
) -> Replay {
    let owner = name_owner(file_id, name);
    let waiting = waiting_decl(file_id, decl_at(file_id, name.position), expr, 0);
    let (expr_type, rp) = rp.infer_expr(expr);
    match expr_type {
        Ok(expr_type) => {
            let (expr_type, rp) = first_slot(expr_type, rp);
            if is_unknown_instance(expr_type) && has_effect_table_arg(expr) {
                rp.add_unresolve(waiting, unresolved_expr(file_id, expr))
            } else {
                rp.bind_type(owner, LuaTypeCache::InferType(expr_type))
            }
        },
        Err(InferFailReason::Nothing) => rp.bind_index_type(
            owner,
            LuaTypeCache::InferType(LuaType::Nil),
        ),
        Err(reason) => rp.add_unresolve(waiting, reason),
    }
}

fn bind_local_value<M: SemanticModel>(
    analyzer: &mut LuaAnalyzer<M>,
    name: LuaLocalName,
    expr: &LuaExpr,
)
    ensures
        final(analyzer).continues(*old(analyzer)),
        forall|full: Log| #[trigger]
            extends(full, final(analyzer).db.log()) ==> bind_value(
                old(analyzer).file_id,
                name,
                *expr,
                old(analyzer).replay(full),
            ) == final(analyzer).replay(full),
{
    proof {
        reveal(bind_value);
    }
    let file_id = analyzer.file_id;
    let decl_id = LuaDeclId::new(file_id, name.position);
    match analyzer.infer_expr(expr) {
        Ok(expr_type) => {
            let expr_type = get_first_slot(analyzer, expr_type);
            let is_unknown = match &expr_type {
                LuaType::Instance(instance) => instance.base.is_unknown(),
                _ => false,
            };
            if is_unknown && call_expr_has_effect_table_arg(expr).is_some() {
                analyzer.db.add_unresolve(
                    UnResolve::Decl(
                        UnResolveDecl { file_id, decl_id, expr: expr.clone(), ret_idx: 0 },
                    ),
                    InferFailReason::UnResolveExpr(InFiled::new(file_id, expr.clone())),
                );
                return ;
            }
            analyzer.db.bind_type(LuaTypeOwner::Decl(decl_id), LuaTypeCache::InferType(expr_type));
        },
        Err(InferFailReason::Nothing) => {
            analyzer.db.bind_index_type(
                LuaTypeOwner::Decl(decl_id),
                LuaTypeCache::InferType(LuaType::Nil),
            );
        },
        Err(reason) => {
            analyzer.db.add_unresolve(
                UnResolve::Decl(UnResolveDecl { file_id, decl_id, expr: expr.clone(), ret_idx: 0 }),
                reason,
            );
        },
    }
}

/// Each name that has a value of its own gets its type.
pub open spec fn bind_values(
    file_id: FileId,
    names: Seq<LuaLocalName>,
    exprs: Seq<LuaExpr>,
    from: int,
    rp: Replay,
) -> Replay
    decreases names.len() - from,
{
    if from < 0 || from >= names.len() || from >= exprs.len() {
        rp
    } else {
        bind_values(
            file_id,
            names,
            exprs,
            from + 1,
            bind_value(file_id, names[from], exprs[from], rp),
        )
    }
}

/// The names behind the last value, which is value number `count - 1`, get the further results of
/// that value; one that there is no result for is unknown.
pub open spec fn bind_results(
    file_id: FileId,
    names: Seq<LuaLocalName>,
    count: nat,
    typ: LuaType,
    from: int,
    rp: Replay,
) -> Replay
    decreases names.len() - from,
{
    if from < count || from >= names.len() {
        rp
    } else {
        let owner = name_owner(file_id, names[from]);
        let (slot, rp) = rp.get_result_slot_type(typ, (from - count + 1) as usize);
        let rp = match slot {
            Some(slot) => rp.bind_type(owner, LuaTypeCache::InferType(slot)),
            None => rp.bind_index_type(owner, LuaTypeCache::InferType(LuaType::Unknown)),
        };
        bind_results(file_id, names, count, typ, from + 1, rp)
    }
}

/// The names behind the last value wait for its further results.
pub open spec fn wait_for_results(
    file_id: FileId,
    names: Seq<LuaLocalName>,
    count: nat,
    expr: LuaExpr,
    reason: InferFailReason,
    from: int,
    rp: Replay,
) -> Replay
    decreases names.len() - from,
{
    if from < count || from >= names.len() {
        rp
    } else {
        let waiting = waiting_decl(
            file_id,
            decl_at(file_id, names[from].position),
            expr,
            (from - count + 1) as usize,
        );
        wait_for_results(
            file_id,
            names,
            count,
            expr,
            reason,
            from + 1,
            rp.add_unresolve(waiting, reason),
        )
    }
}

/// The names behind the last value.  Where it has one result only, they get nothing.
pub open spec fn bind_remaining(
    file_id: FileId,
    names: Seq<LuaLocalName>,
    exprs: Seq<LuaExpr>,
    rp: Replay,
) -> Replay {
    let (last_type, rp) = rp.infer_expr(exprs.last());
    match last_type {
        Ok(last_type) => {
            let (multi, rp) = rp.contain_multi_return(last_type);
            if multi {
                bind_results(file_id, names, exprs.len(), last_type, exprs.len() as int, rp)
            } else {
                rp
            }
        },
        Err(reason) => wait_for_results(
            file_id,
            names,
            exprs.len(),
            exprs.last(),
            reason,
            exprs.len() as int,
            rp,
        ),
    }
}

/// A `local` statement.
pub open spec fn local_stat_analyzed(
    file_id: FileId,
    names: Seq<LuaLocalName>,
    exprs: Seq<LuaExpr>,
    rp: Replay,
) -> Replay {
    if exprs.len() == 0 {
        bind_nils(file_id, names, 0, rp)
    } else {
        let rp = bind_values(file_id, names, exprs, 0, rp);
        if names.len() > exprs.len() {
            bind_remaining(file_id, names, exprs, rp)
        } else {
            rp
        }
    }
}

fn bind_nil_names<M: SemanticModel>(analyzer: &mut LuaAnalyzer<M>, names: &Vec<LuaLocalName>)
    ensures
        final(analyzer).continues(*old(analyzer)),
        forall|full: Log| #[trigger]
            extends(full, final(analyzer).db.log()) ==> bind_nils(
                old(analyzer).file_id,
                names@,
                0,
                old(analyzer).replay(full),
            ) == final(analyzer).replay(full),
{
    let mut i: usize = 0;
    while i < names.len()
        invariant
            i <= names@.len(),
            analyzer.continues(*old(analyzer)),
            forall|full: Log| #[trigger]
                extends(full, analyzer.db.log()) ==> bind_nils(
                    old(analyzer).file_id,
                    names@,
                    0,
                    old(analyzer).replay(full),
                ) == bind_nils(
                    old(analyzer).file_id,
                    names@,
                    i as int,
                    analyzer.replay(full),
                ),
        decreases names@.len() - i,
    {
        let decl_id = LuaDeclId::new(analyzer.file_id, names[i].position);
        // The type of a declaration whose definition is delayed is that of the first assignment.
        if has_delayed_definition_attribute(analyzer, decl_id) {
            return ;
        }
        analyzer.db.bind_index_type(
            LuaTypeOwner::Decl(decl_id),
            LuaTypeCache::InferType(LuaType::Nil),
        );
        i += 1;
    }
}

fn bind_remaining_names<M: SemanticModel>(
    analyzer: &mut LuaAnalyzer<M>,
    names: &Vec<LuaLocalName>,
    exprs: &Vec<LuaExpr>,
)
    requires
        0 < exprs@.len() < names@.len(),
    ensures
        final(analyzer).continues(*old(analyzer)),
        forall|full: Log| #[trigger]
            extends(full, final(analyzer).db.log()) ==> bind_remaining(
                old(analyzer).file_id,
                names@,
                exprs@,
                old(analyzer).replay(full),
            ) == final(analyzer).replay(full),
{
    let file_id = analyzer.file_id;
    let expr_count = exprs.len();
    let last_expr = &exprs[expr_count - 1];
    assert(*last_expr == exprs@.last());
    match analyzer.infer_expr(last_expr) {
        Ok(last_expr_type) => {
            if !analyzer.db.contain_multi_return(&last_expr_type) {
                return ;
            }
            let mut i: usize = expr_count;
            while i < names.len()
                invariant
                    0 < expr_count <= i <= names@.len(),
                    expr_count == exprs@.len(),
                    file_id == old(analyzer).file_id,
                    analyzer.continues(*old(analyzer)),
                    forall|full: Log| #[trigger]
                        extends(full, analyzer.db.log()) ==> bind_remaining(
                            file_id,
                            names@,
                            exprs@,
                            old(analyzer).replay(full),
                        ) == bind_results(
                            file_id,
                            names@,
                            expr_count as nat,
                            last_expr_type,
                            i as int,
                            analyzer.replay(full),
                        ),
                decreases names@.len() - i,
            {
                let decl_id = LuaDeclId::new(file_id, names[i].position);
                match analyzer.db.get_result_slot_type(&last_expr_type, i - expr_count + 1) {
                    Some(ret_type) => {
                        analyzer.db.bind_type(
                            LuaTypeOwner::Decl(decl_id),
                            LuaTypeCache::InferType(ret_type),
                        );
                    },
                    None => {
                        analyzer.db.bind_index_type(
                            LuaTypeOwner::Decl(decl_id),
                            LuaTypeCache::InferType(LuaType::Unknown),
                        );
                    },
                }
                i += 1;
            }
        },
        Err(reason) => {
            let mut i: usize = expr_count;
            while i < names.len()
                invariant
                    0 < expr_count <= i <= names@.len(),
                    expr_count == exprs@.len(),
                    *last_expr == exprs@.last(),
                    file_id == old(analyzer).file_id,
                    analyzer.continues(*old(analyzer)),
                    forall|full: Log| #[trigger]
                        extends(full, analyzer.db.log()) ==> bind_remaining(
                            file_id,
                            names@,
                            exprs@,
                            old(analyzer).replay(full),
                        ) == wait_for_results(
                            file_id,
                            names@,
                            expr_count as nat,
                            *last_expr,
                            reason,
                            i as int,
                            analyzer.replay(full),
                        ),
                decreases names@.len() - i,
            {
                let decl_id = LuaDeclId::new(file_id, names[i].position);
                analyzer.db.add_unresolve(
                    UnResolve::Decl(
                        UnResolveDecl {
                            file_id,
                            decl_id,
                            expr: last_expr.clone(),
                            ret_idx: i - expr_count + 1,
                        },
                    ),
                    reason.clone(),
                );
                i += 1;
            }
        },
    }
}

pub fn analyze_local_stat<M: SemanticModel>(
    analyzer: &mut LuaAnalyzer<M>,
    local_stat: LuaLocalStat,
) -> (res: Option<()>)
    ensures
        res is Some,
        final(analyzer).continues(*old(analyzer)),
        forall|full: Log| #[trigger]
            extends(full, final(analyzer).db.log()) ==> local_stat_analyzed(
                old(analyzer).file_id,
                local_stat.local_names@,
                local_stat.value_exprs@,
                old(analyzer).replay(full),
            ) == final(analyzer).replay(full),
{
    let name_list = &local_stat.local_names;
    let expr_list = &local_stat.value_exprs;
    if expr_list.len() == 0 {
        bind_nil_names(analyzer, name_list);
        return Some(());
    }
    let mut i: usize = 0;
    while i < name_list.len() && i < expr_list.len()
        invariant
            i <= name_list@.len(),
            i <= expr_list@.len(),
            analyzer.continues(*old(analyzer)),
            forall|full: Log| #[trigger]
                extends(full, analyzer.db.log()) ==> bind_values(
                    old(analyzer).file_id,
                    name_list@,
                    expr_list@,
                    0,
                    old(analyzer).replay(full),
                ) == bind_values(
                    old(analyzer).file_id,
                    name_list@,
                    expr_list@,
                    i as int,
                    analyzer.replay(full),
                ),
        decreases name_list@.len() - i,
    {
        bind_local_value(analyzer, name_list[i], &expr_list[i]);
        i += 1;
    }
    if name_list.len() > expr_list.len() {
        bind_remaining_names(analyzer, name_list, expr_list);
    }
    Some(())
}

/// What the type of an assigned variable is bound to.
pub open spec fn var_owner(file_id: FileId, var: LuaVarExpr, rp: Replay) -> (LuaTypeOwner, Replay) {
    match var {
        LuaVarExpr::NameExpr(name_expr) => (
            LuaTypeOwner::Decl(decl_at(file_id, name_expr.syntax_id.range.start)),
            rp,
        ),
        LuaVarExpr::IndexExpr(index_expr) => {
            let decl_id = decl_at(file_id, index_expr.syntax_id.range.start);
            let (decl, rp) = rp.get_decl(decl_id);
            if decl is Some {
                (LuaTypeOwner::Decl(decl_id), rp)
            } else {
                (LuaTypeOwner::Member(LuaMemberId { id: index_expr.syntax_id, file_id }), rp)
            }
        },
    }
}

fn get_var_owner<M: SemanticModel>(analyzer: &mut LuaAnalyzer<M>, var: &LuaVarExpr) -> (res:
    LuaTypeOwner)
    ensures
        final(analyzer).continues(*old(analyzer)),
        forall|full: Log| #[trigger]
            extends(full, final(analyzer).db.log()) ==> var_owner(
                old(analyzer).file_id,
                *var,
                old(analyzer).replay(full),
            ) == (res, final(analyzer).replay(full)),
{
    let file_id = analyzer.file_id;
    match var {
        LuaVarExpr::NameExpr(name_expr) => LuaTypeOwner::Decl(
            LuaDeclId::new(file_id, name_expr.syntax_id.range.start),
        ),
        LuaVarExpr::IndexExpr(index_expr) => {
            let maybe_decl_id = LuaDeclId::new(file_id, index_expr.syntax_id.range.start);
            if analyzer.db.get_decl(maybe_decl_id).is_some() {
                return LuaTypeOwner::Decl(maybe_decl_id);
            }
            LuaTypeOwner::Member(LuaMemberId::new(index_expr.syntax_id, file_id))
        },
    }
}

/// The type of the first declaration that has one.
pub open spec fn first_held_type(decl_ids: Seq<LuaDeclId>, from: int, rp: Replay) -> (
    Option<LuaType>,
    Replay,
)
    decreases decl_ids.len() - from,
{
    if from < 0 || from >= decl_ids.len() {
        (None, rp)
    } else {
        let (held, rp) = rp.get_type_cache(LuaTypeOwner::Decl(decl_ids[from]));
        match held {
            Some(type_cache) => (Some(type_cache.typ()), rp),
            None => first_held_type(decl_ids, from + 1, rp),
        }
    }
}

/// The type of the global that a name refers to; there is none where a local shadows it.
pub open spec fn global_type(file_id: FileId, name_expr: LuaNameExpr, rp: Replay) -> (
    Option<LuaType>,
    Replay,
) {
    match name_expr.name_text {
        None => (None, rp),
        Some(name) => {
            let (decl, rp) = rp.find_local_decl(file_id, name@, name_expr.syntax_id.range.start);
            if decl matches Some(decl) && (decl.is_local || decl.is_implicit_self) {
                (None, rp)
            } else {
                let (decl_ids, rp) = rp.get_global_decl_ids(name@);
                match decl_ids {
                    None => (None, rp),
                    Some(decl_ids) => first_held_type(decl_ids, 0, rp),
                }
            }
        },
    }
}

fn get_global_type<M: SemanticModel>(
    analyzer: &mut LuaAnalyzer<M>,
    name_expr: &LuaNameExpr,
) -> (res: Option<LuaType>)
    ensures
        final(analyzer).continues(*old(analyzer)),
        forall|full: Log| #[trigger]
            extends(full, final(analyzer).db.log()) ==> global_type(
                old(analyzer).file_id,
                *name_expr,
                old(analyzer).replay(full),
            ) == (res, final(analyzer).replay(full)),
{
    let name = match &name_expr.name_text {
        Some(name) => name,
        None => return None,
    };
    let file_id = analyzer.file_id;
    // Members must not be attached to a global of the standard library when a local shadows it.
    let is_shadowed = match analyzer.db.find_local_decl(
        file_id,
        name,
        name_expr.syntax_id.range.start,
    ) {
        Some(decl) => decl.is_local || decl.is_implicit_self,
        None => false,
    };
    if is_shadowed {
        return None;
    }
    let decl_ids = match analyzer.db.get_global_decl_ids(name) {
        Some(decl_ids) => decl_ids,
        None => return None,
    };
    let mut i: usize = 0;
    while i < decl_ids.len()
        invariant
            i <= decl_ids@.len(),
            analyzer.continues(*old(analyzer)),
            forall|full: Log| #[trigger]
                extends(full, analyzer.db.log()) ==> global_type(
                    old(analyzer).file_id,
                    *name_expr,
                    old(analyzer).replay(full),
                ) == first_held_type(decl_ids@, i as int, analyzer.replay(full)),
        decreases decl_ids@.len() - i,
    {
        if let Some(type_cache) = analyzer.db.get_type_cache(LuaTypeOwner::Decl(decl_ids[i])) {
            return Some(type_cache.as_type().clone());
        }
        i += 1;
    }
    None
}

/// The type that a member is attached to: for a name the type of the global, where it has one.
pub open spec fn prefix_owner_type(
    file_id: FileId,
    prefix_expr: LuaExpr,
    prefix_type: LuaType,
    rp: Replay,
) -> (LuaType, Replay) {
    match prefix_expr {
        LuaExpr::NameExpr(name_expr) => {
            let (explicit, rp) = global_type(file_id, *name_expr, rp);
            (
                match explicit {
                    Some(explicit) => explicit,
                    None => prefix_type,
                },
                rp,
            )
        },
        _ => (prefix_type, rp),
    }
}

/// A member is filed under the type of its prefix.
pub open spec fn member_filed(owner_type: LuaType, member_id: LuaMemberId, rp: Replay) -> (
    Option<()>,
    Replay,
) {
    match owner_type {
        LuaType::TableConst(range) => (
            Some(()),
            rp.add_member(LuaMemberOwner::Element(range), member_id),
        ),
        LuaType::Def(id) => (Some(()), rp.add_member(LuaMemberOwner::Type(id), member_id)),
        LuaType::Instance(instance) => (
            Some(()),
            rp.add_member(LuaMemberOwner::Element(instance.range), member_id),
        ),
        LuaType::Ref(id) => (
            Some(()),
            rp.set_member_owner(LuaMemberOwner::Type(id), member_id.file_id, member_id),
        ),
        _ => (None, rp),
    }
}

/// An assigned index expression is filed as a member, or waits for its prefix.
#[verifier::opaque]
pub open spec fn index_owner_set(file_id: FileId, var: LuaVarExpr, rp: Replay) -> (
    Option<()>,
    Replay,
) {
    match var {
        LuaVarExpr::NameExpr(_) => (None, rp),
        LuaVarExpr::IndexExpr(index_expr) => match index_expr.prefix_expr {
            None => (None, rp),
            Some(prefix_expr) => {
                let member_id = LuaMemberId { id: index_expr.syntax_id, file_id };
                let (prefix_type, rp) = rp.infer_expr(prefix_expr);
                match prefix_type {
                    Ok(prefix_type) => {
                        let (owner_type, rp) = prefix_owner_type(
                            file_id,
                            prefix_expr,
                            prefix_type,
                            rp,
                        );
                        if index_expr.index_key is None {
                            (None, rp)
                        } else {
                            member_filed(owner_type, member_id, rp)
                        }
                    },
                    Err(InferFailReason::Nothing) => (Some(()), rp),
                    Err(reason) => (
                        Some(()),
                        rp.add_unresolve(
                            UnResolve::Member(
                                UnResolveMember {
                                    file_id,
                                    member_id,
                                    expr: None,
                                    prefix: Some(prefix_expr),
                                    ret_idx: 0,
                                },
                            ),
                            reason,
                        ),
                    ),
                }
            },
        },
    }
}

fn set_index_expr_owner<M: SemanticModel>(
    analyzer: &mut LuaAnalyzer<M>,
    var_expr: &LuaVarExpr,
) -> (res: Option<()>)
    ensures
        final(analyzer).continues(*old(analyzer)),
        forall|full: Log| #[trigger]
            extends(full, final(analyzer).db.log()) ==> index_owner_set(
                old(analyzer).file_id,
                *var_expr,
                old(analyzer).replay(full),
            ) == (res, final(analyzer).replay(full)),
{
    proof {
        reveal(index_owner_set);
    }
    let file_id = analyzer.file_id;
    let index_expr = match var_expr {
        LuaVarExpr::IndexExpr(index_expr) => index_expr,
        LuaVarExpr::NameExpr(_) => return None,
    };
    let prefix_expr = match &index_expr.prefix_expr {
        Some(prefix_expr) => prefix_expr,
        None => return None,
    };
    let member_id = LuaMemberId::new(index_expr.syntax_id, file_id);
    match analyzer.infer_expr(prefix_expr) {
        Ok(prefix_type) => {
            // The declared type of a global is preferred, so that the members of the standard
            // library stay attached to the types that define them.
            let prefix_type = match prefix_expr {
                LuaExpr::NameExpr(name_expr) => match get_global_type(analyzer, &**name_expr) {
                    Some(explicit_type) => explicit_type,
                    None => prefix_type,
                },
                _ => prefix_type,
            };
            if index_expr.index_key.is_none() {
                return None;
            }
            let member_owner = match prefix_type {
                LuaType::TableConst(in_file_range) => LuaMemberOwner::Element(in_file_range),
                LuaType::Def(def_id) => LuaMemberOwner::Type(def_id),
                LuaType::Instance(instance) => LuaMemberOwner::Element(instance.range),
                LuaType::Ref(ref_id) => {
                    analyzer.db.set_member_owner(
                        LuaMemberOwner::Type(ref_id),
                        member_id.file_id,
                        member_id,
                    );
                    return Some(());
                },
                _ => return None,
            };
            analyzer.db.add_member(member_owner, member_id);
        },
        Err(InferFailReason::Nothing) => {},
        Err(reason) => {
            analyzer.db.add_unresolve(
                UnResolve::Member(
                    UnResolveMember {
                        file_id,
                        member_id,
                        expr: None,
                        prefix: Some(prefix_expr.clone()),
                        ret_idx: 0,
                    },
                ),
                reason,
            );
        },
    }
    Some(())
}

/// An owner gets the type of one of the values that `typ` stands for; `nil` where there is none.
pub open spec fn slot_bound(owner: LuaTypeOwner, typ: LuaType, idx: usize, rp: Replay) -> Replay {
    let (slot, rp) = rp.get_result_slot_type(typ, idx);
    rp.bind_type(
        owner,
        LuaTypeCache::InferType(
            match slot {
                Some(slot) => slot,
                None => LuaType::Nil,
            },
        ),
    )
}

fn assign_merge_type_owner_and_expr_type<M: SemanticModel>(
    analyzer: &mut LuaAnalyzer<M>,
    type_owner: LuaTypeOwner,
    expr_type: &LuaType,
    idx: usize,
) -> (res: Option<()>)
    ensures
        res is Some,
        final(analyzer).continues(*old(analyzer)),
        forall|full: Log| #[trigger]
            extends(full, final(analyzer).db.log()) ==> slot_bound(
                type_owner,
                *expr_type,
                idx,
                old(analyzer).replay(full),
            ) == final(analyzer).replay(full),
{
    let expr_type = match analyzer.db.get_result_slot_type(expr_type, idx) {
        Some(slot) => slot,
        None => LuaType::Nil,
    };
    analyzer.db.bind_type(type_owner, LuaTypeCache::InferType(expr_type));
    Some(())
}

/// An owner waits for a value of an expression.
pub open spec fn owner_waits(
    file_id: FileId,
    owner: LuaTypeOwner,
    expr: LuaExpr,
    idx: usize,
    reason: InferFailReason,
    rp: Replay,
) -> Replay {
    match owner {
        LuaTypeOwner::Decl(decl_id) => rp.add_unresolve(
            waiting_decl(file_id, decl_id, expr, idx),
            reason,
        ),
        LuaTypeOwner::Member(member_id) => rp.add_unresolve(
            waiting_member(file_id, member_id, expr, idx),
            reason,
        ),
        LuaTypeOwner::SyntaxId { .. } => rp,
    }
}

fn add_unresolve_owner<M: SemanticModel>(
    analyzer: &mut LuaAnalyzer<M>,
    type_owner: LuaTypeOwner,
    expr: &LuaExpr,
    idx: usize,
    reason: InferFailReason,
)
    ensures
        final(analyzer).continues(*old(analyzer)),
        forall|full: Log| #[trigger]
            extends(full, final(analyzer).db.log()) ==> owner_waits(
                old(analyzer).file_id,
                type_owner,
                *expr,
                idx,
                reason,
                old(analyzer).replay(full),
            ) == final(analyzer).replay(full),
{
    let file_id = analyzer.file_id;
    match type_owner {
        LuaTypeOwner::Decl(decl_id) => {
            analyzer.db.add_unresolve(
                UnResolve::Decl(
                    UnResolveDecl { file_id, decl_id, expr: expr.clone(), ret_idx: idx },
                ),
                reason,
            );
        },
        LuaTypeOwner::Member(member_id) => {
            analyzer.db.add_unresolve(
                UnResolve::Member(
                    UnResolveMember {
                        file_id,
                        member_id,
                        expr: Some(expr.clone()),
                        prefix: None,
                        ret_idx: idx,
                    },
                ),
                reason,
            );
        },
        LuaTypeOwner::SyntaxId { .. } => {},
    }
}

fn merge_type_owner_and_unresolve_expr<M: SemanticModel>(
    analyzer: &mut LuaAnalyzer<M>,
    type_owner: LuaTypeOwner,
    expr: &LuaExpr,
    idx: usize,
) -> (res: Option<()>)
    ensures
        res is Some,
        final(analyzer).continues(*old(analyzer)),
        forall|full: Log| #[trigger]
            extends(full, final(analyzer).db.log()) ==> owner_waits(
                old(analyzer).file_id,
                type_owner,
                *expr,
                idx,
                unresolved_expr(old(analyzer).file_id, *expr),
                old(analyzer).replay(full),
            ) == final(analyzer).replay(full),
{
    let reason = InferFailReason::UnResolveExpr(InFiled::new(analyzer.file_id, expr.clone()));
    add_unresolve_owner(analyzer, type_owner, expr, idx, reason);
    Some(())
}

/// What is on the right of `or` in `a.b = a.b or right`.
pub open spec fn or_default(var: LuaVarExpr, expr: LuaExpr) -> Option<LuaExpr> {
    match (var.access_path(), expr) {
        (Some(path), LuaExpr::BinaryExpr(binary_expr)) => match (
            binary_expr.op,
            binary_expr.exprs,
        ) {
            (Some(BinaryOperator::OpOr), Some((left, right))) => match LuaVarExpr::of_expr(left) {
                Some(left_var) => match left_var.access_path() {
                    Some(left_path) => if path@ == left_path@ {
                        Some(right)
                    } else {
                        None
                    },
                    None => None,
                },
                None => None,
            },
            _ => None,
        },
        _ => None,
    }
}

fn get_or_default<'a>(var: &LuaVarExpr, expr: &'a LuaExpr) -> (res: Option<&'a LuaExpr>)
    ensures
        match res {
            Some(right) => or_default(*var, *expr) == Some(*right),
            None => or_default(*var, *expr) is None,
        },
{
    let access_path = match var.get_access_path() {
        Some(access_path) => access_path,
        None => return None,
    };
    let binary_expr = match expr {
        LuaExpr::BinaryExpr(binary_expr) => binary_expr,
        _ => return None,
    };
    match binary_expr.op {
        Some(BinaryOperator::OpOr) => {},
        _ => return None,
    }
    let (left, right) = match &binary_expr.exprs {
        Some((left, right)) => (left, right),
        None => return None,
    };
    let left_var = match LuaVarExpr::cast(left) {
        Some(left_var) => left_var,
        None => return None,
    };
    match left_var.get_access_path() {
        Some(left_access_path) => {
            if *access_path == *left_access_path {
                Some(right)
            } else {
                None
            }
        },
        None => None,
    }
}

/// An assignment of the form `a.b = a.b or right` gives `a.b` the type of `right`.
#[verifier::opaque]
pub open spec fn special_assigned(
    owner: LuaTypeOwner,
    var: LuaVarExpr,
    expr: LuaExpr,
    rp: Replay,
) -> (Option<()>, Replay) {
    match or_default(var, expr) {
        None => (None, rp),
        Some(right) => {
            let (right_type, rp) = rp.infer_expr(right);
            match right_type {
                Ok(right_type) => (Some(()), slot_bound(owner, right_type, 0, rp)),
                Err(_) => (None, rp),
            }
        },
    }
}

fn special_assign_pattern<M: SemanticModel>(
    analyzer: &mut LuaAnalyzer<M>,
    type_owner: LuaTypeOwner,
    var: &LuaVarExpr,
    expr: &LuaExpr,
) -> (res: Option<()>)
    ensures
        final(analyzer).continues(*old(analyzer)),
        forall|full: Log| #[trigger]
            extends(full, final(analyzer).db.log()) ==> special_assigned(
                type_owner,
                *var,
                *expr,
                old(analyzer).replay(full),
            ) == (res, final(analyzer).replay(full)),
{
    proof {
        reveal(special_assigned);
    }
    let right = match get_or_default(var, expr) {
        Some(right) => right,
        None => return None,
    };
    match analyzer.infer_expr(right) {
        Ok(right_expr_type) => {
            assign_merge_type_owner_and_expr_type(analyzer, type_owner, &right_expr_type, 0);
        },
        Err(_) => return None,
    }
    Some(())
}

/// A variable gets the type of the expression that is assigned to it, or waits for it.  The
/// declaration that the variable refers to gets the type too, where its definition is delayed.
#[verifier::opaque]
pub open spec fn var_assigned(
    file_id: FileId,
    var: LuaVarExpr,
    expr: LuaExpr,
    rp: Replay,
) -> Replay {
    let (owner, rp) = var_owner(file_id, var, rp);
    let (_, rp) = index_owner_set(file_id, var, rp);
    let (special, rp) = special_assigned(owner, var, expr, rp);
    if special is Some {
        rp
    } else {
        let (expr_type, rp) = rp.infer_expr(expr);
        match expr_type {
            Ok(expr_type) => {
                let (expr_type, rp) = first_slot(expr_type, rp);
                assigned_type_bound(file_id, owner, var, expr_type, rp)
            },
            Err(InferFailReason::Nothing) => assigned_type_bound(
                file_id,
                owner,
                var,
                LuaType::Unknown,
                rp,
            ),
            Err(reason) => owner_waits(file_id, owner, expr, 0, reason, rp),
        }
    }
}

#[verifier::opaque]
pub open spec fn assigned_type_bound(
    file_id: FileId,
    owner: LuaTypeOwner,
    var: LuaVarExpr,
    expr_type: LuaType,
    rp: Replay,
) -> Replay {
    let rp = match var {
        LuaVarExpr::NameExpr(name_expr) => {
            let (decl_id, rp) = delayed_decl(file_id, *name_expr, rp);
            match decl_id {
                Some(decl_id) => rp.bind_type(
                    LuaTypeOwner::Decl(decl_id),
                    LuaTypeCache::InferType(expr_type),
                ),
                None => rp,
            }
        },
        LuaVarExpr::IndexExpr(_) => rp,
    };
    slot_bound(owner, expr_type, 0, rp)
}

fn bind_assigned_type<M: SemanticModel>(
    analyzer: &mut LuaAnalyzer<M>,
    type_owner: LuaTypeOwner,
    var: &LuaVarExpr,
    expr_type: LuaType,
)
    ensures
        final(analyzer).continues(*old(analyzer)),
        forall|full: Log| #[trigger]
            extends(full, final(analyzer).db.log()) ==> assigned_type_bound(
                old(analyzer).file_id,
                type_owner,
                *var,
                expr_type,
                old(analyzer).replay(full),
            ) == final(analyzer).replay(full),
{
    proof {
        reveal(assigned_type_bound);
    }
    if let LuaVarExpr::NameExpr(name_expr) = var {
        if let Some(decl_id) = get_delayed_definition_decl_id(analyzer, &**name_expr) {
            analyzer.db.bind_type(
                LuaTypeOwner::Decl(decl_id),
                LuaTypeCache::InferType(expr_type.clone()),
            );
        }
    }
    assign_merge_type_owner_and_expr_type(analyzer, type_owner, &expr_type, 0);
}

fn assign_var<M: SemanticModel>(analyzer: &mut LuaAnalyzer<M>, var: &LuaVarExpr, expr: &LuaExpr)
    ensures
        final(analyzer).continues(*old(analyzer)),
        forall|full: Log| #[trigger]
            extends(full, final(analyzer).db.log()) ==> var_assigned(
                old(analyzer).file_id,
                *var,
                *expr,
                old(analyzer).replay(full),
            ) == final(analyzer).replay(full),
{
    proof {
        reveal(var_assigned);
    }
    let type_owner = get_var_owner(analyzer, var);
    set_index_expr_owner(analyzer, var);
    if special_assign_pattern(analyzer, type_owner, var, expr).is_some() {
        return ;
    }
    match analyzer.infer_expr(expr) {
        Ok(expr_type) => {
            let expr_type = get_first_slot(analyzer, expr_type);
            bind_assigned_type(analyzer, type_owner, var, expr_type);
        },
        Err(InferFailReason::Nothing) => {
            bind_assigned_type(analyzer, type_owner, var, LuaType::Unknown);
        },
        Err(reason) => {
            add_unresolve_owner(analyzer, type_owner, expr, 0, reason);
        },
    }
}

/// Each variable gets the expression that stands at its place.
pub open spec fn vars_assigned(
    file_id: FileId,
    vars: Seq<LuaVarExpr>,
    exprs: Seq<LuaExpr>,
    from: int,
    rp: Replay,
) -> Replay
    decreases exprs.len() - from,
{
    if from < 0 || from >= exprs.len() || from >= vars.len() {
        rp
    } else {
        vars_assigned(
            file_id,
            vars,
            exprs,
            from + 1,
            var_assigned(file_id, vars[from], exprs[from], rp),
        )
    }
}

/// The variables behind the last expression get its further results.
pub open spec fn results_assigned(
    file_id: FileId,
    vars: Seq<LuaVarExpr>,
    count: nat,
    typ: LuaType,
    from: int,
    rp: Replay,
) -> Replay
    decreases vars.len() - from,
{
    if from < count || from >= vars.len() {
        rp
    } else {
        let (owner, rp) = var_owner(file_id, vars[from], rp);
        let (_, rp) = index_owner_set(file_id, vars[from], rp);
        results_assigned(
            file_id,
            vars,
            count,
            typ,
            from + 1,
            slot_bound(owner, typ, (from - count + 1) as usize, rp),
        )
    }
}

/// The variables behind the last expression wait for its further results.
pub open spec fn results_awaited(
    file_id: FileId,
    vars: Seq<LuaVarExpr>,
    count: nat,
    expr: LuaExpr,
    from: int,
    rp: Replay,
) -> Replay
    decreases vars.len() - from,
{
    if from < count || from >= vars.len() {
        rp
    } else {
        let (owner, rp) = var_owner(file_id, vars[from], rp);
        let (_, rp) = index_owner_set(file_id, vars[from], rp);
        results_awaited(
            file_id,
            vars,
            count,
            expr,
            from + 1,
            owner_waits(
                file_id,
                owner,
                expr,
                (from - count + 1) as usize,
                unresolved_expr(file_id, expr),
                rp,
            ),
        )
    }
}

/// The variables behind the last expression.  Where it has one result only, they get nothing.
pub open spec fn remaining_assigned(
    file_id: FileId,
    vars: Seq<LuaVarExpr>,
    exprs: Seq<LuaExpr>,
    rp: Replay,
) -> Replay {
    let (last_type, rp) = rp.infer_expr(exprs.last());
    match last_type {
        Ok(last_type) => {
            let (multi, rp) = rp.contain_multi_return(last_type);
            if multi {
                results_assigned(file_id, vars, exprs.len(), last_type, exprs.len() as int, rp)
            } else {
                rp
            }
        },
        Err(_) => results_awaited(
            file_id,
            vars,
            exprs.len(),
            exprs.last(),
            exprs.len() as int,
            rp,
        ),
    }
}

/// An assignment.  With more expressions than variables it ends where the variables do.
pub open spec fn assign_stat_analyzed(
    file_id: FileId,
    vars: Seq<LuaVarExpr>,
    exprs: Seq<LuaExpr>,
    rp: Replay,
) -> (Option<()>, Replay) {
    let rp = vars_assigned(file_id, vars, exprs, 0, rp);
    if exprs.len() > vars.len() {
        (None, rp)
    } else if 0 < exprs.len() < vars.len() {
        (Some(()), remaining_assigned(file_id, vars, exprs, rp))
    } else {
        (Some(()), rp)
    }
}

fn assign_remaining_vars<M: SemanticModel>(
    analyzer: &mut LuaAnalyzer<M>,
    vars: &Vec<LuaVarExpr>,
    exprs: &Vec<LuaExpr>,
)
    requires
        0 < exprs@.len() < vars@.len(),
    ensures
        final(analyzer).continues(*old(analyzer)),
        forall|full: Log| #[trigger]
            extends(full, final(analyzer).db.log()) ==> remaining_assigned(
                old(analyzer).file_id,
                vars@,
                exprs@,
                old(analyzer).replay(full),
            ) == final(analyzer).replay(full),
{
    let expr_count = exprs.len();
    let last_expr = &exprs[expr_count - 1];
    assert(*last_expr == exprs@.last());
    match analyzer.infer_expr(last_expr) {
        Ok(last_expr_type) => {
            if !analyzer.db.contain_multi_return(&last_expr_type) {
                return ;
            }
            let mut i: usize = expr_count;
            while i < vars.len()
                invariant
                    0 < expr_count <= i <= vars@.len(),
                    expr_count == exprs@.len(),
                    analyzer.continues(*old(analyzer)),
                    forall|full: Log| #[trigger]
                        extends(full, analyzer.db.log()) ==> remaining_assigned(
                            old(analyzer).file_id,
                            vars@,
                            exprs@,
                            old(analyzer).replay(full),
                        ) == results_assigned(
                            old(analyzer).file_id,
                            vars@,
                            expr_count as nat,
                            last_expr_type,
                            i as int,
                            analyzer.replay(full),
                        ),
                decreases vars@.len() - i,
            {
                let type_owner = get_var_owner(analyzer, &vars[i]);
                set_index_expr_owner(analyzer, &vars[i]);
                assign_merge_type_owner_and_expr_type(
                    analyzer,
                    type_owner,
                    &last_expr_type,
                    i - expr_count + 1,
                );
                i += 1;
            }
        },
        Err(_) => {
            let mut i: usize = expr_count;
            while i < vars.len()
                invariant
                    0 < expr_count <= i <= vars@.len(),
                    expr_count == exprs@.len(),
                    *last_expr == exprs@.last(),
                    analyzer.continues(*old(analyzer)),
                    forall|full: Log| #[trigger]
                        extends(full, analyzer.db.log()) ==> remaining_assigned(
                            old(analyzer).file_id,
                            vars@,
                            exprs@,
                            old(analyzer).replay(full),
                        ) == results_awaited(
                            old(analyzer).file_id,
                            vars@,
                            expr_count as nat,
                            *last_expr,
                            i as int,
                            analyzer.replay(full),
                        ),
                decreases vars@.len() - i,
            {
                let type_owner = get_var_owner(analyzer, &vars[i]);
                set_index_expr_owner(analyzer, &vars[i]);
                merge_type_owner_and_unresolve_expr(
                    analyzer,
                    type_owner,
                    last_expr,
                    i - expr_count + 1,
                );
                i += 1;
            }
        },
    }
}

pub fn analyze_assign_stat<M: SemanticModel>(
    analyzer: &mut LuaAnalyzer<M>,
    assign_stat: LuaAssignStat,
) -> (res: Option<()>)
    ensures
        res is Some == (assign_stat.exprs@.len() <= assign_stat.vars@.len()),
        final(analyzer).continues(*old(analyzer)),
        forall|full: Log| #[trigger]
            extends(full, final(analyzer).db.log()) ==> assign_stat_analyzed(
                old(analyzer).file_id,
                assign_stat.vars@,
                assign_stat.exprs@,
                old(analyzer).replay(full),
            ) == (res, final(analyzer).replay(full)),
{
    let var_list = &assign_stat.vars;
    let expr_list = &assign_stat.exprs;
    let expr_count = expr_list.len();
    let var_count = var_list.len();
    let mut i: usize = 0;
    while i < expr_count
        invariant
            i <= expr_count,
            i <= var_count,
            expr_count == expr_list@.len(),
            var_count == var_list@.len(),
            *expr_list == assign_stat.exprs,
            *var_list == assign_stat.vars,
            analyzer.continues(*old(analyzer)),
            forall|full: Log| #[trigger]
                extends(full, analyzer.db.log()) ==> vars_assigned(
                    old(analyzer).file_id,
                    var_list@,
                    expr_list@,
                    0,
                    old(analyzer).replay(full),
                ) == vars_assigned(
                    old(analyzer).file_id,
                    var_list@,
                    expr_list@,
                    i as int,
                    analyzer.replay(full),
                ),
        decreases expr_count - i,
    {
        if i >= var_count {
            return None;
        }
        assign_var(analyzer, &var_list[i], &expr_list[i]);
        i += 1;
    }
    if var_count > expr_count && expr_count > 0 {
        assign_remaining_vars(analyzer, var_list, expr_list);
    }
    Some(())
}

/// A function statement gives its name the type of the function.
pub open spec fn func_stat_analyzed(file_id: FileId, func_stat: LuaFuncStat, rp: Replay) -> (
    Option<()>,
    Replay,
) {
    match (func_stat.closure, func_stat.func_name) {
        (Some(closure), Some(func_name)) => {
            let (signature_type, rp) = rp.infer_expr(LuaExpr::ClosureExpr(closure));
            match signature_type {
                Err(_) => (None, rp),
                Ok(signature_type) => {
                    let (owner, rp) = var_owner(file_id, func_name, rp);
                    let (_, rp) = index_owner_set(file_id, func_name, rp);
                    (
                        Some(()),
                        rp.bind_index_type(owner, LuaTypeCache::InferType(signature_type)),
                    )
                },
            }
        },
        _ => (None, rp),
    }
}

pub fn analyze_func_stat<M: SemanticModel>(
    analyzer: &mut LuaAnalyzer<M>,
    func_stat: LuaFuncStat,
) -> (res: Option<()>)
    ensures
        final(analyzer).continues(*old(analyzer)),
        forall|full: Log| #[trigger]
            extends(full, final(analyzer).db.log()) ==> func_stat_analyzed(
                old(analyzer).file_id,
                func_stat,
                old(analyzer).replay(full),
            ) == (res, final(analyzer).replay(full)),
{
    let closure = match func_stat.closure {
        Some(closure) => closure,
        None => return None,
    };
    let func_name = match &func_stat.func_name {
        Some(func_name) => func_name,
        None => return None,
    };
    let signature_type = match analyzer.infer_expr(&LuaExpr::ClosureExpr(closure)) {
        Ok(signature_type) => signature_type,
        Err(_) => return None,
    };
    let type_owner = get_var_owner(analyzer, func_name);
    set_index_expr_owner(analyzer, func_name);
    analyzer.db.bind_index_type(type_owner, LuaTypeCache::InferType(signature_type));
    Some(())
}

/// A `local function` statement gives its name the type of the function.
pub open spec fn local_func_stat_analyzed(
    file_id: FileId,
    local_func_stat: LuaLocalFuncStat,
    rp: Replay,
) -> (Option<()>, Replay) {
    match (local_func_stat.closure, local_func_stat.local_name) {
        (Some(closure), Some(func_name)) => {
            let (signature_type, rp) = rp.infer_expr(LuaExpr::ClosureExpr(closure));
            match signature_type {
                Err(_) => (None, rp),
                Ok(signature_type) => (
                    Some(()),
                    rp.bind_index_type(
                        name_owner(file_id, func_name),
                        LuaTypeCache::InferType(signature_type),
                    ),
                ),
            }
        },
        _ => (None, rp),
    }
}

pub fn analyze_local_func_stat<M: SemanticModel>(
    analyzer: &mut LuaAnalyzer<M>,
    local_func_stat: LuaLocalFuncStat,
) -> (res: Option<()>)
    ensures
        final(analyzer).continues(*old(analyzer)),
        forall|full: Log| #[trigger]
            extends(full, final(analyzer).db.log()) ==> local_func_stat_analyzed(
                old(analyzer).file_id,
                local_func_stat,
                old(analyzer).replay(full),
            ) == (res, final(analyzer).replay(full)),
{
    let closure = match local_func_stat.closure {
        Some(closure) => closure,
        None => return None,
    };
    let func_name = match local_func_stat.local_name {
        Some(func_name) => func_name,
        None => return None,
    };
    let signature_type = match analyzer.infer_expr(&LuaExpr::ClosureExpr(closure)) {
        Ok(signature_type) => signature_type,
        Err(_) => return None,
    };
    let decl_id = LuaDeclId::new(analyzer.file_id, func_name.position);
    analyzer.db.bind_index_type(
        LuaTypeOwner::Decl(decl_id),
        LuaTypeCache::InferType(signature_type),
    );
    Some(())
}

/// Whether a key says nothing.
pub open spec fn is_unknown_key(key: LuaMemberKey) -> bool {
    key matches LuaMemberKey::ExprType(typ) && typ is Unknown
}

/// A field `[expr] = value` becomes a member of its table, where the key is known and the member
/// is not there yet.
#[verifier::opaque]
pub open spec fn field_materialized(file_id: FileId, field: LuaTableField, rp: Replay) -> Replay {
    match field.field_key {
        Some(LuaIndexKey::Expr(expr)) => {
            let member_id = LuaMemberId { id: field.syntax_id, file_id };
            let (present, rp) = rp.has_member(member_id);
            if present {
                rp
            } else {
                let (key, rp) = rp.member_key_from_index_key(LuaIndexKey::Expr(expr));
                match (key, field.table_range) {
                    (Ok(key), Some(table_range)) => if is_unknown_key(key) {
                        rp
                    } else {
                        let (meta, rp) = rp.is_meta_file(file_id);
                        rp.add_index_member(
                            LuaMemberOwner::Element(InFiled { file_id, value: table_range }),
                            LuaMember {
                                member_id,
                                key,
                                feature: if meta {
                                    LuaMemberFeature::MetaDefine
                                } else {
                                    LuaMemberFeature::FileDefine
                                },
                            },
                        )
                    },
                    _ => rp,
                }
            }
        },
        _ => rp,
    }
}

fn materialize_field<M: SemanticModel>(analyzer: &mut LuaAnalyzer<M>, field: &LuaTableField)
    ensures
        final(analyzer).continues(*old(analyzer)),
        forall|full: Log| #[trigger]
            extends(full, final(analyzer).db.log()) ==> field_materialized(
                old(analyzer).file_id,
                *field,
                old(analyzer).replay(full),
            ) == final(analyzer).replay(full),
{
    proof {
        reveal(field_materialized);
    }
    let field_key = match &field.field_key {
        Some(field_key) => field_key,
        None => return ,
    };
    if !matches!(field_key, LuaIndexKey::Expr(_)) {
        return ;
    }
    // The analysis of declarations leaves `[expr] = value` fields open.  A key that is known by
    // now makes a member.

    let file_id = analyzer.file_id;
    let member_id = LuaMemberId::new(field.syntax_id, file_id);
    if analyzer.db.has_member(member_id) {
        return ;
    }
    let key = match analyzer.db.member_key_from_index_key(&mut analyzer.cache, field_key) {
        Ok(key) => key,
        Err(_) => return ,
    };
    let is_unknown = match &key {
        LuaMemberKey::ExprType(typ) => typ.is_unknown(),
        _ => false,
    };
    if is_unknown {
        return ;
    }
    if let Some(table_range) = field.table_range {
        let owner_id = LuaMemberOwner::Element(InFiled::new(file_id, table_range));
        let feature = if analyzer.db.is_meta_file(file_id) {
            LuaMemberFeature::MetaDefine
        } else {
            LuaMemberFeature::FileDefine
        };
        analyzer.db.add_index_member(owner_id, LuaMember { member_id, key, feature });
    }
}

/// A class that is the value of a field is referred to, not defined, by it.
pub open spec fn field_value_type(typ: LuaType) -> LuaType {
    match typ {
        LuaType::Def(id) => LuaType::Ref(id),
        _ => typ,
    }
}

/// A table field of the form `key = value` gets the type of its value, or waits for it.
pub open spec fn table_field_analyzed(file_id: FileId, field: LuaTableField, rp: Replay) -> (
    Option<()>,
    Replay,
) {
    if !field.is_assign_field {
        (Some(()), rp)
    } else {
        let rp = field_materialized(file_id, field, rp);
        match field.value_expr {
            None => (None, rp),
            Some(value_expr) => {
                let member_id = LuaMemberId { id: field.syntax_id, file_id };
                let owner = LuaTypeOwner::Member(member_id);
                let (value_type, rp) = rp.infer_expr(value_expr);
                match value_type {
                    Ok(value_type) => (
                        Some(()),
                        rp.bind_type(owner, LuaTypeCache::InferType(field_value_type(value_type))),
                    ),
                    Err(InferFailReason::Nothing) => (
                        Some(()),
                        rp.bind_type(owner, LuaTypeCache::InferType(LuaType::Unknown)),
                    ),
                    Err(reason) => (
                        None,
                        rp.add_unresolve(waiting_member(file_id, member_id, value_expr, 0), reason),
                    ),
                }
            },
        }
    }
}

/// Analyzes a table field of the form `key = value`.
///
/// The analysis of table declarations has filed fields with static keys and positional values:
/// `{ name = value }`, `{ ["name"] = value }`, `{ [1] = value }` and `{ value1, value2 }`.  Here
/// the value's type is bound, and a field whose bracketed key is known by now, such as
/// `{ [key] = value }`, `{ [true] = value }` or `{ [SomeEnum.A] = value }`, becomes a member
/// right away, so that table inference and `pairs` see it.
pub fn analyze_table_field<M: SemanticModel>(
    analyzer: &mut LuaAnalyzer<M>,
    field: LuaTableField,
) -> (res: Option<()>)
    ensures
        final(analyzer).continues(*old(analyzer)),
        forall|full: Log| #[trigger]
            extends(full, final(analyzer).db.log()) ==> table_field_analyzed(
                old(analyzer).file_id,
                field,
                old(analyzer).replay(full),
            ) == (res, final(analyzer).replay(full)),
{
    if !field.is_assign_field {
        return Some(());
    }
    materialize_field(analyzer, &field);
    let value_expr = match &field.value_expr {
        Some(value_expr) => value_expr,
        None => return None,
    };
    let file_id = analyzer.file_id;
    let member_id = LuaMemberId::new(field.syntax_id, file_id);
    let value_type = match analyzer.infer_expr(value_expr) {
        Ok(LuaType::Def(ref_id)) => LuaType::Ref(ref_id),
        Ok(value_type) => value_type,
        Err(InferFailReason::Nothing) => LuaType::Unknown,
        Err(reason) => {
            analyzer.db.add_unresolve(
                UnResolve::Member(
                    UnResolveMember {
                        file_id,
                        member_id,
                        expr: Some(value_expr.clone()),
                        prefix: None,
                        ret_idx: 0,
                    },
                ),
                reason,
            );
            return None;
        },
    };
    analyzer.db.bind_type(LuaTypeOwner::Member(member_id), LuaTypeCache::InferType(value_type));
    Some(())
}

proof fn lemma_surplus_values_are_not_bound(
    file_id: FileId,
    names: Seq<LuaLocalName>,
    exprs: Seq<LuaExpr>,
    from: int,
    rp: Replay,
)
    requires
        names.len() <= exprs.len(),
    ensures
        bind_values(file_id, names, exprs, from, rp) == bind_values(
            file_id,
            names,
            exprs.take(names.len() as int),
            from,
            rp,
        ),
    decreases names.len() - from,
{
    if 0 <= from < names.len() {
        lemma_surplus_values_are_not_bound(
            file_id,
            names,
            exprs,
            from + 1,
            bind_value(file_id, names[from], exprs[from], rp),
        );
    }
}

/// The values of a `local` statement that no name is left for are not looked at.
pub proof fn surplus_values_are_not_looked_at(
    file_id: FileId,
    names: Seq<LuaLocalName>,
    exprs: Seq<LuaExpr>,
    rp: Replay,
)
    requires
        names.len() <= exprs.len(),
    ensures
        local_stat_analyzed(file_id, names, exprs, rp) == local_stat_analyzed(
            file_id,
            names,
            exprs.take(names.len() as int),
            rp,
        ),
{
    lemma_surplus_values_are_not_bound(file_id, names, exprs, 0, rp);
}

proof fn lemma_surplus_exprs_are_not_assigned(
    file_id: FileId,
    vars: Seq<LuaVarExpr>,
    exprs: Seq<LuaExpr>,
    from: int,
    rp: Replay,
)
    requires
        vars.len() <= exprs.len(),
    ensures
        vars_assigned(file_id, vars, exprs, from, rp) == vars_assigned(
            file_id,
            vars,
            exprs.take(vars.len() as int),
            from,
            rp,
        ),
    decreases exprs.len() - from,
{
    if 0 <= from < vars.len() {
        lemma_surplus_exprs_are_not_assigned(
            file_id,
            vars,
            exprs,
            from + 1,
            var_assigned(file_id, vars[from], exprs[from], rp),
        );
    }
}

/// The expressions of an assignment that no variable is left for are not looked at, and the
/// assignment is not a whole one.
pub proof fn surplus_expressions_are_not_looked_at(
    file_id: FileId,
    vars: Seq<LuaVarExpr>,
    exprs: Seq<LuaExpr>,
    rp: Replay,
)
    requires
        vars.len() < exprs.len(),
    ensures
        assign_stat_analyzed(file_id, vars, exprs, rp) == (
            None::<()>,
            assign_stat_analyzed(file_id, vars, exprs.take(vars.len() as int), rp).1,
        ),
{
    lemma_surplus_exprs_are_not_assigned(file_id, vars, exprs, 0, rp);
}

/// A declaration whose definition is delayed gets no type where it is declared without a value.
pub proof fn delayed_definition_is_not_bound(
    file_id: FileId,
    names: Seq<LuaLocalName>,
    rp: Replay,
)
    requires
        names.len() > 0,
        delayed_definition(decl_at(file_id, names[0].position), rp).0,
    ensures
        local_stat_analyzed(file_id, names, Seq::empty(), rp) == delayed_definition(
            decl_at(file_id, names[0].position),
            rp,
        ).1,
{
}

/// It gets the type of what is assigned to it, and so does the assigned name.
pub proof fn delayed_definition_is_bound_by_assignment(
    file_id: FileId,
    owner: LuaTypeOwner,
    var: LuaVarExpr,
    decl_id: LuaDeclId,
    expr_type: LuaType,
    rp: Replay,
)
    requires
        var is NameExpr,
        delayed_decl(file_id, *var->NameExpr_0, rp).0 == Some(decl_id),
    ensures
        assigned_type_bound(file_id, owner, var, expr_type, rp) == slot_bound(
            owner,
            expr_type,
            0,
            delayed_decl(file_id, *var->NameExpr_0, rp).1.bind_type(
                LuaTypeOwner::Decl(decl_id),
                LuaTypeCache::InferType(expr_type),
            ),
        ),
{
    reveal(assigned_type_bound);
}

/// A positional field, such as those of `{ value1, value2 }`, is left as it is.
pub proof fn positional_fields_are_left_alone(file_id: FileId, field: LuaTableField, rp: Replay)
    requires
        !field.is_assign_field,
    ensures
        table_field_analyzed(file_id, field, rp) == (Some(()), rp),
{
}

/// A field with a static key makes no member: it is one already.
pub proof fn static_keys_make_no_member(file_id: FileId, field: LuaTableField, rp: Replay)
    requires
        !(field.field_key matches Some(LuaIndexKey::Expr(_))),
    ensures
        field_materialized(file_id, field, rp) == rp,
{
    reveal(field_materialized);
}

/// A field that is a member is not made one again.
pub proof fn members_are_made_once(
    file_id: FileId,
    field: LuaTableField,
    key: LuaExpr,
    rp: Replay,
)
    requires
        field.field_key == Some(LuaIndexKey::Expr(key)),
        rp.has_member(LuaMemberId { id: field.syntax_id, file_id }).0,
    ensures
        field_materialized(file_id, field, rp) == rp.has_member(
            LuaMemberId { id: field.syntax_id, file_id },
        ).1,
{
    reveal(field_materialized);
}

/// A field whose bracketed key is known, and that is no member yet, becomes a member of its table.
pub proof fn known_keys_make_members(
    file_id: FileId,
    field: LuaTableField,
    key_expr: LuaExpr,
    key: LuaMemberKey,
    table_range: TextRange,
    rp: Replay,
)
    requires
        field.field_key == Some(LuaIndexKey::Expr(key_expr)),
        field.table_range == Some(table_range),
        !is_unknown_key(key),
        ({
            let (present, after) = rp.has_member(LuaMemberId { id: field.syntax_id, file_id });
            !present && after.member_key_from_index_key(LuaIndexKey::Expr(key_expr)).0 == Ok::<
                LuaMemberKey,
                InferFailReason,
            >(key)
        }),
    ensures
        ({
            let member_id = LuaMemberId { id: field.syntax_id, file_id };
            let (_, after) = rp.has_member(member_id);
            let (_, after) = after.member_key_from_index_key(LuaIndexKey::Expr(key_expr));
            let (meta, after) = after.is_meta_file(file_id);
            field_materialized(file_id, field, rp) == after.add_index_member(
                LuaMemberOwner::Element(InFiled { file_id, value: table_range }),
                LuaMember {
                    member_id,
                    key,
                    feature: if meta {
                        LuaMemberFeature::MetaDefine
                    } else {
                        LuaMemberFeature::FileDefine
                    },
                },
            )
        }),
{
    reveal(field_materialized);
}

/// A field is made a member before its value is looked at, whatever comes of the value.
pub proof fn members_are_made_before_values_are_bound(
    file_id: FileId,
    field: LuaTableField,
    value_expr: LuaExpr,
    rp: Replay,
)
    requires
        field.is_assign_field,
        field.value_expr == Some(value_expr),
    ensures
        ({
            let made = field_materialized(file_id, field, rp);
            let member_id = LuaMemberId { id: field.syntax_id, file_id };
            let (value_type, after) = made.infer_expr(value_expr);
            let (res, done) = table_field_analyzed(file_id, field, rp);
            &&& value_type matches Ok(typ) ==> res is Some && done == after.bind_type(
                LuaTypeOwner::Member(member_id),
                LuaTypeCache::InferType(field_value_type(typ)),
            )
            &&& res is None ==> value_type is Err
        }),
{
}

/// A name that a local shadows does not stand for the global of that name.
pub proof fn shadowed_names_are_no_globals(
    file_id: FileId,
    name_expr: LuaNameExpr,
    decl: LuaDecl,
    rp: Replay,
)
    requires
        name_expr.name_text is Some,
        decl.is_local || decl.is_implicit_self,
        rp.find_local_decl(
            file_id,
            name_expr.name_text->0@,
            name_expr.syntax_id.range.start,
        ).0 == Some(decl),
    ensures
        global_type(file_id, name_expr, rp) == (
            None::<LuaType>,
            rp.find_local_decl(
                file_id,
                name_expr.name_text->0@,
                name_expr.syntax_id.range.start,
            ).1,
        ),
{
}

/// A member of a global is filed under the declared type of the global, where it has one, and not
/// under the type that is inferred for the name.
pub proof fn declared_types_of_globals_are_preferred(
    file_id: FileId,
    prefix_expr: LuaExpr,
    prefix_type: LuaType,
    other_type: LuaType,
    rp: Replay,
)
    requires
        prefix_expr is NameExpr,
        global_type(file_id, *prefix_expr->NameExpr_0, rp).0 is Some,
    ensures
        prefix_owner_type(file_id, prefix_expr, prefix_type, rp) == prefix_owner_type(
            file_id,
            prefix_expr,
            other_type,
            rp,
        ),
        prefix_owner_type(file_id, prefix_expr, prefix_type, rp).0 == global_type(
            file_id,
            *prefix_expr->NameExpr_0,
            rp,
        ).0->0,
{
}

} // verus!
