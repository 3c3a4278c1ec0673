//! What the type of a variable at a program point is.
//!
//! The flow tree is walked backwards from the point.  A walk ends where the type is known, or at a
//! label that several points lead to; there the types of all of them are united.  Conditions that
//! were met on the way narrow what comes out.

use vstd::prelude::*;

use crate::assignment_expr::{preserves, reuses_source};
use crate::cache::{dense_write_is_local, AssignmentView, CacheEntry, FlowConditionInfo};
use crate::condition_flow::{
    array_len_fits, condition_action, subquery_action, ConditionFlowAction, ConditionSubquery,
    InferConditionFlow, PendingConditionNarrow,
};
use crate::db::Replay;
use crate::flow_info::{assignment_info, branch_inputs, condition_info, initializer_type};
use crate::flow_tree::{multi_antecedents, single_antecedent, FlowNode, FlowNodeKind, FlowTree};
use crate::ids::{
    FlowId, LuaDeclId, LuaMemberId, LuaSignatureId, LuaSyntaxId, LuaTypeOwner, VarRefId,
};
use crate::infer::{InferFailReason, InferResult, LuaTypeCache, ResultTypeOrContinue, TypeOps};
use crate::syntax::{find_node, LuaChunk, LuaVarExpr};
use crate::types::LuaType;

verus! {

/// What a walk is about: a reference, with its number, in a file.
pub struct FlowQuery {
    pub tree: FlowTree,
    pub root: LuaChunk,
    pub var_ref_id: VarRefId,
    pub var_ref_cache_id: u32,
}

/// Whether a condition that is about an index expression has nothing to do with a reference.
pub open spec fn is_about_another(info: FlowConditionInfo, var_ref_id: VarRefId) -> bool {
    &&& info.index_var_ref_id is Some
    &&& info.index_var_ref_id != Some(var_ref_id)
    &&& info.index_prefix_var_ref_id != Some(var_ref_id)
}

/// What the condition at a flow node says about a reference.  The answer is remembered; while it
/// is being worked out, it must not be needed.
#[verifier::opaque]
pub open spec fn remembered_action(
    q: FlowQuery,
    flow_node: FlowNode,
    info: FlowConditionInfo,
    condition_flow: InferConditionFlow,
    rp: Replay,
) -> (Result<ConditionFlowAction, InferFailReason>, Replay) {
    let flag = condition_flow == InferConditionFlow::TrueCondition;
    let id = q.var_ref_cache_id;
    if is_about_another(info, q.var_ref_id) {
        (Ok(ConditionFlowAction::Continue), rp)
    } else {
        match rp.cache.condition_entry(id, flow_node.id, flag) {
            Some(CacheEntry::Cache(action)) => (Ok(action), rp),
            Some(CacheEntry::Ready) => (Err(InferFailReason::RecursiveInfer), rp),
            None => {
                let marked = rp.cache.with_condition(
                    id,
                    flow_node.id,
                    flag,
                    Some(CacheEntry::Ready),
                );
                let (res, rp) = condition_action(
                    q.tree,
                    q.root,
                    q.var_ref_id,
                    flow_node,
                    info.expr,
                    condition_flow,
                    rp.with_cache(marked),
                );
                let entry = match res {
                    Ok(action) => Some(CacheEntry::Cache(action)),
                    Err(_) => None,
                };
                (res, rp.with_cache(rp.cache.with_condition(id, flow_node.id, flag, entry)))
            },
        }
    }
}

/// A type after several narrowings, the last one first.
pub open spec fn applied_narrows(
    narrows: Seq<PendingConditionNarrow>,
    typ: LuaType,
    rp: Replay,
) -> (LuaType, Replay)
    decreases narrows.len(),
{
    if narrows.len() == 0 {
        (typ, rp)
    } else {
        let (typ, rp) = narrows.last().applied(typ, rp);
        applied_narrows(narrows.drop_last(), typ, rp)
    }
}

/// What a walk finds at a node.
pub enum VisitView {
    /// The type, before narrowing.
    Done(LuaType),
    /// Several points lead here.
    Union(Seq<FlowId>),
    /// Nothing: the walk goes on.
    Pass,
    /// A narrowing: the walk goes on.
    Narrow(PendingConditionNarrow),
}

/// Where a walk ends.
pub enum StepView {
    Result(LuaType),
    Union { branch_flow_ids: Seq<FlowId>, narrows: Seq<PendingConditionNarrow> },
}

/// A type that the walk was looking for.
pub open spec fn found(res: InferResult) -> Result<VisitView, InferFailReason> {
    match res {
        Ok(typ) => Ok(VisitView::Done(typ)),
        Err(e) => Err(e),
    }
}

/// At the place from which on a declaration is in scope: the declared type, or else that of the
/// initial value.
#[verifier::opaque]
pub open spec fn decl_visit(
    root: LuaChunk,
    var_ref_id: VarRefId,
    position: u32,
    rp: Replay,
) -> (Result<VisitView, InferFailReason>, Replay) {
    if position <= var_ref_id.position() {
        let (var_type, rp) = rp.get_var_ref_type(var_ref_id);
        match var_type {
            Ok(typ) => (Ok(VisitView::Done(typ)), rp),
            Err(e) => {
                let (init_type, rp) = initializer_type(root, var_ref_id, rp);
                match init_type {
                    Ok(Some(typ)) => (Ok(VisitView::Done(typ)), rp),
                    Ok(None) => (Err(e), rp),
                    Err(e) => (Err(e), rp),
                }
            },
        }
    } else {
        (Ok(VisitView::Pass), rp)
    }
}

/// At a function statement: the signature of the function, where it is the one in question.
#[verifier::opaque]
pub open spec fn func_visit(
    root: LuaChunk,
    var_ref_id: VarRefId,
    func_id: LuaSyntaxId,
    rp: Replay,
) -> (Result<VisitView, InferFailReason>, Replay) {
    match find_node(root.func_stats@, func_id) {
        None => (Err(InferFailReason::Nothing), rp),
        Some(func_stat) => match func_stat.func_name {
            None => (Ok(VisitView::Pass), rp),
            Some(func_name) => {
                let (named, rp) = rp.get_var_expr_var_ref_id(func_name.as_expr());
                if named != Some(var_ref_id) {
                    (Ok(VisitView::Pass), rp)
                } else {
                    match func_stat.closure {
                        None => (Err(InferFailReason::Nothing), rp),
                        Some(closure) => (
                            Ok(
                                VisitView::Done(
                                    LuaType::Signature(
                                        LuaSignatureId {
                                            file_id: rp.cache.file_id,
                                            position: closure.syntax_id.range.start,
                                        },
                                    ),
                                ),
                            ),
                            rp,
                        ),
                    }
                }
            },
        },
    }
}

/// At a `@cast` tag: what it says.
#[verifier::opaque]
pub open spec fn cast_visit(
    tree: FlowTree,
    root: LuaChunk,
    var_ref_id: VarRefId,
    flow_node: FlowNode,
    tag_cast_id: LuaSyntaxId,
    rp: Replay,
) -> (Result<VisitView, InferFailReason>, Replay) {
    match find_node(root.tag_casts@, tag_cast_id) {
        None => (Err(InferFailReason::Nothing), rp),
        Some(tag_cast) => {
            let (cast, rp) = rp.get_type_at_cast_flow(
                tree,
                root,
                var_ref_id,
                flow_node.id,
                *tag_cast,
            );
            match cast {
                Err(e) => (Err(e), rp),
                Ok(ResultTypeOrContinue::Result(typ)) => (Ok(VisitView::Done(typ)), rp),
                Ok(ResultTypeOrContinue::Continue) => (Ok(VisitView::Pass), rp),
            }
        },
    }
}

/// The first variable of an assignment that is the reference, from `from` on.
pub open spec fn assigned_index(info: AssignmentView, var_ref_id: VarRefId, from: int) -> Option<
    int,
>
    decreases info.assign_stat.vars@.len() - from,
{
    if from < 0 || from >= info.assign_stat.vars@.len() || from >= info.var_ref_ids.len() {
        None
    } else if info.var_ref_ids[from] == Some(var_ref_id) {
        Some(from)
    } else {
        assigned_index(info, var_ref_id, from + 1)
    }
}

/// Under which owner the type of an assigned variable is filed.
pub open spec fn assigned_owner(var: LuaVarExpr, rp: Replay) -> LuaTypeOwner {
    match var {
        LuaVarExpr::NameExpr(name_expr) => LuaTypeOwner::Decl(
            LuaDeclId {
                file_id: rp.cache.file_id,
                position: name_expr.syntax_id.range.start,
            },
        ),
        LuaVarExpr::IndexExpr(index_expr) => LuaTypeOwner::Member(
            LuaMemberId { id: index_expr.syntax_id, file_id: rp.cache.file_id },
        ),
    }
}

/// The type that was written down for an owner.
pub open spec fn explicit_type(held: Option<LuaTypeCache>) -> Option<LuaType> {
    match held {
        Some(LuaTypeCache::DocType(typ)) => Some(typ),
        _ => None,
    }
}

/// The type of a variable after an expression was assigned to it, given the type that it had
/// before and whether that type can be built on.
#[verifier::opaque]
pub open spec fn assignment_result(
    var_ref_id: VarRefId,
    explicit: Option<LuaType>,
    expr_type: LuaType,
    source_type: LuaType,
    reuse: bool,
    rp: Replay,
) -> (LuaType, Replay) {
    let (narrowed, rp) = if source_type is Nil {
        (None, rp)
    } else {
        let (declared, rp) = rp.get_var_ref_type(var_ref_id);
        rp.narrow_down_type(
            source_type,
            expr_type,
            match declared {
                Ok(LuaType::Def(id)) => Some(LuaType::Def(id)),
                Ok(LuaType::Ref(id)) => Some(LuaType::Ref(id)),
                _ => None,
            },
        )
    };
    if reuse || preserves(expr_type) {
        (
            match (narrowed, explicit) {
                (Some(narrowed), _) => narrowed,
                (None, Some(explicit)) => explicit,
                (None, None) => expr_type,
            },
            rp,
        )
    } else {
        (expr_type, rp)
    }
}

/// What a condition says once its question is answered.  A length that does not fit says nothing.
pub open spec fn answered(
    q: FlowQuery,
    flow_node: FlowNode,
    subquery: ConditionSubquery,
    typ: InferResult,
    rp: Replay,
) -> (Result<ConditionFlowAction, InferFailReason>, Replay) {
    match typ {
        Err(e) => (Err(e), rp),
        Ok(typ) => if array_len_fits(subquery, typ) {
            subquery_action(q.tree, q.root, q.var_ref_id, flow_node, subquery, typ, rp)
        } else {
            (Ok(ConditionFlowAction::Continue), rp)
        },
    }
}

/// What is remembered once a walk is done: a type, but no failure.
pub open spec fn settled_entry(res: InferResult) -> Option<CacheEntry<LuaType>> {
    match res {
        Ok(typ) => Some(CacheEntry::Cache(typ)),
        Err(_) => None,
    }
}

/// What comes out where something is remembered: the type, or an error where it is still being
/// worked out.
pub open spec fn known_result(entry: CacheEntry<LuaType>) -> InferResult {
    match entry {
        CacheEntry::Cache(typ) => Ok(typ),
        CacheEntry::Ready => Err(InferFailReason::RecursiveInfer),
    }
}

impl FlowQuery {
    /// What is remembered about the reference at a node.
    pub open spec fn entry(
        self,
        flow_id: FlowId,
        use_condition_narrowing: bool,
        rp: Replay,
    ) -> Option<
        CacheEntry<LuaType>,
    > {
        rp.cache.node_entry(self.var_ref_cache_id, flow_id, use_condition_narrowing)
    }

    /// `entry` is remembered about the reference at a node.
    pub open spec fn remember(
        self,
        flow_id: FlowId,
        use_condition_narrowing: bool,
        entry: Option<CacheEntry<LuaType>>,
        rp: Replay,
    ) -> Replay {
        rp.with_cache(
            rp.cache.with_node(self.var_ref_cache_id, flow_id, use_condition_narrowing, entry),
        )
    }

    /// A type is remembered, a failure is forgotten.
    pub open spec fn settle(
        self,
        flow_id: FlowId,
        use_condition_narrowing: bool,
        res: InferResult,
        rp: Replay,
    ) -> Replay {
        self.remember(flow_id, use_condition_narrowing, settled_entry(res), rp)
    }

    /// The type of the reference at a node.  An answer is remembered; while it is being worked
    /// out, it must not be needed.
    pub open spec fn type_at(
        self,
        flow_id: FlowId,
        use_condition_narrowing: bool,
        rp: Replay,
    ) -> (InferResult, Replay)
        decreases rp.steps, 0int, 0nat,
    {
        match self.entry(flow_id, use_condition_narrowing, rp) {
            Some(CacheEntry::Cache(typ)) => (Ok(typ), rp),
            Some(CacheEntry::Ready) => (Err(InferFailReason::RecursiveInfer), rp),
            None => if rp.steps == 0 {
                (Err(InferFailReason::LimitReached), rp)
            } else {
                let start = rp.ticked();
                let (step, after) = self.step(
                    flow_id,
                    use_condition_narrowing,
                    Seq::empty(),
                    self.remember(
                        flow_id,
                        use_condition_narrowing,
                        Some(CacheEntry::Ready),
                        start,
                    ),
                );
                let after = after.capped(start);
                let (res, after) = match step {
                    Err(e) => (Err(e), after),
                    Ok(StepView::Result(typ)) => (Ok(typ), after),
                    Ok(StepView::Union { branch_flow_ids, narrows }) => self.merged(
                        branch_flow_ids,
                        use_condition_narrowing,
                        narrows,
                        LuaType::Never,
                        after,
                    ),
                };
                (res, self.settle(flow_id, use_condition_narrowing, res, after))
            },
        }
    }

    /// The union of `acc` and the types at the given nodes, from the last to the first, narrowed.
    pub open spec fn merged(
        self,
        flow_ids: Seq<FlowId>,
        use_condition_narrowing: bool,
        narrows: Seq<PendingConditionNarrow>,
        acc: LuaType,
        rp: Replay,
    ) -> (InferResult, Replay)
        decreases rp.steps, 6int, flow_ids.len(),
    {
        if flow_ids.len() == 0 {
            let (typ, rp) = applied_narrows(narrows, acc, rp);
            (Ok(typ), rp)
        } else {
            let (branch, after) = self.type_at(flow_ids.last(), use_condition_narrowing, rp);
            let after = after.capped(rp);
            match branch {
                Err(e) => (Err(e), after),
                Ok(typ) => {
                    let (acc, after) = after.apply_type_op(TypeOps::Union, acc, typ);
                    self.merged(
                        flow_ids.drop_last(),
                        use_condition_narrowing,
                        narrows,
                        acc,
                        after,
                    )
                },
            }
        }
    }

    /// The walk from a node backwards, to where it ends.
    pub open spec fn step(
        self,
        flow_id: FlowId,
        use_condition_narrowing: bool,
        narrows: Seq<PendingConditionNarrow>,
        rp: Replay,
    ) -> (Result<StepView, InferFailReason>, Replay)
        decreases rp.steps, 5int, 0nat,
    {
        if rp.steps == 0 {
            (Err(InferFailReason::LimitReached), rp)
        } else {
            let start = rp.ticked();
            match self.tree.node(flow_id) {
                None => (Err(InferFailReason::Nothing), start),
                Some(node) => {
                    let (visit, after) = self.visit(node, use_condition_narrowing, start);
                    let after = after.capped(start);
                    match visit {
                        Err(e) => (Err(e), after),
                        Ok(VisitView::Done(typ)) => if use_condition_narrowing {
                            let (typ, after) = applied_narrows(narrows, typ, after);
                            (Ok(StepView::Result(typ)), after)
                        } else {
                            (Ok(StepView::Result(typ)), after)
                        },
                        Ok(VisitView::Union(branch_flow_ids)) => (
                            Ok(StepView::Union { branch_flow_ids, narrows }),
                            after,
                        ),
                        Ok(onward) => match single_antecedent(node) {
                            Err(e) => (Err(e), after),
                            Ok(antecedent) => self.step(
                                antecedent,
                                use_condition_narrowing,
                                match onward {
                                    VisitView::Narrow(narrow) => narrows.push(narrow),
                                    _ => narrows,
                                },
                                after,
                            ),
                        },
                    }
                },
            }
        }
    }

    /// What the walk finds at a node.
    pub open spec fn visit(
        self,
        flow_node: FlowNode,
        use_condition_narrowing: bool,
        rp: Replay,
    ) -> (Result<VisitView, InferFailReason>, Replay)
        decreases rp.steps, 4int, 0nat,
    {
        match flow_node.kind {
            FlowNodeKind::Start => {
                let (typ, rp) = rp.get_var_ref_type(self.var_ref_id);
                (found(typ), rp)
            },
            FlowNodeKind::Unreachable => {
                let (typ, rp) = rp.get_var_ref_type(self.var_ref_id);
                (found(typ), rp)
            },
            FlowNodeKind::BranchLabel => {
                let (inputs, cache) = branch_inputs(self.tree, flow_node, rp.cache);
                match inputs {
                    Err(e) => (Err(e), rp.with_cache(cache)),
                    Ok(inputs) => (Ok(VisitView::Union(inputs)), rp.with_cache(cache)),
                }
            },
            FlowNodeKind::NamedLabel(_) => match multi_antecedents(flow_node) {
                Err(e) => (Err(e), rp),
                Ok(antecedents) => (Ok(VisitView::Union(antecedents)), rp),
            },
            FlowNodeKind::DeclPosition(position) => decl_visit(
                self.root,
                self.var_ref_id,
                position,
                rp,
            ),
            FlowNodeKind::Assignment(assign_id) => self.assignment_visit(flow_node, assign_id, rp),
            FlowNodeKind::ImplFunc(func_id) => func_visit(
                self.root,
                self.var_ref_id,
                func_id,
                rp,
            ),
            FlowNodeKind::TrueCondition(condition_id) => self.condition_visit(
                use_condition_narrowing,
                flow_node,
                condition_id,
                InferConditionFlow::TrueCondition,
                rp,
            ),
            FlowNodeKind::FalseCondition(condition_id) => self.condition_visit(
                use_condition_narrowing,
                flow_node,
                condition_id,
                InferConditionFlow::FalseCondition,
                rp,
            ),
            FlowNodeKind::TagCast(tag_cast_id) => cast_visit(
                self.tree,
                self.root,
                self.var_ref_id,
                flow_node,
                tag_cast_id,
                rp,
            ),
            _ => (Ok(VisitView::Pass), rp),
        }
    }

    /// At a condition: what it says, where conditions count.
    pub open spec fn condition_visit(
        self,
        use_condition_narrowing: bool,
        flow_node: FlowNode,
        condition_id: LuaSyntaxId,
        condition_flow: InferConditionFlow,
        rp: Replay,
    ) -> (Result<VisitView, InferFailReason>, Replay)
        decreases rp.steps, 3int, 0nat,
    {
        if !use_condition_narrowing {
            (Ok(VisitView::Pass), rp)
        } else {
            let (info, after) = condition_info(self.root, flow_node.id, condition_id, rp);
            match info {
                Err(e) => (Err(e), after),
                Ok(info) => {
                    let (action, after) = remembered_action(
                        self,
                        flow_node,
                        info,
                        condition_flow,
                        after,
                    );
                    match action {
                        Err(e) => (Err(e), after),
                        Ok(action) => self.action_visit(flow_node, action, after.capped(rp)),
                    }
                },
            }
        }
    }

    /// What a condition that says `action` means for the walk.  A question about another
    /// reference is answered by a walk of its own, and what the condition says then counts.
    pub open spec fn action_visit(
        self,
        flow_node: FlowNode,
        action: ConditionFlowAction,
        rp: Replay,
    ) -> (Result<VisitView, InferFailReason>, Replay)
        decreases rp.steps, 2int, 0nat,
    {
        match action {
            ConditionFlowAction::Continue => (Ok(VisitView::Pass), rp),
            ConditionFlowAction::Result(typ) => (Ok(VisitView::Done(typ)), rp),
            ConditionFlowAction::Pending(narrow) => (Ok(VisitView::Narrow(narrow)), rp),
            ConditionFlowAction::NeedCorrelated(pending) => if rp.steps == 0 {
                (Err(InferFailReason::LimitReached), rp)
            } else {
                let (action, after) = rp.ticked().resume_correlated_condition(
                    self.tree,
                    self.root,
                    self.var_ref_id,
                    flow_node.id,
                    pending,
                );
                match action {
                    Err(e) => (Err(e), after),
                    Ok(action) => self.action_visit(flow_node, action, after),
                }
            },
            ConditionFlowAction::NeedSubquery(subquery) => if rp.steps == 0 {
                (Err(InferFailReason::LimitReached), rp)
            } else {
                let start = rp.ticked();
                let (id, cache) = start.cache.number_var_ref(subquery.var_ref_id());
                if id == u32::MAX {
                    (Err(InferFailReason::LimitReached), start)
                } else {
                    let (typ, after) = self.about(subquery.var_ref_id(), id).type_at(
                        subquery.antecedent_flow_id(),
                        true,
                        start.with_cache(cache),
                    );
                    let (action, after) = answered(self, flow_node, subquery, typ, after);
                    match action {
                        Err(e) => (Err(e), after),
                        Ok(action) => self.action_visit(flow_node, action, after.capped(start)),
                    }
                }
            },
        }
    }

    /// The same question about another reference.
    pub open spec fn about(self, var_ref_id: VarRefId, var_ref_cache_id: u32) -> FlowQuery {
        FlowQuery { var_ref_id, var_ref_cache_id, ..self }
    }

    /// At an assignment: the type of what is assigned, where it is assigned to the reference.
    pub open spec fn assignment_visit(
        self,
        flow_node: FlowNode,
        assign_id: LuaSyntaxId,
        rp: Replay,
    ) -> (Result<VisitView, InferFailReason>, Replay)
        decreases rp.steps, 3int, 0nat,
    {
        let (info, after) = assignment_info(self.root, flow_node.id, assign_id, rp);
        match info {
            Err(e) => (Err(e), after),
            Ok(info) => if !info.var_ref_ids.contains(Some(self.var_ref_id)) {
                (Ok(VisitView::Pass), after)
            } else {
                let (assigned, after) = self.assigned(flow_node, info, after.capped(rp));
                match assigned {
                    Err(e) => (Err(e), after),
                    Ok(ResultTypeOrContinue::Result(typ)) => (Ok(VisitView::Done(typ)), after),
                    Ok(ResultTypeOrContinue::Continue) => (Ok(VisitView::Pass), after),
                }
            },
        }
    }

    /// The type of the reference after an assignment.
    pub open spec fn assigned(self, flow_node: FlowNode, info: AssignmentView, rp: Replay) -> (
        Result<ResultTypeOrContinue, InferFailReason>,
        Replay,
    )
        decreases rp.steps, 2int, 0nat,
    {
        match assigned_index(info, self.var_ref_id, 0) {
            None => (Ok(ResultTypeOrContinue::Continue), rp),
            Some(i) => {
                let (held, rp) = rp.get_type_cache(assigned_owner(info.assign_stat.vars@[i], rp));
                let explicit = explicit_type(held);
                let (expr_type, rp) = rp.infer_expr_list_value_type_at(
                    info.assign_stat.exprs@,
                    i as usize,
                );
                match expr_type {
                    Err(e) => (Err(e), rp),
                    Ok(None) => (Ok(ResultTypeOrContinue::Continue), rp),
                    Ok(Some(expr_type)) => {
                        let (source, rp) = self.assignment_source(
                            flow_node,
                            explicit,
                            expr_type,
                            rp,
                        );
                        match source {
                            Err(e) => (Err(e), rp),
                            Ok((source_type, reuse)) => {
                                let (typ, rp) = assignment_result(
                                    self.var_ref_id,
                                    explicit,
                                    expr_type,
                                    source_type,
                                    reuse,
                                    rp,
                                );
                                (Ok(ResultTypeOrContinue::Result(typ)), rp)
                            },
                        }
                    },
                }
            },
        }
    }

    /// The type that the reference had before an assignment, and whether it can be built on: the
    /// explicit type, or the narrowed type where the expression fits it, or else the type without
    /// narrowing.
    pub open spec fn assignment_source(
        self,
        flow_node: FlowNode,
        explicit: Option<LuaType>,
        expr_type: LuaType,
        rp: Replay,
    ) -> (Result<(LuaType, bool), InferFailReason>, Replay)
        decreases rp.steps, 1int, 0nat,
    {
        match explicit {
            Some(explicit) => (Ok((explicit, true)), rp),
            None => match single_antecedent(flow_node) {
                Err(e) => (Err(e), rp),
                Ok(antecedent) => if !preserves(expr_type) {
                    let (typ, rp) = self.type_at(antecedent, false, rp);
                    match typ {
                        Err(e) => (Err(e), rp),
                        Ok(typ) => (Ok((typ, false)), rp),
                    }
                } else {
                    let (narrowed, after) = self.type_at(antecedent, true, rp);
                    match narrowed {
                        Err(e) => (Err(e), after),
                        Ok(narrowed) => {
                            let (reuse, after) = reuses_source(narrowed, expr_type, after);
                            if reuse {
                                (Ok((narrowed, true)), after)
                            } else {
                                let (typ, after) = self.type_at(
                                    antecedent,
                                    false,
                                    after.capped(rp),
                                );
                                match typ {
                                    Err(e) => (Err(e), after),
                                    Ok(typ) => (Ok((typ, false)), after),
                                }
                            }
                        },
                    }
                },
            },
        }
    }
}

/// The type of a reference at a program point.
pub open spec fn flow_type(
    tree: FlowTree,
    root: LuaChunk,
    var_ref_id: VarRefId,
    flow_id: FlowId,
    rp: Replay,
) -> (InferResult, Replay) {
    let (var_ref_cache_id, cache) = rp.cache.number_var_ref(var_ref_id);
    (FlowQuery { tree, root, var_ref_id, var_ref_cache_id }).type_at(
        flow_id,
        true,
        rp.with_cache(cache),
    )
}

/// [`FlowQuery::type_at`], which is not unfolded by itself.
#[verifier::opaque]
pub open spec fn evaluated(
    q: FlowQuery,
    flow_id: FlowId,
    use_condition_narrowing: bool,
    rp: Replay,
) -> (InferResult, Replay) {
    q.type_at(flow_id, use_condition_narrowing, rp)
}

/// [`FlowQuery::assignment_source`] where nothing is written down about the variable.
pub open spec fn source_before(
    q: FlowQuery,
    antecedent: FlowId,
    expr_type: LuaType,
    rp: Replay,
) -> (Result<(LuaType, bool), InferFailReason>, Replay) {
    if preserves(expr_type) {
        let (narrowed, after) = evaluated(q, antecedent, true, rp);
        match narrowed {
            Err(e) => (Err(e), after),
            Ok(narrowed) => {
                let (reuse, after) = reuses_source(narrowed, expr_type, after);
                if reuse {
                    (Ok((narrowed, true)), after)
                } else {
                    unnarrowed(evaluated(q, antecedent, false, after.capped(rp)))
                }
            },
        }
    } else {
        unnarrowed(evaluated(q, antecedent, false, rp))
    }
}

/// A type that cannot be built on.
pub open spec fn unnarrowed(evaluation: (InferResult, Replay)) -> (
    Result<(LuaType, bool), InferFailReason>,
    Replay,
) {
    match evaluation.0 {
        Err(e) => (Err(e), evaluation.1),
        Ok(typ) => (Ok((typ, false)), evaluation.1),
    }
}

pub proof fn lemma_source_before(
    q: FlowQuery,
    flow_node: FlowNode,
    antecedent: FlowId,
    expr_type: LuaType,
    rp: Replay,
)
    requires
        single_antecedent(flow_node) == Ok::<FlowId, InferFailReason>(antecedent),
    ensures
        q.assignment_source(flow_node, None, expr_type, rp) == source_before(
            q,
            antecedent,
            expr_type,
            rp,
        ),
{
    reveal(evaluated);
}

/// [`FlowQuery::assignment_source`], which is not unfolded where an assignment is reasoned about.
#[verifier::opaque]
pub open spec fn sourced(
    q: FlowQuery,
    flow_node: FlowNode,
    explicit: Option<LuaType>,
    expr_type: LuaType,
    rp: Replay,
) -> (Result<(LuaType, bool), InferFailReason>, Replay) {
    q.assignment_source(flow_node, explicit, expr_type, rp)
}

/// The type of a reference after variable `i` was assigned, with the source left folded.
pub open spec fn assigned_at(
    q: FlowQuery,
    flow_node: FlowNode,
    info: AssignmentView,
    i: int,
    rp: Replay,
) -> (Result<ResultTypeOrContinue, InferFailReason>, Replay) {
    let (held, rp) = rp.get_type_cache(assigned_owner(info.assign_stat.vars@[i], rp));
    let explicit = explicit_type(held);
    let (expr_type, rp) = rp.infer_expr_list_value_type_at(info.assign_stat.exprs@, i as usize);
    match expr_type {
        Err(e) => (Err(e), rp),
        Ok(None) => (Ok(ResultTypeOrContinue::Continue), rp),
        Ok(Some(expr_type)) => {
            let (source, rp) = sourced(q, flow_node, explicit, expr_type, rp);
            match source {
                Err(e) => (Err(e), rp),
                Ok((source_type, reuse)) => {
                    let (typ, rp) = assignment_result(
                        q.var_ref_id,
                        explicit,
                        expr_type,
                        source_type,
                        reuse,
                        rp,
                    );
                    (Ok(ResultTypeOrContinue::Result(typ)), rp)
                },
            }
        },
    }
}

pub proof fn lemma_assigned_at(q: FlowQuery, flow_node: FlowNode, info: AssignmentView, rp: Replay)
    ensures
        q.assigned(flow_node, info, rp) == match assigned_index(info, q.var_ref_id, 0) {
            None => (Ok(ResultTypeOrContinue::Continue), rp),
            Some(i) => assigned_at(q, flow_node, info, i, rp),
        },
{
    reveal(sourced);
}

/// Narrowings are applied from the last to the first: those that were met later on the walk come
/// first.
pub proof fn narrows_apply_last_to_first(
    first: Seq<PendingConditionNarrow>,
    second: Seq<PendingConditionNarrow>,
    typ: LuaType,
    rp: Replay,
)
    ensures
        applied_narrows(first + second, typ, rp) == ({
            let (typ, rp) = applied_narrows(second, typ, rp);
            applied_narrows(first, typ, rp)
        }),
    decreases second.len(),
{
    if second.len() == 0 {
        assert(first + second =~= first);
    } else {
        assert((first + second).drop_last() =~= first + second.drop_last());
        let (narrowed, after) = second.last().applied(typ, rp);
        narrows_apply_last_to_first(first, second.drop_last(), narrowed, after);
    }
}

/// A type that is known is returned without a question to the model, without a change to the cache
/// and without a step.
pub proof fn known_type_is_returned(
    q: FlowQuery,
    flow_id: FlowId,
    use_condition_narrowing: bool,
    typ: LuaType,
    rp: Replay,
)
    requires
        q.entry(flow_id, use_condition_narrowing, rp) == Some(CacheEntry::Cache(typ)),
    ensures
        q.type_at(flow_id, use_condition_narrowing, rp) == (
            Ok::<LuaType, InferFailReason>(typ),
            rp,
        ),
{
}

/// A type that is needed while it is being worked out is an error, not an endless walk.
pub proof fn type_needed_for_itself_is_an_error(
    q: FlowQuery,
    flow_id: FlowId,
    use_condition_narrowing: bool,
    rp: Replay,
)
    requires
        q.entry(flow_id, use_condition_narrowing, rp) == Some(CacheEntry::<LuaType>::Ready),
    ensures
        q.type_at(flow_id, use_condition_narrowing, rp) == (
            Err::<LuaType, InferFailReason>(InferFailReason::RecursiveInfer),
            rp,
        ),
{
}

/// A type that was found is remembered, so that asking again gives the same answer without a
/// question to the model and without a step.
pub proof fn type_is_remembered(
    q: FlowQuery,
    flow_id: FlowId,
    use_condition_narrowing: bool,
    rp: Replay,
)
    ensures
        ({
            let (res, after) = q.type_at(flow_id, use_condition_narrowing, rp);
            res is Ok ==> {
                &&& q.entry(flow_id, use_condition_narrowing, after) == Some(
                    CacheEntry::Cache(res->Ok_0),
                )
                &&& q.type_at(flow_id, use_condition_narrowing, after) == (res, after)
            }
        }),
{
    let (res, after) = q.type_at(flow_id, use_condition_narrowing, rp);
    if res is Ok {
        lemma_settled_entry(q, flow_id, use_condition_narrowing, rp);
        known_type_is_returned(q, flow_id, use_condition_narrowing, res->Ok_0, after);
    }
}

/// A walk that failed leaves nothing behind at its own node, so that asking again starts anew.
pub proof fn failure_is_forgotten(
    q: FlowQuery,
    flow_id: FlowId,
    use_condition_narrowing: bool,
    rp: Replay,
)
    requires
        q.entry(flow_id, use_condition_narrowing, rp) is None,
    ensures
        ({
            let (res, after) = q.type_at(flow_id, use_condition_narrowing, rp);
            res is Err ==> q.entry(flow_id, use_condition_narrowing, after) is None
        }),
{
    lemma_settled_entry(q, flow_id, use_condition_narrowing, rp);
}

/// What a walk leaves behind at its own node.
proof fn lemma_settled_entry(
    q: FlowQuery,
    flow_id: FlowId,
    use_condition_narrowing: bool,
    rp: Replay,
)
    ensures
        ({
            let (res, after) = q.type_at(flow_id, use_condition_narrowing, rp);
            let entry = q.entry(flow_id, use_condition_narrowing, after);
            match res {
                Ok(typ) => entry == Some(CacheEntry::Cache(typ)),
                Err(_) => entry is None || entry == q.entry(flow_id, use_condition_narrowing, rp),
            }
        }),
{
    if rp.steps > 0 {
        let start = rp.ticked();
        if q.entry(flow_id, use_condition_narrowing, start) is None {
            let (step, stepped) = q.step(
                flow_id,
                use_condition_narrowing,
                Seq::empty(),
                q.remember(flow_id, use_condition_narrowing, Some(CacheEntry::Ready), start),
            );
            let stepped = stepped.capped(start);
            let (res, merged) = match step {
                Err(e) => (Err(e), stepped),
                Ok(StepView::Result(typ)) => (Ok(typ), stepped),
                Ok(StepView::Union { branch_flow_ids, narrows }) => q.merged(
                    branch_flow_ids,
                    use_condition_narrowing,
                    narrows,
                    LuaType::Never,
                    stepped,
                ),
            };
            let entry: Option<CacheEntry<LuaType>> = match res {
                Ok(typ) => Some(CacheEntry::Cache(typ)),
                Err(_) => None,
            };
            assert(q.type_at(flow_id, use_condition_narrowing, rp) == (
                res,
                q.settle(flow_id, use_condition_narrowing, res, merged),
            ));
            dense_write_is_local(
                merged.cache.flow_node,
                q.var_ref_cache_id as nat,
                flow_id.0,
                use_condition_narrowing,
                entry,
                q.var_ref_cache_id as nat,
                flow_id.0,
                use_condition_narrowing,
            );
        }
    }
}

/// A walk without narrowing passes over conditions without looking at them.
pub proof fn conditions_are_passed_over(q: FlowQuery, flow_node: FlowNode, rp: Replay)
    requires
        flow_node.kind is TrueCondition || flow_node.kind is FalseCondition,
    ensures
        q.visit(flow_node, false, rp) == (Ok::<VisitView, InferFailReason>(VisitView::Pass), rp),
{
}

/// What a condition says about a reference is worked out once.
pub proof fn condition_answer_is_remembered(
    q: FlowQuery,
    flow_node: FlowNode,
    info: FlowConditionInfo,
    condition_flow: InferConditionFlow,
    rp: Replay,
)
    ensures
        ({
            let (res, after) = remembered_action(q, flow_node, info, condition_flow, rp);
            res is Ok ==> remembered_action(q, flow_node, info, condition_flow, after) == (
                res,
                after,
            )
        }),
{
    reveal(remembered_action);
    let flag = condition_flow == InferConditionFlow::TrueCondition;
    let id = q.var_ref_cache_id;
    if !is_about_another(info, q.var_ref_id) && rp.cache.condition_entry(id, flow_node.id, flag)
        is None {
        let marked = rp.cache.with_condition(id, flow_node.id, flag, Some(CacheEntry::Ready));
        let (res, after) = condition_action(
            q.tree,
            q.root,
            q.var_ref_id,
            flow_node,
            info.expr,
            condition_flow,
            rp.with_cache(marked),
        );
        if let Ok(action) = res {
            dense_write_is_local(
                after.cache.condition_flow,
                id as nat,
                flow_node.id.0,
                flag,
                Some(CacheEntry::Cache(action)),
                id as nat,
                flow_node.id.0,
                flag,
            );
        }
    }
}

/// A condition on a field of something else says nothing about a reference, and no question is
/// asked to find that out.
pub proof fn condition_on_another_says_nothing(
    q: FlowQuery,
    flow_node: FlowNode,
    info: FlowConditionInfo,
    condition_flow: InferConditionFlow,
    rp: Replay,
)
    requires
        is_about_another(info, q.var_ref_id),
    ensures
        remembered_action(q, flow_node, info, condition_flow, rp) == (
            Ok::<ConditionFlowAction, InferFailReason>(ConditionFlowAction::Continue),
            rp,
        ),
{
    reveal(remembered_action);
}

/// A type that was inferred for a variable is no annotation; one that was written down is.
pub proof fn only_written_types_are_annotations(typ: LuaType)
    ensures
        explicit_type(Some(LuaTypeCache::InferType(typ))) is None,
        explicit_type(Some(LuaTypeCache::DocType(typ))) == Some(typ),
        explicit_type(None) is None,
{
}

/// Where a variable is annotated, nothing before an assignment to it counts.
pub proof fn annotations_end_the_walk(
    q: FlowQuery,
    flow_node: FlowNode,
    annotation: LuaType,
    expr_type: LuaType,
    rp: Replay,
)
    ensures
        q.assignment_source(flow_node, Some(annotation), expr_type, rp) == (
            Ok::<(LuaType, bool), InferFailReason>((annotation, true)),
            rp,
        ),
{
}

/// Where a variable was `nil`, it has the type of the expression that is assigned to it, and no
/// question is asked.
pub proof fn assignment_to_nil_has_the_type_of_the_expression(
    var_ref_id: VarRefId,
    expr_type: LuaType,
    reuse: bool,
    rp: Replay,
)
    ensures
        assignment_result(var_ref_id, None, expr_type, LuaType::Nil, reuse, rp) == (expr_type, rp),
{
    reveal(assignment_result);
}

} // verus!
