//! Casts: `@cast` tags and the casts that calls imply.

use vstd::prelude::*;

use crate::cache::{CacheView, LuaInferCache};
use crate::condition_flow::InferConditionFlow;
use crate::db::{
    extends, lemma_extends_is_reflexive, lemma_extends_is_transitive, DbIndex, Log, Replay,
    SemanticModel,
};
use crate::flow_tree::{FlowNodeKind, FlowTree};
use crate::ids::{FileId, FlowId, LuaTypeOwner};
use crate::infer::{InferFailReason, TypeOps};
use crate::syntax::{find_node, BinaryOperator, LuaChunk, LuaDocOpType};
use crate::types::LuaType;

verus! {

broadcast use {lemma_extends_is_reflexive, lemma_extends_is_transitive};

/// What a cast does with a type.
#[derive(Debug, Clone, Copy, PartialEq, Eq, Structural)]
pub enum CastAction {
    Add,
    Remove,
    Force,
}

/// What a cast with the given operator does where the condition came out true.
pub open spec fn stated_action(op: Option<BinaryOperator>) -> CastAction {
    match op {
        Some(op) => if op == BinaryOperator::OpAdd {
            CastAction::Add
        } else {
            CastAction::Remove
        },
        None => CastAction::Force,
    }
}

/// What undoes an action: a type that was added or forced is removed, one that was removed is
/// added.
pub open spec fn opposite_action(action: CastAction) -> CastAction {
    match action {
        CastAction::Add => CastAction::Remove,
        CastAction::Remove => CastAction::Add,
        CastAction::Force => CastAction::Remove,
    }
}

/// What a cast with the given operator does.
pub open spec fn cast_action(
    op: Option<BinaryOperator>,
    condition_flow: InferConditionFlow,
) -> CastAction {
    match condition_flow {
        InferConditionFlow::TrueCondition => stated_action(op),
        InferConditionFlow::FalseCondition => opposite_action(stated_action(op)),
    }
}

pub fn get_cast_action(op: Option<BinaryOperator>, condition_flow: InferConditionFlow) -> (action:
    CastAction)
    ensures
        action == cast_action(op, condition_flow),
{
    let mut action = match op {
        Some(op) => {
            if op == BinaryOperator::OpAdd {
                CastAction::Add
            } else {
                CastAction::Remove
            }
        },
        None => CastAction::Force,
    };
    if matches!(condition_flow, InferConditionFlow::FalseCondition) {
        action =
        match action {
            CastAction::Add => CastAction::Remove,
            CastAction::Remove => CastAction::Add,
            CastAction::Force => CastAction::Remove,
        };
    }
    action
}

/// The type `source` after an action with `typ`.
pub open spec fn acted(action: CastAction, source: LuaType, typ: LuaType, rp: Replay) -> (
    LuaType,
    Replay,
) {
    match action {
        CastAction::Add => rp.apply_type_op(TypeOps::Union, source, typ),
        CastAction::Remove => rp.apply_type_op(TypeOps::Remove, source, typ),
        CastAction::Force => (typ, rp),
    }
}

/// The type `source` after a cast.  `?` adds or removes `nil`; a type adds, removes or replaces;
/// a type that the type index does not hold changes nothing.
pub open spec fn cast(
    file_id: FileId,
    op_type: LuaDocOpType,
    source: LuaType,
    condition_flow: InferConditionFlow,
    rp: Replay,
) -> (LuaType, Replay) {
    let action = cast_action(op_type.op, condition_flow);
    if op_type.is_nullable {
        if action == CastAction::Force {
            (source, rp)
        } else {
            acted(action, source, LuaType::Nil, rp)
        }
    } else {
        match op_type.doc_type {
            Some(syntax_id) => {
                let (held, rp) = rp.get_type_cache(LuaTypeOwner::SyntaxId { file_id, syntax_id });
                match held {
                    Some(type_cache) => acted(action, source, type_cache.typ(), rp),
                    None => (source, rp),
                }
            },
            None => (source, rp),
        }
    }
}

pub fn cast_type<M: SemanticModel>(
    db: &mut DbIndex<M>,
    file_id: FileId,
    cast_op_type: LuaDocOpType,
    source_type: LuaType,
    condition_flow: InferConditionFlow,
) -> (res: Result<LuaType, InferFailReason>)
    ensures
        res is Ok,
        final(db).steps() == old(db).steps(),
        extends(final(db).log(), old(db).log()),
        forall|full: Log, cache: CacheView| #[trigger]
            extends(full, final(db).log()) ==> cast(
                file_id,
                cast_op_type,
                source_type,
                condition_flow,
                #[trigger] old(db).replay(full, cache),
            ) == (res->Ok_0, final(db).replay(full, cache)),
{
    let action = get_cast_action(cast_op_type.op, condition_flow);
    let mut source_type = source_type;
    if cast_op_type.is_nullable {
        match action {
            CastAction::Add => {
                source_type = db.apply_type_op(TypeOps::Union, &source_type, &LuaType::Nil);
            },
            CastAction::Remove => {
                source_type = db.apply_type_op(TypeOps::Remove, &source_type, &LuaType::Nil);
            },
            CastAction::Force => {},
        }
    } else if let Some(syntax_id) = cast_op_type.doc_type {
        let type_owner = LuaTypeOwner::SyntaxId { file_id, syntax_id };
        let typ = match db.get_type_cache(type_owner) {
            Some(type_cache) => type_cache.as_type().clone(),
            None => return Ok(source_type),
        };
        match action {
            CastAction::Add => {
                source_type = db.apply_type_op(TypeOps::Union, &source_type, &typ);
            },
            CastAction::Remove => {
                source_type = db.apply_type_op(TypeOps::Remove, &source_type, &typ);
            },
            CastAction::Force => {
                source_type = typ;
            },
        }
    }
    Ok(source_type)
}

/// The type `source` after several casts, one after the other.
pub open spec fn cast_all(
    file_id: FileId,
    op_types: Seq<LuaDocOpType>,
    source: LuaType,
    rp: Replay,
) -> (LuaType, Replay)
    decreases op_types.len(),
{
    if op_types.len() == 0 {
        (source, rp)
    } else {
        let (typ, rp) = cast(
            file_id,
            op_types[0],
            source,
            InferConditionFlow::TrueCondition,
            rp,
        );
        cast_all(file_id, op_types.drop_first(), typ, rp)
    }
}

/// The return type of a call after the inline cast at `flow_id`, where there is one.
pub open spec fn inline_cast(
    file_id: FileId,
    tree: FlowTree,
    root: Option<LuaChunk>,
    flow_id: FlowId,
    return_type: LuaType,
    rp: Replay,
) -> (Option<LuaType>, Replay) {
    match (tree.node(flow_id), root) {
        (Some(node), Some(root)) => match node.kind {
            FlowNodeKind::TagCast(tag_cast_id) => match find_node(root.tag_casts@, tag_cast_id) {
                Some(tag_cast) => {
                    let (typ, rp) = cast_all(file_id, tag_cast.op_types@, return_type, rp);
                    (Some(typ), rp)
                },
                None => (None, rp),
            },
            _ => (None, rp),
        },
        _ => (None, rp),
    }
}

/// Applies the inline cast that stands at `flow_id` to the return type of a call.  `root` is the
/// tree that the call stands in, where that tree is a whole chunk.
pub fn get_type_at_call_expr_inline_cast<M: SemanticModel>(
    db: &mut DbIndex<M>,
    cache: &LuaInferCache,
    tree: &FlowTree,
    root: Option<&LuaChunk>,
    flow_id: FlowId,
    return_type: LuaType,
) -> (res: Option<LuaType>)
    ensures
        final(db).steps() == old(db).steps(),
        extends(final(db).log(), old(db).log()),
        forall|full: Log, c: CacheView| #[trigger]
            extends(full, final(db).log()) ==> inline_cast(
                cache@.file_id,
                *tree,
                match root {
                    Some(root) => Some(*root),
                    None => None,
                },
                flow_id,
                return_type,
                #[trigger] old(db).replay(full, c),
            ) == (res, final(db).replay(full, c)),
{
    let flow_node = match tree.get_flow_node(flow_id) {
        Some(flow_node) => flow_node,
        None => return None,
    };
    let tag_cast_id = match flow_node.kind {
        FlowNodeKind::TagCast(tag_cast_id) => tag_cast_id,
        _ => return None,
    };
    let root = match root {
        Some(root) => root,
        None => return None,
    };
    let tag_cast = match root.find_tag_cast(tag_cast_id) {
        Some(tag_cast) => tag_cast,
        None => return None,
    };
    let file_id = cache.get_file_id();
    let mut typ = return_type;
    let mut i: usize = 0;
    assert(tag_cast.op_types@.skip(0) =~= tag_cast.op_types@);
    while i < tag_cast.op_types.len()
        invariant
            i <= tag_cast.op_types@.len(),
            file_id == cache@.file_id,
            db.steps() == old(db).steps(),
            extends(db.log(), old(db).log()),
            forall|full: Log, c: CacheView| #[trigger]
                extends(full, db.log()) ==> cast_all(
                    file_id,
                    tag_cast.op_types@,
                    return_type,
                    #[trigger] old(db).replay(full, c),
                ) == cast_all(
                    file_id,
                    tag_cast.op_types@.skip(i as int),
                    typ,
                    db.replay(full, c),
                ),
        decreases tag_cast.op_types@.len() - i,
    {
        assert(tag_cast.op_types@.skip(i as int).drop_first() =~= tag_cast.op_types@.skip(i + 1));
        typ =
        match cast_type(
            db,
            file_id,
            tag_cast.op_types[i],
            typ,
            InferConditionFlow::TrueCondition,
        ) {
            Ok(typ) => typ,
            Err(_) => return None,
        };
        i += 1;
    }
    Some(typ)
}

/// A cast where the condition came out false undoes what the opposite operator does where it
/// came out true.
pub proof fn false_condition_swaps_adding_and_removing(op: BinaryOperator)
    ensures
        op == BinaryOperator::OpAdd ==> cast_action(
            Some(op),
            InferConditionFlow::FalseCondition,
        ) == cast_action(Some(BinaryOperator::OpSub), InferConditionFlow::TrueCondition),
        op != BinaryOperator::OpAdd ==> cast_action(
            Some(op),
            InferConditionFlow::FalseCondition,
        ) == cast_action(Some(BinaryOperator::OpAdd), InferConditionFlow::TrueCondition),
{
}

/// Where the condition came out false, a cast never forces a type.
pub proof fn false_condition_never_forces(op: Option<BinaryOperator>)
    ensures
        cast_action(op, InferConditionFlow::FalseCondition) != CastAction::Force,
{
}

} // verus!
