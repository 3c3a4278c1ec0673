use std::sync::Arc;

use lua_flow::assignment_expr::{
    can_reuse_narrowed_assignment_source, is_partial_assignment_expr_compatible,
};
use lua_flow::blank_model::BlankModel;
use lua_flow::cache::{
    get_condition_flow_cache_entry, get_flow_node_cache_entry, CacheEntry, CacheOptions,
    LuaInferCache,
};
use lua_flow::cast_flow::{cast_type, get_type_at_call_expr_inline_cast};
use lua_flow::condition_flow::call_flow::get_type_at_call_expr;
use lua_flow::condition_flow::index_flow::get_type_at_index_expr;
use lua_flow::condition_flow::{
    apply_signature_cast, get_type_at_condition_flow, resolve_condition_subquery,
    ConditionFlowAction, ConditionSubquery, CorrelatedConditionNarrowing,
    CorrelatedDiscriminantNarrow, InferConditionFlow, PendingConditionNarrow,
    PendingCorrelatedCondition,
};
use lua_flow::db::{DbIndex, Log, SemanticModel};
use lua_flow::flow_info::{
    get_branch_label_flow_ids, get_flow_assignment_info, get_flow_condition_info,
    try_infer_decl_initializer_type,
};
use lua_flow::flow_tree::{FlowAntecedent, FlowNode, FlowNodeKind, FlowTree};
use lua_flow::ids::{
    FileId, FlowId, InFiled, LuaDeclId, LuaMemberId, LuaSignatureId, LuaSyntaxId, LuaTypeDeclId,
    LuaTypeOwner, TextRange, VarRefId,
};
use lua_flow::infer::{
    InferFailReason, InferResult, LuaDecl, LuaMember, LuaMemberFeature, LuaMemberInfo,
    LuaMemberKey, LuaMemberOwner, LuaSignature, LuaSignatureCast, LuaTypeCache,
    ResultTypeOrContinue, TypeOps, UnResolve,
};
use lua_flow::stats::{
    analyze_assign_stat, analyze_func_stat, analyze_local_func_stat, analyze_local_stat,
    analyze_table_field, LuaAnalyzer,
};
use lua_flow::syntax::{
    BinaryOperator, LuaAssignStat, LuaBinaryExpr, LuaCallExpr, LuaChunk, LuaClosureExpr,
    LuaDocOpType, LuaDocTagCast, LuaExpr, LuaFuncStat, LuaIndexExpr, LuaIndexKey,
    LuaIndexMemberExpr, LuaLocalFuncStat, LuaLocalName, LuaLocalStat, LuaNameExpr, LuaParenExpr,
    LuaTableExpr, LuaTableField, LuaUnaryExpr, LuaVarExpr, UnaryOperator,
};
use lua_flow::type_at_flow::{
    apply_pending_condition_narrows, evaluate_flow_step, get_condition_flow_action,
    get_type_at_flow, get_type_at_flow_internal, FlowEvalStep,
};
use lua_flow::types::{
    LuaAliasCallKind, LuaAliasCallType, LuaArrayLen, LuaArrayType, LuaFunctionType,
    LuaInstanceType, LuaType,
};

const STRING: LuaType = LuaType::Other(1);
const NUMBER: LuaType = LuaType::Other(2);
const TABLE: LuaType = LuaType::Other(3);
const FILE: FileId = FileId { id: 7 };

fn sid(start: u32) -> LuaSyntaxId {
    LuaSyntaxId { kind: 1, range: TextRange { start, end: start + 1 } }
}

fn union(types: Vec<LuaType>) -> LuaType {
    LuaType::Union(Arc::new(types))
}

fn text(s: &str) -> LuaType {
    LuaType::StringConst(Arc::new(s.to_string()))
}

fn decl(position: u32) -> LuaDeclId {
    LuaDeclId { file_id: FILE, position }
}

fn var(position: u32) -> VarRefId {
    VarRefId::VarRef(decl(position))
}

fn name(start: u32, text: &str) -> LuaExpr {
    LuaExpr::NameExpr(name_node(start, text))
}

fn name_node(start: u32, text: &str) -> Arc<LuaNameExpr> {
    Arc::new(LuaNameExpr {
        syntax_id: sid(start),
        name_text: Some(text.to_string()),
        access_path: Some(text.to_string()),
    })
}

fn index_node(start: u32, prefix: LuaExpr, path: &str) -> Arc<LuaIndexExpr> {
    Arc::new(LuaIndexExpr {
        syntax_id: sid(start),
        prefix_expr: Some(prefix),
        index_key: Some(LuaIndexKey::Static(1)),
        access_path: Some(path.to_string()),
    })
}

fn not(expr: LuaExpr) -> LuaExpr {
    LuaExpr::UnaryExpr(Arc::new(LuaUnaryExpr {
        syntax_id: sid(900),
        op: Some(UnaryOperator::OpNot),
        expr: Some(expr),
    }))
}

fn paren(expr: LuaExpr) -> LuaExpr {
    LuaExpr::ParenExpr(Arc::new(LuaParenExpr { syntax_id: sid(901), expr: Some(expr) }))
}

fn literal(start: u32) -> LuaExpr {
    LuaExpr::LiteralExpr(sid(start))
}

fn syntax_id_of(expr: &LuaExpr) -> LuaSyntaxId {
    match expr {
        LuaExpr::NameExpr(e) => e.syntax_id,
        LuaExpr::CallExpr(e) => e.syntax_id,
        LuaExpr::IndexExpr(e) => e.syntax_id,
        LuaExpr::TableExpr(e) => e.syntax_id,
        LuaExpr::LiteralExpr(e) => *e,
        LuaExpr::ClosureExpr(e) => e.syntax_id,
        LuaExpr::BinaryExpr(e) => e.syntax_id,
        LuaExpr::UnaryExpr(e) => e.syntax_id,
        LuaExpr::ParenExpr(e) => e.syntax_id,
    }
}

/// A model that replies from tables and writes down what it is asked to change.
struct Script {
    calls: Vec<String>,
    expr_types: Vec<(LuaSyntaxId, InferResult)>,
    var_refs: Vec<(LuaSyntaxId, VarRefId)>,
    var_type: InferResult,
    members: Vec<(LuaType, LuaType)>,
    member_infos: Vec<(LuaType, Vec<(u32, LuaType)>)>,
    incompatible: Vec<(LuaType, LuaType)>,
    held: Vec<(LuaTypeOwner, bool, LuaType)>,
    signature: Option<Arc<LuaSignature>>,
    signature_cast: Option<Arc<LuaSignatureCast>>,
    syntax_tree: Option<Arc<LuaChunk>>,
    reference_decl: Option<LuaDeclId>,
    decls: Vec<(LuaDeclId, LuaDecl)>,
    local_decl: Option<LuaDecl>,
    global_decls: Option<Vec<LuaDeclId>>,
    delayed: Vec<LuaDeclId>,
    local_reference: Option<LuaDeclId>,
    known_members: Vec<LuaMemberId>,
    index_key: Result<u32, InferFailReason>,
    unknown_key: bool,
    meta: bool,
    multi: Vec<(LuaType, Vec<LuaType>)>,
    generic: bool,
    instance: Option<Arc<LuaFunctionType>>,
    binary: Option<ConditionFlowAction>,
    overload: Option<ConditionFlowAction>,
    resumed: Option<ConditionFlowAction>,
    cast: Option<LuaType>,
    narrow_fails: bool,
}

impl Script {
    fn new() -> Script {
        Script {
            calls: vec![],
            expr_types: vec![],
            var_refs: vec![],
            var_type: Ok(STRING),
            members: vec![],
            member_infos: vec![],
            incompatible: vec![],
            held: vec![],
            signature: None,
            signature_cast: None,
            syntax_tree: None,
            reference_decl: None,
            decls: vec![],
            local_decl: None,
            global_decls: None,
            delayed: vec![],
            local_reference: None,
            known_members: vec![],
            index_key: Ok(5),
            unknown_key: false,
            meta: false,
            multi: vec![],
            generic: false,
            instance: None,
            binary: None,
            overload: None,
            resumed: None,
            cast: None,
            narrow_fails: false,
        }
    }

    fn note(&mut self, call: &str) {
        self.calls.push(call.to_string());
    }
}

fn members_of(typ: &LuaType) -> Vec<LuaType> {
    match typ {
        LuaType::Never => vec![],
        LuaType::Union(types) => types.iter().map(|t| t.clone()).collect(),
        _ => vec![typ.clone()],
    }
}

fn one_of(mut types: Vec<LuaType>) -> LuaType {
    if types.is_empty() {
        LuaType::Never
    } else if types.len() == 1 {
        types.remove(0)
    } else {
        union(types)
    }
}

fn is_falsy(typ: &LuaType) -> bool {
    *typ == LuaType::Nil || *typ == LuaType::BooleanConst(false)
}

impl SemanticModel for Script {
    /// Ghost code: it is there for proofs, and never runs.
    fn asked(&self) -> Log {
        unreachable!()
    }

    fn infer_expr(&mut self, _cache: &mut LuaInferCache, expr: &LuaExpr) -> InferResult {
        self.note("infer_expr");
        let id = syntax_id_of(expr);
        for (known, res) in &self.expr_types {
            if *known == id {
                return match res {
                    Ok(typ) => Ok(typ.clone()),
                    Err(e) => Err(e.clone()),
                };
            }
        }
        Err(InferFailReason::Nothing)
    }

    fn infer_expr_list_value_type_at(
        &mut self,
        cache: &mut LuaInferCache,
        exprs: &Vec<LuaExpr>,
        idx: usize,
    ) -> Result<Option<LuaType>, InferFailReason> {
        match exprs.get(idx) {
            Some(expr) => self.infer_expr(cache, expr).map(Some),
            None => Ok(None),
        }
    }

    fn infer_member_by_member_key(
        &mut self,
        _cache: &mut LuaInferCache,
        prefix_type: &LuaType,
        _idx: &LuaIndexMemberExpr,
    ) -> InferResult {
        self.note("infer_member");
        for (prefix, member) in &self.members {
            if prefix == prefix_type {
                return Ok(member.clone());
            }
        }
        Err(InferFailReason::Nothing)
    }

    fn infer_call_expr_func(
        &mut self,
        _cache: &mut LuaInferCache,
        _call_expr: &LuaCallExpr,
        _func_type: &LuaFunctionType,
    ) -> Result<Arc<LuaFunctionType>, InferFailReason> {
        self.note("infer_call");
        match &self.instance {
            Some(instance) => Ok(instance.clone()),
            None => Err(InferFailReason::Other(3)),
        }
    }

    fn get_var_ref_type(
        &mut self,
        _cache: &mut LuaInferCache,
        _var_ref_id: &VarRefId,
    ) -> InferResult {
        self.note("var_type");
        match &self.var_type {
            Ok(typ) => Ok(typ.clone()),
            Err(e) => Err(e.clone()),
        }
    }

    fn get_var_expr_var_ref_id(
        &mut self,
        _cache: &mut LuaInferCache,
        expr: &LuaExpr,
    ) -> Option<VarRefId> {
        self.note("var_ref");
        let id = syntax_id_of(expr);
        self.var_refs.iter().find(|(known, _)| *known == id).map(|(_, var)| *var)
    }

    fn get_type_at_binary_expr(
        &mut self,
        _cache: &mut LuaInferCache,
        _tree: &FlowTree,
        _root: &LuaChunk,
        _var_ref_id: &VarRefId,
        _flow_id: FlowId,
        _binary_expr: &LuaBinaryExpr,
        _condition_flow: InferConditionFlow,
    ) -> Result<ConditionFlowAction, InferFailReason> {
        self.note("binary");
        match &self.binary {
            Some(action) => Ok(action.clone()),
            None => Err(InferFailReason::Other(1)),
        }
    }

    fn prepare_var_from_return_overload_condition(
        &mut self,
        _cache: &mut LuaInferCache,
        _tree: &FlowTree,
        _root: &LuaChunk,
        _var_ref_id: &VarRefId,
        _discriminant_decl_id: LuaDeclId,
        _condition_position: u32,
        _antecedent_flow_id: FlowId,
        discriminant_type: &LuaType,
    ) -> Result<ConditionFlowAction, InferFailReason> {
        self.calls.push(format!("overload {:?}", discriminant_type));
        match &self.overload {
            Some(action) => Ok(action.clone()),
            None => Err(InferFailReason::Other(2)),
        }
    }

    fn resume_correlated_condition(
        &mut self,
        _cache: &mut LuaInferCache,
        _tree: &FlowTree,
        _root: &LuaChunk,
        _var_ref_id: &VarRefId,
        _flow_id: FlowId,
        pending: PendingCorrelatedCondition,
    ) -> Result<ConditionFlowAction, InferFailReason> {
        self.calls.push(format!("resume {}", pending.id));
        match &self.resumed {
            Some(action) => Ok(action.clone()),
            None => Err(InferFailReason::Other(4)),
        }
    }

    fn get_type_at_cast_flow(
        &mut self,
        _cache: &mut LuaInferCache,
        _tree: &FlowTree,
        _root: &LuaChunk,
        _var_ref_id: &VarRefId,
        _flow_id: FlowId,
        _tag_cast: &LuaDocTagCast,
    ) -> Result<ResultTypeOrContinue, InferFailReason> {
        self.note("cast_flow");
        match &self.cast {
            Some(typ) => Ok(ResultTypeOrContinue::Result(typ.clone())),
            None => Ok(ResultTypeOrContinue::Continue),
        }
    }

    fn member_key_from_index_key(
        &mut self,
        _cache: &mut LuaInferCache,
        _key: &LuaIndexKey,
    ) -> Result<LuaMemberKey, InferFailReason> {
        self.note("member_key");
        if self.unknown_key {
            return Ok(LuaMemberKey::ExprType(LuaType::Unknown));
        }
        match &self.index_key {
            Ok(key) => Ok(LuaMemberKey::Interned(*key)),
            Err(e) => Err(e.clone()),
        }
    }

    fn apply_type_op(&mut self, op: TypeOps, left: &LuaType, right: &LuaType) -> LuaType {
        self.calls.push(format!("{:?}", op));
        let left = members_of(left);
        let right = members_of(right);
        match op {
            TypeOps::Union => {
                let mut all = left;
                for typ in right {
                    if !all.contains(&typ) {
                        all.push(typ);
                    }
                }
                one_of(all)
            }
            TypeOps::Intersect => {
                one_of(left.into_iter().filter(|t| right.contains(t)).collect())
            }
            TypeOps::Remove => one_of(left.into_iter().filter(|t| !right.contains(t)).collect()),
        }
    }

    fn narrow_down_type(
        &mut self,
        _source: &LuaType,
        target: &LuaType,
        declared: Option<LuaType>,
    ) -> Option<LuaType> {
        self.note(if declared.is_some() { "narrow declared" } else { "narrow" });
        if self.narrow_fails {
            None
        } else {
            Some(target.clone())
        }
    }

    fn narrow_false_or_nil(&mut self, typ: &LuaType) -> LuaType {
        self.note("narrow_false");
        one_of(members_of(typ).into_iter().filter(is_falsy).collect())
    }

    fn remove_false_or_nil(&mut self, typ: &LuaType) -> LuaType {
        self.note("remove_false");
        one_of(members_of(typ).into_iter().filter(|t| !is_falsy(t)).collect())
    }

    fn narrow_eq_condition(
        &mut self,
        _typ: &LuaType,
        right_expr_type: &LuaType,
        _condition_flow: InferConditionFlow,
        _allow_literal_equivalence: bool,
    ) -> LuaType {
        self.note("narrow_eq");
        right_expr_type.clone()
    }

    fn apply_correlated_narrowing(
        &mut self,
        narrowing: CorrelatedConditionNarrowing,
        _typ: &LuaType,
    ) -> LuaType {
        LuaType::Other(narrowing.id as u32)
    }

    fn is_type_compatible(&mut self, source_type: &LuaType, expr_type: &LuaType) -> bool {
        self.note("compatible");
        !self.incompatible.iter().any(|(s, e)| s == source_type && e == expr_type)
    }

    fn find_members(&mut self, typ: &LuaType) -> Option<Vec<LuaMemberInfo>> {
        self.note("find_members");
        self.member_infos.iter().find(|(owner, _)| owner == typ).map(|(_, infos)| {
            infos
                .iter()
                .map(|(key, typ)| LuaMemberInfo {
                    key: LuaMemberKey::Interned(*key),
                    typ: typ.clone(),
                })
                .collect()
        })
    }

    fn type_from_vec(&mut self, types: Vec<LuaType>) -> LuaType {
        one_of(types)
    }

    fn is_always_falsy(&mut self, typ: &LuaType) -> bool {
        is_falsy(typ)
    }

    fn contain_tpl(&mut self, _typ: &LuaType) -> bool {
        self.generic
    }

    fn contain_multi_return(&mut self, typ: &LuaType) -> bool {
        self.multi.iter().any(|(t, _)| t == typ)
    }

    fn get_result_slot_type(&mut self, typ: &LuaType, idx: usize) -> Option<LuaType> {
        match self.multi.iter().find(|(t, _)| t == typ) {
            Some((_, slots)) => slots.get(idx).map(|t| t.clone()),
            None if idx == 0 => Some(typ.clone()),
            None => None,
        }
    }

    fn get_type_cache(&mut self, owner: LuaTypeOwner) -> Option<LuaTypeCache> {
        self.note("type_cache");
        self.held.iter().find(|(known, _, _)| *known == owner).map(|(_, doc, typ)| {
            if *doc {
                LuaTypeCache::DocType(typ.clone())
            } else {
                LuaTypeCache::InferType(typ.clone())
            }
        })
    }

    fn get_signature_cast(&mut self, _id: LuaSignatureId) -> Option<Arc<LuaSignatureCast>> {
        self.signature_cast.as_ref().map(|c| c.clone())
    }

    fn get_signature(&mut self, _id: LuaSignatureId) -> Option<Arc<LuaSignature>> {
        self.signature.as_ref().map(|s| s.clone())
    }

    fn get_syntax_tree(&mut self, _file_id: FileId) -> Option<Arc<LuaChunk>> {
        self.syntax_tree.as_ref().map(|t| t.clone())
    }

    fn get_var_reference_decl(&mut self, _file_id: FileId, _range: TextRange) -> Option<LuaDeclId> {
        self.note("reference_decl");
        self.reference_decl
    }

    fn get_decl(&mut self, decl_id: LuaDeclId) -> Option<LuaDecl> {
        self.decls.iter().find(|(known, _)| *known == decl_id).map(|(_, d)| *d)
    }

    fn find_local_decl(
        &mut self,
        _file_id: FileId,
        _name: &String,
        _position: u32,
    ) -> Option<LuaDecl> {
        self.local_decl
    }

    fn get_global_decl_ids(&mut self, _name: &String) -> Option<Vec<LuaDeclId>> {
        self.note("globals");
        self.global_decls.as_ref().map(|ids| ids.to_vec())
    }

    fn get_attribute_param(
        &mut self,
        decl_id: LuaDeclId,
        attribute: &str,
        param: &str,
    ) -> Option<LuaType> {
        if attribute == "lsp_optimization" && param == "code" && self.delayed.contains(&decl_id) {
            Some(LuaType::DocStringConst(Arc::new("delayed_definition".to_string())))
        } else {
            None
        }
    }

    fn get_local_reference_decl(
        &mut self,
        _file_id: FileId,
        _range: TextRange,
    ) -> Option<LuaDeclId> {
        self.local_reference
    }

    fn has_member(&mut self, member_id: LuaMemberId) -> bool {
        self.known_members.contains(&member_id)
    }

    fn is_meta_file(&mut self, _file_id: FileId) -> bool {
        self.meta
    }

    fn bind_index_type(&mut self, owner: LuaTypeOwner, type_cache: LuaTypeCache) {
        self.calls.push(format!("index {:?} {:?}", owner, type_cache.as_type()));
    }

    fn bind_type(&mut self, owner: LuaTypeOwner, type_cache: LuaTypeCache) {
        self.calls.push(format!("bind {:?} {:?}", owner, type_cache.as_type()));
    }

    fn add_unresolve(&mut self, unresolve: UnResolve, reason: InferFailReason) {
        let waits = match unresolve {
            UnResolve::Decl(d) => format!("decl {} {}", d.decl_id.position, d.ret_idx),
            UnResolve::Member(m) => format!(
                "member {} {} {} {}",
                m.member_id.id.range.start,
                m.expr.is_some(),
                m.prefix.is_some(),
                m.ret_idx
            ),
        };
        let why = match reason {
            InferFailReason::UnResolveExpr(e) => {
                format!("expr {}", syntax_id_of(&e.value).range.start)
            }
            InferFailReason::Other(n) => format!("other {}", n),
            _ => "something".to_string(),
        };
        self.calls.push(format!("wait {} for {}", waits, why));
    }

    fn set_member_owner(
        &mut self,
        owner: LuaMemberOwner,
        file_id: FileId,
        member_id: LuaMemberId,
    ) {
        let at = member_id.id.range.start;
        self.calls.push(format!("owner {:?} {} {}", owner, file_id.id, at));
    }

    fn add_member(&mut self, owner: LuaMemberOwner, member_id: LuaMemberId) {
        self.calls.push(format!("member {:?} {}", owner, member_id.id.range.start));
    }

    fn add_index_member(&mut self, owner: LuaMemberOwner, member: LuaMember) {
        self.calls.push(format!("field {:?} {:?} {:?}", owner, member.key, member.feature));
    }
}

fn new_cache() -> LuaInferCache {
    LuaInferCache::new(FILE, CacheOptions::default())
}

fn node(id: u32, kind: FlowNodeKind, antecedent: Option<FlowAntecedent>) -> FlowNode {
    FlowNode { id: FlowId(id), kind, antecedent }
}

fn after(id: u32) -> Option<FlowAntecedent> {
    Some(FlowAntecedent::Single(FlowId(id)))
}

fn after_all(ids: &[u32]) -> Option<FlowAntecedent> {
    Some(FlowAntecedent::Multiple(ids.iter().map(|id| FlowId(*id)).collect()))
}

fn tree_of(nodes: Vec<FlowNode>) -> FlowTree {
    FlowTree { nodes, decl_ref_exprs: vec![], multi_return_decls: vec![] }
}

fn empty_chunk() -> LuaChunk {
    LuaChunk {
        exprs: vec![],
        assign_stats: vec![],
        func_stats: vec![],
        tag_casts: vec![],
        op_types: vec![],
    }
}

fn type_at(
    db: &mut DbIndex<Script>,
    tree: &FlowTree,
    root: &LuaChunk,
    flow_id: u32,
) -> (InferResult, LuaInferCache) {
    let mut cache = new_cache();
    let res = get_type_at_flow(db, tree, &mut cache, root, &var(10), FlowId(flow_id));
    (res, cache)
}

fn assert_type(res: InferResult, typ: LuaType) {
    match res {
        Ok(found) => assert_eq!(found, typ),
        Err(e) => panic!("no type: {:?}", e),
    }
}

fn is_nothing(e: &InferFailReason) -> bool {
    matches!(e, InferFailReason::Nothing)
}

// The walk.

#[test]
fn start_has_the_declared_type() {
    let tree = tree_of(vec![
        node(0, FlowNodeKind::Start, None),
        node(1, FlowNodeKind::LoopLabel, after(0)),
        node(2, FlowNodeKind::Break, after(1)),
        node(3, FlowNodeKind::Return, after(2)),
        node(4, FlowNodeKind::ForIStat(sid(1)), after(3)),
        node(5, FlowNodeKind::Unreachable, None),
    ]);
    let mut db = DbIndex::new(Script::new());
    assert_type(type_at(&mut db, &tree, &empty_chunk(), 4).0, STRING);
    assert_type(type_at(&mut db, &tree, &empty_chunk(), 5).0, STRING);
}

#[test]
fn missing_node_and_missing_antecedent_fail() {
    let tree = tree_of(vec![
        node(0, FlowNodeKind::LoopLabel, None),
        node(1, FlowNodeKind::Break, after_all(&[0, 0])),
        node(2, FlowNodeKind::NamedLabel(1), None),
    ]);
    let mut db = DbIndex::new(Script::new());
    for flow_id in [0, 1, 2, 9] {
        let (res, _) = type_at(&mut db, &tree, &empty_chunk(), flow_id);
        assert!(is_nothing(&res.unwrap_err()));
    }
}

#[test]
fn answer_is_remembered_and_asked_for_once() {
    let tree = tree_of(vec![node(0, FlowNodeKind::Start, None)]);
    let mut db = DbIndex::new(Script::new());
    let mut cache = new_cache();
    let root = empty_chunk();
    for _ in 0..3 {
        let res = get_type_at_flow(&mut db, &tree, &mut cache, &root, &var(10), FlowId(0));
        assert_type(res, STRING);
    }
    assert_eq!(db.get_model().calls, vec!["var_type"]);
}

#[test]
fn answer_is_repeated_without_a_step() {
    let tree = tree_of(vec![node(0, FlowNodeKind::Start, None)]);
    let mut db = DbIndex::with_steps(Script::new(), 2);
    let mut cache = new_cache();
    let root = empty_chunk();
    for _ in 0..3 {
        let res = get_type_at_flow(&mut db, &tree, &mut cache, &root, &var(10), FlowId(0));
        assert_type(res, STRING);
    }
    let res = get_type_at_flow(&mut db, &tree, &mut cache, &root, &var(20), FlowId(0));
    assert!(matches!(res, Err(InferFailReason::LimitReached)));
}

#[test]
fn blank_model_leaves_what_the_tree_says() {
    let tree = tree_of(vec![
        node(0, FlowNodeKind::Start, None),
        node(1, FlowNodeKind::NamedLabel(1), after_all(&[])),
        node(2, FlowNodeKind::Return, after(1)),
    ]);
    let root = empty_chunk();
    let mut db = DbIndex::new(BlankModel::new());
    let mut cache = new_cache();
    let res = get_type_at_flow(&mut db, &tree, &mut cache, &root, &var(10), FlowId(0));
    assert!(is_nothing(&res.unwrap_err()));
    let res = get_type_at_flow(&mut db, &tree, &mut cache, &root, &var(10), FlowId(2));
    assert_type(res, LuaType::Never);
}

#[test]
fn failure_is_asked_for_again() {
    let tree = tree_of(vec![node(0, FlowNodeKind::Start, None)]);
    let mut script = Script::new();
    script.var_type = Err(InferFailReason::Other(8));
    let mut db = DbIndex::new(script);
    let mut cache = new_cache();
    let root = empty_chunk();
    for _ in 0..2 {
        let res = get_type_at_flow(&mut db, &tree, &mut cache, &root, &var(10), FlowId(0));
        assert!(matches!(res, Err(InferFailReason::Other(8))));
        assert!(cache.flow_node_cache[0].get((0, 0, 0, 0, 0, 0)).unwrap().on.is_none());
    }
    assert_eq!(db.get_model().calls, vec!["var_type", "var_type"]);
}

#[test]
fn cycle_is_a_recursive_inference() {
    let tree = tree_of(vec![
        node(0, FlowNodeKind::Start, None),
        node(1, FlowNodeKind::NamedLabel(1), after_all(&[0, 2])),
        node(2, FlowNodeKind::LoopLabel, after(1)),
    ]);
    let mut db = DbIndex::new(Script::new());
    let (res, cache) = type_at(&mut db, &tree, &empty_chunk(), 1);
    assert!(matches!(res, Err(InferFailReason::RecursiveInfer)));
    for flow_id in [1, 2] {
        assert!(cache.flow_node_cache[0].get((flow_id, 0, 0, 0, 0, 0)).unwrap().on.is_none());
    }
}

#[test]
fn step_allowance_ends_a_walk() {
    let tree = tree_of(vec![node(0, FlowNodeKind::LoopLabel, after(0))]);
    let mut db = DbIndex::with_steps(Script::new(), 50);
    let (res, _) = type_at(&mut db, &tree, &empty_chunk(), 0);
    assert!(matches!(res, Err(InferFailReason::LimitReached)));
}

#[test]
fn more_steps_make_no_difference_where_some_are_left() {
    let tree = tree_of(vec![
        node(0, FlowNodeKind::Start, None),
        node(1, FlowNodeKind::LoopLabel, after(0)),
        node(2, FlowNodeKind::NamedLabel(1), after_all(&[0, 1])),
        node(3, FlowNodeKind::Return, after(2)),
    ]);
    let run = |steps: u64| {
        let mut db = DbIndex::with_steps(Script::new(), steps);
        let (res, _) = type_at(&mut db, &tree, &empty_chunk(), 3);
        (res, db.get_model().calls.clone())
    };
    let (all, all_calls) = run(u64::MAX);
    assert_type(all, STRING);
    for steps in [9, 10, 100] {
        let (res, calls) = run(steps);
        assert_type(res, STRING);
        assert_eq!(calls, all_calls);
    }
    assert!(matches!(run(3).0, Err(InferFailReason::LimitReached)));
}

#[test]
fn declaration_position_ends_the_walk_or_is_passed() {
    let tree = tree_of(vec![
        node(0, FlowNodeKind::DeclPosition(10), None),
        node(1, FlowNodeKind::DeclPosition(11), after(0)),
    ]);
    let mut db = DbIndex::new(Script::new());
    assert_type(type_at(&mut db, &tree, &empty_chunk(), 1).0, STRING);
}

#[test]
fn initial_value_stands_in_for_a_declared_type() {
    let tree = tree_of(vec![node(0, FlowNodeKind::DeclPosition(10), None)]);
    let mut root = empty_chunk();
    root.exprs.push((sid(40), literal(40)));
    let mut script = Script::new();
    script.var_type = Err(InferFailReason::Other(8));
    script.expr_types.push((sid(40), Ok(NUMBER)));
    script.decls.push((
        decl(10),
        LuaDecl { is_local: true, is_implicit_self: false, value_syntax_id: Some(sid(40)) },
    ));
    let mut db = DbIndex::new(script);
    assert_type(type_at(&mut db, &tree, &root, 0).0, NUMBER);

    let mut script = Script::new();
    script.var_type = Err(InferFailReason::Other(8));
    script.decls.push((
        decl(10),
        LuaDecl { is_local: true, is_implicit_self: false, value_syntax_id: None },
    ));
    let mut db = DbIndex::new(script);
    let (res, _) = type_at(&mut db, &tree, &root, 0);
    assert!(matches!(res, Err(InferFailReason::Other(8))));
}

#[test]
fn initializer_of_an_unknown_declaration_fails() {
    let mut db = DbIndex::new(Script::new());
    let mut cache = new_cache();
    let root = empty_chunk();
    let res = try_infer_decl_initializer_type(&mut db, &mut cache, &root, &var(10));
    assert!(is_nothing(&res.unwrap_err()));
    let path = VarRefId::Path { root: None, position: 3, path: 4 };
    let res = try_infer_decl_initializer_type(&mut db, &mut cache, &root, &path);
    assert!(matches!(res, Ok(None)));
}

#[test]
fn branches_are_united_from_the_last_to_the_first() {
    let mut root = empty_chunk();
    root.assign_stats.push((
        sid(50),
        Arc::new(LuaAssignStat {
            vars: vec![LuaVarExpr::NameExpr(name_node(50, "x"))],
            exprs: vec![literal(51)],
        }),
    ));
    let tree = tree_of(vec![
        node(0, FlowNodeKind::Start, None),
        node(1, FlowNodeKind::Assignment(sid(50)), after(0)),
        node(2, FlowNodeKind::BranchLabel, after_all(&[0, 1])),
    ]);
    let mut script = Script::new();
    script.var_refs.push((sid(50), var(10)));
    script.expr_types.push((sid(51), Ok(NUMBER)));
    let mut db = DbIndex::new(script);
    // The inputs of a label come out last first, and are then looked at last first.
    assert_type(type_at(&mut db, &tree, &root, 2).0, union(vec![STRING, NUMBER]));
}

#[test]
fn label_that_nothing_leads_to_is_never() {
    let tree = tree_of(vec![node(0, FlowNodeKind::NamedLabel(1), after_all(&[]))]);
    let mut db = DbIndex::new(Script::new());
    assert_type(type_at(&mut db, &tree, &empty_chunk(), 0).0, LuaType::Never);
}

#[test]
fn nested_labels_are_flattened_and_remembered() {
    let tree = tree_of(vec![
        node(0, FlowNodeKind::Start, None),
        node(1, FlowNodeKind::Start, None),
        node(2, FlowNodeKind::BranchLabel, after_all(&[0, 1, 4])),
        node(3, FlowNodeKind::BranchLabel, after_all(&[2, 1])),
        node(4, FlowNodeKind::BranchLabel, after_all(&[2])),
    ]);
    let mut cache = new_cache();
    let ids = get_branch_label_flow_ids(&tree, &mut cache, &tree.nodes[3]).unwrap();
    assert_eq!(*ids, vec![FlowId(1), FlowId(1), FlowId(0)]);
    assert_eq!(cache.flow_branch_inputs_cache.len(), 4);
    let again = get_branch_label_flow_ids(&tree, &mut cache, &tree.nodes[3]).unwrap();
    assert_eq!(*again, *ids);
    // What is known about a label is used for the labels behind it.
    let behind = node(9, FlowNodeKind::BranchLabel, after_all(&[3, 0]));
    let ids = get_branch_label_flow_ids(&tree, &mut cache, &behind).unwrap();
    assert_eq!(*ids, vec![FlowId(0), FlowId(1), FlowId(1), FlowId(0)]);
}

#[test]
fn inputs_are_the_same_whatever_labels_are_known() {
    let tree = tree_of(vec![
        node(0, FlowNodeKind::Start, None),
        node(1, FlowNodeKind::Start, None),
        node(2, FlowNodeKind::BranchLabel, after_all(&[0, 3])),
        node(3, FlowNodeKind::BranchLabel, after_all(&[2, 1, 4])),
        node(4, FlowNodeKind::BranchLabel, after_all(&[3])),
        node(5, FlowNodeKind::BranchLabel, after_all(&[4])),
    ]);
    for known in [vec![], vec![2], vec![3], vec![4], vec![2, 3, 4], vec![4, 3, 2]] {
        let mut cache = new_cache();
        for label in known {
            get_branch_label_flow_ids(&tree, &mut cache, &tree.nodes[label]).unwrap();
        }
        for label in 2..6 {
            let ids = get_branch_label_flow_ids(&tree, &mut cache, &tree.nodes[label]).unwrap();
            assert!(ids.contains(&FlowId(0)) && ids.contains(&FlowId(1)));
            assert!(ids.iter().all(|id| id.0 < 2));
        }
    }
}

#[test]
fn label_with_a_dangling_antecedent_fails() {
    let tree = tree_of(vec![node(0, FlowNodeKind::BranchLabel, after_all(&[5]))]);
    let mut cache = new_cache();
    let res = get_branch_label_flow_ids(&tree, &mut cache, &tree.nodes[0]);
    assert!(is_nothing(&res.unwrap_err()));
}

fn condition_tree(root: &mut LuaChunk, condition: LuaExpr) -> FlowTree {
    root.exprs.push((sid(60), condition));
    tree_of(vec![
        node(0, FlowNodeKind::Start, None),
        node(1, FlowNodeKind::TrueCondition(sid(60)), after(0)),
        node(2, FlowNodeKind::FalseCondition(sid(60)), after(0)),
    ])
}

fn optional_string() -> Script {
    let mut script = Script::new();
    script.var_type = Ok(union(vec![LuaType::Nil, STRING]));
    script.var_refs.push((sid(60), var(10)));
    script
}

#[test]
fn condition_on_the_variable_narrows_by_truth() {
    let mut root = empty_chunk();
    let tree = condition_tree(&mut root, name(60, "x"));
    let mut db = DbIndex::new(optional_string());
    assert_type(type_at(&mut db, &tree, &root, 1).0, STRING);
    assert_type(type_at(&mut db, &tree, &root, 2).0, LuaType::Nil);
}

#[test]
fn negation_flips_and_parentheses_do_nothing() {
    let mut root = empty_chunk();
    let tree = condition_tree(&mut root, not(paren(name(60, "x"))));
    let mut db = DbIndex::new(optional_string());
    assert_type(type_at(&mut db, &tree, &root, 1).0, LuaType::Nil);
    assert_type(type_at(&mut db, &tree, &root, 2).0, STRING);

    let mut root = empty_chunk();
    let tree = condition_tree(&mut root, not(not(name(60, "x"))));
    let mut db = DbIndex::new(optional_string());
    assert_type(type_at(&mut db, &tree, &root, 1).0, STRING);
}

#[test]
fn condition_on_something_else_is_passed() {
    let mut root = empty_chunk();
    let tree = condition_tree(&mut root, name(61, "y"));
    let mut script = optional_string();
    script.var_refs.push((sid(61), var(99)));
    let mut db = DbIndex::new(script);
    assert_type(type_at(&mut db, &tree, &root, 1).0, union(vec![LuaType::Nil, STRING]));
}

#[test]
fn condition_that_cannot_be_found_fails() {
    let mut root = empty_chunk();
    let mut tree = condition_tree(&mut root, name(60, "x"));
    tree.nodes[1].kind = FlowNodeKind::TrueCondition(sid(777));
    let mut db = DbIndex::new(optional_string());
    let (res, _) = type_at(&mut db, &tree, &root, 1);
    assert!(is_nothing(&res.unwrap_err()));
}

#[test]
fn name_stands_for_the_expression_it_is_bound_to() {
    let mut root = empty_chunk();
    let mut tree = condition_tree(&mut root, name(61, "ok"));
    root.exprs.push((sid(62), not(name(60, "x"))));
    tree.decl_ref_exprs.push((decl(20), sid(62)));
    let mut script = optional_string();
    script.var_refs.push((sid(61), var(20)));
    script.reference_decl = Some(decl(20));
    let mut db = DbIndex::new(script);
    assert_type(type_at(&mut db, &tree, &root, 1).0, LuaType::Nil);
    assert_type(type_at(&mut db, &tree, &root, 2).0, STRING);
}

#[test]
fn name_bound_to_itself_uses_up_the_steps() {
    let mut root = empty_chunk();
    let mut tree = condition_tree(&mut root, name(61, "ok"));
    tree.decl_ref_exprs.push((decl(20), sid(60)));
    let mut script = optional_string();
    script.var_refs.push((sid(61), var(20)));
    script.reference_decl = Some(decl(20));
    let mut db = DbIndex::with_steps(script, 100);
    let (res, _) = type_at(&mut db, &tree, &root, 1);
    assert!(matches!(res, Err(InferFailReason::LimitReached)));
}

fn values_of_one_call() -> (LuaChunk, FlowTree, Script) {
    let mut root = empty_chunk();
    let mut tree = condition_tree(&mut root, name(61, "ok"));
    tree.multi_return_decls = vec![decl(10), decl(20)];
    let mut script = optional_string();
    script.var_refs.push((sid(61), var(20)));
    script.reference_decl = Some(decl(20));
    (root, tree, script)
}

#[test]
fn question_about_another_variable_is_answered_by_a_walk() {
    let (root, tree, mut script) = values_of_one_call();
    script.overload = Some(ConditionFlowAction::Result(NUMBER));
    let mut db = DbIndex::new(script);
    let (res, cache) = type_at(&mut db, &tree, &root, 1);
    assert_type(res, NUMBER);
    assert_eq!(cache.next_flow_cache_var_ref_id, 2);
    assert!(db.get_model().calls.contains(&format!("overload {:?}", STRING)));
    let (_, tree, mut script) = values_of_one_call();
    script.overload = Some(ConditionFlowAction::Result(NUMBER));
    let mut db = DbIndex::new(script);
    assert_type(type_at(&mut db, &tree, &root, 2).0, NUMBER);
    assert!(db.get_model().calls.contains(&format!("overload {:?}", LuaType::Nil)));
}

#[test]
fn correlated_condition_is_gone_on_with() {
    let pending = || ConditionFlowAction::NeedCorrelated(PendingCorrelatedCondition { id: 77 });
    let (root, tree, mut script) = values_of_one_call();
    script.overload = Some(pending());
    script.resumed = Some(ConditionFlowAction::Result(TABLE));
    let mut db = DbIndex::new(script);
    assert_type(type_at(&mut db, &tree, &root, 1).0, TABLE);
    assert!(db.get_model().calls.contains(&"resume 77".to_string()));

    let (_, _, mut script) = values_of_one_call();
    script.overload = Some(pending());
    let mut db = DbIndex::new(script);
    let (res, _) = type_at(&mut db, &tree, &root, 1);
    assert!(matches!(res, Err(InferFailReason::Other(4))));

    let (_, _, mut script) = values_of_one_call();
    script.overload = Some(pending());
    script.resumed = Some(pending());
    let mut db = DbIndex::with_steps(script, 200);
    let (res, _) = type_at(&mut db, &tree, &root, 1);
    assert!(matches!(res, Err(InferFailReason::LimitReached)));
}

#[test]
fn reference_numbers_can_run_out() {
    let (root, tree, mut script) = values_of_one_call();
    script.overload = Some(ConditionFlowAction::Result(NUMBER));
    let mut db = DbIndex::new(script);
    let mut cache = new_cache();
    cache.next_flow_cache_var_ref_id = u32::MAX;
    cache.flow_cache_var_ref_ids.insert(lua_flow::cache::get_var_ref_key(&var(10)), 0);
    let res = get_type_at_flow(&mut db, &tree, &mut cache, &root, &var(10), FlowId(1));
    assert!(matches!(res, Err(InferFailReason::LimitReached)));
}

#[test]
fn array_length_that_does_not_fit_says_nothing() {
    let array = LuaType::Array(Arc::new(LuaArrayType {
        base: STRING,
        len: LuaArrayLen::Unbounded,
    }));
    let question = |max_adjustment| ConditionSubquery::ArrayLen {
        var_ref_id: var(20),
        antecedent_flow_id: FlowId(0),
        subquery_condition_flow: InferConditionFlow::TrueCondition,
        right_expr_type: LuaType::IntegerConst(i64::MAX),
        max_adjustment,
    };
    let run = |max_adjustment| {
        let mut root = empty_chunk();
        let comparison = LuaExpr::BinaryExpr(Arc::new(LuaBinaryExpr {
            syntax_id: sid(60),
            op: Some(BinaryOperator::OpEq),
            exprs: None,
        }));
        let tree = condition_tree(&mut root, comparison);
        let mut script = Script::new();
        script.var_type = Ok(array.clone());
        script.binary = Some(ConditionFlowAction::NeedSubquery(question(max_adjustment)));
        let mut db = DbIndex::new(script);
        type_at(&mut db, &tree, &root, 1).0
    };
    assert_type(run(1), array.clone());
    let exact = LuaArrayType { base: STRING, len: LuaArrayLen::Max(i64::MAX) };
    assert_type(run(0), LuaType::Array(Arc::new(exact)));
}

#[test]
fn values_of_one_call_ask_about_each_other() {
    let (root, tree, _) = values_of_one_call();
    let mut db = DbIndex::new({
        let mut script = optional_string();
        script.var_refs.push((sid(61), var(20)));
        script.reference_decl = Some(decl(20));
        script
    });
    let mut cache = new_cache();
    let action = get_type_at_condition_flow(
        &mut db,
        &tree,
        &mut cache,
        &root,
        &var(10),
        &tree.nodes[1],
        name(61, "ok"),
        InferConditionFlow::TrueCondition,
    );
    match action.unwrap() {
        ConditionFlowAction::NeedSubquery(ConditionSubquery::Correlated {
            var_ref_id,
            antecedent_flow_id,
            condition_position,
            narrow,
            fallback_expr,
            ..
        }) => {
            assert_eq!(var_ref_id, var(20));
            assert_eq!(antecedent_flow_id, FlowId(0));
            assert_eq!(condition_position, 61);
            assert!(matches!(narrow, CorrelatedDiscriminantNarrow::Truthiness));
            assert!(fallback_expr.is_none());
        }
        other => panic!("unexpected: {:?}", other),
    }
}

#[test]
fn narrowings_are_applied_last_first() {
    let mut db = DbIndex::new(Script::new());
    let mut cache = new_cache();
    let narrows = vec![
        PendingConditionNarrow::Correlated(CorrelatedConditionNarrowing { id: 41 }),
        PendingConditionNarrow::Correlated(CorrelatedConditionNarrowing { id: 42 }),
    ];
    let typ = apply_pending_condition_narrows(&mut db, &mut cache, STRING, &narrows);
    assert_eq!(typ, LuaType::Other(41));
}

fn binary(start: u32) -> LuaExpr {
    LuaExpr::BinaryExpr(Arc::new(LuaBinaryExpr {
        syntax_id: sid(start),
        op: Some(BinaryOperator::OpAnd),
        exprs: None,
    }))
}

fn correlated_narrowing(id: u64) -> ConditionFlowAction {
    let narrowing = CorrelatedConditionNarrowing { id };
    ConditionFlowAction::Pending(PendingConditionNarrow::Correlated(narrowing))
}

#[test]
fn narrowing_of_a_node_is_applied_after_those_before_it() {
    let mut root = empty_chunk();
    root.exprs.push((sid(60), name(60, "x")));
    root.exprs.push((sid(62), binary(62)));
    let tree = tree_of(vec![
        node(0, FlowNodeKind::Start, None),
        node(1, FlowNodeKind::FalseCondition(sid(60)), after(0)),
        node(2, FlowNodeKind::TrueCondition(sid(62)), after(1)),
        node(3, FlowNodeKind::NamedLabel(1), after_all(&[0, 1])),
        node(4, FlowNodeKind::TrueCondition(sid(62)), after(3)),
        node(5, FlowNodeKind::FalseCondition(sid(60)), after(4)),
        node(6, FlowNodeKind::FalseCondition(sid(60)), after(3)),
    ]);
    let find = |flow_id: u32| {
        let mut script = optional_string();
        script.binary = Some(correlated_narrowing(41));
        let mut db = DbIndex::new(script);
        type_at(&mut db, &tree, &root, flow_id).0
    };
    assert_type(find(1), LuaType::Nil);
    assert_type(find(2), LuaType::Other(41));
    assert_type(find(4), LuaType::Other(41));
    assert_type(find(5), LuaType::Never);
    assert_type(find(6), LuaType::Nil);
}

#[test]
fn step_keeps_narrowings_for_a_union_unless_conditions_do_not_count() {
    let mut root = empty_chunk();
    root.exprs.push((sid(60), name(60, "x")));
    root.exprs.push((sid(62), binary(62)));
    let tree = tree_of(vec![
        node(0, FlowNodeKind::Start, None),
        node(1, FlowNodeKind::NamedLabel(1), after_all(&[0, 0])),
        node(2, FlowNodeKind::FalseCondition(sid(60)), after(1)),
        node(3, FlowNodeKind::LoopLabel, after(2)),
        node(4, FlowNodeKind::TrueCondition(sid(62)), after(3)),
    ]);
    let step = |flow_id: u32, use_condition_narrowing: bool| {
        let mut script = optional_string();
        script.binary = Some(correlated_narrowing(41));
        let mut db = DbIndex::new(script);
        let mut cache = new_cache();
        let step = evaluate_flow_step(
            &mut db,
            &tree,
            &mut cache,
            &root,
            &var(10),
            0,
            FlowId(flow_id),
            use_condition_narrowing,
        );
        (step, db.get_model().calls.clone())
    };
    match step(4, true).0 {
        Ok(FlowEvalStep::Union { branch_flow_ids, pending_condition_narrows }) => {
            assert_eq!(*branch_flow_ids, vec![FlowId(0), FlowId(0)]);
            assert!(matches!(
                pending_condition_narrows.as_slice(),
                [
                    PendingConditionNarrow::Correlated(CorrelatedConditionNarrowing { id: 41 }),
                    PendingConditionNarrow::Truthiness(InferConditionFlow::FalseCondition),
                ]
            ));
        }
        _ => panic!("no union"),
    }
    let (without, calls) = step(4, false);
    match without {
        Ok(FlowEvalStep::Union { branch_flow_ids, pending_condition_narrows }) => {
            assert_eq!(*branch_flow_ids, vec![FlowId(0), FlowId(0)]);
            assert!(pending_condition_narrows.is_empty());
        }
        _ => panic!("no union"),
    }
    assert!(calls.is_empty());
    assert!(matches!(step(0, true).0, Ok(FlowEvalStep::Result(LuaType::Union(_)))));
    assert!(matches!(step(9, true).0, Err(InferFailReason::Nothing)));
}

#[test]
fn types_with_and_without_conditions_are_remembered_apart() {
    let mut root = empty_chunk();
    let tree = condition_tree(&mut root, name(60, "x"));
    let mut db = DbIndex::new(optional_string());
    let mut cache = new_cache();
    let both = union(vec![LuaType::Nil, STRING]);
    for _ in 0..2 {
        for (on, typ) in [(true, STRING), (false, both.clone())] {
            let res = get_type_at_flow_internal(
                &mut db,
                &tree,
                &mut cache,
                &root,
                &var(10),
                0,
                FlowId(1),
                on,
            );
            assert_type(res, typ);
            assert!(matches!(
                get_flow_node_cache_entry(&cache, 0, FlowId(1), on),
                Some(CacheEntry::Cache(_))
            ));
        }
    }
    assert_eq!(db.get_model().calls.iter().filter(|call| *call == "var_type").count(), 2);
    let mut script = Script::new();
    script.var_type = Err(InferFailReason::Other(8));
    let mut db = DbIndex::new(script);
    let mut cache = new_cache();
    let res = get_type_at_flow_internal(
        &mut db,
        &tree,
        &mut cache,
        &root,
        &var(10),
        0,
        FlowId(1),
        false,
    );
    assert!(matches!(res, Err(InferFailReason::Other(8))));
    assert!(get_flow_node_cache_entry(&cache, 0, FlowId(1), false).is_none());
}

#[test]
fn node_that_says_nothing_takes_one_step() {
    let tree = tree_of(vec![
        node(0, FlowNodeKind::Start, None),
        node(1, FlowNodeKind::LoopLabel, after(0)),
        node(2, FlowNodeKind::Break, after(1)),
        node(3, FlowNodeKind::Return, after(2)),
        node(4, FlowNodeKind::ForIStat(sid(1)), after(3)),
        node(5, FlowNodeKind::DeclPosition(11), after(4)),
    ]);
    for flow_id in 0..6 {
        let steps = 2 + flow_id as u64;
        let mut db = DbIndex::with_steps(Script::new(), steps);
        assert_type(type_at(&mut db, &tree, &empty_chunk(), flow_id).0, STRING);
        assert_eq!(db.get_model().calls, vec!["var_type"]);
        let mut db = DbIndex::with_steps(Script::new(), steps - 1);
        let (res, _) = type_at(&mut db, &tree, &empty_chunk(), flow_id);
        assert!(matches!(res, Err(InferFailReason::LimitReached)));
    }
}

#[test]
fn failed_walk_leaves_no_marker() {
    let (root, tree, mut script) = values_of_one_call();
    script.overload = Some(ConditionFlowAction::NeedCorrelated(PendingCorrelatedCondition {
        id: 77,
    }));
    let mut db = DbIndex::new(script);
    let (res, cache) = type_at(&mut db, &tree, &root, 1);
    assert!(res.is_err());
    assert_eq!(cache.next_flow_cache_var_ref_id, 2);
    for id in 0..2 {
        for flow_id in 0..3 {
            for flag in [false, true] {
                let at = FlowId(flow_id);
                assert!(!matches!(
                    get_flow_node_cache_entry(&cache, id, at, flag),
                    Some(CacheEntry::Ready)
                ));
                assert!(!matches!(
                    get_condition_flow_cache_entry(&cache, id, at, flag),
                    Some(CacheEntry::Ready)
                ));
            }
        }
    }
}

#[test]
fn condition_answer_is_remembered() {
    let mut root = empty_chunk();
    let tree = condition_tree(&mut root, name(60, "x"));
    let mut db = DbIndex::new(optional_string());
    let mut cache = new_cache();
    let info = get_flow_condition_info(&mut db, &mut cache, &root, FlowId(1), sid(60)).unwrap();
    assert!(info.index_var_ref_id.is_none());
    let flow = InferConditionFlow::TrueCondition;
    for _ in 0..2 {
        let action = get_condition_flow_action(
            &mut db,
            &tree,
            &mut cache,
            &root,
            &var(10),
            0,
            &tree.nodes[1],
            &info,
            flow,
        );
        assert!(matches!(
            action,
            Ok(ConditionFlowAction::Pending(PendingConditionNarrow::Truthiness(
                InferConditionFlow::TrueCondition
            )))
        ));
    }
    assert_eq!(db.get_model().calls, vec!["var_ref"]);
}

#[test]
fn condition_on_a_field_of_something_else_says_nothing() {
    let mut root = empty_chunk();
    let field = LuaExpr::IndexExpr(index_node(60, name(61, "y"), "y.f"));
    let tree = condition_tree(&mut root, field);
    let mut script = Script::new();
    script.var_refs.push((sid(60), var(70)));
    script.var_refs.push((sid(61), var(71)));
    let mut db = DbIndex::new(script);
    let mut cache = new_cache();
    let info = get_flow_condition_info(&mut db, &mut cache, &root, FlowId(1), sid(60)).unwrap();
    assert_eq!(info.index_var_ref_id, Some(var(70)));
    assert_eq!(info.index_prefix_var_ref_id, Some(var(71)));
    let asked = db.get_model().calls.len();
    let action = get_condition_flow_action(
        &mut db,
        &tree,
        &mut cache,
        &root,
        &var(10),
        0,
        &tree.nodes[1],
        &info,
        InferConditionFlow::TrueCondition,
    );
    assert!(matches!(action, Ok(ConditionFlowAction::Continue)));
    assert_eq!(db.get_model().calls.len(), asked);
}

#[test]
fn condition_needed_for_itself_is_recursive() {
    let mut root = empty_chunk();
    let tree = condition_tree(&mut root, name(60, "x"));
    let mut db = DbIndex::new(optional_string());
    let mut cache = new_cache();
    let info = get_flow_condition_info(&mut db, &mut cache, &root, FlowId(1), sid(60)).unwrap();
    *lua_flow::cache::get_condition_flow_cache_slot(&mut cache, 0, FlowId(1), true) =
        Some(CacheEntry::Ready);
    let action = get_condition_flow_action(
        &mut db,
        &tree,
        &mut cache,
        &root,
        &var(10),
        0,
        &tree.nodes[1],
        &info,
        InferConditionFlow::TrueCondition,
    );
    assert!(matches!(action, Err(InferFailReason::RecursiveInfer)));
}

// Assignments.

fn assignment(exprs: Vec<LuaExpr>) -> (LuaChunk, FlowTree) {
    let mut root = empty_chunk();
    root.assign_stats.push((
        sid(50),
        Arc::new(LuaAssignStat {
            vars: vec![
                LuaVarExpr::NameExpr(name_node(49, "y")),
                LuaVarExpr::NameExpr(name_node(50, "x")),
            ],
            exprs,
        }),
    ));
    root.exprs.push((sid(60), name(60, "x")));
    let tree = tree_of(vec![
        node(0, FlowNodeKind::Start, None),
        node(1, FlowNodeKind::TrueCondition(sid(60)), after(0)),
        node(2, FlowNodeKind::Assignment(sid(50)), after(1)),
    ]);
    (root, tree)
}

fn assigning(expr_type: LuaType) -> Script {
    let mut script = optional_string();
    script.var_refs.push((sid(49), var(99)));
    script.var_refs.push((sid(50), var(10)));
    script.expr_types.push((sid(52), Ok(expr_type)));
    script
}

#[test]
fn assignment_of_a_plain_value_has_its_type() {
    let (root, tree) = assignment(vec![literal(51), literal(52)]);
    let mut db = DbIndex::new(assigning(NUMBER));
    assert_type(type_at(&mut db, &tree, &root, 2).0, NUMBER);
    // The type before was looked up without the condition on the way.
    assert!(!db.get_model().calls.contains(&"remove_false".to_string()));
}

#[test]
fn assignment_of_a_literal_narrows() {
    let (root, tree) = assignment(vec![literal(51), literal(52)]);
    let mut db = DbIndex::new(assigning(LuaType::IntegerConst(3)));
    assert_type(type_at(&mut db, &tree, &root, 2).0, LuaType::IntegerConst(3));
    assert!(db.get_model().calls.contains(&"remove_false".to_string()));
}

#[test]
fn assignment_to_nil_has_the_type_of_the_expression() {
    let (root, tree) = assignment(vec![literal(51), literal(52)]);
    let mut script = assigning(NUMBER);
    script.var_type = Ok(LuaType::Nil);
    let mut db = DbIndex::new(script);
    assert_type(type_at(&mut db, &tree, &root, 2).0, NUMBER);
    assert!(!db.get_model().calls.iter().any(|call| call.starts_with("narrow")));
}

#[test]
fn assignment_to_an_annotated_variable_falls_back_to_the_annotation() {
    let (root, tree) = assignment(vec![literal(51), literal(52)]);
    let mut script = assigning(NUMBER);
    script.held.push((LuaTypeOwner::Decl(decl(50)), true, TABLE));
    script.narrow_fails = true;
    script.var_type = Ok(LuaType::Ref(LuaTypeDeclId { name: 1 }));
    let mut db = DbIndex::new(script);
    assert_type(type_at(&mut db, &tree, &root, 2).0, TABLE);
    assert!(db.get_model().calls.contains(&"narrow declared".to_string()));
}

#[test]
fn inferred_type_of_a_variable_is_no_annotation() {
    let (root, tree) = assignment(vec![literal(51), literal(52)]);
    let mut script = assigning(NUMBER);
    script.held.push((LuaTypeOwner::Decl(decl(50)), false, TABLE));
    script.narrow_fails = true;
    let mut db = DbIndex::new(script);
    assert_type(type_at(&mut db, &tree, &root, 2).0, NUMBER);
}

#[test]
fn assignment_without_a_value_is_passed() {
    let (root, tree) = assignment(vec![literal(51)]);
    let mut db = DbIndex::new(assigning(NUMBER));
    assert_type(type_at(&mut db, &tree, &root, 2).0, STRING);
}

#[test]
fn assignment_to_others_is_passed() {
    let (root, tree) = assignment(vec![literal(51), literal(52)]);
    let mut script = optional_string();
    script.var_refs.push((sid(49), var(99)));
    let mut db = DbIndex::new(script);
    let mut cache = new_cache();
    let info = get_flow_assignment_info(&mut db, &mut cache, &root, FlowId(2), sid(50)).unwrap();
    assert_eq!(info.var_ref_ids, vec![Some(var(99)), None]);
    assert_type(type_at(&mut db, &tree, &root, 2).0, STRING);
}

#[test]
fn assigned_expression_that_fails_fails_the_walk() {
    let (root, tree) = assignment(vec![literal(51), literal(53)]);
    let mut db = DbIndex::new(assigning(NUMBER));
    let (res, _) = type_at(&mut db, &tree, &root, 2);
    assert!(is_nothing(&res.unwrap_err()));
}

#[test]
fn function_statement_has_its_signature() {
    let mut root = empty_chunk();
    root.func_stats.push((
        sid(80),
        Arc::new(LuaFuncStat {
            func_name: Some(LuaVarExpr::NameExpr(name_node(81, "x"))),
            closure: Some(LuaClosureExpr { syntax_id: sid(85) }),
        }),
    ));
    let tree = tree_of(vec![
        node(0, FlowNodeKind::Start, None),
        node(1, FlowNodeKind::ImplFunc(sid(80)), after(0)),
    ]);
    let mut script = Script::new();
    script.var_refs.push((sid(81), var(10)));
    let mut db = DbIndex::new(script);
    let signature = LuaType::Signature(LuaSignatureId { file_id: FILE, position: 85 });
    assert_type(type_at(&mut db, &tree, &root, 1).0, signature);
    let mut db = DbIndex::new(Script::new());
    assert_type(type_at(&mut db, &tree, &root, 1).0, STRING);
}

#[test]
fn cast_tag_ends_the_walk_or_is_passed() {
    let mut root = empty_chunk();
    root.tag_casts.push((
        sid(90),
        Arc::new(LuaDocTagCast { syntax_id: sid(90), key_expr: None, op_types: vec![] }),
    ));
    let tree = tree_of(vec![
        node(0, FlowNodeKind::Start, None),
        node(1, FlowNodeKind::TagCast(sid(90)), after(0)),
        node(2, FlowNodeKind::TagCast(sid(91)), after(0)),
    ]);
    let mut script = Script::new();
    script.cast = Some(TABLE);
    let mut db = DbIndex::new(script);
    assert_type(type_at(&mut db, &tree, &root, 1).0, TABLE);
    let mut db = DbIndex::new(Script::new());
    assert_type(type_at(&mut db, &tree, &root, 1).0, STRING);
    assert!(is_nothing(&type_at(&mut db, &tree, &root, 2).0.unwrap_err()));
}

// What assigned expressions keep.

#[test]
fn table_literal_fits_as_far_as_its_members_do() {
    let table = LuaType::TableConst(InFiled::new(FILE, TextRange { start: 1, end: 2 }));
    let mut script = Script::new();
    script.incompatible.push((TABLE, table.clone()));
    script.member_infos.push((table.clone(), vec![(1, NUMBER), (2, NUMBER)]));
    script.member_infos.push((TABLE, vec![(1, NUMBER)]));
    let mut db = DbIndex::new(script);
    assert!(is_partial_assignment_expr_compatible(&mut db, &TABLE, &table));
    assert!(can_reuse_narrowed_assignment_source(&mut db, &TABLE, &table));

    let mut script = Script::new();
    script.incompatible.push((TABLE, table.clone()));
    script.incompatible.push((STRING, NUMBER));
    script.member_infos.push((table.clone(), vec![(1, NUMBER)]));
    script.member_infos.push((TABLE, vec![(1, STRING)]));
    let mut db = DbIndex::new(script);
    assert!(!is_partial_assignment_expr_compatible(&mut db, &TABLE, &table));
    assert!(!is_partial_assignment_expr_compatible(&mut db, &STRING, &NUMBER));
}

#[test]
fn empty_table_literal_fits_everywhere_and_unknown_sources_take_none() {
    let table = LuaType::TableConst(InFiled::new(FILE, TextRange { start: 1, end: 2 }));
    let mut script = Script::new();
    script.incompatible.push((TABLE, table.clone()));
    let mut db = DbIndex::new(script);
    assert!(is_partial_assignment_expr_compatible(&mut db, &TABLE, &table));

    let mut script = Script::new();
    script.incompatible.push((TABLE, table.clone()));
    script.member_infos.push((table.clone(), vec![(1, NUMBER)]));
    let mut db = DbIndex::new(script);
    assert!(!is_partial_assignment_expr_compatible(&mut db, &TABLE, &table));
}

#[test]
fn exact_expression_reuses_what_it_narrows_to() {
    let mut db = DbIndex::new(Script::new());
    assert!(can_reuse_narrowed_assignment_source(&mut db, &TABLE, &text("a")));
    assert!(!can_reuse_narrowed_assignment_source(&mut db, &TABLE, &NUMBER));
    let mut script = Script::new();
    script.narrow_fails = true;
    let mut db = DbIndex::new(script);
    assert!(can_reuse_narrowed_assignment_source(&mut db, &TABLE, &text("a")));
}

// What conditions say.

fn apply(script: Script, narrow: PendingConditionNarrow, typ: LuaType) -> LuaType {
    let mut db = DbIndex::new(script);
    let mut cache = new_cache();
    narrow.apply(&mut db, &mut cache, typ)
}

fn field_of_x() -> LuaIndexMemberExpr {
    LuaIndexMemberExpr::IndexExpr(index_node(60, name(61, "x"), "x.f"))
}

#[test]
fn truth_of_a_field_picks_members_of_a_union() {
    let a = LuaType::Other(11);
    let b = LuaType::Other(12);
    let c = LuaType::Other(13);
    let both = union(vec![a.clone(), b.clone(), c.clone()]);
    let script = || {
        let mut script = Script::new();
        script.members.push((LuaType::Other(11), STRING));
        script.members.push((LuaType::Other(12), LuaType::Nil));
        script
    };
    let narrow = |condition_flow| PendingConditionNarrow::FieldTruthy {
        idx: field_of_x(),
        condition_flow,
    };
    let when_true = narrow(InferConditionFlow::TrueCondition);
    assert_eq!(apply(script(), when_true, both.clone()), a);
    let when_false = narrow(InferConditionFlow::FalseCondition);
    assert_eq!(apply(script(), when_false, both.clone()), union(vec![b, c]));
    let when_true = narrow(InferConditionFlow::TrueCondition);
    assert_eq!(apply(Script::new(), when_true, both.clone()), both);
    let when_true = narrow(InferConditionFlow::TrueCondition);
    assert_eq!(apply(script(), when_true, STRING), STRING);
}

#[test]
fn equality_keeps_the_common_part_or_removes_it() {
    let both = union(vec![STRING, NUMBER]);
    let narrow = |right_expr_type, condition_flow| PendingConditionNarrow::Eq {
        right_expr_type,
        condition_flow,
    };
    let when_true = narrow(STRING, InferConditionFlow::TrueCondition);
    assert_eq!(apply(Script::new(), when_true, both.clone()), STRING);
    let when_false = narrow(STRING, InferConditionFlow::FalseCondition);
    assert_eq!(apply(Script::new(), when_false, both.clone()), NUMBER);
    let disjoint = narrow(TABLE, InferConditionFlow::TrueCondition);
    assert_eq!(apply(Script::new(), disjoint, both.clone()), both);
}

#[test]
fn type_guard_narrows_or_removes() {
    let both = union(vec![STRING, NUMBER]);
    let narrow = |condition_flow| PendingConditionNarrow::TypeGuard {
        narrow: STRING,
        condition_flow,
    };
    let when_true = narrow(InferConditionFlow::TrueCondition);
    assert_eq!(apply(Script::new(), when_true, both.clone()), STRING);
    let mut script = Script::new();
    script.narrow_fails = true;
    let when_true = narrow(InferConditionFlow::TrueCondition);
    assert_eq!(apply(script, when_true, TABLE), STRING);
    let when_false = narrow(InferConditionFlow::FalseCondition);
    assert_eq!(apply(Script::new(), when_false, both), NUMBER);
}

fn cast_signature(fallback_cast: Option<LuaSyntaxId>) -> Script {
    let mut root = empty_chunk();
    let add = LuaDocOpType {
        op: Some(BinaryOperator::OpAdd),
        is_nullable: false,
        doc_type: Some(sid(31)),
    };
    let force = LuaDocOpType { op: None, is_nullable: false, doc_type: Some(sid(32)) };
    root.op_types.push((sid(41), add));
    root.op_types.push((sid(42), force));
    let mut script = Script::new();
    script.syntax_tree = Some(Arc::new(root));
    script.signature_cast = Some(Arc::new(LuaSignatureCast {
        name: "self".to_string(),
        cast: sid(41),
        fallback_cast,
    }));
    let owner = |syntax_id| LuaTypeOwner::SyntaxId { file_id: FILE, syntax_id };
    script.held.push((owner(sid(31)), true, NUMBER));
    script.held.push((owner(sid(32)), true, TABLE));
    script
}

fn signature_id() -> LuaSignatureId {
    LuaSignatureId { file_id: FILE, position: 5 }
}

#[test]
fn signature_cast_is_applied_or_undone() {
    let cast = |script: Script, typ: LuaType, flow: InferConditionFlow| {
        let signature_cast = script.signature_cast.as_ref().unwrap().clone();
        let mut db = DbIndex::new(script);
        apply_signature_cast(&mut db, typ, signature_id(), &signature_cast, flow)
    };
    let both = union(vec![STRING, NUMBER]);
    let when_true = InferConditionFlow::TrueCondition;
    let when_false = InferConditionFlow::FalseCondition;
    assert_eq!(cast(cast_signature(None), STRING, when_true), both);
    assert_eq!(cast(cast_signature(None), both.clone(), when_false), STRING);
    assert_eq!(cast(cast_signature(Some(sid(42))), STRING, when_false), TABLE);
    assert_eq!(cast(cast_signature(Some(sid(49))), STRING, when_false), STRING);
    let mut script = cast_signature(None);
    script.syntax_tree = None;
    assert_eq!(cast(script, STRING, when_true), STRING);
}

#[test]
fn method_call_casts_its_own_object() {
    let narrow = || PendingConditionNarrow::SameVarColonCall {
        idx: field_of_x(),
        condition_flow: InferConditionFlow::TrueCondition,
    };
    let mut script = cast_signature(None);
    script.members.push((STRING, LuaType::Signature(signature_id())));
    assert_eq!(apply(script, narrow(), STRING), union(vec![STRING, NUMBER]));
    let mut script = cast_signature(None);
    script.members.push((STRING, TABLE));
    assert_eq!(apply(script, narrow(), STRING), STRING);
    let mut script = cast_signature(None);
    script.members.push((STRING, LuaType::Signature(signature_id())));
    script.signature_cast = Some(Arc::new(LuaSignatureCast {
        name: "other".to_string(),
        cast: sid(41),
        fallback_cast: None,
    }));
    assert_eq!(apply(script, narrow(), STRING), STRING);
    assert_eq!(apply(cast_signature(None), narrow(), STRING), STRING);
}

#[test]
fn casts_add_remove_and_force() {
    let op = |op, is_nullable, doc_type| LuaDocOpType { op, is_nullable, doc_type };
    let cast = |op_type: LuaDocOpType, typ: LuaType, flow: InferConditionFlow| {
        let mut db = DbIndex::new(cast_signature(None));
        cast_type(&mut db, FILE, op_type, typ, flow).unwrap()
    };
    let when_true = InferConditionFlow::TrueCondition;
    let when_false = InferConditionFlow::FalseCondition;
    let plus = Some(BinaryOperator::OpAdd);
    let minus = Some(BinaryOperator::OpSub);
    let optional = union(vec![STRING, LuaType::Nil]);
    assert_eq!(cast(op(plus, true, None), STRING, when_true), optional);
    assert_eq!(cast(op(minus, true, None), optional.clone(), when_true), STRING);
    assert_eq!(cast(op(plus, true, None), optional.clone(), when_false), STRING);
    assert_eq!(cast(op(None, true, None), STRING, when_true), STRING);
    assert_eq!(cast(op(None, false, Some(sid(32))), STRING, when_true), TABLE);
    let both = union(vec![STRING, TABLE]);
    assert_eq!(cast(op(None, false, Some(sid(32))), both, when_false), STRING);
    assert_eq!(cast(op(plus, false, Some(sid(39))), STRING, when_true), STRING);
    assert_eq!(cast(op(plus, false, None), STRING, when_true), STRING);
}

#[test]
fn inline_cast_changes_the_return_type() {
    let mut root = empty_chunk();
    let add = LuaDocOpType { op: Some(BinaryOperator::OpAdd), is_nullable: true, doc_type: None };
    let force = LuaDocOpType { op: None, is_nullable: false, doc_type: Some(sid(32)) };
    root.tag_casts.push((
        sid(90),
        Arc::new(LuaDocTagCast {
            syntax_id: sid(90),
            key_expr: None,
            op_types: vec![force, add],
        }),
    ));
    let tree = tree_of(vec![
        node(0, FlowNodeKind::Start, None),
        node(1, FlowNodeKind::TagCast(sid(90)), after(0)),
    ]);
    let mut db = DbIndex::new(cast_signature(None));
    let cache = new_cache();
    let at = |db: &mut DbIndex<Script>, root: Option<&LuaChunk>, flow_id: u32| {
        get_type_at_call_expr_inline_cast(db, &cache, &tree, root, FlowId(flow_id), STRING)
    };
    assert_eq!(at(&mut db, Some(&root), 1), Some(union(vec![TABLE, LuaType::Nil])));
    assert_eq!(at(&mut db, Some(&root), 0), None);
    assert_eq!(at(&mut db, Some(&root), 5), None);
    assert_eq!(at(&mut db, None, 1), None);
}

#[test]
fn index_expression_speaks_of_itself_or_of_its_prefix() {
    let index = index_node(60, name(61, "x"), "x.f");
    let ask = |script: Script, of: VarRefId| {
        let mut db = DbIndex::new(script);
        let mut cache = new_cache();
        get_type_at_index_expr(
            &mut db,
            &mut cache,
            &of,
            &index,
            InferConditionFlow::FalseCondition,
        )
        .unwrap()
    };
    let script = || {
        let mut script = Script::new();
        script.var_refs.push((sid(60), var(1)));
        script.var_refs.push((sid(61), var(2)));
        script
    };
    assert!(matches!(
        ask(script(), var(1)),
        ConditionFlowAction::Pending(PendingConditionNarrow::Truthiness(
            InferConditionFlow::FalseCondition
        ))
    ));
    assert!(matches!(
        ask(script(), var(2)),
        ConditionFlowAction::Pending(PendingConditionNarrow::FieldTruthy { .. })
    ));
    assert!(matches!(ask(script(), var(3)), ConditionFlowAction::Continue));
    assert!(matches!(ask(Script::new(), var(1)), ConditionFlowAction::Continue));
}

fn call(prefix: LuaExpr, is_colon_call: bool, args: Vec<LuaExpr>) -> Arc<LuaCallExpr> {
    Arc::new(LuaCallExpr {
        syntax_id: sid(70),
        prefix_expr: Some(prefix),
        is_colon_call,
        args: Some(args),
    })
}

fn ask_call(script: Script, call_expr: &Arc<LuaCallExpr>) -> ConditionFlowAction {
    let mut db = DbIndex::new(script);
    let mut cache = new_cache();
    get_type_at_call_expr(
        &mut db,
        &mut cache,
        &var(10),
        call_expr,
        InferConditionFlow::TrueCondition,
    )
    .unwrap()
}

fn guard_function(shape: u32) -> LuaType {
    LuaType::DocFunction(Arc::new(LuaFunctionType {
        shape,
        ret: LuaType::TypeGuard(Arc::new(STRING)),
    }))
}

#[test]
fn call_of_a_type_guard_narrows_its_first_argument() {
    let call_expr = call(name(71, "is_string"), false, vec![name(60, "x")]);
    let mut script = Script::new();
    script.expr_types.push((sid(71), Ok(guard_function(1))));
    script.var_refs.push((sid(60), var(10)));
    match ask_call(script, &call_expr) {
        ConditionFlowAction::Pending(PendingConditionNarrow::TypeGuard { narrow, .. }) => {
            assert_eq!(narrow, STRING);
        }
        other => panic!("unexpected: {:?}", other),
    }
    let mut script = Script::new();
    script.expr_types.push((sid(71), Ok(guard_function(1))));
    script.var_refs.push((sid(60), var(11)));
    assert!(matches!(ask_call(script, &call_expr), ConditionFlowAction::Continue));
    let mut script = Script::new();
    script.expr_types.push((sid(71), Ok(guard_function(1))));
    let no_args = call(name(71, "is_string"), false, vec![]);
    assert!(matches!(ask_call(script, &no_args), ConditionFlowAction::Continue));
}

#[test]
fn generic_type_guard_is_instantiated() {
    let call_expr = call(name(71, "is"), false, vec![name(60, "x")]);
    let mut script = Script::new();
    script.expr_types.push((sid(71), Ok(guard_function(1))));
    script.var_refs.push((sid(60), var(10)));
    script.generic = true;
    script.instance = Some(Arc::new(LuaFunctionType {
        shape: 2,
        ret: LuaType::TypeGuard(Arc::new(NUMBER)),
    }));
    match ask_call(script, &call_expr) {
        ConditionFlowAction::Pending(PendingConditionNarrow::TypeGuard { narrow, .. }) => {
            assert_eq!(narrow, NUMBER);
        }
        other => panic!("unexpected: {:?}", other),
    }
    let mut script = Script::new();
    script.expr_types.push((sid(71), Ok(guard_function(1))));
    script.var_refs.push((sid(60), var(10)));
    script.generic = true;
    let mut db = DbIndex::new(script);
    let mut cache = new_cache();
    let res = get_type_at_call_expr(
        &mut db,
        &mut cache,
        &var(10),
        &call_expr,
        InferConditionFlow::TrueCondition,
    );
    assert!(matches!(res, Err(InferFailReason::Other(3))));
}

fn casting_call(name_of_cast: &str, is_colon_define: bool) -> Script {
    let mut script = Script::new();
    script.expr_types.push((sid(71), Ok(LuaType::Signature(signature_id()))));
    script.signature = Some(Arc::new(LuaSignature {
        return_type: NUMBER,
        doc_func: Arc::new(LuaFunctionType { shape: 1, ret: NUMBER }),
        params: vec!["a".to_string(), "b".to_string()],
        is_colon_define,
    }));
    script.signature_cast = Some(Arc::new(LuaSignatureCast {
        name: name_of_cast.to_string(),
        cast: sid(41),
        fallback_cast: None,
    }));
    script.var_refs.push((sid(60), var(10)));
    script
}

fn is_signature_cast(action: &ConditionFlowAction) -> bool {
    matches!(action, ConditionFlowAction::Pending(PendingConditionNarrow::SignatureCast { .. }))
}

#[test]
fn cast_of_a_parameter_finds_its_argument() {
    let first = call(name(71, "f"), false, vec![name(60, "x"), literal(62), literal(63)]);
    let second = call(name(71, "f"), false, vec![literal(62), name(60, "x"), literal(63)]);
    let third = call(name(71, "f"), false, vec![literal(62), literal(63), name(60, "x")]);
    assert!(is_signature_cast(&ask_call(casting_call("b", false), &second)));
    assert!(!is_signature_cast(&ask_call(casting_call("b", false), &first)));
    assert!(is_signature_cast(&ask_call(casting_call("b", true), &third)));
    assert!(!is_signature_cast(&ask_call(casting_call("c", false), &second)));
    let short = call(name(71, "f"), false, vec![literal(62)]);
    assert!(!is_signature_cast(&ask_call(casting_call("b", false), &short)));
}

#[test]
fn colon_call_passes_the_object_first() {
    let prefix = || LuaExpr::IndexExpr(index_node(71, name(72, "o"), "o.f"));
    let first = call(prefix(), true, vec![name(60, "x"), literal(62)]);
    assert!(is_signature_cast(&ask_call(casting_call("b", false), &first)));
    assert!(!is_signature_cast(&ask_call(casting_call("a", false), &first)));
    assert!(is_signature_cast(&ask_call(casting_call("a", true), &first)));
}

#[test]
fn cast_of_self_narrows_the_object() {
    let prefix = LuaExpr::IndexExpr(index_node(71, name(60, "x"), "x.f"));
    let call_expr = call(prefix, false, vec![]);
    assert!(is_signature_cast(&ask_call(casting_call("self", false), &call_expr)));
    let plain = call(name(71, "f"), false, vec![]);
    assert!(!is_signature_cast(&ask_call(casting_call("self", false), &plain)));
}

#[test]
fn method_with_several_candidates_waits_for_its_object() {
    let prefix = LuaExpr::IndexExpr(index_node(71, name(60, "x"), "x.f"));
    let call_expr = call(prefix, true, vec![]);
    let several = union(vec![LuaType::Signature(signature_id()), STRING]);
    let mut script = Script::new();
    script.var_refs.push((sid(60), var(10)));
    script.members.push((STRING, several.clone()));
    assert!(matches!(
        ask_call(script, &call_expr),
        ConditionFlowAction::Pending(PendingConditionNarrow::SameVarColonCall { .. })
    ));
    let mut script = Script::new();
    script.var_refs.push((sid(60), var(10)));
    script.members.push((STRING, LuaType::MultiLineUnion(Arc::new(several))));
    assert!(matches!(
        ask_call(script, &call_expr),
        ConditionFlowAction::Pending(PendingConditionNarrow::SameVarColonCall { .. })
    ));
    let mut script = Script::new();
    script.var_refs.push((sid(60), var(10)));
    script.members.push((STRING, union(vec![NUMBER, STRING])));
    assert!(matches!(ask_call(script, &call_expr), ConditionFlowAction::Continue));
}

#[test]
fn raw_get_is_narrowed_by_truth() {
    let call_expr = call(name(71, "rawget"), false, vec![]);
    let script = |call_kind| {
        let mut script = casting_call("a", false);
        let alias = LuaAliasCallType { call_kind, operands: 1 };
        script.signature = Some(Arc::new(LuaSignature {
            return_type: LuaType::Call(Arc::new(alias)),
            doc_func: Arc::new(LuaFunctionType { shape: 1, ret: NUMBER }),
            params: vec![],
            is_colon_define: false,
        }));
        script.expr_types.push((sid(70), Ok(union(vec![LuaType::Nil, STRING]))));
        script.var_refs.push((sid(70), var(10)));
        script
    };
    match ask_call(script(LuaAliasCallKind::RawGet), &call_expr) {
        ConditionFlowAction::Result(typ) => assert_eq!(typ, STRING),
        other => panic!("unexpected: {:?}", other),
    }
    let other = ask_call(script(LuaAliasCallKind::KeyOf), &call_expr);
    assert!(matches!(other, ConditionFlowAction::Continue));
}

#[test]
fn other_expressions_say_nothing_or_are_handed_on() {
    let ask = |script: Script, condition: LuaExpr| {
        let tree = tree_of(vec![]);
        let root = empty_chunk();
        let mut db = DbIndex::new(script);
        let mut cache = new_cache();
        get_type_at_condition_flow(
            &mut db,
            &tree,
            &mut cache,
            &root,
            &var(10),
            &node(0, FlowNodeKind::Start, None),
            condition,
            InferConditionFlow::TrueCondition,
        )
    };
    let table = LuaExpr::TableExpr(LuaTableExpr { syntax_id: sid(1), is_empty: true });
    assert!(matches!(ask(Script::new(), table), Ok(ConditionFlowAction::Continue)));
    assert!(matches!(ask(Script::new(), literal(1)), Ok(ConditionFlowAction::Continue)));
    let closure = LuaExpr::ClosureExpr(LuaClosureExpr { syntax_id: sid(1) });
    assert!(matches!(ask(Script::new(), closure), Ok(ConditionFlowAction::Continue)));
    let length = LuaExpr::UnaryExpr(Arc::new(LuaUnaryExpr {
        syntax_id: sid(1),
        op: Some(UnaryOperator::OpLen),
        expr: Some(name(60, "x")),
    }));
    assert!(matches!(ask(Script::new(), length), Ok(ConditionFlowAction::Continue)));
    assert!(matches!(ask(Script::new(), binary(1)), Err(InferFailReason::Other(1))));
    let mut script = Script::new();
    script.binary = Some(ConditionFlowAction::Result(NUMBER));
    assert!(matches!(ask(script, binary(1)), Ok(ConditionFlowAction::Result(_))));
}

fn resolve(
    script: Script,
    subquery: ConditionSubquery,
    typ: LuaType,
) -> Result<ConditionFlowAction, InferFailReason> {
    let tree = tree_of(vec![]);
    let root = empty_chunk();
    let mut db = DbIndex::new(script);
    let mut cache = new_cache();
    resolve_condition_subquery(
        &mut db,
        &tree,
        &mut cache,
        &root,
        &var(10),
        &node(0, FlowNodeKind::Start, None),
        subquery,
        typ,
    )
}

fn array_question(flow: InferConditionFlow, max_adjustment: i64) -> ConditionSubquery {
    ConditionSubquery::ArrayLen {
        var_ref_id: var(1),
        antecedent_flow_id: FlowId(0),
        subquery_condition_flow: flow,
        right_expr_type: LuaType::IntegerConst(5),
        max_adjustment,
    }
}

#[test]
fn array_length_is_taken_from_a_true_comparison() {
    let array =
        LuaType::Array(Arc::new(LuaArrayType { base: STRING, len: LuaArrayLen::Unbounded }));
    let question = array_question(InferConditionFlow::TrueCondition, -1);
    match resolve(Script::new(), question, array.clone()).unwrap() {
        ConditionFlowAction::Result(LuaType::Array(found)) => {
            assert_eq!(found.base, STRING);
            assert_eq!(found.len, LuaArrayLen::Max(4));
        }
        other => panic!("unexpected: {:?}", other),
    }
    let question = array_question(InferConditionFlow::FalseCondition, -1);
    assert!(matches!(
        resolve(Script::new(), question, array),
        Ok(ConditionFlowAction::Continue)
    ));
    let question = array_question(InferConditionFlow::TrueCondition, 0);
    assert!(matches!(
        resolve(Script::new(), question, STRING),
        Ok(ConditionFlowAction::Continue)
    ));
}

#[test]
fn literal_field_splits_a_union() {
    let question = |flow| ConditionSubquery::FieldLiteralEq {
        var_ref_id: var(1),
        antecedent_flow_id: FlowId(0),
        subquery_condition_flow: flow,
        idx: field_of_x(),
        right_expr_type: text("a"),
    };
    let script = || {
        let mut script = Script::new();
        script.members.push((LuaType::Other(11), text("a")));
        script.members.push((LuaType::Other(12), text("b")));
        script.members.push((
            LuaType::Other(13),
            LuaType::DocStringConst(Arc::new("a".to_string())),
        ));
        script
    };
    let all = union(vec![LuaType::Other(11), LuaType::Other(12), LuaType::Other(13)]);
    match resolve(script(), question(InferConditionFlow::TrueCondition), all.clone()).unwrap() {
        ConditionFlowAction::Result(typ) => assert_eq!(typ, LuaType::Other(13)),
        other => panic!("unexpected: {:?}", other),
    }
    match resolve(script(), question(InferConditionFlow::FalseCondition), all.clone()).unwrap() {
        ConditionFlowAction::Result(typ) => {
            assert_eq!(typ, union(vec![LuaType::Other(11), LuaType::Other(12)]));
        }
        other => panic!("unexpected: {:?}", other),
    }
    let none = resolve(Script::new(), question(InferConditionFlow::TrueCondition), all);
    assert!(matches!(none, Ok(ConditionFlowAction::Continue)));
}

fn correlated(
    narrow: CorrelatedDiscriminantNarrow,
    fallback_expr: Option<LuaExpr>,
) -> ConditionSubquery {
    ConditionSubquery::Correlated {
        var_ref_id: var(1),
        antecedent_flow_id: FlowId(0),
        subquery_condition_flow: InferConditionFlow::TrueCondition,
        discriminant_decl_id: decl(20),
        condition_position: 61,
        narrow,
        fallback_expr,
    }
}

#[test]
fn correlated_condition_asks_about_the_narrowed_discriminant() {
    let ask = |narrow: CorrelatedDiscriminantNarrow| {
        let tree = tree_of(vec![]);
        let root = empty_chunk();
        let mut script = Script::new();
        script.overload = Some(ConditionFlowAction::Result(TABLE));
        let mut db = DbIndex::new(script);
        let mut cache = new_cache();
        let res = resolve_condition_subquery(
            &mut db,
            &tree,
            &mut cache,
            &root,
            &var(10),
            &node(0, FlowNodeKind::Start, None),
            correlated(narrow, None),
            union(vec![LuaType::Nil, STRING]),
        );
        assert!(matches!(res, Ok(ConditionFlowAction::Result(_))));
        db.get_model().calls.last().unwrap().to_string()
    };
    let expected = format!("overload {:?}", STRING);
    assert_eq!(ask(CorrelatedDiscriminantNarrow::Truthiness), expected);
    let guard = CorrelatedDiscriminantNarrow::TypeGuard { narrow: NUMBER };
    assert_eq!(ask(guard), format!("overload {:?}", NUMBER));
    let eq = CorrelatedDiscriminantNarrow::Eq {
        right_expr_type: TABLE,
        allow_literal_equivalence: true,
    };
    assert_eq!(ask(eq), format!("overload {:?}", TABLE));
}

#[test]
fn correlated_condition_falls_back_to_its_expression() {
    let mut script = optional_string();
    script.overload = Some(ConditionFlowAction::Continue);
    let question = correlated(CorrelatedDiscriminantNarrow::Truthiness, Some(name(60, "x")));
    assert!(matches!(
        resolve(script, question, STRING),
        Ok(ConditionFlowAction::Pending(PendingConditionNarrow::Truthiness(_)))
    ));
    let mut script = optional_string();
    script.overload = Some(ConditionFlowAction::Continue);
    let question = correlated(CorrelatedDiscriminantNarrow::Truthiness, None);
    assert!(matches!(resolve(script, question, STRING), Ok(ConditionFlowAction::Continue)));
    let question = correlated(CorrelatedDiscriminantNarrow::Truthiness, None);
    assert!(matches!(
        resolve(Script::new(), question, STRING),
        Err(InferFailReason::Other(2))
    ));
}

// Statements.

fn analyzer(script: Script) -> LuaAnalyzer<Script> {
    LuaAnalyzer::new(FILE, DbIndex::new(script), new_cache())
}

fn changes(analyzer: &LuaAnalyzer<Script>) -> Vec<String> {
    let effects = ["index ", "bind ", "wait ", "owner ", "member ", "field "];
    analyzer
        .db
        .get_model()
        .calls
        .iter()
        .filter(|call| effects.iter().any(|effect| call.starts_with(effect)))
        .map(|call| call.to_string())
        .collect()
}

fn bound(how: &str, position: u32, typ: LuaType) -> String {
    format!("{} {:?} {:?}", how, LuaTypeOwner::Decl(decl(position)), typ)
}

fn local(names: &[u32], exprs: Vec<LuaExpr>) -> LuaLocalStat {
    LuaLocalStat {
        local_names: names.iter().map(|p| LuaLocalName { position: *p }).collect(),
        value_exprs: exprs,
    }
}

#[test]
fn locals_without_values_are_nil_up_to_a_delayed_one() {
    let mut a = analyzer(Script::new());
    assert_eq!(analyze_local_stat(&mut a, local(&[1, 2], vec![])), Some(()));
    assert_eq!(
        changes(&a),
        vec![bound("index", 1, LuaType::Nil), bound("index", 2, LuaType::Nil)]
    );
    let mut script = Script::new();
    script.delayed.push(decl(2));
    let mut a = analyzer(script);
    assert_eq!(analyze_local_stat(&mut a, local(&[1, 2, 3], vec![])), Some(()));
    assert_eq!(changes(&a), vec![bound("index", 1, LuaType::Nil)]);
}

#[test]
fn locals_get_the_types_of_their_values() {
    let mut script = Script::new();
    script.expr_types.push((sid(30), Ok(STRING)));
    script.expr_types.push((sid(32), Err(InferFailReason::Other(6))));
    let mut a = analyzer(script);
    let exprs = vec![literal(30), literal(31), literal(32), literal(33)];
    assert_eq!(analyze_local_stat(&mut a, local(&[1, 2, 3], exprs)), Some(()));
    assert_eq!(
        changes(&a),
        vec![
            bound("bind", 1, STRING),
            bound("index", 2, LuaType::Nil),
            "wait decl 3 0 for other 6".to_string(),
        ]
    );
}

#[test]
fn surplus_values_of_a_local_are_not_looked_at() {
    let run = |exprs: Vec<LuaExpr>| {
        let mut script = Script::new();
        script.expr_types.push((sid(30), Ok(STRING)));
        script.expr_types.push((sid(31), Ok(NUMBER)));
        let mut a = analyzer(script);
        analyze_local_stat(&mut a, local(&[1], exprs));
        a.db.get_model().calls.clone()
    };
    assert_eq!(run(vec![literal(30), literal(31)]), run(vec![literal(30)]));
}

#[test]
fn local_that_is_given_a_table_may_have_to_wait() {
    let table = |is_empty| LuaExpr::TableExpr(LuaTableExpr { syntax_id: sid(35), is_empty });
    let unknown = || {
        LuaType::Instance(Arc::new(LuaInstanceType {
            base: LuaType::Unknown,
            range: InFiled::new(FILE, TextRange { start: 1, end: 2 }),
        }))
    };
    let run = |arg: LuaExpr| {
        let mut script = Script::new();
        script.expr_types.push((sid(70), Ok(unknown())));
        let mut a = analyzer(script);
        let call_expr = LuaExpr::CallExpr(call(name(71, "new"), false, vec![arg]));
        analyze_local_stat(&mut a, local(&[1], vec![call_expr]));
        changes(&a)
    };
    assert_eq!(run(table(false)), vec!["wait decl 1 0 for expr 70"]);
    assert_eq!(run(table(true)), vec![bound("bind", 1, unknown())]);
}

#[test]
fn names_behind_the_last_value_get_its_results() {
    let mut script = Script::new();
    let many = LuaType::Other(50);
    script.expr_types.push((sid(30), Ok(many.clone())));
    script.multi.push((many, vec![STRING, NUMBER]));
    let mut a = analyzer(script);
    analyze_local_stat(&mut a, local(&[1, 2, 3], vec![literal(30)]));
    assert_eq!(
        changes(&a),
        vec![
            bound("bind", 1, STRING),
            bound("bind", 2, NUMBER),
            bound("index", 3, LuaType::Unknown),
        ]
    );
    let mut script = Script::new();
    script.expr_types.push((sid(30), Ok(STRING)));
    let mut a = analyzer(script);
    analyze_local_stat(&mut a, local(&[1, 2], vec![literal(30)]));
    assert_eq!(changes(&a), vec![bound("bind", 1, STRING)]);
    let mut script = Script::new();
    script.expr_types.push((sid(30), Err(InferFailReason::Other(6))));
    let mut a = analyzer(script);
    analyze_local_stat(&mut a, local(&[1, 2, 3], vec![literal(30)]));
    assert_eq!(
        changes(&a),
        vec![
            "wait decl 1 0 for other 6",
            "wait decl 2 1 for other 6",
            "wait decl 3 2 for other 6",
        ]
    );
}

fn assign(vars: Vec<LuaVarExpr>, exprs: Vec<LuaExpr>) -> LuaAssignStat {
    LuaAssignStat { vars, exprs }
}

fn member_owner(start: u32) -> LuaTypeOwner {
    LuaTypeOwner::Member(LuaMemberId { id: sid(start), file_id: FILE })
}

#[test]
fn assignment_binds_its_variables() {
    let mut script = Script::new();
    script.expr_types.push((sid(30), Ok(STRING)));
    let mut a = analyzer(script);
    let stat = assign(vec![LuaVarExpr::NameExpr(name_node(1, "x"))], vec![literal(30)]);
    assert_eq!(analyze_assign_stat(&mut a, stat), Some(()));
    assert_eq!(changes(&a), vec![bound("bind", 1, STRING)]);

    let mut a = analyzer(Script::new());
    let stat = assign(vec![LuaVarExpr::NameExpr(name_node(1, "x"))], vec![literal(30)]);
    assert_eq!(analyze_assign_stat(&mut a, stat), Some(()));
    assert_eq!(changes(&a), vec![bound("bind", 1, LuaType::Unknown)]);
}

#[test]
fn assignment_with_too_many_expressions_stops() {
    let mut script = Script::new();
    script.expr_types.push((sid(30), Ok(STRING)));
    script.expr_types.push((sid(31), Ok(NUMBER)));
    let mut a = analyzer(script);
    let vars = vec![LuaVarExpr::NameExpr(name_node(1, "x"))];
    let stat = assign(vars, vec![literal(30), literal(31)]);
    assert_eq!(analyze_assign_stat(&mut a, stat), None);
    assert_eq!(changes(&a), vec![bound("bind", 1, STRING)]);
}

#[test]
fn first_assignment_defines_a_delayed_declaration() {
    let mut script = Script::new();
    script.expr_types.push((sid(30), Ok(STRING)));
    script.local_reference = Some(decl(99));
    script.delayed.push(decl(99));
    let mut a = analyzer(script);
    let stat = assign(vec![LuaVarExpr::NameExpr(name_node(1, "x"))], vec![literal(30)]);
    analyze_assign_stat(&mut a, stat);
    assert_eq!(changes(&a), vec![bound("bind", 99, STRING), bound("bind", 1, STRING)]);
}

#[test]
fn assigned_member_is_filed_under_its_prefix() {
    let run = |prefix_type: InferResult| {
        let mut script = Script::new();
        script.expr_types.push((sid(61), prefix_type));
        script.expr_types.push((sid(30), Ok(STRING)));
        let mut a = analyzer(script);
        let index = LuaVarExpr::IndexExpr(index_node(60, name(61, "t"), "t.f"));
        analyze_assign_stat(&mut a, assign(vec![index], vec![literal(30)]));
        changes(&a)
    };
    let bind = format!("bind {:?} {:?}", member_owner(60), STRING);
    let place = InFiled::new(FILE, TextRange { start: 3, end: 4 });
    let class = LuaTypeDeclId { name: 9 };
    let element = format!("member {:?} 60", LuaMemberOwner::Element(place));
    assert_eq!(run(Ok(LuaType::TableConst(place))), vec![element.clone(), bind.clone()]);
    let instance = LuaInstanceType { base: STRING, range: place };
    assert_eq!(run(Ok(LuaType::Instance(Arc::new(instance)))), vec![element, bind.clone()]);
    let member = format!("member {:?} 60", LuaMemberOwner::Type(class));
    assert_eq!(run(Ok(LuaType::Def(class))), vec![member, bind.clone()]);
    let owner = format!("owner {:?} 7 60", LuaMemberOwner::Type(class));
    assert_eq!(run(Ok(LuaType::Ref(class))), vec![owner, bind.clone()]);
    assert_eq!(run(Ok(STRING)), vec![bind.clone()]);
    assert_eq!(run(Err(InferFailReason::Nothing)), vec![bind.clone()]);
    let wait = "wait member 60 false true 0 for other 6".to_string();
    assert_eq!(run(Err(InferFailReason::Other(6))), vec![wait, bind]);
}

#[test]
fn member_of_a_global_is_filed_under_its_declared_type() {
    let run = |local_decl: Option<LuaDecl>| {
        let class = LuaTypeDeclId { name: 9 };
        let mut script = Script::new();
        script.expr_types.push((sid(61), Ok(STRING)));
        script.local_decl = local_decl;
        script.global_decls = Some(vec![decl(80), decl(81)]);
        script.held.push((LuaTypeOwner::Decl(decl(81)), true, LuaType::Def(class)));
        let mut a = analyzer(script);
        let index = LuaVarExpr::IndexExpr(index_node(60, name(61, "table"), "table.f"));
        let func = LuaFuncStat {
            func_name: Some(index),
            closure: Some(LuaClosureExpr { syntax_id: sid(85) }),
        };
        let res = analyze_func_stat(&mut a, func);
        (res, changes(&a))
    };
    let mut script_without_closure = analyzer(Script::new());
    let func = LuaFuncStat { func_name: None, closure: None };
    assert_eq!(analyze_func_stat(&mut script_without_closure, func), None);
    // The closure itself cannot be inferred here.
    assert_eq!(run(None), (None, vec![]));
    let shadowing = LuaDecl { is_local: true, is_implicit_self: false, value_syntax_id: None };
    let class = LuaTypeDeclId { name: 9 };
    let assign_member = |local_decl: Option<LuaDecl>| {
        let mut script = Script::new();
        script.expr_types.push((sid(61), Ok(STRING)));
        script.expr_types.push((sid(30), Ok(NUMBER)));
        script.local_decl = local_decl;
        script.global_decls = Some(vec![decl(80), decl(81)]);
        script.held.push((LuaTypeOwner::Decl(decl(81)), true, LuaType::Def(class)));
        let mut a = analyzer(script);
        let index = LuaVarExpr::IndexExpr(index_node(60, name(61, "table"), "table.f"));
        analyze_assign_stat(&mut a, assign(vec![index], vec![literal(30)]));
        changes(&a)
    };
    let bind = format!("bind {:?} {:?}", member_owner(60), NUMBER);
    let member = format!("member {:?} 60", LuaMemberOwner::Type(class));
    assert_eq!(assign_member(None), vec![member, bind.clone()]);
    assert_eq!(assign_member(Some(shadowing)), vec![bind]);
}

#[test]
fn default_by_or_has_the_type_of_the_default() {
    let run = |left: &str, right_type: InferResult| {
        let expr = LuaExpr::BinaryExpr(Arc::new(LuaBinaryExpr {
            syntax_id: sid(40),
            op: Some(BinaryOperator::OpOr),
            exprs: Some((name(41, left), literal(42))),
        }));
        let mut script = Script::new();
        script.expr_types.push((sid(42), right_type));
        script.expr_types.push((sid(40), Ok(TABLE)));
        let mut a = analyzer(script);
        let stat = assign(vec![LuaVarExpr::NameExpr(name_node(1, "x"))], vec![expr]);
        analyze_assign_stat(&mut a, stat);
        changes(&a)
    };
    assert_eq!(run("x", Ok(STRING)), vec![bound("bind", 1, STRING)]);
    assert_eq!(run("y", Ok(STRING)), vec![bound("bind", 1, TABLE)]);
    assert_eq!(run("x", Err(InferFailReason::Nothing)), vec![bound("bind", 1, TABLE)]);
}

#[test]
fn variables_behind_the_last_expression_get_its_results() {
    let vars = || {
        vec![
            LuaVarExpr::NameExpr(name_node(1, "x")),
            LuaVarExpr::IndexExpr(index_node(60, name(61, "t"), "t.f")),
        ]
    };
    let many = LuaType::Other(50);
    let mut script = Script::new();
    script.expr_types.push((sid(30), Ok(many.clone())));
    script.multi.push((many, vec![STRING, NUMBER]));
    let mut a = analyzer(script);
    assert_eq!(analyze_assign_stat(&mut a, assign(vars(), vec![literal(30)])), Some(()));
    let second = format!("bind {:?} {:?}", member_owner(60), NUMBER);
    assert_eq!(changes(&a), vec![bound("bind", 1, STRING), second]);

    let mut script = Script::new();
    script.expr_types.push((sid(30), Err(InferFailReason::Other(6))));
    let mut a = analyzer(script);
    analyze_assign_stat(&mut a, assign(vars(), vec![literal(30)]));
    assert_eq!(
        changes(&a),
        vec![
            "wait decl 1 0 for other 6",
            "wait member 60 true false 1 for expr 30",
        ]
    );
}

#[test]
fn index_expression_that_is_declared_is_its_declaration() {
    let mut script = Script::new();
    script.expr_types.push((sid(30), Ok(STRING)));
    script.decls.push((
        decl(60),
        LuaDecl { is_local: false, is_implicit_self: false, value_syntax_id: None },
    ));
    let mut a = analyzer(script);
    let index = LuaVarExpr::IndexExpr(index_node(60, literal(61), "t.f"));
    analyze_assign_stat(&mut a, assign(vec![index], vec![literal(30)]));
    assert_eq!(changes(&a), vec![bound("bind", 60, STRING)]);
}

#[test]
fn function_statements_bind_their_closures() {
    let signature = LuaType::Signature(signature_id());
    let mut script = Script::new();
    script.expr_types.push((sid(85), Ok(signature.clone())));
    let mut a = analyzer(script);
    let func = LuaFuncStat {
        func_name: Some(LuaVarExpr::NameExpr(name_node(1, "f"))),
        closure: Some(LuaClosureExpr { syntax_id: sid(85) }),
    };
    assert_eq!(analyze_func_stat(&mut a, func), Some(()));
    let local_func = LuaLocalFuncStat {
        local_name: Some(LuaLocalName { position: 2 }),
        closure: Some(LuaClosureExpr { syntax_id: sid(85) }),
    };
    assert_eq!(analyze_local_func_stat(&mut a, local_func), Some(()));
    assert_eq!(
        changes(&a),
        vec![bound("index", 1, signature.clone()), bound("index", 2, signature)]
    );
    let unfinished = LuaLocalFuncStat { local_name: None, closure: None };
    assert_eq!(analyze_local_func_stat(&mut a, unfinished), None);
    let unknown = LuaLocalFuncStat {
        local_name: Some(LuaLocalName { position: 2 }),
        closure: Some(LuaClosureExpr { syntax_id: sid(86) }),
    };
    assert_eq!(analyze_local_func_stat(&mut a, unknown), None);
}

fn field(is_assign_field: bool, key: Option<LuaIndexKey>) -> LuaTableField {
    LuaTableField {
        syntax_id: sid(20),
        is_assign_field,
        field_key: key,
        value_expr: Some(literal(30)),
        table_range: Some(TextRange { start: 15, end: 40 }),
    }
}

#[test]
fn table_field_gets_the_type_of_its_value() {
    let class = LuaTypeDeclId { name: 9 };
    let run = |value: InferResult| {
        let mut script = Script::new();
        script.expr_types.push((sid(30), value));
        let mut a = analyzer(script);
        let res = analyze_table_field(&mut a, field(true, Some(LuaIndexKey::Static(4))));
        (res, changes(&a))
    };
    let bind = |typ: LuaType| format!("bind {:?} {:?}", member_owner(20), typ);
    assert_eq!(run(Ok(STRING)), (Some(()), vec![bind(STRING)]));
    assert_eq!(run(Ok(LuaType::Def(class))), (Some(()), vec![bind(LuaType::Ref(class))]));
    assert_eq!(run(Err(InferFailReason::Nothing)), (Some(()), vec![bind(LuaType::Unknown)]));
    let wait = "wait member 20 true false 0 for other 6".to_string();
    assert_eq!(run(Err(InferFailReason::Other(6))), (None, vec![wait]));
    let mut a = analyzer(Script::new());
    assert_eq!(analyze_table_field(&mut a, field(false, None)), Some(()));
    assert!(changes(&a).is_empty());
    let mut without_value = field(true, None);
    without_value.value_expr = None;
    assert_eq!(analyze_table_field(&mut a, without_value), None);
}

#[test]
fn bracketed_key_that_is_known_makes_a_member() {
    let run = |script: Script| {
        let mut a = analyzer(script);
        analyze_table_field(&mut a, field(true, Some(LuaIndexKey::Expr(name(22, "k")))));
        let mut all = changes(&a);
        all.pop();
        all
    };
    let place = InFiled::new(FILE, TextRange { start: 15, end: 40 });
    let member = |feature: LuaMemberFeature| {
        let owner = LuaMemberOwner::Element(place);
        format!("field {:?} {:?} {:?}", owner, LuaMemberKey::Interned(5), feature)
    };
    assert_eq!(run(Script::new()), vec![member(LuaMemberFeature::FileDefine)]);
    let mut script = Script::new();
    script.meta = true;
    assert_eq!(run(script), vec![member(LuaMemberFeature::MetaDefine)]);
    let mut script = Script::new();
    script.known_members.push(LuaMemberId { id: sid(20), file_id: FILE });
    assert!(run(script).is_empty());
    let mut script = Script::new();
    script.unknown_key = true;
    assert!(run(script).is_empty());
    let mut script = Script::new();
    script.index_key = Err(InferFailReason::Nothing);
    assert!(run(script).is_empty());
}
