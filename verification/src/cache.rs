//! The inference cache of a file.

use std::sync::Arc;

use vstd::prelude::*;

use crate::condition_flow::ConditionFlowAction;
use crate::ids::{FileId, FlowId, LuaSyntaxId, VarRefId};
use crate::keyed::{Key, KeyedMap};
use crate::syntax::{LuaAssignStat, LuaExpr};
use crate::types::{LuaFunctionType, LuaType};

verus! {

/// An answer that is known, or one that is being worked out.
#[derive(Debug)]
pub enum CacheEntry<T> {
    /// The answer is being worked out; to need it now is to need it for itself.
    Ready,
    Cache(T),
}

/// What a condition node is about.
#[derive(Debug)]
pub struct FlowConditionInfo {
    pub expr: LuaExpr,
    /// The reference that the condition is, where it is an index expression.
    pub index_var_ref_id: Option<VarRefId>,
    /// The reference that its prefix is.
    pub index_prefix_var_ref_id: Option<VarRefId>,
}

/// What an assignment node assigns, and to which references.
#[derive(Debug)]
pub struct FlowAssignmentInfo {
    pub assign_stat: Arc<LuaAssignStat>,
    pub var_ref_ids: Vec<Option<VarRefId>>,
}

/// Whether a walk narrows by the conditions on its way.
#[derive(Debug, Clone, Copy, PartialEq, Eq, Hash, Structural)]
pub enum FlowMode {
    WithConditions,
    WithoutConditions,
}

impl FlowMode {
    pub fn uses_conditions(self) -> (res: bool)
        ensures
            res == (self == FlowMode::WithConditions),
    {
        matches!(self, FlowMode::WithConditions)
    }
}

/// What is cached for one variable, by flow node and mode, or by flow node and polarity.
#[derive(Debug)]
pub struct FlowVarCache {
    pub type_cache: KeyedMap<CacheEntry<LuaType>>,
    pub condition_cache: KeyedMap<CacheEntry<ConditionFlowAction>>,
}

impl Default for FlowVarCache {
    fn default() -> (cache: FlowVarCache)
        ensures
            cache.type_cache@ == Map::<Key, CacheEntry<LuaType>>::empty(),
            cache.condition_cache@ == Map::<Key, CacheEntry<ConditionFlowAction>>::empty(),
    {
        FlowVarCache { type_cache: KeyedMap::new(), condition_cache: KeyedMap::new() }
    }
}

/// How far the analysis of the workspace has come.
#[derive(Debug, Clone, Copy, PartialEq, Eq, Hash, Structural)]
pub enum LuaAnalysisPhase {
    Ordered,
    Unordered,
    Force,
}

#[derive(Debug, Clone, Copy, PartialEq, Eq, Structural)]
pub struct CacheOptions {
    pub analysis_phase: LuaAnalysisPhase,
}

impl Default for CacheOptions {
    fn default() -> (options: CacheOptions)
        ensures
            options.analysis_phase == LuaAnalysisPhase::Ordered,
    {
        CacheOptions { analysis_phase: LuaAnalysisPhase::Ordered }
    }
}

/// Two slots, one for each value of a flag.
#[derive(Debug)]
pub struct FlagSlots<T> {
    pub off: Option<CacheEntry<T>>,
    pub on: Option<CacheEntry<T>>,
}

impl<T> FlagSlots<T> {
    pub open spec fn at(self, flag: bool) -> Option<CacheEntry<T>> {
        if flag {
            self.on
        } else {
            self.off
        }
    }

    pub open spec fn with(self, flag: bool, entry: Option<CacheEntry<T>>) -> FlagSlots<T> {
        if flag {
            FlagSlots { on: entry, ..self }
        } else {
            FlagSlots { off: entry, ..self }
        }
    }
}

/// One resolved call of the callee that a syntax node names.
#[derive(Debug)]
pub struct CallCacheEntry {
    pub arg_count: Option<usize>,
    pub callee: LuaType,
    pub entry: CacheEntry<Arc<LuaFunctionType>>,
}

/// What is remembered while the types of one file are inferred.
///
/// Maps that are keyed by a syntax node use [`syntax_key`], those that are keyed by a reference
/// use [`var_ref_key`].
#[derive(Debug)]
pub struct LuaInferCache {
    pub file_id: FileId,
    pub config: CacheOptions,
    pub expr_cache: KeyedMap<CacheEntry<LuaType>>,
    pub call_cache: KeyedMap<Vec<CallCacheEntry>>,
    /// The number that stands for a reference in the caches below.
    pub flow_cache_var_ref_ids: KeyedMap<u32>,
    pub next_flow_cache_var_ref_id: u32,
    pub flow_var_caches: Vec<FlowVarCache>,
    /// Types, by reference number, flow node and whether conditions narrow.
    pub flow_node_cache: Vec<KeyedMap<FlagSlots<LuaType>>>,
    /// What conditions say, by reference number, flow node and polarity.
    pub condition_flow_cache: Vec<KeyedMap<FlagSlots<ConditionFlowAction>>>,
    /// The flattened inputs of branch labels, by flow node.
    pub flow_branch_inputs_cache: Vec<Option<Arc<Vec<FlowId>>>>,
    pub flow_condition_info_cache: Vec<Option<Arc<FlowConditionInfo>>>,
    pub flow_assignment_info_cache: Vec<Option<Arc<FlowAssignmentInfo>>>,
    pub index_ref_origin_type_cache: KeyedMap<CacheEntry<LuaType>>,
    pub expr_var_ref_id_cache: KeyedMap<VarRefId>,
    pub narrow_by_literal_stop_position_cache: KeyedMap<()>,
}

/// The mathematical content of an assignment info.
pub struct AssignmentView {
    pub assign_stat: LuaAssignStat,
    pub var_ref_ids: Seq<Option<VarRefId>>,
}

impl FlowAssignmentInfo {
    pub open spec fn view(&self) -> AssignmentView {
        AssignmentView { assign_stat: *self.assign_stat, var_ref_ids: self.var_ref_ids@ }
    }
}

/// The mathematical content of a variable's cache.
pub struct FlowVarView {
    pub type_cache: Map<Key, CacheEntry<LuaType>>,
    pub condition_cache: Map<Key, CacheEntry<ConditionFlowAction>>,
}

impl FlowVarCache {
    pub open spec fn view(&self) -> FlowVarView {
        FlowVarView { type_cache: self.type_cache@, condition_cache: self.condition_cache@ }
    }
}

/// The mathematical content of a cache.
pub struct CacheView {
    pub file_id: FileId,
    pub config: CacheOptions,
    pub expr_cache: Map<Key, CacheEntry<LuaType>>,
    pub call_cache: Map<Key, Vec<CallCacheEntry>>,
    pub var_ref_ids: Map<Key, u32>,
    pub next_var_ref_id: u32,
    pub flow_vars: Seq<FlowVarView>,
    pub flow_node: Seq<Map<Key, FlagSlots<LuaType>>>,
    pub condition_flow: Seq<Map<Key, FlagSlots<ConditionFlowAction>>>,
    pub branch_inputs: Seq<Option<Seq<FlowId>>>,
    pub condition_info: Seq<Option<FlowConditionInfo>>,
    pub assignment_info: Seq<Option<AssignmentView>>,
    pub index_ref_origin: Map<Key, CacheEntry<LuaType>>,
    pub expr_var_ref_id: Map<Key, VarRefId>,
    pub narrow_stop: Map<Key, ()>,
}

pub open spec fn map_views<T>(maps: Seq<KeyedMap<T>>) -> Seq<Map<Key, T>> {
    maps.map_values(|m: KeyedMap<T>| m@)
}

pub open spec fn branch_input_views(
    entries: Seq<Option<Arc<Vec<FlowId>>>>,
) -> Seq<Option<Seq<FlowId>>> {
    entries.map_values(
        |e: Option<Arc<Vec<FlowId>>>|
            match e {
                Some(ids) => Some(ids@),
                None => None,
            },
    )
}

pub open spec fn condition_info_views(entries: Seq<Option<Arc<FlowConditionInfo>>>) -> Seq<
    Option<FlowConditionInfo>,
> {
    entries.map_values(
        |e: Option<Arc<FlowConditionInfo>>|
            match e {
                Some(info) => Some(*info),
                None => None,
            },
    )
}

pub open spec fn assignment_info_views(entries: Seq<Option<Arc<FlowAssignmentInfo>>>) -> Seq<
    Option<AssignmentView>,
> {
    entries.map_values(
        |e: Option<Arc<FlowAssignmentInfo>>|
            match e {
                Some(info) => Some(info@),
                None => None,
            },
    )
}

impl LuaInferCache {
    pub closed spec fn view(&self) -> CacheView {
        CacheView {
            file_id: self.file_id,
            config: self.config,
            expr_cache: self.expr_cache@,
            call_cache: self.call_cache@,
            var_ref_ids: self.flow_cache_var_ref_ids@,
            next_var_ref_id: self.next_flow_cache_var_ref_id,
            flow_vars: self.flow_var_caches@.map_values(|c: FlowVarCache| c@),
            flow_node: map_views(self.flow_node_cache@),
            condition_flow: map_views(self.condition_flow_cache@),
            branch_inputs: branch_input_views(self.flow_branch_inputs_cache@),
            condition_info: condition_info_views(self.flow_condition_info_cache@),
            assignment_info: assignment_info_views(self.flow_assignment_info_cache@),
            index_ref_origin: self.index_ref_origin_type_cache@,
            expr_var_ref_id: self.expr_var_ref_id_cache@,
            narrow_stop: self.narrow_by_literal_stop_position_cache@,
        }
    }

    /// Nothing is remembered but the stop positions `narrow_stop`.
    pub open spec fn blank(
        file_id: FileId,
        config: CacheOptions,
        narrow_stop: Map<Key, ()>,
    ) -> CacheView {
        CacheView {
            file_id,
            config,
            expr_cache: Map::empty(),
            call_cache: Map::empty(),
            var_ref_ids: Map::empty(),
            next_var_ref_id: 0,
            flow_vars: Seq::empty(),
            flow_node: Seq::empty(),
            condition_flow: Seq::empty(),
            branch_inputs: Seq::empty(),
            condition_info: Seq::empty(),
            assignment_info: Seq::empty(),
            index_ref_origin: Map::empty(),
            expr_var_ref_id: Map::empty(),
            narrow_stop,
        }
    }

    pub fn new(file_id: FileId, config: CacheOptions) -> (cache: LuaInferCache)
        ensures
            cache@ == LuaInferCache::blank(file_id, config, Map::empty()),
    {
        let cache = LuaInferCache {
            file_id,
            config,
            expr_cache: KeyedMap::new(),
            call_cache: KeyedMap::new(),
            flow_cache_var_ref_ids: KeyedMap::new(),
            next_flow_cache_var_ref_id: 0,
            flow_var_caches: Vec::new(),
            flow_node_cache: Vec::new(),
            condition_flow_cache: Vec::new(),
            flow_branch_inputs_cache: Vec::new(),
            flow_condition_info_cache: Vec::new(),
            flow_assignment_info_cache: Vec::new(),
            index_ref_origin_type_cache: KeyedMap::new(),
            expr_var_ref_id_cache: KeyedMap::new(),
            narrow_by_literal_stop_position_cache: KeyedMap::new(),
        };
        proof {
            let blank = LuaInferCache::blank(file_id, config, Map::empty());
            assert(cache@.flow_vars =~= blank.flow_vars);
            assert(cache@.flow_node =~= blank.flow_node);
            assert(cache@.condition_flow =~= blank.condition_flow);
            assert(cache@.branch_inputs =~= blank.branch_inputs);
            assert(cache@.condition_info =~= blank.condition_info);
            assert(cache@.assignment_info =~= blank.assignment_info);
        }
        cache
    }

    pub fn get_config(&self) -> (config: &CacheOptions)
        ensures
            *config == self@.config,
    {
        &self.config
    }

    pub fn get_file_id(&self) -> (file_id: FileId)
        ensures
            file_id == self@.file_id,
    {
        self.file_id
    }

    pub fn set_phase(&mut self, phase: LuaAnalysisPhase)
        ensures
            final(self)@ == (CacheView {
                config: CacheOptions { analysis_phase: phase },
                ..old(self)@
            }),
    {
        self.config.analysis_phase = phase;
    }

    /// Forgets everything but the stop positions of literal narrowing.
    pub fn clear(&mut self)
        ensures
            final(self)@ == LuaInferCache::blank(
                old(self)@.file_id,
                old(self)@.config,
                old(self)@.narrow_stop,
            ),
    {
        self.expr_cache.clear();
        self.call_cache.clear();
        self.flow_cache_var_ref_ids.clear();
        self.next_flow_cache_var_ref_id = 0;
        self.flow_var_caches.clear();
        self.flow_node_cache.clear();
        self.condition_flow_cache.clear();
        self.flow_branch_inputs_cache.clear();
        self.flow_condition_info_cache.clear();
        self.flow_assignment_info_cache.clear();
        self.index_ref_origin_type_cache.clear();
        self.expr_var_ref_id_cache.clear();
        proof {
            let blank = LuaInferCache::blank(
                old(self)@.file_id,
                old(self)@.config,
                old(self)@.narrow_stop,
            );
            assert(self@.flow_vars =~= blank.flow_vars);
            assert(self@.flow_node =~= blank.flow_node);
            assert(self@.condition_flow =~= blank.condition_flow);
            assert(self@.branch_inputs =~= blank.branch_inputs);
            assert(self@.condition_info =~= blank.condition_info);
            assert(self@.assignment_info =~= blank.assignment_info);
        }
    }
}

/// The key of a syntax node.
pub open spec fn syntax_key(id: LuaSyntaxId) -> Key {
    (id.kind as u32, id.range.start, id.range.end, 0, 0, 0)
}

pub fn get_syntax_key(id: LuaSyntaxId) -> (key: Key)
    ensures
        key == syntax_key(id),
{
    (id.kind as u32, id.range.start, id.range.end, 0, 0, 0)
}

/// Two syntax nodes have the same key only where they are the same.
pub proof fn syntax_key_is_injective(a: LuaSyntaxId, b: LuaSyntaxId)
    requires
        syntax_key(a) == syntax_key(b),
    ensures
        a == b,
{
}

/// The key of a flow node.
pub open spec fn flow_key(flow_id: u32) -> Key {
    (flow_id, 0, 0, 0, 0, 0)
}

/// The key of a reference.
pub open spec fn var_ref_key(var_ref_id: VarRefId) -> Key {
    match var_ref_id {
        VarRefId::VarRef(decl_id) => (0, decl_id.file_id.id, decl_id.position, 0, 0, 0),
        VarRefId::Path { root: None, position, path } => (1, 0, 0, position, path, 0),
        VarRefId::Path { root: Some(root), position, path } => {
            (2, root.file_id.id, root.position, position, path, 0)
        },
    }
}

/// Two references have the same key only where they are the same.
pub proof fn var_ref_key_is_injective(a: VarRefId, b: VarRefId)
    requires
        var_ref_key(a) == var_ref_key(b),
    ensures
        a == b,
{
}

pub fn get_var_ref_key(var_ref_id: &VarRefId) -> (key: Key)
    ensures
        key == var_ref_key(*var_ref_id),
{
    match var_ref_id {
        VarRefId::VarRef(decl_id) => (0, decl_id.file_id.id, decl_id.position, 0, 0, 0),
        VarRefId::Path { root, position, path } => match root {
            None => (1, 0, 0, *position, *path, 0),
            Some(root) => (2, root.file_id.id, root.position, *position, *path, 0),
        },
    }
}

/// `entries`, filled up to `len` entries with `filler`.
pub open spec fn grown<T>(entries: Seq<T>, len: nat, filler: T) -> Seq<T> {
    if entries.len() >= len {
        entries
    } else {
        entries + Seq::new((len - entries.len()) as nat, |i: int| filler)
    }
}

/// What stands at a place of a cache that is indexed twice.
pub open spec fn dense_entry<T>(
    caches: Seq<Map<Key, FlagSlots<T>>>,
    outer: nat,
    inner: u32,
    flag: bool,
) -> Option<CacheEntry<T>> {
    if outer < caches.len() && caches[outer as int].contains_key(flow_key(inner)) {
        caches[outer as int][flow_key(inner)].at(flag)
    } else {
        None
    }
}

/// The slots of a key that was not held before.
pub open spec fn empty_slots<T>() -> FlagSlots<T> {
    FlagSlots { off: None, on: None }
}

/// A cache that is indexed twice, with `entry` written to one place.
pub open spec fn dense_with<T>(
    caches: Seq<Map<Key, FlagSlots<T>>>,
    outer: nat,
    inner: u32,
    flag: bool,
    entry: Option<CacheEntry<T>>,
) -> Seq<Map<Key, FlagSlots<T>>> {
    let caches = grown(caches, outer + 1, Map::empty());
    let map = caches[outer as int];
    let slots = if map.contains_key(flow_key(inner)) {
        map[flow_key(inner)]
    } else {
        empty_slots()
    };
    caches.update(outer as int, map.insert(flow_key(inner), slots.with(flag, entry)))
}

/// What stands at a place of a cache that is indexed once.
pub open spec fn indexed_entry<T>(entries: Seq<Option<T>>, index: nat) -> Option<T> {
    if index < entries.len() {
        entries[index as int]
    } else {
        None
    }
}

/// A cache that is indexed once, with `entry` written to one place.
pub open spec fn indexed_with<T>(entries: Seq<Option<T>>, index: nat, entry: Option<T>) -> Seq<
    Option<T>,
> {
    grown(entries, index + 1, None).update(index as int, entry)
}

/// Writing one map of several writes one of their views.
proof fn lemma_map_views_update<T>(maps: Seq<KeyedMap<T>>, at: int, map: KeyedMap<T>)
    requires
        0 <= at < maps.len(),
    ensures
        map_views(maps.update(at, map)) == map_views(maps).update(at, map@),
{
    assert(map_views(maps.update(at, map)) =~= map_views(maps).update(at, map@));
}

fn get_dense_bool_cache_entry<T>(
    cache: &Vec<KeyedMap<FlagSlots<T>>>,
    outer_index: usize,
    inner_index: u32,
    flag: bool,
) -> (entry: Option<&CacheEntry<T>>)
    ensures
        match entry {
            Some(e) => dense_entry(map_views(cache@), outer_index as nat, inner_index, flag)
                == Some(*e),
            None => dense_entry(map_views(cache@), outer_index as nat, inner_index, flag) is None,
        },
{
    if outer_index >= cache.len() {
        return None;
    }
    match cache[outer_index].get((inner_index, 0, 0, 0, 0, 0)) {
        Some(slots) => if flag {
            slots.on.as_ref()
        } else {
            slots.off.as_ref()
        },
        None => None,
    }
}

fn get_dense_bool_cache_slot<T>(
    cache: &mut Vec<KeyedMap<FlagSlots<T>>>,
    outer_index: usize,
    inner_index: u32,
    flag: bool,
) -> (slot: &mut Option<CacheEntry<T>>)
    requires
        outer_index < usize::MAX,
    ensures
        *slot == dense_entry(map_views(old(cache)@), outer_index as nat, inner_index, flag),
        map_views(final(cache)@) == dense_with(
            map_views(old(cache)@),
            outer_index as nat,
            inner_index,
            flag,
            *final(slot),
        ),
{
    while cache.len() <= outer_index
        invariant
            cache@.len() == old(cache)@.len() || cache@.len() <= outer_index + 1,
            map_views(cache@) == grown(
                map_views(old(cache)@),
                cache@.len(),
                Map::<Key, FlagSlots<T>>::empty(),
            ),
            cache@.len() >= old(cache)@.len(),
        decreases outer_index + 1 - cache@.len(),
    {
        let ghost shorter = cache@;
        let added: KeyedMap<FlagSlots<T>> = KeyedMap::new();
        cache.push(added);
        assert(map_views(cache@) =~= map_views(shorter).push(added@));
        assert(map_views(cache@) =~= grown(
            map_views(old(cache)@),
            cache@.len(),
            Map::<Key, FlagSlots<T>>::empty(),
        ));
    }
    let ghost filled = cache@;
    proof {
        assert(map_views(filled) =~= grown(
            map_views(old(cache)@),
            (outer_index + 1) as nat,
            Map::<Key, FlagSlots<T>>::empty(),
        ));
        assert forall|map: KeyedMap<FlagSlots<T>>|
            #![trigger filled.update(outer_index as int, map)]
            map_views(filled.update(outer_index as int, map)) == map_views(filled).update(
                outer_index as int,
                map@,
            ) by {
            lemma_map_views_update(filled, outer_index as int, map);
        }
    }
    let entries = &mut cache[outer_index];
    let slots = entries.slot((inner_index, 0, 0, 0, 0, 0), FlagSlots { off: None, on: None });
    if flag {
        &mut slots.on
    } else {
        &mut slots.off
    }
}

/// What a cache holds at an index; nothing beyond its end.
pub fn get_dense_rc_entry<T>(cache: &Vec<Option<Arc<T>>>, index: usize) -> (entry: Option<&Arc<T>>)
    ensures
        match entry {
            Some(e) => indexed_entry(cache@, index as nat) == Some(*e),
            None => indexed_entry(cache@, index as nat) is None,
        },
{
    if index < cache.len() {
        cache[index].as_ref()
    } else {
        None
    }
}

/// The place at an index of a cache, which grows to have it.
pub fn get_dense_rc_slot<T>(cache: &mut Vec<Option<Arc<T>>>, index: usize) -> (slot: &mut Option<
    Arc<T>,
>)
    requires
        index < usize::MAX,
    ensures
        *slot == indexed_entry(old(cache)@, index as nat),
        final(cache)@ == indexed_with(old(cache)@, index as nat, *final(slot)),
{
    while cache.len() <= index
        invariant
            cache@.len() == old(cache)@.len() || cache@.len() <= index + 1,
            cache@.len() >= old(cache)@.len(),
            cache@ == grown(old(cache)@, cache@.len(), None),
        decreases index + 1 - cache@.len(),
    {
        cache.push(None);
        assert(cache@ =~= grown(old(cache)@, cache@.len(), None));
    }
    assert(cache@ =~= grown(old(cache)@, (index + 1) as nat, None));
    &mut cache[index]
}

impl CacheView {
    /// The cached type of a reference at a flow node.
    pub open spec fn node_entry(self, var_ref_cache_id: u32, flow_id: FlowId, flag: bool) -> Option<
        CacheEntry<LuaType>,
    > {
        dense_entry(self.flow_node, var_ref_cache_id as nat, flow_id.0, flag)
    }

    pub open spec fn with_node(
        self,
        var_ref_cache_id: u32,
        flow_id: FlowId,
        flag: bool,
        entry: Option<CacheEntry<LuaType>>,
    ) -> CacheView {
        CacheView {
            flow_node: dense_with(
                self.flow_node,
                var_ref_cache_id as nat,
                flow_id.0,
                flag,
                entry,
            ),
            ..self
        }
    }

    /// What the condition at a flow node is known to say about a reference.
    pub open spec fn condition_entry(
        self,
        var_ref_cache_id: u32,
        flow_id: FlowId,
        flag: bool,
    ) -> Option<CacheEntry<ConditionFlowAction>> {
        dense_entry(self.condition_flow, var_ref_cache_id as nat, flow_id.0, flag)
    }

    pub open spec fn with_condition(
        self,
        var_ref_cache_id: u32,
        flow_id: FlowId,
        flag: bool,
        entry: Option<CacheEntry<ConditionFlowAction>>,
    ) -> CacheView {
        CacheView {
            condition_flow: dense_with(
                self.condition_flow,
                var_ref_cache_id as nat,
                flow_id.0,
                flag,
                entry,
            ),
            ..self
        }
    }

    pub open spec fn branch_inputs_of(self, flow_id: FlowId) -> Option<Seq<FlowId>> {
        indexed_entry(self.branch_inputs, flow_id.0 as nat)
    }

    pub open spec fn with_branch_inputs(self, flow_id: FlowId, inputs: Seq<FlowId>) -> CacheView {
        CacheView {
            branch_inputs: indexed_with(self.branch_inputs, flow_id.0 as nat, Some(inputs)),
            ..self
        }
    }

    pub open spec fn condition_info_of(self, flow_id: FlowId) -> Option<FlowConditionInfo> {
        indexed_entry(self.condition_info, flow_id.0 as nat)
    }

    pub open spec fn with_condition_info(
        self,
        flow_id: FlowId,
        info: FlowConditionInfo,
    ) -> CacheView {
        CacheView {
            condition_info: indexed_with(self.condition_info, flow_id.0 as nat, Some(info)),
            ..self
        }
    }

    pub open spec fn assignment_info_of(self, flow_id: FlowId) -> Option<AssignmentView> {
        indexed_entry(self.assignment_info, flow_id.0 as nat)
    }

    pub open spec fn with_assignment_info(
        self,
        flow_id: FlowId,
        info: AssignmentView,
    ) -> CacheView {
        CacheView {
            assignment_info: indexed_with(self.assignment_info, flow_id.0 as nat, Some(info)),
            ..self
        }
    }

    /// The number of a reference, and the cache once the reference has one.
    pub open spec fn number_var_ref(self, var_ref_id: VarRefId) -> (u32, CacheView) {
        let key = var_ref_key(var_ref_id);
        if self.var_ref_ids.contains_key(key) {
            (self.var_ref_ids[key], self)
        } else {
            (
                self.next_var_ref_id,
                CacheView {
                    var_ref_ids: self.var_ref_ids.insert(key, self.next_var_ref_id),
                    next_var_ref_id: (self.next_var_ref_id + 1) as u32,
                    ..self
                },
            )
        }
    }
}

pub fn get_flow_node_cache_entry(
    cache: &LuaInferCache,
    var_ref_cache_id: u32,
    flow_id: FlowId,
    use_condition_narrowing: bool,
) -> (entry: Option<&CacheEntry<LuaType>>)
    ensures
        match entry {
            Some(e) => cache@.node_entry(var_ref_cache_id, flow_id, use_condition_narrowing)
                == Some(*e),
            None => cache@.node_entry(var_ref_cache_id, flow_id, use_condition_narrowing) is None,
        },
{
    get_dense_bool_cache_entry(
        &cache.flow_node_cache,
        var_ref_cache_id as usize,
        flow_id.0,
        use_condition_narrowing,
    )
}

pub fn get_flow_node_cache_slot(
    cache: &mut LuaInferCache,
    var_ref_cache_id: u32,
    flow_id: FlowId,
    use_condition_narrowing: bool,
) -> (slot: &mut Option<CacheEntry<LuaType>>)
    requires
        var_ref_cache_id < usize::MAX,
    ensures
        *slot == old(cache)@.node_entry(var_ref_cache_id, flow_id, use_condition_narrowing),
        final(cache)@ == old(cache)@.with_node(
            var_ref_cache_id,
            flow_id,
            use_condition_narrowing,
            *final(slot),
        ),
{
    get_dense_bool_cache_slot(
        &mut cache.flow_node_cache,
        var_ref_cache_id as usize,
        flow_id.0,
        use_condition_narrowing,
    )
}

pub fn get_condition_flow_cache_entry(
    cache: &LuaInferCache,
    var_ref_cache_id: u32,
    flow_id: FlowId,
    is_true_condition: bool,
) -> (entry: Option<&CacheEntry<ConditionFlowAction>>)
    ensures
        match entry {
            Some(e) => cache@.condition_entry(var_ref_cache_id, flow_id, is_true_condition)
                == Some(*e),
            None => cache@.condition_entry(var_ref_cache_id, flow_id, is_true_condition) is None,
        },
{
    get_dense_bool_cache_entry(
        &cache.condition_flow_cache,
        var_ref_cache_id as usize,
        flow_id.0,
        is_true_condition,
    )
}

pub fn get_condition_flow_cache_slot(
    cache: &mut LuaInferCache,
    var_ref_cache_id: u32,
    flow_id: FlowId,
    is_true_condition: bool,
) -> (slot: &mut Option<CacheEntry<ConditionFlowAction>>)
    requires
        var_ref_cache_id < usize::MAX,
    ensures
        *slot == old(cache)@.condition_entry(var_ref_cache_id, flow_id, is_true_condition),
        final(cache)@ == old(cache)@.with_condition(
            var_ref_cache_id,
            flow_id,
            is_true_condition,
            *final(slot),
        ),
{
    get_dense_bool_cache_slot(
        &mut cache.condition_flow_cache,
        var_ref_cache_id as usize,
        flow_id.0,
        is_true_condition,
    )
}

/// The flattened inputs of a branch label, where they are known.
pub fn get_branch_inputs(cache: &LuaInferCache, flow_id: FlowId) -> (inputs: Option<
    Arc<Vec<FlowId>>,
>)
    ensures
        match inputs {
            Some(ids) => cache@.branch_inputs_of(flow_id) == Some(ids@),
            None => cache@.branch_inputs_of(flow_id) is None,
        },
{
    match get_dense_rc_entry(&cache.flow_branch_inputs_cache, flow_id.0 as usize) {
        Some(ids) => Some(ids.clone()),
        None => None,
    }
}

pub fn set_branch_inputs(cache: &mut LuaInferCache, flow_id: FlowId, inputs: Arc<Vec<FlowId>>)
    requires
        flow_id.0 < usize::MAX,
    ensures
        final(cache)@ == old(cache)@.with_branch_inputs(flow_id, inputs@),
{
    *get_dense_rc_slot(&mut cache.flow_branch_inputs_cache, flow_id.0 as usize) = Some(inputs);
    assert(cache@.branch_inputs =~= old(cache)@.with_branch_inputs(flow_id, inputs@).branch_inputs);
}

pub fn get_condition_info(cache: &LuaInferCache, flow_id: FlowId) -> (info: Option<
    Arc<FlowConditionInfo>,
>)
    ensures
        match info {
            Some(i) => cache@.condition_info_of(flow_id) == Some(*i),
            None => cache@.condition_info_of(flow_id) is None,
        },
{
    match get_dense_rc_entry(&cache.flow_condition_info_cache, flow_id.0 as usize) {
        Some(info) => Some(info.clone()),
        None => None,
    }
}

pub fn set_condition_info(
    cache: &mut LuaInferCache,
    flow_id: FlowId,
    info: Arc<FlowConditionInfo>,
)
    requires
        flow_id.0 < usize::MAX,
    ensures
        final(cache)@ == old(cache)@.with_condition_info(flow_id, *info),
{
    *get_dense_rc_slot(&mut cache.flow_condition_info_cache, flow_id.0 as usize) = Some(info);
    assert(cache@.condition_info =~= old(cache)@.with_condition_info(
        flow_id,
        *info,
    ).condition_info);
}

pub fn get_assignment_info(cache: &LuaInferCache, flow_id: FlowId) -> (info: Option<
    Arc<FlowAssignmentInfo>,
>)
    ensures
        match info {
            Some(i) => cache@.assignment_info_of(flow_id) == Some(i@),
            None => cache@.assignment_info_of(flow_id) is None,
        },
{
    match get_dense_rc_entry(&cache.flow_assignment_info_cache, flow_id.0 as usize) {
        Some(info) => Some(info.clone()),
        None => None,
    }
}

pub fn set_assignment_info(
    cache: &mut LuaInferCache,
    flow_id: FlowId,
    info: Arc<FlowAssignmentInfo>,
)
    requires
        flow_id.0 < usize::MAX,
    ensures
        final(cache)@ == old(cache)@.with_assignment_info(flow_id, info@),
{
    *get_dense_rc_slot(&mut cache.flow_assignment_info_cache, flow_id.0 as usize) = Some(info);
    assert(cache@.assignment_info =~= old(cache)@.with_assignment_info(
        flow_id,
        info@,
    ).assignment_info);
}

/// The number of a reference; a reference that has none gets the next one.
pub fn get_flow_cache_var_ref_id(cache: &mut LuaInferCache, var_ref_id: &VarRefId) -> (id: u32)
    requires
        old(cache)@.var_ref_ids.contains_key(var_ref_key(*var_ref_id))
            || old(cache)@.next_var_ref_id < u32::MAX,
    ensures
        (id, final(cache)@) == old(cache)@.number_var_ref(*var_ref_id),
{
    let key = get_var_ref_key(var_ref_id);
    if let Some(var_ref_cache_id) = cache.flow_cache_var_ref_ids.get(key) {
        return *var_ref_cache_id;
    }
    let var_ref_cache_id = cache.next_flow_cache_var_ref_id;
    cache.next_flow_cache_var_ref_id += 1;
    cache.flow_cache_var_ref_ids.insert(key, var_ref_cache_id);
    var_ref_cache_id
}

/// The number of a reference, as long as numbers last: the largest one is never given out.
pub fn try_get_flow_cache_var_ref_id(cache: &mut LuaInferCache, var_ref_id: &VarRefId) -> (id:
    Option<u32>)
    ensures
        ({
            let (number, numbered) = old(cache)@.number_var_ref(*var_ref_id);
            if number < u32::MAX {
                id == Some(number) && final(cache)@ == numbered
            } else {
                id is None && final(cache)@ == old(cache)@
            }
        }),
{
    let number = match cache.flow_cache_var_ref_ids.get(get_var_ref_key(var_ref_id)) {
        Some(number) => *number,
        None => cache.next_flow_cache_var_ref_id,
    };
    if number == u32::MAX {
        return None;
    }
    Some(get_flow_cache_var_ref_id(cache, var_ref_id))
}

/// What was written to a place of a doubly indexed cache is read back there, and every other
/// place holds what it held.
pub proof fn dense_write_is_local<T>(
    caches: Seq<Map<Key, FlagSlots<T>>>,
    outer: nat,
    inner: u32,
    flag: bool,
    entry: Option<CacheEntry<T>>,
    other_outer: nat,
    other_inner: u32,
    other_flag: bool,
)
    ensures
        dense_entry(
            dense_with(caches, outer, inner, flag, entry),
            other_outer,
            other_inner,
            other_flag,
        ) == if other_outer == outer && other_inner == inner && other_flag == flag {
            entry
        } else {
            dense_entry(caches, other_outer, other_inner, other_flag)
        },
{
    let filled = grown(caches, outer + 1, Map::<Key, FlagSlots<T>>::empty());
    assert(other_outer < caches.len() ==> filled[other_outer as int]
        == caches[other_outer as int]);
    assert(caches.len() <= other_outer < filled.len() ==> filled[other_outer as int]
        == Map::<Key, FlagSlots<T>>::empty());
}

/// A write adds no more than one key, however large the key is, to one map, and no maps but those
/// up to its own.
pub proof fn dense_write_stays_sparse<T>(
    caches: Seq<Map<Key, FlagSlots<T>>>,
    outer: nat,
    inner: u32,
    flag: bool,
    entry: Option<CacheEntry<T>>,
)
    ensures
        ({
            let after = dense_with(caches, outer, inner, flag, entry);
            &&& after.len() == if caches.len() > outer {
                caches.len()
            } else {
                outer + 1
            }
            &&& after[outer as int].dom() == if outer < caches.len() {
                caches[outer as int].dom().insert(flow_key(inner))
            } else {
                Set::empty().insert(flow_key(inner))
            }
            &&& forall|i: int|
                0 <= i < after.len() && i != outer ==> #[trigger] after[i] == if i < caches.len() {
                    caches[i]
                } else {
                    Map::empty()
                }
        }),
{
    let after = dense_with(caches, outer, inner, flag, entry);
    assert(after[outer as int].dom() =~= if outer < caches.len() {
        caches[outer as int].dom().insert(flow_key(inner))
    } else {
        Set::empty().insert(flow_key(inner))
    });
}

/// What was written to a place of a singly indexed cache is read back there, and every other
/// place holds what it held.
pub proof fn indexed_write_is_local<T>(
    entries: Seq<Option<T>>,
    index: nat,
    entry: Option<T>,
    other: nat,
)
    ensures
        indexed_entry(indexed_with(entries, index, entry), other) == if other == index {
            entry
        } else {
            indexed_entry(entries, other)
        },
{
}

/// A write to a singly indexed cache makes it just long enough: the entries that it had stay, and
/// those that are added before the written one are empty.
pub proof fn indexed_write_grows_to_the_index<T>(
    entries: Seq<Option<T>>,
    index: nat,
    entry: Option<T>,
)
    ensures
        ({
            let written = indexed_with(entries, index, entry);
            &&& written.len() == if entries.len() > index {
                entries.len()
            } else {
                index + 1
            }
            &&& written[index as int] == entry
            &&& forall|i: int|
                0 <= i < entries.len() && i != index ==> #[trigger] written[i] == entries[i]
            &&& forall|i: int| entries.len() <= i < index ==> #[trigger] written[i] is None
        }),
{
}

impl CacheView {
    /// Whether a reference has the number.
    pub open spec fn is_given(self, number: u32) -> bool {
        exists|key: Key| #[trigger]
            self.var_ref_ids.contains_key(key) && self.var_ref_ids[key] == number
    }

    /// References have the numbers below the next one, each of them, and no two of them have the
    /// same.
    pub open spec fn is_numbered(self) -> bool {
        &&& forall|number: u32| number < self.next_var_ref_id ==> #[trigger] self.is_given(number)
        &&& forall|key: Key| #[trigger]
            self.var_ref_ids.contains_key(key) ==> self.var_ref_ids[key] < self.next_var_ref_id
        &&& forall|a: Key, b: Key|
            #![trigger self.var_ref_ids.contains_key(a), self.var_ref_ids.contains_key(b)]
            self.var_ref_ids.contains_key(a) && self.var_ref_ids.contains_key(b) && a != b
                ==> self.var_ref_ids[a] != self.var_ref_ids[b]
    }
}

/// A reference keeps its number.
pub proof fn numbering_is_stable(cache: CacheView, var_ref_id: VarRefId, other: VarRefId)
    ensures
        ({
            let (id, after) = cache.number_var_ref(var_ref_id);
            &&& after.number_var_ref(var_ref_id) == (id, after)
            &&& cache.var_ref_ids.contains_key(var_ref_key(other)) ==> after.number_var_ref(other).0
                == cache.number_var_ref(other).0
        }),
{
}

/// Different references have different numbers, and no number is left out.
pub proof fn numbering_tells_references_apart(
    cache: CacheView,
    var_ref_id: VarRefId,
    other: VarRefId,
)
    requires
        cache.is_numbered(),
        cache.next_var_ref_id < u32::MAX - 1,
        var_ref_id != other,
    ensures
        ({
            let (id, after) = cache.number_var_ref(var_ref_id);
            let (other_id, last) = after.number_var_ref(other);
            &&& after.is_numbered()
            &&& last.is_numbered()
            &&& id != other_id
        }),
{
    if var_ref_key(var_ref_id) == var_ref_key(other) {
        var_ref_key_is_injective(var_ref_id, other);
    }
    lemma_numbering_keeps_numbered(cache, var_ref_id);
    let (id, after) = cache.number_var_ref(var_ref_id);
    lemma_numbering_keeps_numbered(after, other);
    assert(after.var_ref_ids.contains_key(var_ref_key(var_ref_id)));
}

proof fn lemma_numbering_keeps_numbered(cache: CacheView, var_ref_id: VarRefId)
    requires
        cache.is_numbered(),
        cache.next_var_ref_id < u32::MAX,
    ensures
        cache.number_var_ref(var_ref_id).1.is_numbered(),
        cache.number_var_ref(var_ref_id).0 < cache.number_var_ref(var_ref_id).1.next_var_ref_id,
{
    let after = cache.number_var_ref(var_ref_id).1;
    assert forall|key: Key| #[trigger] after.var_ref_ids.contains_key(key) implies
        after.var_ref_ids[key] < after.next_var_ref_id by {
        if key != var_ref_key(var_ref_id) {
            assert(cache.var_ref_ids.contains_key(key));
        }
    }
    assert(cache.var_ref_ids.contains_key(var_ref_key(var_ref_id)) ==> cache.number_var_ref(
        var_ref_id,
    ).0 < cache.next_var_ref_id);
    assert forall|number: u32| number < after.next_var_ref_id implies #[trigger] after.is_given(
        number,
    ) by {
        if number < cache.next_var_ref_id {
            assert(cache.is_given(number));
            let key = choose|key: Key| #[trigger]
                cache.var_ref_ids.contains_key(key) && cache.var_ref_ids[key] == number;
            assert(after.var_ref_ids.contains_key(key) && after.var_ref_ids[key] == number);
        } else {
            assert(after.var_ref_ids.contains_key(var_ref_key(var_ref_id)));
        }
    }
}

/// The fields of a cache are what its view says of them.
pub proof fn fields_are_the_view(cache: LuaInferCache)
    ensures
        cache@.file_id == cache.file_id,
        cache@.config == cache.config,
        cache@.expr_cache == cache.expr_cache@,
        cache@.call_cache == cache.call_cache@,
        cache@.var_ref_ids == cache.flow_cache_var_ref_ids@,
        cache@.next_var_ref_id == cache.next_flow_cache_var_ref_id,
        cache@.flow_vars == cache.flow_var_caches@.map_values(|c: FlowVarCache| c@),
        cache@.flow_node == map_views(cache.flow_node_cache@),
        cache@.condition_flow == map_views(cache.condition_flow_cache@),
        cache@.branch_inputs == branch_input_views(cache.flow_branch_inputs_cache@),
        cache@.condition_info == condition_info_views(cache.flow_condition_info_cache@),
        cache@.assignment_info == assignment_info_views(cache.flow_assignment_info_cache@),
        cache@.index_ref_origin == cache.index_ref_origin_type_cache@,
        cache@.expr_var_ref_id == cache.expr_var_ref_id_cache@,
        cache@.narrow_stop == cache.narrow_by_literal_stop_position_cache@,
{
}

/// A cache that was cleared is a new one, but for the stop positions of literal narrowing.
pub proof fn cleared_cache_is_new(before: CacheView)
    ensures
        LuaInferCache::blank(before.file_id, before.config, before.narrow_stop) == (CacheView {
            narrow_stop: before.narrow_stop,
            ..LuaInferCache::blank(before.file_id, before.config, Map::empty())
        }),
        LuaInferCache::blank(before.file_id, before.config, before.narrow_stop).is_numbered(),
{
}

} // verus!
