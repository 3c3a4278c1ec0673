use std::sync::Arc;

use lua_flow::cache::{
    get_branch_inputs, get_condition_flow_cache_entry, get_condition_flow_cache_slot,
    get_dense_rc_entry, get_dense_rc_slot,
    get_flow_cache_var_ref_id, get_flow_node_cache_entry, get_flow_node_cache_slot,
    get_syntax_key, get_var_ref_key, set_branch_inputs, CacheEntry, CacheOptions, FlowMode,
    FlowVarCache, LuaAnalysisPhase, LuaInferCache,
};
use lua_flow::ids::{FileId, FlowId, LuaDeclId, LuaSyntaxId, TextRange, VarRefId};
use lua_flow::keyed::KeyedMap;
use lua_flow::types::LuaType;

#[test]
fn test_flow_caches_stay_sparse_for_large_flow_ids() {
    let mut cache = LuaInferCache::new(FileId::new(0), CacheOptions::default());

    *get_flow_node_cache_slot(&mut cache, 0, FlowId(10_000), true) = Some(CacheEntry::Ready);
    *get_condition_flow_cache_slot(&mut cache, 0, FlowId(20_000), false) = Some(CacheEntry::Ready);

    assert_eq!(cache.flow_node_cache.len(), 1);
    assert_eq!(cache.flow_node_cache[0].len(), 1);
    assert_eq!(cache.condition_flow_cache.len(), 1);
    assert_eq!(cache.condition_flow_cache[0].len(), 1);
    assert!(matches!(
        get_flow_node_cache_entry(&cache, 0, FlowId(10_000), true),
        Some(CacheEntry::Ready)
    ));
    assert!(matches!(
        get_condition_flow_cache_entry(&cache, 0, FlowId(20_000), false),
        Some(CacheEntry::Ready)
    ));
}

fn new_cache() -> LuaInferCache {
    LuaInferCache::new(FileId::new(3), CacheOptions::default())
}

fn var(position: u32) -> VarRefId {
    VarRefId::VarRef(LuaDeclId::new(FileId::new(3), position))
}

#[test]
fn slots_do_not_disturb_each_other() {
    let mut cache = new_cache();
    let known = || Some(CacheEntry::Cache(LuaType::Nil));
    *get_flow_node_cache_slot(&mut cache, 2, FlowId(5), true) = known();
    assert_eq!(cache.flow_node_cache.len(), 3);
    assert_eq!(cache.flow_node_cache[0].len(), 0);
    assert!(get_flow_node_cache_entry(&cache, 2, FlowId(5), false).is_none());
    assert!(get_flow_node_cache_entry(&cache, 2, FlowId(6), true).is_none());
    assert!(get_flow_node_cache_entry(&cache, 1, FlowId(5), true).is_none());
    assert!(get_flow_node_cache_entry(&cache, 9, FlowId(5), true).is_none());
    *get_flow_node_cache_slot(&mut cache, 2, FlowId(5), false) = Some(CacheEntry::Ready);
    assert!(matches!(
        get_flow_node_cache_entry(&cache, 2, FlowId(5), true),
        Some(CacheEntry::Cache(LuaType::Nil))
    ));
    assert!(matches!(
        get_flow_node_cache_entry(&cache, 2, FlowId(5), false),
        Some(CacheEntry::Ready)
    ));
    assert_eq!(cache.flow_node_cache[2].len(), 1);
    *get_flow_node_cache_slot(&mut cache, 2, FlowId(5), true) = None;
    assert!(get_flow_node_cache_entry(&cache, 2, FlowId(5), true).is_none());
}

#[test]
fn cache_grows_to_the_index_that_is_written() {
    let mut cache: Vec<Option<Arc<u32>>> = vec![None, Some(Arc::new(1))];
    assert!(get_dense_rc_entry(&cache, 4).is_none());
    let slot = get_dense_rc_slot(&mut cache, 4);
    assert!(slot.is_none());
    *slot = Some(Arc::new(9));
    let nine = Some(Arc::new(9));
    assert_eq!(cache, vec![None, Some(Arc::new(1)), None, None, nine.clone()]);
    assert_eq!(**get_dense_rc_entry(&cache, 4).unwrap(), 9);
    let slot = get_dense_rc_slot(&mut cache, 1);
    assert_eq!(*slot, Some(Arc::new(1)));
    *slot = None;
    assert_eq!(cache, vec![None, None, None, None, nine]);
}

#[test]
fn references_are_numbered_once() {
    let mut cache = new_cache();
    let path = VarRefId::Path { root: None, position: 1, path: 2 };
    let rooted = VarRefId::Path {
        root: Some(LuaDeclId::new(FileId::new(0), 0)),
        position: 1,
        path: 2,
    };
    assert_eq!(get_flow_cache_var_ref_id(&mut cache, &var(1)), 0);
    assert_eq!(get_flow_cache_var_ref_id(&mut cache, &path), 1);
    assert_eq!(get_flow_cache_var_ref_id(&mut cache, &rooted), 2);
    assert_eq!(get_flow_cache_var_ref_id(&mut cache, &var(1)), 0);
    assert_eq!(get_flow_cache_var_ref_id(&mut cache, &path), 1);
    assert_eq!(cache.next_flow_cache_var_ref_id, 3);
    assert_ne!(get_var_ref_key(&path), get_var_ref_key(&rooted));
}

#[test]
fn syntax_nodes_have_keys_of_their_own() {
    let id = |kind, start, end| LuaSyntaxId { kind, range: TextRange { start, end } };
    assert_eq!(get_syntax_key(id(7, 1, 2)), (7, 1, 2, 0, 0, 0));
    assert_ne!(get_syntax_key(id(7, 1, 2)), get_syntax_key(id(8, 1, 2)));
    assert_ne!(get_syntax_key(id(7, 1, 2)), get_syntax_key(id(7, 1, 3)));
}

#[test]
fn clear_forgets_all_but_stop_positions() {
    let mut cache = new_cache();
    cache.set_phase(LuaAnalysisPhase::Force);
    get_flow_cache_var_ref_id(&mut cache, &var(1));
    *get_flow_node_cache_slot(&mut cache, 0, FlowId(1), true) = Some(CacheEntry::Ready);
    set_branch_inputs(&mut cache, FlowId(4), Arc::new(vec![FlowId(1)]));
    cache.narrow_by_literal_stop_position_cache.insert((1, 2, 3, 0, 0, 0), ());
    cache.clear();
    assert_eq!(cache.get_file_id(), FileId::new(3));
    assert_eq!(cache.get_config().analysis_phase, LuaAnalysisPhase::Force);
    assert_eq!(cache.next_flow_cache_var_ref_id, 0);
    assert_eq!(cache.flow_node_cache.len(), 0);
    assert!(get_branch_inputs(&cache, FlowId(4)).is_none());
    assert_eq!(cache.narrow_by_literal_stop_position_cache.len(), 1);
    assert_eq!(get_flow_cache_var_ref_id(&mut cache, &var(2)), 0);
}

#[test]
fn branch_inputs_are_read_back() {
    let mut cache = new_cache();
    set_branch_inputs(&mut cache, FlowId(4), Arc::new(vec![FlowId(1), FlowId(2)]));
    assert_eq!(cache.flow_branch_inputs_cache.len(), 5);
    assert_eq!(*get_branch_inputs(&cache, FlowId(4)).unwrap(), vec![FlowId(1), FlowId(2)]);
    assert!(get_branch_inputs(&cache, FlowId(3)).is_none());
    assert!(get_branch_inputs(&cache, FlowId(5)).is_none());
}

#[test]
fn defaults() {
    assert_eq!(CacheOptions::default().analysis_phase, LuaAnalysisPhase::Ordered);
    let cache = FlowVarCache::default();
    assert_eq!(cache.type_cache.len(), 0);
    assert_eq!(cache.condition_cache.len(), 0);
    assert!(FlowMode::WithConditions.uses_conditions());
    assert!(!FlowMode::WithoutConditions.uses_conditions());
}

#[test]
fn keyed_map_keeps_the_last_value_of_each_key() {
    let mut map: KeyedMap<u32> = KeyedMap::new();
    let key = |n: u32| (n, 0, 0, 0, 0, n);
    for n in 0..100 {
        map.insert(key(n), n);
    }
    map.insert(key(7), 700);
    assert_eq!(map.len(), 100);
    assert_eq!(map.get(key(7)), Some(&700));
    assert_eq!(map.get(key(8)), Some(&8));
    assert_eq!(map.get((8, 0, 0, 0, 0, 9)), None);
    *map.slot(key(8), 0) += 1;
    *map.slot(key(200), 5) += 1;
    assert_eq!(map.get(key(8)), Some(&9));
    assert_eq!(map.get(key(200)), Some(&6));
    assert_eq!(map.len(), 101);
    map.clear();
    assert_eq!(map.len(), 0);
    assert_eq!(map.get(key(7)), None);
}
