//! When types are the same, what a cache remembers, and what text a file holds.


use vstd::prelude::*;
use vstd::utf8::{encode_utf8, encode_utf8_decode_utf8, encode_utf8_valid_utf8, valid_utf8};

use crate::cache::{
    dense_write_is_local, indexed_write_is_local, AssignmentView, CacheEntry, CacheOptions,
    CacheView, FlowConditionInfo, LuaInferCache,
};
use crate::condition_flow::ConditionFlowAction;
use crate::ids::{FileId, FlowId, VarRefId};
use crate::infer::{same_key, LuaMemberKey};
use crate::keyed::Key;
use crate::loader::{effective_encoding, is_file_text, labelled_decoding, utf8_text};
use crate::types::{same_type, LuaType};

verus! {

/// A number for each kind of type.
pub open spec fn kind_of(typ: LuaType) -> int {
    match typ {
        LuaType::Unknown => 0,
        LuaType::Nil => 1,
        LuaType::Never => 2,
        LuaType::BooleanConst(_) => 3,
        LuaType::StringConst(_) => 4,
        LuaType::IntegerConst(_) => 5,
        LuaType::FloatConst(_) => 6,
        LuaType::TableConst(_) => 7,
        LuaType::DocBooleanConst(_) => 8,
        LuaType::DocStringConst(_) => 9,
        LuaType::DocIntegerConst(_) => 10,
        LuaType::Object(_) => 11,
        LuaType::Def(_) => 12,
        LuaType::Ref(_) => 13,
        LuaType::Signature(_) => 14,
        LuaType::DocFunction(_) => 15,
        LuaType::Call(_) => 16,
        LuaType::Instance(_) => 17,
        LuaType::Array(_) => 18,
        LuaType::Union(_) => 19,
        LuaType::MultiLineUnion(_) => 20,
        LuaType::TypeGuard(_) => 21,
        LuaType::Other(_) => 22,
    }
}

/// The text of a text literal.
pub open spec fn text_of(typ: LuaType) -> Option<Seq<char>> {
    match typ {
        LuaType::StringConst(text) => Some(text@),
        LuaType::DocStringConst(text) => Some(text@),
        _ => None,
    }
}

/// Types of different kinds are not the same, and types without parts are the same where they are
/// equal; texts count by their characters.
pub proof fn types_are_told_apart(a: LuaType, b: LuaType)
    ensures
        same_type(a, b) ==> kind_of(a) == kind_of(b),
        kind_of(a) == kind_of(b) && text_of(a) is Some ==> same_type(a, b) == (text_of(a)
            == text_of(b)),
        kind_of(a) == kind_of(b) && kind_of(a) <= 14 && text_of(a) is None ==> same_type(a, b) == (a
            == b),
        a is Other && b is Other ==> same_type(a, b) == (a == b),
        a is Call && b is Call ==> same_type(a, b) == (*a->Call_0 == *b->Call_0),
{
}

/// Types with parts are the same where all of their parts are.
pub proof fn types_with_parts_are_told_apart(a: LuaType, b: LuaType)
    ensures
        a is DocFunction && b is DocFunction ==> same_type(a, b) == (a->DocFunction_0.shape
            == b->DocFunction_0.shape && same_type(a->DocFunction_0.ret, b->DocFunction_0.ret)),
        a is Instance && b is Instance ==> same_type(a, b) == (a->Instance_0.range
            == b->Instance_0.range && same_type(a->Instance_0.base, b->Instance_0.base)),
        a is Array && b is Array ==> same_type(a, b) == (a->Array_0.len == b->Array_0.len
            && same_type(a->Array_0.base, b->Array_0.base)),
        a is MultiLineUnion && b is MultiLineUnion ==> same_type(a, b) == same_type(
            *a->MultiLineUnion_0,
            *b->MultiLineUnion_0,
        ),
        a is TypeGuard && b is TypeGuard ==> same_type(a, b) == same_type(
            *a->TypeGuard_0,
            *b->TypeGuard_0,
        ),
        a is Union && b is Union ==> same_type(a, b) == (a->Union_0@.len() == b->Union_0@.len() && (
        forall|i: int|
            0 <= i < a->Union_0@.len() ==> same_type(#[trigger] a->Union_0@[i], b->Union_0@[i]))),
{
}

/// Keys are the same where they are the same name or number, or types that are the same.
pub proof fn keys_are_told_apart(x: u32, y: u32, a: LuaType, b: LuaType)
    ensures
        same_key(LuaMemberKey::Interned(x), LuaMemberKey::Interned(y)) == (x == y),
        same_key(LuaMemberKey::ExprType(a), LuaMemberKey::ExprType(b)) == same_type(a, b),
        !same_key(LuaMemberKey::Interned(x), LuaMemberKey::ExprType(b)),
        !same_key(LuaMemberKey::ExprType(a), LuaMemberKey::Interned(y)),
{
}

/// What was remembered of a reference at a node is read back for that reference, that node and that
/// kind of walk, and for no other.
pub proof fn remembered_type_is_read_back(
    cache: CacheView,
    number: u32,
    flow_id: FlowId,
    flag: bool,
    entry: Option<CacheEntry<LuaType>>,
    other_number: u32,
    other_id: FlowId,
    other_flag: bool,
)
    ensures
        ({
            let after = cache.with_node(number, flow_id, flag, entry);
            &&& after.node_entry(other_number, other_id, other_flag) == if other_number == number
                && other_id == flow_id && other_flag == flag {
                entry
            } else {
                cache.node_entry(other_number, other_id, other_flag)
            }
            &&& after == (CacheView { flow_node: after.flow_node, ..cache })
            &&& after.condition_entry(other_number, other_id, other_flag) == cache.condition_entry(
                other_number,
                other_id,
                other_flag,
            )
            &&& after.branch_inputs_of(other_id) == cache.branch_inputs_of(other_id)
            &&& after.condition_info_of(other_id) == cache.condition_info_of(other_id)
            &&& after.assignment_info_of(other_id) == cache.assignment_info_of(other_id)
        }),
{
    dense_write_is_local(
        cache.flow_node,
        number as nat,
        flow_id.0,
        flag,
        entry,
        other_number as nat,
        other_id.0,
        other_flag,
    );
}

/// What a condition was found to say is read back for that reference, that node and that outcome,
/// and for no other.
pub proof fn remembered_action_is_read_back(
    cache: CacheView,
    number: u32,
    flow_id: FlowId,
    flag: bool,
    entry: Option<CacheEntry<ConditionFlowAction>>,
    other_number: u32,
    other_id: FlowId,
    other_flag: bool,
)
    ensures
        ({
            let after = cache.with_condition(number, flow_id, flag, entry);
            &&& after.condition_entry(other_number, other_id, other_flag) == if other_number
                == number && other_id == flow_id && other_flag == flag {
                entry
            } else {
                cache.condition_entry(other_number, other_id, other_flag)
            }
            &&& after == (CacheView { condition_flow: after.condition_flow, ..cache })
            &&& after.node_entry(other_number, other_id, other_flag) == cache.node_entry(
                other_number,
                other_id,
                other_flag,
            )
            &&& after.branch_inputs_of(other_id) == cache.branch_inputs_of(other_id)
            &&& after.condition_info_of(other_id) == cache.condition_info_of(other_id)
            &&& after.assignment_info_of(other_id) == cache.assignment_info_of(other_id)
        }),
{
    dense_write_is_local(
        cache.condition_flow,
        number as nat,
        flow_id.0,
        flag,
        entry,
        other_number as nat,
        other_id.0,
        other_flag,
    );
}

/// What was found out about a node is read back for that node, and for no other.
pub proof fn remembered_info_is_read_back(
    cache: CacheView,
    flow_id: FlowId,
    other_id: FlowId,
    inputs: Seq<FlowId>,
    condition: FlowConditionInfo,
    assignment: AssignmentView,
    number: u32,
    flag: bool,
)
    ensures
        ({
            let after = cache.with_branch_inputs(flow_id, inputs);
            &&& after.branch_inputs_of(other_id) == if other_id == flow_id {
                Some(inputs)
            } else {
                cache.branch_inputs_of(other_id)
            }
            &&& after == (CacheView { branch_inputs: after.branch_inputs, ..cache })
            &&& after.condition_info_of(other_id) == cache.condition_info_of(other_id)
            &&& after.assignment_info_of(other_id) == cache.assignment_info_of(other_id)
            &&& after.node_entry(number, other_id, flag) == cache.node_entry(number, other_id, flag)
        }),
        ({
            let after = cache.with_condition_info(flow_id, condition);
            &&& after.condition_info_of(other_id) == if other_id == flow_id {
                Some(condition)
            } else {
                cache.condition_info_of(other_id)
            }
            &&& after == (CacheView { condition_info: after.condition_info, ..cache })
            &&& after.branch_inputs_of(other_id) == cache.branch_inputs_of(other_id)
            &&& after.assignment_info_of(other_id) == cache.assignment_info_of(other_id)
            &&& after.node_entry(number, other_id, flag) == cache.node_entry(number, other_id, flag)
        }),
        ({
            let after = cache.with_assignment_info(flow_id, assignment);
            &&& after.assignment_info_of(other_id) == if other_id == flow_id {
                Some(assignment)
            } else {
                cache.assignment_info_of(other_id)
            }
            &&& after == (CacheView { assignment_info: after.assignment_info, ..cache })
            &&& after.branch_inputs_of(other_id) == cache.branch_inputs_of(other_id)
            &&& after.condition_info_of(other_id) == cache.condition_info_of(other_id)
            &&& after.node_entry(number, other_id, flag) == cache.node_entry(number, other_id, flag)
        }),
{
    indexed_write_is_local(
        cache.branch_inputs,
        flow_id.0 as nat,
        Some(inputs),
        other_id.0 as nat,
    );
    indexed_write_is_local(
        cache.condition_info,
        flow_id.0 as nat,
        Some(condition),
        other_id.0 as nat,
    );
    indexed_write_is_local(
        cache.assignment_info,
        flow_id.0 as nat,
        Some(assignment),
        other_id.0 as nat,
    );
}

/// A new number is the next one, and giving it out changes nothing that is remembered.
pub proof fn numbering_changes_nothing_else(
    cache: CacheView,
    var_ref_id: VarRefId,
    number: u32,
    flow_id: FlowId,
    flag: bool,
)
    ensures
        ({
            let (given, after) = cache.number_var_ref(var_ref_id);
            &&& given <= cache.next_var_ref_id || after == cache
            &&& after == (CacheView {
                var_ref_ids: after.var_ref_ids,
                next_var_ref_id: after.next_var_ref_id,
                ..cache
            })
            &&& after.node_entry(number, flow_id, flag) == cache.node_entry(number, flow_id, flag)
            &&& after.condition_entry(number, flow_id, flag) == cache.condition_entry(
                number,
                flow_id,
                flag,
            )
        }),
{
}

/// A cache that is new, or cleared, remembers nothing but where literal narrowing stops.
pub proof fn blank_cache_remembers_nothing(
    file_id: FileId,
    config: CacheOptions,
    narrow_stop: Map<Key, ()>,
    number: u32,
    flow_id: FlowId,
    flag: bool,
)
    ensures
        ({
            let blank = LuaInferCache::blank(file_id, config, narrow_stop);
            &&& blank.node_entry(number, flow_id, flag) is None
            &&& blank.condition_entry(number, flow_id, flag) is None
            &&& blank.branch_inputs_of(flow_id) is None
            &&& blank.condition_info_of(flow_id) is None
            &&& blank.assignment_info_of(flow_id) is None
            &&& blank.expr_cache.len() == 0
            &&& blank.call_cache.len() == 0
            &&& blank.index_ref_origin.len() == 0
            &&& blank.expr_var_ref_id.len() == 0
            &&& blank.var_ref_ids.len() == 0
            &&& blank.flow_vars.len() == 0
            &&& blank.next_var_ref_id == 0
            &&& blank.narrow_stop == narrow_stop
            &&& blank.file_id == file_id
            &&& blank.config == config
        }),
{
}

/// The encoding that was asked for counts; where none was, it is UTF-8.
pub proof fn encoding_that_was_asked_for_counts(encoding: &str)
    ensures
        effective_encoding(Some(encoding)) == encoding@,
        effective_encoding(None) == "utf-8"@,
{
}

/// A text that is written as UTF-8 is read back, with a byte order mark before it or without, as
/// long as the text itself does not begin with the mark.
pub proof fn utf8_text_is_read_back(text: Seq<char>)
    ensures
        utf8_text(seq![0xEFu8, 0xBBu8, 0xBFu8] + encode_utf8(text)) == Some(text),
        !(encode_utf8(text).len() >= 3 && encode_utf8(text).take(3) == seq![
            0xEFu8,
            0xBBu8,
            0xBFu8,
        ]) ==> utf8_text(encode_utf8(text)) == Some(text),
{
    encode_utf8_valid_utf8(text);
    encode_utf8_decode_utf8(text);
    let bytes = encode_utf8(text);
    let marked = seq![0xEFu8, 0xBBu8, 0xBFu8] + bytes;
    assert(marked.skip(3) =~= bytes);
    assert(marked[0] == 0xEF && marked[1] == 0xBB && marked[2] == 0xBF);
    if bytes.len() >= 3 && bytes[0] == 0xEF && bytes[1] == 0xBB && bytes[2] == 0xBF {
        assert(bytes.take(3) =~= seq![0xEFu8, 0xBBu8, 0xBFu8]);
    }
}

/// Bytes that are not UTF-8 are no text.
pub proof fn other_bytes_are_no_text(content: Seq<u8>)
    requires
        !valid_utf8(content),
        !(content.len() >= 3 && content.take(3) == seq![0xEFu8, 0xBBu8, 0xBFu8]),
    ensures
        utf8_text(content) is None,
        utf8_text(seq![0xEFu8, 0xBBu8, 0xBFu8] + content) is None,
{
    let marked = seq![0xEFu8, 0xBBu8, 0xBFu8] + content;
    assert(marked.skip(3) =~= content);
    assert(marked[0] == 0xEF && marked[1] == 0xBB && marked[2] == 0xBF);
    if content.len() >= 3 && content[0] == 0xEF && content[1] == 0xBB && content[2] == 0xBF {
        assert(content.take(3) =~= seq![0xEFu8, 0xBBu8, 0xBFu8]);
    }
}

/// A file holds one text at most.  Under a label that no encoding has it holds what it holds as
/// UTF-8, and where a byte cannot be decoded it holds none.
pub proof fn file_holds_one_text(
    content: Seq<u8>,
    encoding: Seq<char>,
    text: Option<Seq<char>>,
    other: Option<Seq<char>>,
)
    requires
        is_file_text(content, encoding, text),
    ensures
        is_file_text(content, encoding, other) ==> text == other,
        encoding == "utf-8"@ || labelled_decoding(encoding, content) is None ==> text == utf8_text(
            content,
        ),
        labelled_decoding(encoding, content) matches Some((decoded, has_error)) ==> text
            == if has_error {
            None
        } else {
            Some(decoded)
        },
{
}

} // verus!
