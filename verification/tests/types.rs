use std::sync::Arc;

use lua_flow::assignment_expr::{is_exact_assignment_expr_type, preserves_assignment_expr_type};
use lua_flow::cast_flow::{get_cast_action, CastAction};
use lua_flow::condition_flow::call_flow::needs_antecedent_same_var_colon_lookup;
use lua_flow::condition_flow::{always_literal_equal, InferConditionFlow};
use lua_flow::ids::{FileId, InFiled, LuaSignatureId, TextRange};
use lua_flow::syntax::BinaryOperator;
use lua_flow::types::{LuaArrayLen, LuaArrayType, LuaFunctionType, LuaInstanceType, LuaType};

fn text(s: &str) -> LuaType {
    LuaType::StringConst(Arc::new(s.to_string()))
}

fn doc_text(s: &str) -> LuaType {
    LuaType::DocStringConst(Arc::new(s.to_string()))
}

fn union(types: Vec<LuaType>) -> LuaType {
    LuaType::Union(Arc::new(types))
}

fn table() -> LuaType {
    LuaType::TableConst(InFiled::new(FileId::new(1), TextRange { start: 1, end: 9 }))
}

#[test]
fn literals_are_equal_by_value() {
    assert!(always_literal_equal(&text("a"), &doc_text("a")));
    assert!(!always_literal_equal(&text("a"), &doc_text("b")));
    assert!(always_literal_equal(&LuaType::BooleanConst(true), &LuaType::DocBooleanConst(true)));
    assert!(always_literal_equal(&LuaType::IntegerConst(-4), &LuaType::DocIntegerConst(-4)));
    assert!(!always_literal_equal(&LuaType::IntegerConst(1), &text("1")));
    assert!(always_literal_equal(&LuaType::Other(3), &LuaType::Other(3)));
    assert!(!always_literal_equal(&LuaType::Other(3), &LuaType::Nil));
}

#[test]
fn unions_are_literally_equal_member_by_member() {
    let same = union(vec![text("a"), doc_text("a")]);
    let mixed = union(vec![text("a"), text("b")]);
    assert!(always_literal_equal(&same, &text("a")));
    assert!(always_literal_equal(&text("a"), &same));
    assert!(always_literal_equal(&same, &same));
    assert!(!always_literal_equal(&mixed, &text("a")));
    assert!(!always_literal_equal(&text("a"), &mixed));
    assert!(!always_literal_equal(&mixed, &mixed));
    assert!(always_literal_equal(&union(vec![]), &text("a")));
}

#[test]
fn same_types_are_equal_part_for_part() {
    let f = |shape, ret| LuaType::DocFunction(Arc::new(LuaFunctionType { shape, ret }));
    assert_eq!(f(1, text("a")), f(1, text("a")));
    assert_ne!(f(1, text("a")), f(2, text("a")));
    assert_ne!(f(1, text("a")), f(1, text("b")));
    let array = |len| LuaType::Array(Arc::new(LuaArrayType { base: LuaType::Nil, len }));
    assert_eq!(array(LuaArrayLen::Max(3)), array(LuaArrayLen::Max(3)));
    assert_ne!(array(LuaArrayLen::Max(3)), array(LuaArrayLen::Unbounded));
    let range = InFiled::new(FileId::new(1), TextRange { start: 1, end: 9 });
    let instance = |base| LuaType::Instance(Arc::new(LuaInstanceType { base, range }));
    assert_eq!(instance(LuaType::Unknown), instance(LuaType::Unknown));
    assert_ne!(instance(LuaType::Unknown), instance(LuaType::Nil));
    assert_ne!(union(vec![text("a")]), union(vec![text("a"), text("a")]));
    assert_ne!(text("a"), doc_text("a"));
    assert_eq!(table(), table());
    assert_eq!(
        LuaType::TypeGuard(Arc::new(union(vec![LuaType::Nil]))),
        LuaType::TypeGuard(Arc::new(union(vec![LuaType::Nil])))
    );
}

#[test]
fn exact_types_are_those_of_literals() {
    assert!(is_exact_assignment_expr_type(&LuaType::Nil));
    assert!(is_exact_assignment_expr_type(&text("a")));
    assert!(is_exact_assignment_expr_type(&LuaType::FloatConst(0)));
    assert!(is_exact_assignment_expr_type(&LuaType::DocBooleanConst(true)));
    assert!(!is_exact_assignment_expr_type(&table()));
    assert!(!is_exact_assignment_expr_type(&LuaType::Object(1)));
    assert!(!is_exact_assignment_expr_type(&LuaType::Other(1)));
    let exact = union(vec![LuaType::Nil, text("a")]);
    assert!(is_exact_assignment_expr_type(&exact));
    assert!(is_exact_assignment_expr_type(&LuaType::MultiLineUnion(Arc::new(exact.clone()))));
    assert!(is_exact_assignment_expr_type(&LuaType::TypeGuard(Arc::new(exact))));
    let inexact = union(vec![LuaType::Nil, LuaType::Other(1)]);
    assert!(!is_exact_assignment_expr_type(&inexact));
}

#[test]
fn table_literals_are_preserved_though_not_exact() {
    assert!(preserves_assignment_expr_type(&table()));
    assert!(preserves_assignment_expr_type(&LuaType::Object(1)));
    assert!(preserves_assignment_expr_type(&text("a")));
    assert!(!preserves_assignment_expr_type(&LuaType::Unknown));
}

#[test]
fn only_several_candidates_need_the_object() {
    let signature = LuaType::Signature(LuaSignatureId { file_id: FileId::new(1), position: 2 });
    assert!(needs_antecedent_same_var_colon_lookup(&union(vec![
        LuaType::Nil,
        signature.clone()
    ])));
    assert!(!needs_antecedent_same_var_colon_lookup(&union(vec![signature.clone()])));
    assert!(!needs_antecedent_same_var_colon_lookup(&union(vec![LuaType::Nil, LuaType::Unknown])));
    assert!(!needs_antecedent_same_var_colon_lookup(&signature));
    assert!(!needs_antecedent_same_var_colon_lookup(&LuaType::MultiLineUnion(Arc::new(
        signature
    ))));
}

#[test]
fn false_conditions_turn_casts_around() {
    let add = Some(BinaryOperator::OpAdd);
    let sub = Some(BinaryOperator::OpSub);
    let when_true = InferConditionFlow::TrueCondition;
    let when_false = InferConditionFlow::FalseCondition;
    assert_eq!(get_cast_action(add, when_true), CastAction::Add);
    assert_eq!(get_cast_action(sub, when_true), CastAction::Remove);
    assert_eq!(get_cast_action(None, when_true), CastAction::Force);
    assert_eq!(get_cast_action(add, when_false), CastAction::Remove);
    assert_eq!(get_cast_action(sub, when_false), CastAction::Add);
    assert_eq!(get_cast_action(None, when_false), CastAction::Remove);
}
