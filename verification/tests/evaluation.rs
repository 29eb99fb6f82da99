//! Tests of the evaluator: the scenarios of the language, the shadowing
//! rule, and each error the evaluator can report.

use causal_relation_graphs::ast::{
    AddEffect, BindKeywords, ContextEffect, ContextLabel, Effect, Expr, Node, Op, ScopeInnerValue,
    ScopeValue, Slice, SnapshotValue, SnapshotValueItem, SnapshotValueItemValue, StateLabel, Stmt,
    LetExpr, Value, ValueSymbol, ValueSymbolName, ValueSymbolReference, IntLiteral,
    TransitionEffect,
};
use causal_relation_graphs::error::CrgError;
use causal_relation_graphs::eval::{eval_apply, eval_compose, eval_push, eval_reduce};
use causal_relation_graphs::execute_ast;
use causal_relation_graphs::vm::Vm;

fn label(s: &str) -> ContextLabel {
    ContextLabel(s.to_string())
}

fn add(n: i64) -> Value {
    Value::Effect(Effect::AddEffect(AddEffect(n)))
}

fn lit(v: Value) -> Expr {
    Expr::Id(v)
}

fn op(o: Op, l: Expr, r: Expr) -> Expr {
    Expr::Op(o, Box::new(l), Box::new(r))
}

fn reference(s: &str) -> Expr {
    Expr::Reference(ValueSymbolReference(ValueSymbolName(s.to_string())))
}

fn symbol(s: &str, kind: BindKeywords) -> ValueSymbol {
    ValueSymbol { name: ValueSymbolName(s.to_string()), kind }
}

fn assign(s: &str, kind: BindKeywords, e: Expr) -> ScopeInnerValue {
    ScopeInnerValue::Stmt(Stmt::LetStmt(LetExpr::Assign { symbol: symbol(s, kind), expr: e }))
}

fn slice(items: Vec<ContextEffect>) -> Value {
    Value::Slice(Slice(items))
}

fn snapshot(items: Vec<(&str, SnapshotValueItemValue)>) -> Value {
    Value::Snapshot(SnapshotValue(
        items.into_iter().map(|(l, v)| SnapshotValueItem(label(l), v)).collect(),
    ))
}

fn int_entry(n: i64) -> SnapshotValueItemValue {
    SnapshotValueItemValue::Int(IntLiteral(n))
}

fn eval_scope(items: Vec<ScopeInnerValue>) -> Result<Value, CrgError> {
    let mut vm = Vm::new();
    ScopeValue(items).eval(&mut vm)
}

#[test]
fn composing_two_additions_adds_their_payloads() {
    let result = eval_scope(vec![ScopeInnerValue::Expr(op(
        Op::Compose,
        lit(add(1)),
        lit(add(1)),
    ))]);
    assert_eq!(result, Ok(add(2)));
}

#[test]
fn composing_the_identity_with_the_empty_marker_is_empty() {
    let result = eval_scope(vec![ScopeInnerValue::Expr(op(
        Op::Compose,
        lit(Value::Id),
        lit(Value::Empty),
    ))]);
    assert_eq!(result, Ok(Value::Empty));
}

#[test]
fn reducing_a_bound_slice_onto_a_snapshot_updates_the_entry() {
    let result = eval_scope(vec![
        assign(
            "a",
            BindKeywords::Slice,
            lit(slice(vec![ContextEffect(
                label("ctx"),
                Effect::AddEffect(AddEffect(1)),
            )])),
        ),
        ScopeInnerValue::Expr(op(
            Op::Reduce,
            reference("a"),
            lit(snapshot(vec![("ctx", int_entry(5))])),
        )),
    ]);
    assert_eq!(result, Ok(snapshot(vec![("ctx", int_entry(6))])));
}

#[test]
fn two_effects_on_one_label_compose_before_applying() {
    let result = eval_scope(vec![ScopeInnerValue::Expr(op(
        Op::Reduce,
        lit(slice(vec![
            ContextEffect(label("a"), Effect::AddEffect(AddEffect(1))),
            ContextEffect(label("a"), Effect::AddEffect(AddEffect(1))),
        ])),
        lit(snapshot(vec![("a", int_entry(0))])),
    ))]);
    assert_eq!(result, Ok(snapshot(vec![("a", int_entry(2))])));
}

#[test]
fn an_empty_document_evaluates_to_empty_without_an_error() {
    let result = execute_ast(&Node::Root(ScopeValue(vec![])));
    assert_eq!(result, Ok("\"empty\"".to_string()));
}

#[test]
fn an_assignment_in_a_nested_scope_shadows_the_outer_binding() {
    let result = eval_scope(vec![
        assign("x", BindKeywords::Effect, lit(add(1))),
        ScopeInnerValue::Stmt(Stmt::ScopeStmt(ScopeValue(vec![assign(
            "x",
            BindKeywords::Effect,
            lit(add(2)),
        )]))),
        ScopeInnerValue::Expr(reference("x")),
    ]);
    assert_eq!(result, Ok(add(1)));
}

#[test]
fn a_name_bound_twice_in_one_frame_is_a_duplicate_binding() {
    let result = eval_scope(vec![
        ScopeInnerValue::Stmt(Stmt::LetStmt(LetExpr::Bind(symbol("x", BindKeywords::Effect)))),
        ScopeInnerValue::Stmt(Stmt::LetStmt(LetExpr::Bind(symbol("x", BindKeywords::Slice)))),
    ]);
    assert_eq!(result, Err(CrgError::DuplicateBinding("x".to_string())));
}

#[test]
fn a_reference_no_frame_binds_is_fatal() {
    let result = eval_scope(vec![ScopeInnerValue::Expr(reference("nope"))]);
    assert_eq!(result, Err(CrgError::UnresolvedReference("nope".to_string())));
}

#[test]
fn composing_two_slices_is_left_open() {
    let result = eval_scope(vec![ScopeInnerValue::Expr(op(
        Op::Compose,
        lit(slice(vec![])),
        lit(slice(vec![])),
    ))]);
    assert_eq!(result, Err(CrgError::Unimplemented));
}

#[test]
fn an_addition_leaving_the_machine_range_is_an_overflow() {
    let result = eval_scope(vec![ScopeInnerValue::Expr(op(
        Op::Compose,
        lit(add(i64::MAX)),
        lit(add(1)),
    ))]);
    assert_eq!(result, Err(CrgError::IntegerOverflow));
}

#[test]
fn a_value_outside_its_declared_kind_is_rejected() {
    let result = eval_scope(vec![assign("a", BindKeywords::Effect, lit(slice(vec![])))]);
    assert_eq!(result, Err(CrgError::KindMismatch("a".to_string())));
}

#[test]
fn the_identity_is_neutral_for_values_of_every_kind() {
    let sl = slice(vec![ContextEffect(label("k"), Effect::Id)]);
    assert_eq!(eval_compose(&Value::Id, &sl), Ok(sl));
    let snap = snapshot(vec![("k", int_entry(3))]);
    assert_eq!(eval_compose(&snap, &Value::Id), Ok(snap));
}

#[test]
fn the_right_transition_supersedes_the_left_one() {
    let x = Value::Effect(Effect::TransitionEffect(TransitionEffect::StateLabel(
        StateLabel::Label("x".to_string()),
    )));
    let y = Value::Effect(Effect::TransitionEffect(TransitionEffect::StateLabel(
        StateLabel::Label("y".to_string()),
    )));
    assert_eq!(eval_compose(&x, &y), Ok(y));
}

#[test]
fn pushing_appends_and_leaves_the_operand_unchanged() {
    let original = slice(vec![ContextEffect(label("a"), Effect::Id)]);
    let ce = Value::ContextEffect(ContextEffect(label("b"), Effect::AddEffect(AddEffect(2))));
    let pushed = eval_push(&original, &ce);
    assert_eq!(
        pushed,
        slice(vec![
            ContextEffect(label("a"), Effect::Id),
            ContextEffect(label("b"), Effect::AddEffect(AddEffect(2))),
        ])
    );
    assert_eq!(original, slice(vec![ContextEffect(label("a"), Effect::Id)]));
}

#[test]
fn applying_an_effect_to_a_label_builds_a_context_effect() {
    let result = eval_apply(&Value::Context(label("c")), &add(4));
    assert_eq!(
        result,
        Value::ContextEffect(ContextEffect(label("c"), Effect::AddEffect(AddEffect(4))))
    );
}

#[test]
fn applying_anything_else_is_absorbed_into_empty() {
    assert_eq!(eval_apply(&add(4), &add(4)), Value::Empty);
    assert_eq!(eval_push(&Value::Empty, &add(1)), Value::Empty);
    assert_eq!(eval_reduce(&Value::Id, &Value::Empty), Ok(Value::Empty));
}

#[test]
fn reducing_with_the_identity_effect_keeps_every_entry() {
    let sl = Slice(vec![ContextEffect(label("l"), Effect::Id)]);
    let snap = SnapshotValue(vec![
        SnapshotValueItem(label("l"), int_entry(7)),
        SnapshotValueItem(label("m"), SnapshotValueItemValue::StateLabel(StateLabel::Label(
            "s".to_string(),
        ))),
    ]);
    let result = sl.apply(&snap);
    assert_eq!(result, Ok(snap));
}

#[test]
fn labels_absent_from_the_slice_are_carried_through() {
    let sl = Slice(vec![ContextEffect(label("a"), Effect::AddEffect(AddEffect(10)))]);
    let snap = SnapshotValue(vec![
        SnapshotValueItem(label("a"), int_entry(1)),
        SnapshotValueItem(label("b"), int_entry(2)),
    ]);
    let result = sl.apply(&snap);
    assert_eq!(
        result,
        Ok(SnapshotValue(vec![
            SnapshotValueItem(label("a"), int_entry(11)),
            SnapshotValueItem(label("b"), int_entry(2)),
        ]))
    );
}

#[test]
fn a_transition_on_a_state_entry_is_left_open() {
    let sl = Slice(vec![ContextEffect(
        label("s"),
        Effect::TransitionEffect(TransitionEffect::StateLabel(StateLabel::Label(
            "t".to_string(),
        ))),
    )]);
    let snap = SnapshotValue(vec![SnapshotValueItem(
        label("s"),
        SnapshotValueItemValue::StateLabel(StateLabel::Label("u".to_string())),
    )]);
    assert_eq!(sl.apply(&snap), Err(CrgError::Unimplemented));
}

#[test]
fn a_label_new_to_the_snapshot_is_appended() {
    let snap = SnapshotValue(vec![SnapshotValueItem(label("a"), int_entry(1))]);
    let grown = snap.insert(&label("b"), &int_entry(9));
    assert_eq!(
        grown,
        SnapshotValue(vec![
            SnapshotValueItem(label("a"), int_entry(1)),
            SnapshotValueItem(label("b"), int_entry(9)),
        ])
    );
    assert_eq!(snap.find_by_label(&label("b")), None);
    assert_eq!(
        grown.find_by_label(&label("b")),
        Some(SnapshotValueItem(label("b"), int_entry(9)))
    );
}

#[test]
fn execute() {
    let text_as_tree = Node::Root(ScopeValue(vec![
        assign(
            "a",
            BindKeywords::Snapshot,
            lit(snapshot(vec![
                ("a", int_entry(1)),
                ("d", SnapshotValueItemValue::StateLabel(StateLabel::Label("a".to_string()))),
            ])),
        ),
        assign("b", BindKeywords::Slice, lit(slice(vec![]))),
        ScopeInnerValue::Expr(op(Op::Push, lit(slice(vec![])), reference("a"))),
        ScopeInnerValue::Expr(op(
            Op::Push,
            lit(slice(vec![])),
            lit(Value::ContextEffect(ContextEffect(
                label("a"),
                Effect::AddEffect(AddEffect(1)),
            ))),
        )),
        assign(
            "aa",
            BindKeywords::ContextEffect,
            op(Op::Apply, reference("a"), lit(add(1))),
        ),
        ScopeInnerValue::Expr(op(
            Op::Reduce,
            lit(slice(vec![ContextEffect(label("a"), Effect::AddEffect(AddEffect(10)))])),
            lit(snapshot(vec![("a", int_entry(1))])),
        )),
    ]));
    let result = execute_ast(&text_as_tree);
    assert!(result.is_ok());
}
