//! Tests of the serializer's stable textual encoding, and of the error
//! descriptions.

use causal_relation_graphs::ast::{
    AddEffect, BindKeywords, ContextEffect, ContextLabel, Effect, Expr, LetExpr, Node,
    ScopeInnerValue, ScopeValue, SnapshotValue, SnapshotValueItem, SnapshotValueItemValue,
    StateLabel, Stmt, Value, ValueSymbol, ValueSymbolName, IntLiteral, Slice,
};
use causal_relation_graphs::error::CrgError;
use causal_relation_graphs::prose;

#[test]
fn the_markers_render_as_plain_strings() {
    assert_eq!(Value::Id.to_json(), "\"id\"");
    assert_eq!(Value::Empty.to_json(), "\"empty\"");
}

#[test]
fn an_addition_renders_with_its_payload() {
    let v = Value::Effect(Effect::AddEffect(AddEffect(3)));
    assert_eq!(v.to_json(), "{\"effect\":{\"addEffect\":3}}");
}

#[test]
fn a_negative_payload_keeps_its_sign() {
    let v = Value::Effect(Effect::AddEffect(AddEffect(-12)));
    assert_eq!(v.to_json(), "{\"effect\":{\"addEffect\":-12}}");
    let least = Value::Effect(Effect::AddEffect(AddEffect(i64::MIN)));
    assert_eq!(least.to_json(), "{\"effect\":{\"addEffect\":-9223372036854775808}}");
}

#[test]
fn a_snapshot_renders_its_entries_in_order() {
    let v = Value::Snapshot(SnapshotValue(vec![
        SnapshotValueItem(
            ContextLabel("a".to_string()),
            SnapshotValueItemValue::Int(IntLiteral(1)),
        ),
        SnapshotValueItem(
            ContextLabel("b".to_string()),
            SnapshotValueItemValue::StateLabel(StateLabel::Label("s".to_string())),
        ),
    ]));
    assert_eq!(
        v.to_json(),
        "{\"snapshot\":[[\"a\",{\"Int\":1}],[\"b\",{\"StateLabel\":{\"Label\":\"s\"}}]]}"
    );
}

#[test]
fn a_slice_renders_its_effects_in_order() {
    let v = Value::Slice(Slice(vec![
        ContextEffect(ContextLabel("a".to_string()), Effect::Id),
        ContextEffect(ContextLabel("b".to_string()), Effect::AddEffect(AddEffect(2))),
    ]));
    assert_eq!(v.to_json(), "{\"slice\":[[\"a\",\"id\"],[\"b\",{\"addEffect\":2}]]}");
}

#[test]
fn special_characters_in_a_label_are_escaped() {
    let v = Value::Context(ContextLabel("a\"b\\c\nd".to_string()));
    assert_eq!(v.to_json(), "{\"context\":\"a\\\"b\\\\c\\nd\"}");
}

#[test]
fn a_document_renders_as_the_array_of_its_items() {
    let doc = Node::Root(ScopeValue(vec![ScopeInnerValue::Stmt(Stmt::LetStmt(
        LetExpr::Bind(ValueSymbol {
            name: ValueSymbolName("a".to_string()),
            kind: BindKeywords::Slice,
        }),
    ))]));
    assert_eq!(
        doc.to_json(),
        Ok("[{\"LetStmt\":{\"Bind\":{\"name\":\"a\",\"kind\":\"Slice\"}}}]".to_string())
    );
}

#[test]
fn a_reference_expression_renders_with_its_name() {
    let doc = Node::Root(ScopeValue(vec![ScopeInnerValue::Expr(Expr::Reference(
        causal_relation_graphs::ast::ValueSymbolReference(ValueSymbolName("x".to_string())),
    ))]));
    assert_eq!(doc.to_json(), Ok("[{\"Reference\":\"x\"}]".to_string()));
}

#[test]
fn each_error_describes_itself() {
    assert_eq!(
        CrgError::DuplicateBinding("x".to_string()).message(),
        "duplicate binding: x"
    );
    assert_eq!(
        CrgError::UnresolvedReference("y".to_string()).message(),
        "unresolved reference: y"
    );
    assert_eq!(
        CrgError::MalformedNode("expr".to_string()).message(),
        "malformed node for rule expr"
    );
    assert_eq!(
        CrgError::UnsupportedConstruct("widget".to_string()).message(),
        "unsupported construct: widget"
    );
    assert_eq!(
        CrgError::KindMismatch("a".to_string()).message(),
        "value does not fit the declared kind of a"
    );
    assert_eq!(
        CrgError::Unimplemented.message(),
        "operation not implemented for this pairing"
    );
    assert_eq!(CrgError::IntegerOverflow.message(), "integer overflow");
    assert_eq!(
        CrgError::ParseFailure("boom".to_string()).message(),
        "parse failure: boom"
    );
}

#[test]
fn transforming_a_prose_tree_appends_to_every_value() {
    let tree = prose::Node::Parent(prose::Parent {
        name: "document".to_string(),
        children: vec![
            prose::Node::Value(prose::Value {
                name: "text".to_string(),
                value: "one".to_string(),
            }),
            prose::Node::Token(prose::Token { name: "dot".to_string() }),
            prose::Node::Empty,
        ],
    });
    let rewritten = causal_relation_graphs::prose::transform_text(&tree, "a");
    assert_eq!(
        rewritten,
        prose::Node::Parent(prose::Parent {
            name: "document".to_string(),
            children: vec![
                prose::Node::Value(prose::Value {
                    name: "text".to_string(),
                    value: "onea".to_string(),
                }),
                prose::Node::Token(prose::Token { name: "dot".to_string() }),
                prose::Node::Empty,
            ],
        })
    );
    assert!(matches!(tree, prose::Node::Parent(_)));
}

#[test]
fn the_readable_form_carries_a_document_header() {
    let doc = Node::Root(ScopeValue(vec![]));
    assert_eq!(doc.to_yaml(), Ok("---\n[]".to_string()));
}
