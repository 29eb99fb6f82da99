//! Tests of the translator from concrete parse trees to the typed tree.

use causal_relation_graphs::ast::{
    AddEffect, BindKeywords, Effect, Expr, LetExpr, Node, Op, ScopeInnerValue, ScopeValue, Stmt,
    Value, ValueSymbol, ValueSymbolName,
};
use causal_relation_graphs::error::CrgError;
use causal_relation_graphs::parser::{ParseNode, RuleTag};
use causal_relation_graphs::{parse, run};

fn node(rule: RuleTag, text: &str, children: Vec<ParseNode>) -> ParseNode {
    ParseNode { rule, text: text.to_string(), children }
}

fn document(items: Vec<ParseNode>) -> ParseNode {
    node(
        RuleTag::Document,
        "",
        vec![node(RuleTag::Scope, "", vec![node(RuleTag::Scope, "", items)])],
    )
}

fn add_term(digits: &str) -> ParseNode {
    node(
        RuleTag::Term,
        "",
        vec![node(
            RuleTag::AddEffectLiteral,
            "",
            vec![node(RuleTag::IntLiteral, digits, vec![])],
        )],
    )
}

fn compose_op() -> ParseNode {
    node(RuleTag::Op, "", vec![node(RuleTag::ComposeOp, "compose", vec![])])
}

#[test]
fn an_empty_document_translates_to_an_empty_scope() {
    let tree = document(vec![]);
    assert_eq!(parse(&tree), Ok(Node::Root(ScopeValue(vec![]))));
}

#[test]
fn a_composition_of_two_additions_translates_and_runs() {
    let tree = document(vec![node(
        RuleTag::Expr,
        "",
        vec![add_term("1"), compose_op(), add_term("1")],
    )]);
    let ast = parse(&tree).unwrap();
    assert_eq!(
        ast,
        Node::Root(ScopeValue(vec![ScopeInnerValue::Expr(Expr::Op(
            Op::Compose,
            Box::new(Expr::Id(Value::Effect(Effect::AddEffect(AddEffect(1))))),
            Box::new(Expr::Id(Value::Effect(Effect::AddEffect(AddEffect(1))))),
        ))]))
    );
    assert_eq!(run(&tree), Ok("{\"effect\":{\"addEffect\":2}}".to_string()));
}

#[test]
fn a_let_binding_translates_with_its_kind() {
    let tree = document(vec![node(
        RuleTag::Stmt,
        "",
        vec![node(
            RuleTag::LetStmt,
            "",
            vec![node(
                RuleTag::BindExpr,
                "",
                vec![
                    node(RuleTag::VarSymbol, "a", vec![]),
                    node(RuleTag::BindKeyword, "Slice", vec![]),
                ],
            )],
        )],
    )]);
    assert_eq!(
        parse(&tree),
        Ok(Node::Root(ScopeValue(vec![ScopeInnerValue::Stmt(Stmt::LetStmt(LetExpr::Bind(
            ValueSymbol { name: ValueSymbolName("a".to_string()), kind: BindKeywords::Slice },
        )))])))
    );
}

#[test]
fn a_tree_whose_root_is_not_a_document_is_unsupported() {
    let tree = node(RuleTag::Comment, "// x", vec![]);
    assert_eq!(
        parse(&tree),
        Err(CrgError::UnsupportedConstruct("comment".to_string()))
    );
}

#[test]
fn an_expression_with_two_children_is_malformed() {
    let tree = document(vec![node(RuleTag::Expr, "", vec![add_term("1"), compose_op()])]);
    assert_eq!(parse(&tree), Err(CrgError::MalformedNode("expr".to_string())));
}

#[test]
fn an_integer_literal_beyond_the_machine_range_is_an_overflow() {
    let tree = document(vec![node(
        RuleTag::Expr,
        "",
        vec![add_term("9223372036854775808")],
    )]);
    assert_eq!(parse(&tree), Err(CrgError::IntegerOverflow));
}

#[test]
fn the_most_negative_machine_integer_still_parses() {
    let tree = document(vec![node(
        RuleTag::Expr,
        "",
        vec![add_term("-9223372036854775808")],
    )]);
    assert_eq!(
        parse(&tree),
        Ok(Node::Root(ScopeValue(vec![ScopeInnerValue::Expr(Expr::Id(Value::Effect(
            Effect::AddEffect(AddEffect(i64::MIN)),
        )))])))
    );
}

#[test]
fn an_integer_literal_with_a_stray_character_is_malformed() {
    let tree = document(vec![node(RuleTag::Expr, "", vec![add_term("12x")])]);
    assert_eq!(
        parse(&tree),
        Err(CrgError::MalformedNode("intLiteral".to_string()))
    );
}

#[test]
fn a_comment_is_kept_and_the_end_marker_is_skipped() {
    let tree = document(vec![
        node(RuleTag::Comment, "// note", vec![]),
        node(RuleTag::Eoi, "", vec![]),
    ]);
    let ast = parse(&tree).unwrap();
    assert_eq!(
        ast,
        Node::Root(ScopeValue(vec![ScopeInnerValue::Comment(
            causal_relation_graphs::ast::Comment("// note".to_string()),
        )]))
    );
}

#[test]
fn an_unknown_bind_keyword_is_unsupported() {
    let tree = document(vec![node(
        RuleTag::Stmt,
        "",
        vec![node(
            RuleTag::LetStmt,
            "",
            vec![node(
                RuleTag::BindExpr,
                "",
                vec![
                    node(RuleTag::VarSymbol, "a", vec![]),
                    node(RuleTag::BindKeyword, "Widget", vec![]),
                ],
            )],
        )],
    )]);
    assert_eq!(
        parse(&tree),
        Err(CrgError::UnsupportedConstruct("Widget".to_string()))
    );
}
