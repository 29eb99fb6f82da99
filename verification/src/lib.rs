//! A small domain language for describing state with effects applied to it:
//! numeric counters and finite-state labels grouped under named contexts,
//! combined through an effect algebra and replayed against named snapshots.
//!
//! The crate covers the translation of a generic concrete parse tree (produced
//! by an external grammar recognizer) into a typed abstract syntax tree, the
//! scoped evaluator that executes that tree, and a serializer that renders any
//! value to a stable textual form.

pub mod algebra;
pub mod ast;
pub mod error;
pub mod eval;
pub mod parser;
pub mod processor;
pub mod prose;
pub mod reduce;
pub mod serializer;
pub mod vm;

use vstd::prelude::*;

use crate::ast::Node;
use crate::ast::SpecScopeItem;
use crate::error::{CrgError, SpecCrgError};
use crate::eval::spec_eval_scope;
use crate::parser::{spec_build_node, ParseNode, SpecParseNode};
use crate::serializer::spec_json_value;
use crate::vm::Vm;

verus! {

/// What executing a document yields: its root scope runs against an empty
/// frame stack, and the resulting value is rendered in the compact
/// structured form.
pub open spec fn spec_execute(items: Seq<SpecScopeItem>) -> Result<Seq<char>, SpecCrgError> {
    match spec_eval_scope(items, Seq::empty()) {
        Ok(v) => Ok(spec_json_value(v)),
        Err(e) => Err(e),
    }
}

/// What running a whole parse tree yields: translation, then execution.
pub open spec fn spec_run(n: SpecParseNode) -> Result<Seq<char>, SpecCrgError> {
    match spec_build_node(n) {
        Ok(items) => spec_execute(items),
        Err(e) => Err(e),
    }
}

/// Translates a parse tree, handed over by the external grammar recognizer,
/// into a typed document.
pub fn parse(tree: &ParseNode) -> (r: Result<Node, CrgError>)
    ensures
        match r {
            Ok(ast) => spec_build_node(tree@) == Ok::<Seq<SpecScopeItem>, SpecCrgError>(ast@),
            Err(e) => spec_build_node(tree@) == Err::<Seq<SpecScopeItem>, SpecCrgError>(e@),
        },
{
    crate::parser::to_node(tree)
}

/// Executes a typed document: its root scope runs against a fresh machine,
/// and the resulting value is rendered in the compact structured form.
pub fn execute_ast(ast: &Node) -> (r: Result<String, CrgError>)
    ensures
        match r {
            Ok(s) => spec_execute(ast@) == Ok::<Seq<char>, SpecCrgError>(s@),
            Err(e) => spec_execute(ast@) == Err::<Seq<char>, SpecCrgError>(e@),
        },
{
    match ast {
        Node::Root(sc) => {
            let mut vm = Vm::new();
            match sc.eval(&mut vm) {
                Ok(v) => Ok(v.to_json()),
                Err(e) => Err(e),
            }
        },
    }
}

/// Translates and executes a whole parse tree.
pub fn run(tree: &ParseNode) -> (r: Result<String, CrgError>)
    ensures
        match r {
            Ok(s) => spec_run(tree@) == Ok::<Seq<char>, SpecCrgError>(s@),
            Err(e) => spec_run(tree@) == Err::<Seq<char>, SpecCrgError>(e@),
        },
{
    let ast = match parse(tree) {
        Ok(ast) => ast,
        Err(e) => {
            return Err(e);
        },
    };
    execute_ast(&ast)
}

} // verus!
